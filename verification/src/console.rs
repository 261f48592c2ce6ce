//! The console byte stream: what the UART must send for a piece of text.

use vstd::prelude::*;
use vstd::string::StringSliceAdditionalSpecFns;

verus! {

/// The bytes that the UART must send for `text`: its UTF-8 encoding, in
/// order.
pub fn write_text(text: &str) -> (bytes: Vec<u8>)
    ensures
        bytes@ == text.spec_bytes(),
{
    let src = text.as_bytes();
    let mut bytes: Vec<u8> = Vec::new();
    let mut i: usize = 0;
    while i < src.len()
        invariant
            src@ == text.spec_bytes(),
            i <= src@.len(),
            bytes@ == src@.subrange(0, i as int),
        decreases src@.len() - i,
    {
        bytes.push(src[i]);
        i += 1;
        assert(bytes@ =~= src@.subrange(0, i as int));
    }
    assert(bytes@ =~= src@);
    bytes
}

/// The kernel console: anything that formats text can write through it.
pub struct Console;

impl Console {
    /// The bytes to send for one piece of formatted text (see `write_text`).
    pub fn write_str(&mut self, text: &str) -> (bytes: Vec<u8>)
        ensures
            bytes@ == text.spec_bytes(),
    {
        write_text(text)
    }
}

} // verus!
