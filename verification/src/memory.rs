//! Half-open address ranges and the check of the kernel's memory map.

use vstd::prelude::*;

verus! {

/// Size in bytes that the boot stack must have.
pub const BOOT_STACK_BYTES: usize = 65_536;

/// A half-open address range `[start, end)`.
#[derive(Clone, Copy, PartialEq, Eq, Structural, Debug)]
pub struct Region {
    pub start: usize,
    pub end: usize,
}

/// Whether `address` lies in `[start, end)`.
pub open spec fn in_region(r: Region, address: int) -> bool {
    r.start <= address < r.end
}

impl Region {
    /// The range `[start, end)`.
    pub fn new(start: usize, end: usize) -> (r: Region)
        ensures
            r == (Region { start, end }),
    {
        Region { start, end }
    }

    /// Number of bytes in the range; an inverted range has none.
    pub fn size(self) -> (n: usize)
        ensures
            n == if self.start <= self.end {
                (self.end - self.start) as usize
            } else {
                0
            },
    {
        self.end.saturating_sub(self.start)
    }

    /// Whether the range is not inverted.
    pub fn is_well_formed(self) -> (b: bool)
        ensures
            b == (self.start <= self.end),
    {
        self.start <= self.end
    }

    /// Whether `address` lies in the range.
    pub fn contains(self, address: usize) -> (b: bool)
        ensures
            b == in_region(self, address as int),
    {
        self.start <= address && address < self.end
    }

    /// Whether the two ranges overlap (see `overlaps`).
    pub fn overlaps(self, other: Region) -> (b: bool)
        ensures
            b == (self.start < other.end && other.start < self.end),
    {
        overlaps(self, other)
    }
}

/// Whether each range starts before the other ends.
pub fn overlaps(left: Region, right: Region) -> (b: bool)
    ensures
        b == (left.start < right.end && right.start < left.end),
{
    left.start < right.end && right.start < left.end
}

/// Overlap does not depend on the order of the two ranges.
pub proof fn lemma_overlaps_symmetric(left: Region, right: Region)
    ensures
        (left.start < right.end && right.start < left.end) == (right.start < left.end
            && left.start < right.end),
{
}

/// Two non-empty ranges overlap exactly when some address lies in both.
pub proof fn lemma_overlaps_iff_common_address(left: Region, right: Region)
    requires
        left.start < left.end,
        right.start < right.end,
    ensures
        (left.start < right.end && right.start < left.end) <==> exists|a: int|
            in_region(left, a) && in_region(right, a),
{
    if left.start < right.end && right.start < left.end {
        let a = if left.start <= right.start {
            right.start as int
        } else {
            left.start as int
        };
        assert(in_region(left, a) && in_region(right, a));
    }
}

/// A map is accepted only if its regions are well formed, in link order
/// (each ends no later than the next starts) and therefore pairwise apart;
/// a well-formed map with a region that runs into the next one is refused as
/// out of order.
pub proof fn lemma_accepted_layout_is_ordered(
    l: Layout,
    entry: usize,
    sp: usize,
    probe: u64,
    expect_zeroed_bss: bool,
)
    ensures
        layout_error(l, entry, sp, probe, expect_zeroed_bss) is None ==> {
            &&& l.text.start <= l.text.end && l.rodata.start <= l.rodata.end
            &&& l.data.start <= l.data.end && l.boot_stack.start <= l.boot_stack.end
            &&& l.bss.start <= l.bss.end
            &&& l.text.end <= l.rodata.start
            &&& l.rodata.end <= l.data.start
            &&& l.data.end <= l.boot_stack.start
            &&& l.boot_stack.end <= l.bss.start
            &&& !(l.data.start < l.boot_stack.end && l.boot_stack.start < l.data.end)
            &&& !(l.text.start < l.data.end && l.data.start < l.text.end)
            &&& !(l.rodata.start < l.boot_stack.end && l.boot_stack.start < l.rodata.end)
            &&& entry >= l.text.start && entry < l.text.end
            &&& l.boot_stack.start <= sp <= l.boot_stack.end
            &&& l.boot_stack.end - l.boot_stack.start == 65_536
        },
        (l.text.start <= l.text.end && l.rodata.start <= l.rodata.end && l.data.start
            <= l.data.end && l.boot_stack.start <= l.boot_stack.end && l.bss.start <= l.bss.end
            && (l.text.end > l.rodata.start || l.rodata.end > l.data.start || l.data.end
            > l.boot_stack.start || l.boot_stack.end > l.bss.start)) ==> layout_error(
            l,
            entry,
            sp,
            probe,
            expect_zeroed_bss,
        ) == Some(LayoutError::OutOfOrder),
{
}

/// The kernel image's regions, in link order.
#[derive(Clone, Copy, PartialEq, Eq, Structural, Debug)]
pub struct Layout {
    pub text: Region,
    pub rodata: Region,
    pub data: Region,
    pub boot_stack: Region,
    pub bss: Region,
}

/// A broken memory map, in the order in which it is checked.
#[derive(Clone, Copy, PartialEq, Eq, Structural, Debug)]
pub enum LayoutError {
    /// Some region ends before it starts.
    InvertedRange,
    /// The regions overlap or are not in the order text, rodata, data, boot
    /// stack, bss.
    OutOfOrder,
    /// The boot stack does not have the expected size (the actual size).
    BootStackSize(usize),
    /// The boot stack overlaps the ordinary bss.
    BootStackOverlapsBss,
    /// The entry point is outside the text region.
    EntryOutsideText,
    /// The stack pointer is outside the boot stack (its top included).
    SpOutsideBootStack,
    /// The bss probe was not zeroed before Rust ran (its value).
    BssNotZeroed(u64),
}

/// Whether no region of the layout is inverted.
pub open spec fn all_well_formed(l: Layout) -> bool {
    &&& l.text.start <= l.text.end
    &&& l.rodata.start <= l.rodata.end
    &&& l.data.start <= l.data.end
    &&& l.boot_stack.start <= l.boot_stack.end
    &&& l.bss.start <= l.bss.end
}

/// Whether each region ends no later than the next one starts (gaps from
/// alignment are allowed).
pub open spec fn in_link_order(l: Layout) -> bool {
    &&& l.text.end <= l.rodata.start
    &&& l.rodata.end <= l.data.start
    &&& l.data.end <= l.boot_stack.start
    &&& l.boot_stack.end <= l.bss.start
}

/// What is wrong with the memory map, if anything, checked in the order of
/// `LayoutError`. The bss probe is only checked when `expect_zeroed_bss`.
pub open spec fn layout_error(
    l: Layout,
    entry: usize,
    sp: usize,
    probe: u64,
    expect_zeroed_bss: bool,
) -> Option<LayoutError> {
    let stack_size = if l.boot_stack.start <= l.boot_stack.end {
        (l.boot_stack.end - l.boot_stack.start) as usize
    } else {
        0usize
    };
    if !all_well_formed(l) {
        Some(LayoutError::InvertedRange)
    } else if !in_link_order(l) {
        Some(LayoutError::OutOfOrder)
    } else if stack_size != BOOT_STACK_BYTES {
        Some(LayoutError::BootStackSize(stack_size))
    } else if l.boot_stack.start < l.bss.end && l.bss.start < l.boot_stack.end {
        Some(LayoutError::BootStackOverlapsBss)
    } else if !in_region(l.text, entry as int) {
        Some(LayoutError::EntryOutsideText)
    } else if sp < l.boot_stack.start || sp > l.boot_stack.end {
        Some(LayoutError::SpOutsideBootStack)
    } else if expect_zeroed_bss && probe != 0 {
        Some(LayoutError::BssNotZeroed(probe))
    } else {
        None
    }
}

/// Checks the observed memory map: regions not inverted and in link order,
/// a boot stack of the expected size apart from the bss, the entry inside
/// the text, the stack pointer inside the boot stack, and (when expected) a
/// zeroed bss probe.
pub fn validate_layout(
    layout: Layout,
    entry: usize,
    sp: usize,
    probe: u64,
    expect_zeroed_bss: bool,
) -> (r: Result<(), LayoutError>)
    ensures
        r == match layout_error(layout, entry, sp, probe, expect_zeroed_bss) {
            Some(e) => Err(e),
            None => Ok(()),
        },
        r is Ok ==> layout.text.end <= layout.rodata.start && layout.rodata.end
            <= layout.data.start && layout.data.end <= layout.boot_stack.start
            && layout.boot_stack.end <= layout.bss.start,
{
    if !layout.text.is_well_formed() || !layout.rodata.is_well_formed()
        || !layout.data.is_well_formed() || !layout.boot_stack.is_well_formed()
        || !layout.bss.is_well_formed() {
        return Err(LayoutError::InvertedRange);
    }
    if layout.text.end > layout.rodata.start || layout.rodata.end > layout.data.start
        || layout.data.end > layout.boot_stack.start || layout.boot_stack.end
        > layout.bss.start {
        return Err(LayoutError::OutOfOrder);
    }
    let stack_size = layout.boot_stack.size();
    if stack_size != BOOT_STACK_BYTES {
        return Err(LayoutError::BootStackSize(stack_size));
    }
    if overlaps(layout.boot_stack, layout.bss) {
        return Err(LayoutError::BootStackOverlapsBss);
    }
    if !layout.text.contains(entry) {
        return Err(LayoutError::EntryOutsideText);
    }
    if sp < layout.boot_stack.start || sp > layout.boot_stack.end {
        return Err(LayoutError::SpOutsideBootStack);
    }
    if expect_zeroed_bss && probe != 0 {
        return Err(LayoutError::BssNotZeroed(probe));
    }
    Ok(())
}

/// Regions in link order never overlap: a map that passes the order check
/// passes the boot stack / bss overlap check, and no two of its regions
/// overlap.
pub proof fn lemma_ordered_regions_disjoint(l: Layout)
    requires
        all_well_formed(l),
        in_link_order(l),
    ensures
        !(l.boot_stack.start < l.bss.end && l.bss.start < l.boot_stack.end),
        !(l.text.start < l.rodata.end && l.rodata.start < l.text.end),
        !(l.rodata.start < l.data.end && l.data.start < l.rodata.end),
        !(l.data.start < l.boot_stack.end && l.boot_stack.start < l.data.end),
        !(l.text.start < l.bss.end && l.bss.start < l.text.end),
{
}

} // verus!
