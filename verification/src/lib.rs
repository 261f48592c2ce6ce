//! The decisions of a small RISC-V teaching kernel, verified: the memory map
//! check, the console byte stream, the SBI result checks, trap decoding, the
//! program/process model, the system call ABI, user-mode setup and trap
//! handling, and the ready queue and batch scheduler (cooperative, one-shot
//! timer, round robin and MLFQ).
pub mod batch;
pub mod console;
pub mod memory;
pub mod process;
pub mod sbi;
pub mod scheduler;
pub mod syscall;
pub mod timer;
pub mod trap;
pub mod user;
pub mod user10;
