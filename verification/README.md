# neonos

The decisions of a small RISC-V (QEMU `virt`) teaching kernel, written in
Verus and proved against their contracts.

- `src/` — the verified library:
  - `memory` — half-open ranges and the memory-map check;
  - `console` — the bytes the UART sends for a text;
  - `sbi` — judging SBI timer-extension results;
  - `timer` — quanta and deadlines;
  - `trap` — trap frame layout, `scause`/`sstatus` decoding, trap vector checks;
  - `syscall` — the `a7`/`a0` system call ABI;
  - `process` — programs, processes, state changes, process ids, the process model;
  - `user`, `user10` — entering user mode, the trusted trap boundary, user faults
    and exits;
  - `scheduler`, `batch` — the ready queue (FIFO and MLFQ) and the batch
    scheduler state machine (cooperative, one-shot timer, round robin, MLFQ),
    whose invariant keeps the ready-queue check passing after every step.
- `tests/` — tests of the library on concrete values.
- `app/` — the machine-facing shell: boot entry, UART, SBI calls, CSRs, the
  time counter and the assembly bridges, driving the library.
