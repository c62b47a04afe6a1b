# picoos

The logic of PicoOS, a small RISC-V 64 kernel for QEMU `virt`, as a library
whose behaviour is stated in Verus contracts and proved.

- `src/` is the verified library. Kernel state is explicit: the page
  allocator, the task table, the CPU record, the PMP registers and the kernel
  bundle (`kernel::state::Kernel`) are values that functions take and update.
  Everything the kernel would write to the UART is returned as bytes, and the
  hardware work a decision calls for (an `mret`, a copy to or from user
  memory, arming the timer) is returned as an action.
  - `drivers::uart`: the console encoding of strings, lines and numbers.
  - `kernel::memory`, `kernel::heap`: the per-hart page bitmap and the bump heap.
  - `kernel::task`: the task table, the scheduler, faults, the boot images
    and the sleep self-test.
  - `kernel::sys`, `kernel::ipc`: system calls and rendezvous messages.
  - `arch::riscv64`: trap dispatch, the timer arithmetic, `mstatus` and PMP.
- `tests/` runs the library on concrete boots and scenarios.
- `app/` is a host model of the board (RAM, UART, CLINT timer, CSRs and the
  U-mode workers) that drives the library through a boot, performing the
  actions it returns.
