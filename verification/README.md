# riscvrust

The hardware-independent core of a small RV64 supervisor kernel that boots as
an OpenSBI payload on QEMU's `virt` machine, written in Verus.

- `src/` is the verified library:
  - `sbi`: SBI extension IDs, standard errors, and the decoding of the raw
    `(a0, a1)` pair that each SBI call returns.
  - `boot`: the boot hart ID and device-tree address, preserved once.
  - `console`: the bytes the early console receives (a carriage return before
    each line feed) and the state machine that writes a string one SBI call at
    a time, stopping at the first failure.
  - `memory`: half-open kernel image regions and the kernel layout.
  - `structure`: the layout of a flattened device tree that the `fdt` crate
    can walk without failing, and a check of it.
  - `device_tree` and `platform`: discovery of RAM, harts, UART, PLIC and CLINT
    from the firmware's flattened device tree, read through the `fdt` crate.
- `app/` is the kernel around it: the entry point, the `ecall`, `wfi`, linker
  symbols, the shared boot record and console printing.
- `tests/` runs the library on the host.
