# AtOS verified core

The decision-making parts of a small AArch64 teaching kernel (Raspberry Pi 3,
Cortex-A53) and of its user shell, written in Verus and proved against their
contracts.

## Layout

- `src/` — the verified library
  - `arith.rs`: powers of two, bit length, `ceil(log2)` and their bounds.
  - `cache.rs`: cache geometry decoded from CCSIDR_EL1 values, and the
    maintenance plans for instruction and data caches — walks over an
    address range one line at a time, or over every way and set of both
    data cache levels.
  - `tlb.rs`: which `TLBI` instruction an invalidation request uses and the
    register operand it takes (page number, TTL hint, ASID).
  - `translate.rs`: which `AT` instruction translates an access, and the
    decoding of PAR_EL1 into a physical address or a fault status.
  - `uart.rs`: mini UART register addresses, the initialisation sequence and
    the status bits the driver polls.
  - `shell.rs`: the command-line lexer and parser: words, quoted words, `|`,
    `;` and `&`, and the runs a line asks for.
  - `process.rs`: what the shell does with a command's words (nothing, the
    `exit` builtin, or a program to run) and what it and `spawn` do once
    `fork` has returned.
  - `help.rs`: what the `help` program shows for its arguments.
- `tests/` — tests of the library on concrete values.
- `app/` — the hardware and system-call side: inline assembly for system
  registers and maintenance instructions, memory-mapped UART access with its
  locks, the shell loop, and the user test programs.  The assembly is built
  for AArch64 only.
