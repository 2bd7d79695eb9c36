//! Verified core of a small AArch64 teaching kernel and its user shell:
//! cache geometry and cache maintenance walks, TLB invalidation operands,
//! address-translation result decoding, mini-UART register programming,
//! and the shell's command-line lexer and parser.

pub mod arith;
pub mod cache;
pub mod help;
pub mod process;
pub mod tlb;
pub mod shell;
pub mod translate;
pub mod uart;
