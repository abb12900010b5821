//! Instruction-stream windowing for a real-mode x86 debugger front end.
//!
//! The crate turns a byte-addressable, segment:offset remote memory into a
//! scrollable, bidirectionally-extensible sequence of decoded instructions.
//! Remote memory and CPU control live behind a request/response channel, so
//! every operation that needs them is a small state machine: it hands out the
//! next request, the caller performs it, and feeds the answer back in.

pub mod bus;
pub mod tui;
pub mod x86;
