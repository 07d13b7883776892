//! A verified emulator for a minimal 16-bit word machine: a 4096-word
//! memory with 12-bit address wraparound, a single accumulator, a value
//! stack, a 4-bit-opcode instruction set, two memory-mapped output ports
//! and a software fault protocol.  Every operation's contract pins the
//! machine's next model state exactly; the stated laws of the machine
//! are proved in `laws`.

pub mod decode;
pub mod laws;
pub mod machine;
pub mod output;
pub mod word;

pub use decode::Instruction;
pub use machine::CoreState;
pub use machine::Memory;
pub use machine::Sma16;
pub use output::small_to_chars;
pub use word::data_of;
pub use word::op_of;
