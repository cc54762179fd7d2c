use vstd::prelude::*;

pub mod encode;
pub mod cli;
pub mod decoder;
pub mod error;
pub mod hex;
pub mod number;
pub mod readback;
pub mod opcodes;
pub mod operands;
pub mod roundtrip;
pub mod text;

pub use decoder::{decode_one, Decoder, Instruction};
pub use encode::{encode_instruction, opcode_for_mnemonic, EncodeResolve, IndexResolve};
pub use error::DexError;

verus! {

} // verus!
