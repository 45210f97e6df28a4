use vstd::prelude::*;

pub mod assembler;
pub mod bytes;
pub mod laws;
pub mod literal;
pub mod decode;
pub mod mnemonic;
pub mod numeric;
pub mod roundtrip;
pub mod scratch;
pub mod stack;
pub mod ty;
pub mod vm;

verus! {

} // verus!
