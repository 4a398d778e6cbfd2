//! Exit codes and the native-method selector of the EVM actor.

use vstd::prelude::*;

verus! {

/// The contract reverted.
pub const EVM_CONTRACT_REVERTED: u32 = 33;
/// The contract executed an invalid instruction.
pub const EVM_CONTRACT_INVALID_INSTRUCTION: u32 = 34;
/// The contract executed an undefined instruction.
pub const EVM_CONTRACT_UNDEFINED_INSTRUCTION: u32 = 35;
/// The contract popped from an empty stack.
pub const EVM_CONTRACT_STACK_UNDERFLOW: u32 = 36;
/// The contract pushed onto a full stack.
pub const EVM_CONTRACT_STACK_OVERFLOW: u32 = 37;
/// The contract jumped to a location that is not a jump destination.
pub const EVM_CONTRACT_BAD_JUMPDEST: u32 = 39;
/// The contract's self-destruct failed.
pub const EVM_CONTRACT_SELFDESTRUCT_FAILED: u32 = 40;

/// The Solidity signature of the method through which a contract receives a native
/// Filecoin method call.
pub const NATIVE_METHOD_SIGNATURE: &'static str = "handle_filecoin_method(uint64,uint64,bytes)";

/// The selector of that method: the first four bytes of the Keccak-256 hash of its
/// signature.
pub const NATIVE_METHOD_SELECTOR: [u8; 4] = [0x86, 0x8e, 0x10, 0xc4];

} // verus!
