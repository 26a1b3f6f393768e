//! Gas metering for a virtual machine: the instructions that are charged by
//! their kind alone, the interface of a meter, and a meter that never runs
//! out.
use vstd::prelude::*;

verus! {

/// An amount of gas, in the meter's internal unit.
pub type InternalGas = u64;

/// A number of bytes.
pub type NumBytes = u64;

/// Instructions that need no further information to be charged.
#[derive(Debug, Clone, Copy, PartialEq, Eq, Hash, Structural)]
pub enum SimpleInstruction {
    Nop,
    Ret,
    BrTrue,
    BrFalse,
    Branch,
    LdU8,
    LdU64,
    LdU128,
    LdTrue,
    LdFalse,
    FreezeRef,
    MutBorrowLoc,
    ImmBorrowLoc,
    ImmBorrowField,
    MutBorrowField,
    ImmBorrowFieldGeneric,
    MutBorrowFieldGeneric,
    CastU8,
    CastU64,
    CastU128,
    Add,
    Sub,
    Mul,
    Mod,
    Div,
    BitOr,
    BitAnd,
    Xor,
    Shl,
    Shr,
    Or,
    And,
    Not,
    Lt,
    Gt,
    Le,
    Ge,
    Abort,
    LdU16,
    LdU32,
    LdU256,
    CastU16,
    CastU32,
    CastU256,
}

/// Why a charge was refused.
#[derive(Debug, Clone, Copy, PartialEq, Eq, Structural)]
pub enum GasError {
    /// Not enough gas is left to pay for the operation.
    OutOfGas,
}

/// A gas meter. Users of the virtual machine implement their own metering
/// scheme; each charge either succeeds or fails for want of gas.
pub trait GasMeter {
    /// Charges an instruction; fails if not enough gas is left.
    fn charge_simple_instr(&mut self, instr: SimpleInstruction) -> (result: Result<(), GasError>);

    /// Charges the loading of a constant of `size` bytes.
    fn charge_ld_const(&mut self, size: NumBytes) -> (result: Result<(), GasError>);

    /// The gas that is left.
    fn remaining_gas(&self) -> (left: InternalGas);
}

/// A meter that does not meter anything: every charge succeeds, and all the
/// gas there can be is always left.
#[derive(Debug, Clone, Copy, PartialEq, Eq, Structural)]
pub struct UnmeteredGasMeter;

impl GasMeter for UnmeteredGasMeter {
    fn charge_simple_instr(&mut self, instr: SimpleInstruction) -> (result: Result<(), GasError>)
        ensures
            result == Ok::<(), GasError>(()),
            *final(self) == *old(self),
    {
        Ok(())
    }

    fn charge_ld_const(&mut self, size: NumBytes) -> (result: Result<(), GasError>)
        ensures
            result == Ok::<(), GasError>(()),
            *final(self) == *old(self),
    {
        Ok(())
    }

    fn remaining_gas(&self) -> (left: InternalGas)
        ensures
            left == u64::MAX,
    {
        u64::MAX
    }
}

} // verus!
