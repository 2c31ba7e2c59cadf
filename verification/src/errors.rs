use vstd::prelude::*;

verus! {

/// Every way a frame step can stop. `Halt` marks the successful STOP/RETURN
/// exit; all other kinds terminate the frame with a revert.
#[derive(Clone, Copy, PartialEq, Eq, Structural, Debug)]
pub enum ExecutionError {
    Halt,
    StackUnderflow,
    InsufficientCodeItems,
    StackOverflow,
    NotValidJumpDestination,
    InvalidOpcode,
    IntegerOverflow,
    Revert,
    ReadOnly,
    ContractAddressCollision,
}

} // verus!
