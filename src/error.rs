use vstd::prelude::*;

verus! {

/// Every way an invocation can fail. Each failure leaves all accounts as
/// they were.
#[derive(Debug, Clone, Copy, PartialEq, Eq, Structural)]
pub enum ReviewError {
    /// The instruction bytes are not a well-formed instruction.
    InvalidInstructionData,
    /// Fewer accounts were supplied than the operation reads.
    NotEnoughAccountKeys,
    /// The authorizer did not sign the invocation.
    MissingRequiredSignature,
    /// The target address is not the one derived from the authorizer and label.
    InvalidPda,
    /// The rating lies outside 1 to 5.
    InvalidRating,
    /// The target already holds an initialized record.
    AccountAlreadyInitialized,
    /// The target holds no initialized record.
    UninitializedAccount,
    /// The target is not owned by this program.
    IllegalOwner,
    /// No bump seed gives a valid program-derived address.
    AddressDerivationFailed,
    /// The encoded record does not fit in the target's storage.
    RecordTooLarge,
}

} // verus!
