use vstd::prelude::*;

verus! {

/// Why an instruction was rejected. Every rejection leaves the ledger as it was.
#[derive(Clone, Copy, Debug, PartialEq, Eq, Structural)]
pub enum VotingError {
    /// Only the owner can create proposals.
    NotOwner,
    /// The proposal title is longer than the limit in bytes.
    TitleTooLong,
    /// A counter would pass its largest value.
    MathOverflow,
    /// The proposal record does not carry the id it was looked up by.
    InvalidProposalAccount,
    /// This voter has already voted on this proposal.
    AlreadyVoted,
    /// The configuration record exists already.
    AlreadyInitialized,
    /// No record exists under the given key.
    NotFound,
}

impl VotingError {
    /// A human-readable message for the error.
    pub fn message(&self) -> (r: String) {
        match self {
            VotingError::NotOwner => "Only the owner can create proposals.".to_string(),
            VotingError::TitleTooLong => "Proposal title is too long.".to_string(),
            VotingError::MathOverflow => "Math overflow.".to_string(),
            VotingError::InvalidProposalAccount => "Invalid proposal account for given proposal_id.".to_string(),
            VotingError::AlreadyVoted => "This voter has already voted on this proposal.".to_string(),
            VotingError::AlreadyInitialized => "The ledger is already initialized.".to_string(),
            VotingError::NotFound => "No record exists for the given key.".to_string(),
        }
    }
}

} // verus!
