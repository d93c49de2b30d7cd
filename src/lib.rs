//! An append-only voting ledger: an owner creates proposals, each voter casts
//! at most one vote per proposal, and anyone reads titles and tallies.
//!
//! `instructions` holds each operation on the records it touches; `ledger`
//! keeps the records by key and runs each operation as one atomic step;
//! `model` states what a step does to the whole ledger, and `laws` what holds
//! over every sequence of steps.

pub mod error;
pub mod instructions;
pub mod laws;
pub mod ledger;
pub mod model;
pub mod pubkey;
pub mod receipts;
pub mod state;

pub use error::VotingError;
pub use instructions::{
    create_proposal, get_proposal, initialize, total_proposals, vote, CreateProposal, GetProposal,
    Initialize, TotalProposals, Vote,
};
pub use ledger::Ledger;
pub use pubkey::{Pubkey, KEY_LEN};
pub use receipts::ReceiptSet;
pub use state::{
    Config, Event, Proposal, ProposalCreated, VoteCast, VoteRecord, CONFIG_SIZE, MAX_TITLE_LEN,
    VOTE_RECORD_SIZE,
};
