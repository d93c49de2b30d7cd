use vstd::prelude::*;
use vstd::utf8::encode_utf8;
use crate::pubkey::Pubkey;

verus! {

/// The largest title, in UTF-8 bytes.
pub const MAX_TITLE_LEN: usize = 64;

/// Bytes taken by a stored configuration record: the owner and the counter.
pub const CONFIG_SIZE: usize = 36;

/// Bytes taken by a stored vote receipt: the proposal id and the voter.
pub const VOTE_RECORD_SIZE: usize = 36;

/// Whether a title, as characters, fits the limit once encoded as UTF-8.
pub open spec fn title_fits(title: Seq<char>) -> bool {
    encode_utf8(title).len() <= MAX_TITLE_LEN
}

/// The singleton configuration: who may create proposals, and how many exist.
/// The counter is also the id that the next proposal gets.
#[derive(Clone, Copy, Debug)]
pub struct Config {
    pub owner: Pubkey,
    pub total_proposals: u32,
}

/// One proposal: its id, its tally and its title.
#[derive(Debug)]
pub struct Proposal {
    pub id: u32,
    pub votes: u32,
    pub title: String,
}

impl Proposal {
    /// Bytes taken by a stored proposal with the longest title: id, tally,
    /// the title's length prefix and the title itself.
    pub fn space_for_title() -> (r: usize)
        ensures
            r == 12 + MAX_TITLE_LEN,
    {
        4 + 4 + 4 + MAX_TITLE_LEN
    }

    /// A blank record, to be filled by proposal creation.
    pub fn empty() -> (r: Proposal)
        ensures
            r.id == 0,
            r.votes == 0,
            r.title@ == Seq::<char>::empty(),
    {
        Proposal { id: 0, votes: 0, title: String::new() }
    }

    /// A copy of this record.
    pub fn duplicate(&self) -> (r: Proposal)
        ensures
            r.id == self.id,
            r.votes == self.votes,
            r.title@ == self.title@,
    {
        Proposal { id: self.id, votes: self.votes, title: self.title.clone() }
    }
}

/// The receipt that a voter has voted on a proposal. Its existence is the
/// only evidence of the vote.
#[derive(Clone, Copy, Debug)]
pub struct VoteRecord {
    pub proposal_id: u32,
    pub voter: Pubkey,
}

/// Notification that a proposal was created.
#[derive(Debug)]
pub struct ProposalCreated {
    pub id: u32,
    pub title: String,
}

/// Notification that a vote was cast.
#[derive(Clone, Copy, Debug)]
pub struct VoteCast {
    pub proposal_id: u32,
    pub voter: Pubkey,
}

/// A notification for outside observers.
#[derive(Debug)]
pub enum Event {
    ProposalCreated(ProposalCreated),
    VoteCast(VoteCast),
}

/// A notification as values: a creation carries the id and the title, a vote
/// the proposal id and the voter.
pub enum EventView {
    ProposalCreated { id: u32, title: Seq<char> },
    VoteCast { proposal_id: u32, voter: Seq<u8> },
}

impl View for Event {
    type V = EventView;

    open spec fn view(&self) -> EventView {
        match self {
            Event::ProposalCreated(e) => EventView::ProposalCreated { id: e.id, title: e.title@ },
            Event::VoteCast(e) => EventView::VoteCast { proposal_id: e.proposal_id, voter: e.voter@ },
        }
    }
}

} // verus!
