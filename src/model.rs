//! The ledger as mathematics: what each instruction does to the whole state.
use vstd::prelude::*;
use crate::error::VotingError;
use crate::state::title_fits;

verus! {

/// A proposal as stored: its id is its index among the proposals.
pub struct ProposalView {
    pub title: Seq<char>,
    pub votes: u32,
}

/// The whole ledger. `owner` is `None` until initialization; the number of
/// proposals is the counter; a receipt is a pair of proposal id and voter.
pub struct LedgerView {
    pub owner: Option<Seq<u8>>,
    pub proposals: Seq<ProposalView>,
    pub receipts: Set<(u32, Seq<u8>)>,
}

/// The receipts held for one proposal.
pub open spec fn receipts_for(receipts: Set<(u32, Seq<u8>)>, proposal_id: u32) -> Set<
    (u32, Seq<u8>),
> {
    receipts.filter(|k: (u32, Seq<u8>)| k.0 == proposal_id)
}

impl LedgerView {
    /// The ledger before initialization.
    pub open spec fn empty() -> LedgerView {
        LedgerView { owner: None, proposals: Seq::empty(), receipts: Set::empty() }
    }

    /// The counter of proposals.
    pub open spec fn total(self) -> nat {
        self.proposals.len()
    }

    /// What every reachable state satisfies: nothing exists before
    /// initialization, the counter fits 32 bits, titles fit, every receipt
    /// names an existing proposal, and each tally is the number of receipts
    /// for its proposal.
    pub open spec fn wf(self) -> bool {
        &&& self.owner is None ==> self.proposals.len() == 0 && self.receipts.is_empty()
        &&& self.proposals.len() <= u32::MAX
        &&& self.receipts.finite()
        &&& forall|i: int| 0 <= i < self.proposals.len() ==> title_fits(#[trigger] self.proposals[i].title)
        &&& forall|k: (u32, Seq<u8>)| #[trigger] self.receipts.contains(k) ==> k.0 < self.proposals.len()
        &&& forall|i: int|
            0 <= i < self.proposals.len() ==> #[trigger] self.proposals[i].votes == receipts_for(
                self.receipts,
                i as u32,
            ).len()
    }
}

/// Initialization by `caller`.
pub open spec fn initialize_step(s: LedgerView, caller: Seq<u8>) -> (LedgerView, Result<(), VotingError>) {
    if s.owner is Some {
        (s, Err(VotingError::AlreadyInitialized))
    } else {
        (LedgerView { owner: Some(caller), ..s }, Ok(()))
    }
}

/// Creation of a proposal titled `title` by `caller`; on success the result
/// is the new proposal's id.
pub open spec fn create_step(s: LedgerView, caller: Seq<u8>, title: Seq<char>) -> (
    LedgerView,
    Result<u32, VotingError>,
) {
    if s.owner is None {
        (s, Err(VotingError::NotFound))
    } else if !title_fits(title) {
        (s, Err(VotingError::TitleTooLong))
    } else if s.owner != Some(caller) {
        (s, Err(VotingError::NotOwner))
    } else if s.proposals.len() >= u32::MAX {
        (s, Err(VotingError::MathOverflow))
    } else {
        (
            LedgerView { proposals: s.proposals.push(ProposalView { title, votes: 0 }), ..s },
            Ok(s.proposals.len() as u32),
        )
    }
}

/// A vote by `voter` on proposal `proposal_id`.
pub open spec fn vote_step(s: LedgerView, voter: Seq<u8>, proposal_id: u32) -> (
    LedgerView,
    Result<(), VotingError>,
) {
    if proposal_id >= s.proposals.len() {
        (s, Err(VotingError::NotFound))
    } else if s.receipts.contains((proposal_id, voter)) {
        (s, Err(VotingError::AlreadyVoted))
    } else if s.proposals[proposal_id as int].votes == u32::MAX {
        (s, Err(VotingError::MathOverflow))
    } else {
        let p = s.proposals[proposal_id as int];
        (
            LedgerView {
                proposals: s.proposals.update(
                    proposal_id as int,
                    ProposalView { title: p.title, votes: (p.votes + 1) as u32 },
                ),
                receipts: s.receipts.insert((proposal_id, voter)),
                ..s
            },
            Ok(()),
        )
    }
}

/// The title and tally of proposal `proposal_id`.
pub open spec fn get_proposal_result(s: LedgerView, proposal_id: u32) -> Result<(Seq<char>, u32), VotingError> {
    if proposal_id < s.proposals.len() {
        Ok((s.proposals[proposal_id as int].title, s.proposals[proposal_id as int].votes))
    } else {
        Err(VotingError::NotFound)
    }
}

/// The counter of proposals, once initialized.
pub open spec fn total_proposals_result(s: LedgerView) -> Result<u32, VotingError> {
    if s.owner is Some {
        Ok(s.proposals.len() as u32)
    } else {
        Err(VotingError::NotFound)
    }
}

/// Initialization keeps the ledger well formed.
pub proof fn lemma_initialize_wf(s: LedgerView, caller: Seq<u8>)
    requires
        s.wf(),
    ensures
        initialize_step(s, caller).0.wf(),
{
}

/// Proposal creation keeps the ledger well formed.
pub proof fn lemma_create_wf(s: LedgerView, caller: Seq<u8>, title: Seq<char>)
    requires
        s.wf(),
    ensures
        create_step(s, caller, title).0.wf(),
{
    let t = create_step(s, caller, title).0;
    if create_step(s, caller, title).1 is Ok {
        let n = s.proposals.len();
        assert(receipts_for(s.receipts, n as u32) =~= Set::empty());
        assert forall|i: int| 0 <= i < t.proposals.len() implies #[trigger] t.proposals[i].votes
            == receipts_for(t.receipts, i as u32).len() by {
            if i < n {
                assert(t.proposals[i] == s.proposals[i]);
            }
        }
        assert forall|i: int| 0 <= i < t.proposals.len() implies title_fits(
            #[trigger] t.proposals[i].title,
        ) by {
            if i < n {
                assert(t.proposals[i] == s.proposals[i]);
            }
        }
    }
}

/// A vote keeps the ledger well formed.
pub proof fn lemma_vote_wf(s: LedgerView, voter: Seq<u8>, proposal_id: u32)
    requires
        s.wf(),
    ensures
        vote_step(s, voter, proposal_id).0.wf(),
{
    let t = vote_step(s, voter, proposal_id).0;
    if vote_step(s, voter, proposal_id).1 is Ok {
        let k = (proposal_id, voter);
        assert forall|i: int| 0 <= i < t.proposals.len() implies #[trigger] t.proposals[i].votes
            == receipts_for(t.receipts, i as u32).len() by {
            s.receipts.lemma_len_filter(|k: (u32, Seq<u8>)| k.0 == i as u32);
            if i == proposal_id as int {
                assert(receipts_for(t.receipts, i as u32) =~= receipts_for(
                    s.receipts,
                    i as u32,
                ).insert(k));
            } else {
                assert(receipts_for(t.receipts, i as u32) =~= receipts_for(s.receipts, i as u32));
                assert(t.proposals[i] == s.proposals[i]);
            }
        }
        assert forall|i: int| 0 <= i < t.proposals.len() implies title_fits(
            #[trigger] t.proposals[i].title,
        ) by {
            assert(t.proposals[i].title == s.proposals[i].title);
        }
    }
}

} // verus!
