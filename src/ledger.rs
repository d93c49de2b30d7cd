//! The ledger: the records, kept by key, and each instruction run on them as
//! one step that either commits whole or leaves every record as it was.
use vstd::prelude::*;
use crate::error::VotingError;
use crate::instructions::{
    create_proposal, get_proposal, initialize, total_proposals, vote, CreateProposal, GetProposal,
    Initialize, TotalProposals, Vote,
};
use crate::model::{
    create_step, get_proposal_result, initialize_step, lemma_create_wf, lemma_initialize_wf,
    lemma_vote_wf, total_proposals_result, vote_step, LedgerView, ProposalView,
};
use crate::pubkey::Pubkey;
use crate::receipts::ReceiptSet;
use crate::state::{Config, Event, EventView, Proposal, ProposalCreated, VoteCast, VoteRecord};

verus! {

/// What a stored proposal record shows.
pub open spec fn proposal_view(p: Proposal) -> ProposalView {
    ProposalView { title: p.title@, votes: p.votes }
}

/// All records of the voting system. The configuration is kept under its
/// fixed key, a proposal under its id, and a receipt under its pair of
/// proposal id and voter.
pub struct Ledger {
    config: Option<Config>,
    proposals: Vec<Proposal>,
    receipts: ReceiptSet,
    events: Vec<Event>,
}

impl View for Ledger {
    type V = LedgerView;

    closed spec fn view(&self) -> LedgerView {
        LedgerView {
            owner: match self.config {
                Some(c) => Some(c.owner@),
                None => None,
            },
            proposals: self.proposals@.map_values(|p: Proposal| proposal_view(p)),
            receipts: self.receipts@,
        }
    }
}

impl Ledger {
    /// The notifications emitted so far, oldest first.
    pub closed spec fn log(&self) -> Seq<EventView> {
        self.events@.map_values(|e: Event| e@)
    }

    /// The notifications emitted so far, oldest first.
    pub fn events(&self) -> (r: &Vec<Event>)
        ensures
            r@.map_values(|e: Event| e@) == self.log(),
    {
        &self.events
    }

    /// The stored records agree with the model: the counter is the number of
    /// proposals, each proposal record carries its own id, and the model is
    /// well formed.
    pub closed spec fn inv(&self) -> bool {
        &&& match self.config {
            Some(c) => c.total_proposals == self.proposals@.len(),
            None => true,
        }
        &&& forall|i: int|
            0 <= i < self.proposals@.len() ==> #[trigger] self.proposals@[i].id == i
        &&& self.receipts.inv()
        &&& self@.wf()
    }

    /// An empty ledger, not yet initialized.
    pub fn new() -> (r: Ledger)
        ensures
            r.inv(),
            r@ == LedgerView::empty(),
            r.log() == Seq::<EventView>::empty(),
    {
        let r = Ledger {
            config: None,
            proposals: Vec::new(),
            receipts: ReceiptSet::new(),
            events: Vec::new(),
        };
        assert(r@.proposals =~= Seq::<ProposalView>::empty());
        assert(r.log() =~= Seq::<EventView>::empty());
        r
    }

    /// Whether `voter` holds a receipt for proposal `proposal_id`.
    pub fn has_voted(&self, voter: &Pubkey, proposal_id: u32) -> (r: bool)
        requires
            self.inv(),
        ensures
            r == self@.receipts.contains((proposal_id, voter@)),
    {
        self.receipts.contains(proposal_id, voter)
    }

    /// Creates the configuration with `caller` as owner and no proposals.
    /// Fails with `AlreadyInitialized` when it exists.
    pub fn initialize(&mut self, caller: &Pubkey) -> (r: Result<(), VotingError>)
        requires
            old(self).inv(),
        ensures
            final(self).inv(),
            (final(self)@, r) == initialize_step(old(self)@, caller@),
            final(self).log() == old(self).log(),
    {
        proof {
            lemma_initialize_wf(self@, caller@);
        }
        if let Some(_) = self.config {
            return Err(VotingError::AlreadyInitialized);
        }
        let mut ctx = Initialize {
            config: Config { owner: *caller, total_proposals: 0 },
            owner: *caller,
        };
        match initialize(&mut ctx) {
            Ok(()) => {
                self.config = Some(ctx.config);
                assert(self@ == initialize_step(old(self)@, caller@).0);
                Ok(())
            },
            Err(e) => Err(e),
        }
    }

    /// Creates a proposal titled `title`, on behalf of `caller`, under the
    /// next id, and returns that id.
    pub fn create_proposal(&mut self, caller: &Pubkey, title: String) -> (r: Result<u32, VotingError>)
        requires
            old(self).inv(),
        ensures
            final(self).inv(),
            (final(self)@, r) == create_step(old(self)@, caller@, title@),
            final(self).log() == match r {
                Ok(id) => old(self).log().push(EventView::ProposalCreated { id, title: title@ }),
                Err(_) => old(self).log(),
            },
    {
        proof {
            lemma_create_wf(self@, caller@, title@);
        }
        let config = match self.config {
            Some(c) => c,
            None => {
                return Err(VotingError::NotFound);
            },
        };
        let ghost title_view = title@;
        let mut ctx = CreateProposal { config, owner: *caller, proposal: Proposal::empty() };
        let r = create_proposal(&mut ctx, title);
        match r {
            Ok(id) => {
                self.config = Some(ctx.config);
                let created = ProposalCreated { id, title: ctx.proposal.title.clone() };
                self.proposals.push(ctx.proposal);
                self.events.push(Event::ProposalCreated(created));
                assert(self.log() =~= old(self).log().push(
                    EventView::ProposalCreated { id, title: title_view },
                ));
                assert(self@.proposals =~= old(self)@.proposals.push(
                    ProposalView { title: title_view, votes: 0 },
                ));
                assert(self@ == create_step(old(self)@, caller@, title_view).0);
                Ok(id)
            },
            Err(e) => Err(e),
        }
    }

    /// Records the vote of `voter` on proposal `proposal_id`: the receipt is
    /// created and the tally goes up by one, or neither happens.
    pub fn cast_vote(&mut self, voter: &Pubkey, proposal_id: u32) -> (r: Result<(), VotingError>)
        requires
            old(self).inv(),
        ensures
            final(self).inv(),
            (final(self)@, r) == vote_step(old(self)@, voter@, proposal_id),
            final(self).log() == match r {
                Ok(_) => old(self).log().push(EventView::VoteCast { proposal_id, voter: voter@ }),
                Err(_) => old(self).log(),
            },
    {
        proof {
            lemma_vote_wf(self@, voter@, proposal_id);
        }
        if proposal_id as usize >= self.proposals.len() {
            return Err(VotingError::NotFound);
        }
        if self.has_voted(voter, proposal_id) {
            return Err(VotingError::AlreadyVoted);
        }
        let idx = proposal_id as usize;
        let mut ctx = Vote {
            proposal: self.proposals[idx].duplicate(),
            voter: *voter,
            vote_record: VoteRecord { proposal_id: 0, voter: Pubkey::new([0u8; 32]) },
        };
        match vote(&mut ctx, proposal_id) {
            Ok(()) => {},
            Err(e) => {
                return Err(e);
            },
        }
        self.proposals.set(idx, ctx.proposal);
        self.receipts.insert(ctx.vote_record);
        self.events.push(Event::VoteCast(VoteCast { proposal_id, voter: *voter }));
        assert(self.log() =~= old(self).log().push(
            EventView::VoteCast { proposal_id, voter: voter@ },
        ));
        assert(self@.proposals =~= vote_step(old(self)@, voter@, proposal_id).0.proposals);
        Ok(())
    }

    /// The title and tally of proposal `proposal_id`.
    pub fn get_proposal(&self, proposal_id: u32) -> (r: Result<(String, u32), VotingError>)
        requires
            self.inv(),
        ensures
            match (r, get_proposal_result(self@, proposal_id)) {
                (Ok((title, votes)), Ok((t, v))) => title@ == t && votes == v,
                (Err(e), Err(f)) => e == f,
                _ => false,
            },
    {
        if proposal_id as usize >= self.proposals.len() {
            return Err(VotingError::NotFound);
        }
        let ctx = GetProposal { proposal: self.proposals[proposal_id as usize].duplicate() };
        get_proposal(&ctx)
    }

    /// The number of proposals created so far.
    pub fn total_proposals(&self) -> (r: Result<u32, VotingError>)
        requires
            self.inv(),
        ensures
            r == total_proposals_result(self@),
    {
        match self.config {
            Some(config) => {
                let ctx = TotalProposals { config };
                total_proposals(&ctx)
            },
            None => Err(VotingError::NotFound),
        }
    }
}

} // verus!
