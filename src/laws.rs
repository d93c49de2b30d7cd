//! Properties of the ledger over every sequence of instructions.
use vstd::prelude::*;
use crate::error::VotingError;
use crate::model::{
    create_step, initialize_step, lemma_create_wf, lemma_initialize_wf, lemma_vote_wf,
    receipts_for, vote_step, LedgerView,
};
use crate::state::title_fits;

verus! {

/// An instruction that changes the ledger, with the identity that signs it.
pub enum Op {
    Initialize { caller: Seq<u8> },
    CreateProposal { caller: Seq<u8>, title: Seq<char> },
    CastVote { voter: Seq<u8>, proposal_id: u32 },
}

/// The ledger after one instruction.
pub open spec fn apply(s: LedgerView, op: Op) -> LedgerView {
    match op {
        Op::Initialize { caller } => initialize_step(s, caller).0,
        Op::CreateProposal { caller, title } => create_step(s, caller, title).0,
        Op::CastVote { voter, proposal_id } => vote_step(s, voter, proposal_id).0,
    }
}

/// The ledger after the instructions `ops`, in order.
pub open spec fn run(s: LedgerView, ops: Seq<Op>) -> LedgerView
    decreases ops.len(),
{
    if ops.len() == 0 {
        s
    } else {
        apply(run(s, ops.drop_last()), ops.last())
    }
}

/// The ids returned by the proposal creations among `ops` that succeeded, in order.
pub open spec fn created_ids(s: LedgerView, ops: Seq<Op>) -> Seq<u32>
    decreases ops.len(),
{
    if ops.len() == 0 {
        Seq::empty()
    } else {
        let ids = created_ids(s, ops.drop_last());
        match ops.last() {
            Op::CreateProposal { caller, title } => match create_step(
                run(s, ops.drop_last()),
                caller,
                title,
            ).1 {
                Ok(id) => ids.push(id),
                Err(_) => ids,
            },
            _ => ids,
        }
    }
}

/// Every instruction keeps the ledger well formed.
pub proof fn lemma_run_wf(s: LedgerView, ops: Seq<Op>)
    requires
        s.wf(),
    ensures
        run(s, ops).wf(),
    decreases ops.len(),
{
    if ops.len() > 0 {
        lemma_run_wf(s, ops.drop_last());
        let p = run(s, ops.drop_last());
        match ops.last() {
            Op::Initialize { caller } => lemma_initialize_wf(p, caller),
            Op::CreateProposal { caller, title } => lemma_create_wf(p, caller, title),
            Op::CastVote { voter, proposal_id } => lemma_vote_wf(p, voter, proposal_id),
        }
    }
}

/// Proposal ids are handed out without gaps or repeats: over any sequence of
/// instructions, the successful creations return the counter's value at the
/// start, then the next value, and so on, and the counter ends past the last.
pub proof fn lemma_ids_gap_free(s: LedgerView, ops: Seq<Op>)
    requires
        s.wf(),
    ensures
        created_ids(s, ops) =~= Seq::new(
            created_ids(s, ops).len(),
            |i: int| (s.total() + i) as u32,
        ),
        run(s, ops).total() == s.total() + created_ids(s, ops).len(),
    decreases ops.len(),
{
    if ops.len() > 0 {
        lemma_ids_gap_free(s, ops.drop_last());
    }
}

/// Starting from the empty ledger, the successful creations return 0, 1, 2, ...
pub proof fn lemma_ids_from_zero(ops: Seq<Op>)
    ensures
        forall|i: int|
            0 <= i < created_ids(LedgerView::empty(), ops).len() ==> #[trigger] created_ids(
                LedgerView::empty(),
                ops,
            )[i] == i,
{
    let s = LedgerView::empty();
    assert(s.wf());
    lemma_ids_gap_free(s, ops);
    lemma_run_wf(s, ops);
}

/// Receipts and proposals are never removed.
pub proof fn lemma_run_keeps_records(s: LedgerView, ops: Seq<Op>)
    ensures
        s.receipts.subset_of(run(s, ops).receipts),
        s.total() <= run(s, ops).total(),
    decreases ops.len(),
{
    if ops.len() > 0 {
        lemma_run_keeps_records(s, ops.drop_last());
    }
}

/// A voter votes at most once on a proposal: once a vote has succeeded, a
/// vote by the same voter on the same proposal, after any further
/// instructions, fails with `AlreadyVoted` and changes nothing.
pub proof fn lemma_one_vote_per_voter(s: LedgerView, voter: Seq<u8>, proposal_id: u32, ops: Seq<Op>)
    requires
        s.wf(),
        vote_step(s, voter, proposal_id).1 is Ok,
    ensures
        ({
            let later = run(vote_step(s, voter, proposal_id).0, ops);
            vote_step(later, voter, proposal_id) == (later, Err::<(), VotingError>(
                VotingError::AlreadyVoted,
            ))
        }),
{
    let first = vote_step(s, voter, proposal_id).0;
    lemma_run_keeps_records(first, ops);
    assert(first.receipts.contains((proposal_id, voter)));
}

/// In every ledger reached from the empty one, the tally of each proposal is
/// exactly the number of distinct voters that hold a receipt for it.
pub proof fn lemma_votes_count_voters(ops: Seq<Op>, proposal_id: u32)
    requires
        proposal_id < run(LedgerView::empty(), ops).total(),
    ensures
        run(LedgerView::empty(), ops).proposals[proposal_id as int].votes == receipts_for(
            run(LedgerView::empty(), ops).receipts,
            proposal_id,
        ).len(),
{
    let s = LedgerView::empty();
    assert(s.wf());
    lemma_run_wf(s, ops);
    let t = run(s, ops);
    assert(t.proposals[proposal_id as int].votes == receipts_for(t.receipts, proposal_id as int as u32).len());
}

/// Votes on proposal `proposal_id` by each of `voters`, in order.
pub open spec fn votes_by(voters: Seq<Seq<u8>>, proposal_id: u32) -> Seq<Op> {
    Seq::new(voters.len(), |i: int| Op::CastVote { voter: voters[i], proposal_id })
}

/// Votes on an existing proposal by N distinct voters that have not voted
/// on it yet (and whose number keeps the tally within 32 bits) all succeed,
/// and raise its tally by exactly N.
pub proof fn lemma_distinct_voters_counted(s: LedgerView, proposal_id: u32, voters: Seq<Seq<u8>>)
    requires
        s.wf(),
        proposal_id < s.total(),
        voters.no_duplicates(),
        forall|i: int| 0 <= i < voters.len() ==> !s.receipts.contains((proposal_id, #[trigger] voters[i])),
        s.proposals[proposal_id as int].votes + voters.len() <= u32::MAX,
    ensures
        run(s, votes_by(voters, proposal_id)).proposals[proposal_id as int].votes == s.proposals[proposal_id as int].votes
            + voters.len(),
        run(s, votes_by(voters, proposal_id)).total() == s.total(),
        forall|k: (u32, Seq<u8>)| #[trigger] run(s, votes_by(voters, proposal_id)).receipts.contains(k)
            ==> s.receipts.contains(k) || (k.0 == proposal_id && voters.contains(k.1)),
        forall|i: int| 0 <= i < voters.len() ==> vote_step(
            run(s, votes_by(voters.take(i), proposal_id)),
            #[trigger] voters[i],
            proposal_id,
        ).1 is Ok,
    decreases voters.len(),
{
    let ops = votes_by(voters, proposal_id);
    if voters.len() > 0 {
        let n = voters.len() - 1;
        let prev = voters.drop_last();
        assert(ops.drop_last() =~= votes_by(prev, proposal_id));
        assert(prev.no_duplicates());
        assert forall|i: int| 0 <= i < prev.len() implies !s.receipts.contains(
            (proposal_id, #[trigger] prev[i]),
        ) by {
            assert(prev[i] == voters[i]);
        }
        lemma_distinct_voters_counted(s, proposal_id, prev);
        let p = run(s, votes_by(prev, proposal_id));
        let v = voters[n];
        assert(!p.receipts.contains((proposal_id, v))) by {
            if p.receipts.contains((proposal_id, v)) {
                if !s.receipts.contains((proposal_id, v)) {
                    let j = choose|j: int| 0 <= j < prev.len() && prev[j] == v;
                    assert(voters[j] == voters[n]);
                }
            }
        }
        assert(ops.last() == Op::CastVote { voter: v, proposal_id });
        assert forall|k: (u32, Seq<u8>)| #[trigger] run(s, ops).receipts.contains(k) implies s.receipts.contains(k)
            || (k.0 == proposal_id && voters.contains(k.1)) by {
            if k == (proposal_id, v) {
                assert(voters[n] == v);
            } else if !s.receipts.contains(k) {
                assert(p.receipts.contains(k));
                let j = choose|j: int| 0 <= j < prev.len() && prev[j] == k.1;
                assert(voters[j] == k.1);
            }
        }
        assert forall|i: int| 0 <= i < voters.len() implies vote_step(
            run(s, votes_by(voters.take(i), proposal_id)),
            #[trigger] voters[i],
            proposal_id,
        ).1 is Ok by {
            if i < n {
                assert(voters.take(i) =~= prev.take(i));
                assert(voters[i] == prev[i]);
            } else {
                assert(voters.take(i) =~= prev);
            }
        }
    }
}

/// A caller other than the owner cannot create a proposal (with a title that
/// fits): the attempt fails with `NotOwner` and the ledger is unchanged.
pub proof fn lemma_non_owner_cannot_create(s: LedgerView, caller: Seq<u8>, title: Seq<char>)
    requires
        s.owner is Some,
        s.owner != Some(caller),
        title_fits(title),
    ensures
        create_step(s, caller, title) == (s, Err::<u32, VotingError>(VotingError::NotOwner)),
{
}

/// A title longer than the limit is rejected with `TitleTooLong`, whoever
/// signs, and the ledger is unchanged.
pub proof fn lemma_long_title_rejected(s: LedgerView, caller: Seq<u8>, title: Seq<char>)
    requires
        s.owner is Some,
        !title_fits(title),
    ensures
        create_step(s, caller, title) == (s, Err::<u32, VotingError>(VotingError::TitleTooLong)),
{
}

} // verus!
