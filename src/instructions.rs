//! The instructions, each on the records it reads and writes, already looked
//! up by the ledger. They change their records only when they succeed.
use vstd::prelude::*;
use crate::error::VotingError;
use crate::pubkey::Pubkey;
use crate::state::{title_fits, Config, Proposal, VoteRecord, MAX_TITLE_LEN};

verus! {

/// Records of the initialize instruction: the configuration to fill, and the signer.
pub struct Initialize {
    pub config: Config,
    pub owner: Pubkey,
}

/// Records of proposal creation: the configuration, the signer, and the
/// proposal record to fill.
pub struct CreateProposal {
    pub config: Config,
    pub owner: Pubkey,
    pub proposal: Proposal,
}

/// Records of a vote: the proposal, the voter, and the receipt to fill.
pub struct Vote {
    pub proposal: Proposal,
    pub voter: Pubkey,
    pub vote_record: VoteRecord,
}

/// Records of a proposal query.
pub struct GetProposal {
    pub proposal: Proposal,
}

/// Records of a counter query.
pub struct TotalProposals {
    pub config: Config,
}

/// Makes the signer the owner and sets the counter to zero.
pub fn initialize(ctx: &mut Initialize) -> (r: Result<(), VotingError>)
    ensures
        r is Ok,
        final(ctx).owner == old(ctx).owner,
        final(ctx).config.owner == old(ctx).owner,
        final(ctx).config.total_proposals == 0,
{
    ctx.config.owner = ctx.owner;
    ctx.config.total_proposals = 0;
    Ok(())
}

/// Fills the proposal record with the next id and the title, and advances the
/// counter. Returns the id.
pub fn create_proposal(ctx: &mut CreateProposal, title: String) -> (r: Result<u32, VotingError>)
    ensures
        !title_fits(title@) ==> r == Err::<u32, VotingError>(VotingError::TitleTooLong),
        title_fits(title@) && old(ctx).config.owner@ != old(ctx).owner@ ==> r == Err::<
            u32,
            VotingError,
        >(VotingError::NotOwner),
        title_fits(title@) && old(ctx).config.owner@ == old(ctx).owner@
            && old(ctx).config.total_proposals == u32::MAX ==> r == Err::<u32, VotingError>(
            VotingError::MathOverflow,
        ),
        r is Err ==> *final(ctx) == *old(ctx),
        title_fits(title@) && old(ctx).config.owner@ == old(ctx).owner@
            && old(ctx).config.total_proposals < u32::MAX ==> {
            &&& r == Ok::<u32, VotingError>(old(ctx).config.total_proposals)
            &&& final(ctx).config.owner == old(ctx).config.owner
            &&& final(ctx).config.total_proposals == old(ctx).config.total_proposals + 1
            &&& final(ctx).owner == old(ctx).owner
            &&& final(ctx).proposal.id == old(ctx).config.total_proposals
            &&& final(ctx).proposal.votes == 0
            &&& final(ctx).proposal.title@ == title@
        },
{
    if title.as_str().as_bytes().len() > MAX_TITLE_LEN {
        return Err(VotingError::TitleTooLong);
    }
    if !ctx.config.owner.same_as(&ctx.owner) {
        return Err(VotingError::NotOwner);
    }
    let id = ctx.config.total_proposals;
    let next = match id.checked_add(1) {
        Some(n) => n,
        None => {
            return Err(VotingError::MathOverflow);
        },
    };
    ctx.config.total_proposals = next;
    ctx.proposal.id = id;
    ctx.proposal.title = title;
    ctx.proposal.votes = 0;
    Ok(id)
}

/// Checks that the proposal record carries the given id, fills the receipt and
/// adds one to the tally.
pub fn vote(ctx: &mut Vote, proposal_id: u32) -> (r: Result<(), VotingError>)
    ensures
        old(ctx).proposal.id != proposal_id ==> r == Err::<(), VotingError>(
            VotingError::InvalidProposalAccount,
        ),
        old(ctx).proposal.id == proposal_id && old(ctx).proposal.votes == u32::MAX ==> r == Err::<
            (),
            VotingError,
        >(VotingError::MathOverflow),
        r is Err ==> *final(ctx) == *old(ctx),
        old(ctx).proposal.id == proposal_id && old(ctx).proposal.votes < u32::MAX ==> {
            &&& r is Ok
            &&& final(ctx).proposal.id == proposal_id
            &&& final(ctx).proposal.votes == old(ctx).proposal.votes + 1
            &&& final(ctx).proposal.title == old(ctx).proposal.title
            &&& final(ctx).voter == old(ctx).voter
            &&& final(ctx).vote_record.proposal_id == proposal_id
            &&& final(ctx).vote_record.voter == old(ctx).voter
        },
{
    if ctx.proposal.id != proposal_id {
        return Err(VotingError::InvalidProposalAccount);
    }
    let votes = match ctx.proposal.votes.checked_add(1) {
        Some(n) => n,
        None => {
            return Err(VotingError::MathOverflow);
        },
    };
    ctx.vote_record.proposal_id = proposal_id;
    ctx.vote_record.voter = ctx.voter;
    ctx.proposal.votes = votes;
    Ok(())
}

/// The title and the tally of the proposal.
pub fn get_proposal(ctx: &GetProposal) -> (r: Result<(String, u32), VotingError>)
    ensures
        r matches Ok((title, votes)) && title@ == ctx.proposal.title@ && votes
            == ctx.proposal.votes,
{
    Ok((ctx.proposal.title.clone(), ctx.proposal.votes))
}

/// The number of proposals created so far.
pub fn total_proposals(ctx: &TotalProposals) -> (r: Result<u32, VotingError>)
    ensures
        r == Ok::<u32, VotingError>(ctx.config.total_proposals),
{
    Ok(ctx.config.total_proposals)
}

} // verus!
