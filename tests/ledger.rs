use voting_ledger::{
    create_proposal, get_proposal, initialize, total_proposals, vote, Config, CreateProposal,
    Event, GetProposal, Initialize, Ledger, Proposal, Pubkey, TotalProposals, Vote, VoteRecord,
    VotingError, MAX_TITLE_LEN,
};

fn key(b: u8) -> Pubkey {
    Pubkey::new([b; 32])
}

fn ledger_owned_by(owner: &Pubkey) -> Ledger {
    let mut l = Ledger::new();
    assert_eq!(l.initialize(owner), Ok(()));
    l
}

#[test]
fn budget_scenario() {
    let a = key(1);
    let b = key(2);
    let v1 = key(3);
    let v2 = key(4);
    let mut l = ledger_owned_by(&a);
    assert_eq!(l.create_proposal(&a, "Budget 2025".to_string()), Ok(0));
    assert_eq!(l.cast_vote(&v1, 0), Ok(()));
    assert_eq!(l.get_proposal(0), Ok(("Budget 2025".to_string(), 1)));
    assert_eq!(l.cast_vote(&v1, 0), Err(VotingError::AlreadyVoted));
    assert_eq!(l.get_proposal(0), Ok(("Budget 2025".to_string(), 1)));
    assert_eq!(l.cast_vote(&v2, 0), Ok(()));
    assert_eq!(l.get_proposal(0), Ok(("Budget 2025".to_string(), 2)));
    assert_eq!(l.create_proposal(&b, "x".to_string()), Err(VotingError::NotOwner));
    assert_eq!(l.total_proposals(), Ok(1));
}

#[test]
fn get_proposal_never_created_is_not_found() {
    let a = key(1);
    let mut l = ledger_owned_by(&a);
    assert_eq!(l.get_proposal(0), Err(VotingError::NotFound));
    assert_eq!(l.create_proposal(&a, "one".to_string()), Ok(0));
    assert_eq!(l.get_proposal(1), Err(VotingError::NotFound));
    assert_eq!(l.get_proposal(u32::MAX), Err(VotingError::NotFound));
}

#[test]
fn vote_on_mismatched_record_is_rejected() {
    let voter = key(9);
    let mut ctx = Vote {
        proposal: Proposal { id: 3, votes: 5, title: "t".to_string() },
        voter,
        vote_record: VoteRecord { proposal_id: 0, voter: key(0) },
    };
    assert_eq!(vote(&mut ctx, 4), Err(VotingError::InvalidProposalAccount));
    assert_eq!(ctx.proposal.votes, 5);
    assert_eq!(ctx.vote_record.proposal_id, 0);
    assert_eq!(ctx.vote_record.voter, key(0));
}

#[test]
fn vote_fills_receipt_and_counts() {
    let voter = key(9);
    let mut ctx = Vote {
        proposal: Proposal { id: 4, votes: 5, title: "t".to_string() },
        voter,
        vote_record: VoteRecord { proposal_id: 0, voter: key(0) },
    };
    assert_eq!(vote(&mut ctx, 4), Ok(()));
    assert_eq!(ctx.proposal.votes, 6);
    assert_eq!(ctx.vote_record.proposal_id, 4);
    assert_eq!(ctx.vote_record.voter, voter);
}

#[test]
fn vote_tally_overflow() {
    let mut ctx = Vote {
        proposal: Proposal { id: 0, votes: u32::MAX, title: "t".to_string() },
        voter: key(9),
        vote_record: VoteRecord { proposal_id: 7, voter: key(0) },
    };
    assert_eq!(vote(&mut ctx, 0), Err(VotingError::MathOverflow));
    assert_eq!(ctx.proposal.votes, u32::MAX);
    assert_eq!(ctx.vote_record.proposal_id, 7);
}

#[test]
fn counter_overflow() {
    let a = key(1);
    let mut ctx = CreateProposal {
        config: Config { owner: a, total_proposals: u32::MAX },
        owner: a,
        proposal: Proposal::empty(),
    };
    assert_eq!(create_proposal(&mut ctx, "t".to_string()), Err(VotingError::MathOverflow));
    assert_eq!(ctx.config.total_proposals, u32::MAX);
    assert_eq!(ctx.proposal.title, "");
}

#[test]
fn create_fills_record() {
    let a = key(1);
    let mut ctx = CreateProposal {
        config: Config { owner: a, total_proposals: 41 },
        owner: a,
        proposal: Proposal::empty(),
    };
    assert_eq!(create_proposal(&mut ctx, "Roads".to_string()), Ok(41));
    assert_eq!(ctx.config.total_proposals, 42);
    assert_eq!(ctx.proposal.id, 41);
    assert_eq!(ctx.proposal.votes, 0);
    assert_eq!(ctx.proposal.title, "Roads");
}

#[test]
fn create_by_non_owner_record_level() {
    let mut ctx = CreateProposal {
        config: Config { owner: key(1), total_proposals: 2 },
        owner: key(2),
        proposal: Proposal::empty(),
    };
    assert_eq!(create_proposal(&mut ctx, "t".to_string()), Err(VotingError::NotOwner));
    assert_eq!(ctx.config.total_proposals, 2);
}

#[test]
fn initialize_record_level() {
    let a = key(5);
    let mut ctx = Initialize { config: Config { owner: key(0), total_proposals: 9 }, owner: a };
    assert_eq!(initialize(&mut ctx), Ok(()));
    assert_eq!(ctx.config.owner, a);
    assert_eq!(ctx.config.total_proposals, 0);
}

#[test]
fn queries_record_level() {
    let ctx = GetProposal { proposal: Proposal { id: 2, votes: 7, title: "Parks".to_string() } };
    assert_eq!(get_proposal(&ctx), Ok(("Parks".to_string(), 7)));
    let ctx = TotalProposals { config: Config { owner: key(1), total_proposals: 13 } };
    assert_eq!(total_proposals(&ctx), Ok(13));
}

#[test]
fn second_initialize_fails() {
    let a = key(1);
    let b = key(2);
    let mut l = ledger_owned_by(&a);
    assert_eq!(l.initialize(&b), Err(VotingError::AlreadyInitialized));
    assert_eq!(l.create_proposal(&b, "x".to_string()), Err(VotingError::NotOwner));
    assert_eq!(l.create_proposal(&a, "x".to_string()), Ok(0));
}

#[test]
fn uninitialized_ledger() {
    let a = key(1);
    let mut l = Ledger::new();
    assert_eq!(l.total_proposals(), Err(VotingError::NotFound));
    assert_eq!(l.create_proposal(&a, "x".to_string()), Err(VotingError::NotFound));
    assert_eq!(l.cast_vote(&a, 0), Err(VotingError::NotFound));
    assert_eq!(l.get_proposal(0), Err(VotingError::NotFound));
}

#[test]
fn ids_are_consecutive_from_zero() {
    let a = key(1);
    let mut l = ledger_owned_by(&a);
    assert_eq!(l.total_proposals(), Ok(0));
    assert_eq!(l.create_proposal(&a, "Roads".to_string()), Ok(0));
    assert_eq!(l.create_proposal(&key(2), "no".to_string()), Err(VotingError::NotOwner));
    assert_eq!(l.create_proposal(&a, "Parks".to_string()), Ok(1));
    assert_eq!(l.cast_vote(&key(3), 1), Ok(()));
    assert_eq!(l.create_proposal(&a, "x".repeat(65)), Err(VotingError::TitleTooLong));
    assert_eq!(l.create_proposal(&a, "Schools".to_string()), Ok(2));
    assert_eq!(l.total_proposals(), Ok(3));
    assert_eq!(l.get_proposal(2), Ok(("Schools".to_string(), 0)));
}

#[test]
fn title_limit_is_in_bytes() {
    let a = key(1);
    let mut l = ledger_owned_by(&a);
    assert_eq!(MAX_TITLE_LEN, 64);
    assert_eq!(l.create_proposal(&a, "x".repeat(64)), Ok(0));
    assert_eq!(l.create_proposal(&a, "x".repeat(65)), Err(VotingError::TitleTooLong));
    // 33 characters of two bytes each: 66 bytes.
    assert_eq!(l.create_proposal(&a, "é".repeat(33)), Err(VotingError::TitleTooLong));
    // 32 characters of two bytes each: 64 bytes.
    assert_eq!(l.create_proposal(&a, "é".repeat(32)), Ok(1));
    assert_eq!(l.create_proposal(&a, String::new()), Ok(2));
    assert_eq!(l.total_proposals(), Ok(3));
}

#[test]
fn long_title_from_non_owner_is_title_too_long() {
    let a = key(1);
    let mut l = ledger_owned_by(&a);
    assert_eq!(l.create_proposal(&key(2), "x".repeat(65)), Err(VotingError::TitleTooLong));
    assert_eq!(l.total_proposals(), Ok(0));
}

#[test]
fn votes_equal_distinct_voters() {
    let a = key(1);
    let mut l = ledger_owned_by(&a);
    assert_eq!(l.create_proposal(&a, "Roads".to_string()), Ok(0));
    assert_eq!(l.create_proposal(&a, "Parks".to_string()), Ok(1));
    for v in 10..20u8 {
        assert_eq!(l.cast_vote(&key(v), 0), Ok(()));
        assert_eq!(l.cast_vote(&key(v), 0), Err(VotingError::AlreadyVoted));
    }
    assert_eq!(l.cast_vote(&key(10), 1), Ok(()));
    assert_eq!(l.get_proposal(0), Ok(("Roads".to_string(), 10)));
    assert_eq!(l.get_proposal(1), Ok(("Parks".to_string(), 1)));
}

#[test]
fn same_voter_may_vote_on_each_proposal_once() {
    let a = key(1);
    let v = key(7);
    let mut l = ledger_owned_by(&a);
    assert_eq!(l.create_proposal(&a, "Roads".to_string()), Ok(0));
    assert_eq!(l.create_proposal(&a, "Parks".to_string()), Ok(1));
    assert!(!l.has_voted(&v, 0));
    assert_eq!(l.cast_vote(&v, 0), Ok(()));
    assert!(l.has_voted(&v, 0));
    assert!(!l.has_voted(&v, 1));
    assert_eq!(l.cast_vote(&v, 1), Ok(()));
    assert_eq!(l.cast_vote(&v, 0), Err(VotingError::AlreadyVoted));
    assert_eq!(l.cast_vote(&v, 1), Err(VotingError::AlreadyVoted));
    assert_eq!(l.cast_vote(&v, 2), Err(VotingError::NotFound));
}

#[test]
fn keys_differing_in_last_byte_are_distinct_voters() {
    let a = key(1);
    let mut l = ledger_owned_by(&a);
    assert_eq!(l.create_proposal(&a, "p".to_string()), Ok(0));
    let mut bytes = [8u8; 32];
    let first = Pubkey::new(bytes);
    bytes[31] = 9;
    let second = Pubkey::new(bytes);
    assert!(!first.same_as(&second));
    assert!(first.same_as(&Pubkey::new([8u8; 32])));
    assert_eq!(second.to_bytes()[31], 9);
    assert_eq!(l.cast_vote(&first, 0), Ok(()));
    assert_eq!(l.cast_vote(&second, 0), Ok(()));
    assert_eq!(l.get_proposal(0), Ok(("p".to_string(), 2)));
}

#[test]
fn events_record_successes_only() {
    let a = key(1);
    let v = key(3);
    let mut l = ledger_owned_by(&a);
    assert_eq!(l.create_proposal(&a, "Budget".to_string()), Ok(0));
    assert_eq!(l.create_proposal(&v, "No".to_string()), Err(VotingError::NotOwner));
    assert_eq!(l.cast_vote(&v, 0), Ok(()));
    assert_eq!(l.cast_vote(&v, 0), Err(VotingError::AlreadyVoted));
    let events = l.events();
    assert_eq!(events.len(), 2);
    match &events[0] {
        Event::ProposalCreated(e) => {
            assert_eq!(e.id, 0);
            assert_eq!(e.title, "Budget");
        }
        _ => panic!("expected a creation"),
    }
    match &events[1] {
        Event::VoteCast(e) => {
            assert_eq!(e.proposal_id, 0);
            assert_eq!(e.voter, v);
        }
        _ => panic!("expected a vote"),
    }
}

#[test]
fn sizes() {
    assert_eq!(Proposal::space_for_title(), 76);
    assert_eq!(voting_ledger::CONFIG_SIZE, 36);
    assert_eq!(voting_ledger::VOTE_RECORD_SIZE, 36);
}

#[test]
fn error_messages_are_distinct() {
    let all = [
        VotingError::NotOwner,
        VotingError::TitleTooLong,
        VotingError::MathOverflow,
        VotingError::InvalidProposalAccount,
        VotingError::AlreadyVoted,
        VotingError::AlreadyInitialized,
        VotingError::NotFound,
    ];
    for i in 0..all.len() {
        for j in 0..all.len() {
            assert_eq!(i == j, all[i].message() == all[j].message());
        }
    }
    assert_eq!(VotingError::NotOwner.message(), "Only the owner can create proposals.");
}
