use pallet_voting::pallet::Pallet;
use pallet_voting::types::{Config, Duration, Error, Event, Freeze, Status, Vote};

const ALICE: u64 = 0;
const BOB: u64 = 1;
const CHARLIE: u64 = 2;
const DAVE: u64 = 3;
const EVE: u64 = 4;

const P1: u64 = 11;
const P2: u64 = 12;
const P3: u64 = 13;
const P4: u64 = 14;

fn engine() -> Pallet {
    Pallet::new(Config {
        proposal_duration_tier1: 1,
        proposal_duration_tier2: 2,
        proposal_duration_tier3: 4,
    })
}

/// An engine with BOB and CHARLIE registered and P1..P4 submitted at block 1.
fn engine_with_proposals() -> Pallet {
    let mut p = engine();
    p.register_account(BOB);
    p.register_account(CHARLIE);
    for hash in [P1, P2, P3, P4] {
        assert!(p.submit_proposal(ALICE, hash, Duration::Tier1, 1).is_ok());
    }
    p
}

#[test]
fn registering_twice_is_idempotent() {
    let mut p = engine();
    assert_eq!(p.register_account(BOB), Event::AccountRegistered { who: BOB });
    assert_eq!(p.register_account(BOB), Event::AccountRegistered { who: BOB });
    assert!(p.is_registered(BOB));
    assert!(!p.is_registered(CHARLIE));
    assert_eq!(p.circle_of_trust_register_account(BOB, CHARLIE), Ok(Event::AccountRegistered { who: CHARLIE }));
    assert_eq!(p.circle_of_trust_register_account(BOB, CHARLIE), Ok(Event::AccountRegistered { who: CHARLIE }));
    assert!(p.is_registered(CHARLIE));
}

#[test]
fn unregistered_caller_cannot_register() {
    let mut p = engine();
    assert_eq!(p.circle_of_trust_register_account(DAVE, EVE), Err(Error::NotRegistered));
    assert!(!p.is_registered(EVE));
    assert!(!p.is_registered(DAVE));
    p.register_account(BOB);
    assert!(p.circle_of_trust_register_account(BOB, CHARLIE).is_ok());
    assert!(p.circle_of_trust_register_account(CHARLIE, DAVE).is_ok());
    assert!(p.circle_of_trust_register_account(DAVE, EVE).is_ok());
    assert!(p.is_registered(EVE));
}

#[test]
fn tally_sums_accepted_votes() {
    let mut p = engine_with_proposals();
    assert!(p.cast_vote(BOB, P1, Vote::Aye(3), 2, 1000).is_ok());
    assert!(p.cast_vote(CHARLIE, P1, Vote::Nay(4), 2, 1000).is_ok());
    assert!(p.cast_vote(BOB, P1, Vote::Nay(2), 3, 1000).is_ok());
    // A rejected vote adds nothing.
    assert_eq!(p.cast_vote(CHARLIE, P1, Vote::Aye(40), 3, 1000), Err(Error::NotEnoughTokens));
    let prop = p.get_proposal(P1).unwrap();
    assert_eq!(prop.aye_votes, 3);
    assert_eq!(prop.nay_votes, 6);
    assert_eq!(prop.aye_votes + prop.nay_votes, 3 + 4 + 2);
    assert_eq!(p.account_votes(BOB, P1), Some(5));
    assert_eq!(p.account_votes(CHARLIE, P1), Some(4));
}

#[test]
fn collateral_is_square_of_heaviest_vote() {
    let mut p = engine_with_proposals();
    assert_eq!(p.cast_vote(BOB, P1, Vote::Aye(3), 2, 100).unwrap().1, Freeze::Extend(9));
    assert_eq!(p.cast_vote(BOB, P2, Vote::Aye(4), 2, 100).unwrap().1, Freeze::Extend(16));
    assert_eq!(p.cast_vote(BOB, P3, Vote::Aye(5), 2, 100).unwrap().1, Freeze::Extend(25));
    assert_eq!(p.cast_vote(BOB, P3, Vote::Aye(3), 2, 100).unwrap().1, Freeze::Extend(64));
    // A light vote beside a heavy one asks for no more.
    assert_eq!(p.cast_vote(BOB, P1, Vote::Aye(1), 2, 100).unwrap().1, Freeze::Extend(64));
    assert_eq!(p.account_proposals(BOB), vec![P1, P2, P3]);
}

#[test]
fn reclaim_rederives_collateral() {
    let mut p = engine_with_proposals();
    assert!(p.cast_vote(BOB, P1, Vote::Aye(3), 2, 100).is_ok());
    assert!(p.cast_vote(BOB, P2, Vote::Aye(4), 2, 100).is_ok());
    assert!(p.cast_vote(BOB, P3, Vote::Aye(5), 2, 100).is_ok());
    for hash in [P1, P2, P3] {
        assert!(p.close_proposal(ALICE, hash, 100_801).is_ok());
    }
    assert_eq!(p.claim_back_tokens(BOB, P3), Ok((Event::TokensClaimed { who: BOB }, Freeze::SetTo(16))));
    assert_eq!(p.account_proposals(BOB), vec![P1, P2]);
    assert_eq!(p.account_votes(BOB, P3), None);
    assert_eq!(p.claim_back_tokens(BOB, P2), Ok((Event::TokensClaimed { who: BOB }, Freeze::SetTo(9))));
    assert_eq!(p.claim_back_tokens(BOB, P1), Ok((Event::TokensClaimed { who: BOB }, Freeze::Thaw)));
    assert_eq!(p.account_proposals(BOB), Vec::<u64>::new());
}

#[test]
fn reclaim_of_a_lighter_proposal_keeps_collateral() {
    let mut p = engine_with_proposals();
    assert!(p.cast_vote(BOB, P1, Vote::Aye(5), 2, 100).is_ok());
    assert!(p.cast_vote(BOB, P2, Vote::Aye(2), 2, 100).is_ok());
    assert!(p.close_proposal(ALICE, P2, 100_801).is_ok());
    assert_eq!(p.claim_back_tokens(BOB, P2).unwrap().1, Freeze::SetTo(25));
    assert_eq!(p.account_proposals(BOB), vec![P1]);
}

#[test]
fn closed_proposal_is_immutable() {
    let mut p = engine_with_proposals();
    assert!(p.cast_vote(BOB, P1, Vote::Aye(3), 2, 100).is_ok());
    assert!(p.close_proposal(ALICE, P1, 100_801).is_ok());
    let before = p.get_proposal(P1).unwrap();
    assert_eq!(p.cast_vote(BOB, P1, Vote::Aye(3), 100_802, 100), Err(Error::VotingOnClosedProposalNotAllowed));
    assert_eq!(p.cast_vote(CHARLIE, P1, Vote::Nay(3), 100_802, 100), Err(Error::VotingOnClosedProposalNotAllowed));
    assert_eq!(p.close_proposal(ALICE, P1, 100_900), Err(Error::ProposalNotActive));
    assert!(p.claim_back_tokens(BOB, P1).is_ok());
    assert_eq!(p.get_proposal(P1).unwrap(), before);
    assert_eq!(before.status, Status::Passed);
}

#[test]
fn close_deadline_boundary() {
    let mut p = engine_with_proposals();
    assert_eq!(p.get_proposal(P1).unwrap().deadline, 100_801);
    assert_eq!(p.close_proposal(BOB, P1, 100_800), Err(Error::ProposalDeadlineNotPassed));
    assert_eq!(p.get_proposal(P1).unwrap().status, Status::Active);
    assert_eq!(p.close_proposal(BOB, P1, 100_801), Ok(Event::ProposalClosed { who: BOB, hash: P1 }));
}

#[test]
fn vote_deadline_boundary() {
    let mut p = engine_with_proposals();
    assert!(p.cast_vote(BOB, P1, Vote::Aye(1), 100_800, 100).is_ok());
    assert_eq!(p.cast_vote(BOB, P1, Vote::Aye(1), 100_801, 100), Err(Error::ProposalNotActive));
}

#[test]
fn capacity_bound_rejects_one_more() {
    let mut p = engine_with_proposals();
    assert!(p.cast_vote(BOB, P1, Vote::Aye(1), 2, 100).is_ok());
    assert!(p.cast_vote(BOB, P2, Vote::Aye(1), 2, 100).is_ok());
    assert!(p.cast_vote(BOB, P3, Vote::Aye(1), 2, 100).is_ok());
    assert_eq!(p.cast_vote(BOB, P4, Vote::Aye(1), 2, 100), Err(Error::VoteProposalsExceeded));
    assert_eq!(p.get_proposal(P4).unwrap().aye_votes, 0);
    assert_eq!(p.account_votes(BOB, P4), None);
    // More weight on an open proposal still goes through.
    assert!(p.cast_vote(BOB, P3, Vote::Aye(1), 2, 100).is_ok());
    // Claiming one back makes room.
    assert!(p.close_proposal(ALICE, P1, 100_801).is_ok());
    assert!(p.claim_back_tokens(BOB, P1).is_ok());
    assert!(p.cast_vote(BOB, P4, Vote::Aye(1), 100_000, 100).is_ok());
    assert_eq!(p.account_proposals(BOB), vec![P2, P3, P4]);
}

#[test]
fn tie_closes_failed() {
    let mut p = engine_with_proposals();
    assert!(p.cast_vote(BOB, P1, Vote::Aye(4), 2, 100).is_ok());
    assert!(p.cast_vote(CHARLIE, P1, Vote::Nay(4), 2, 100).is_ok());
    assert!(p.close_proposal(ALICE, P1, 100_801).is_ok());
    assert_eq!(p.get_proposal(P1).unwrap().status, Status::Failed);
    assert!(p.close_proposal(ALICE, P2, 100_801).is_ok());
    assert_eq!(p.get_proposal(P2).unwrap().status, Status::Failed);
}
