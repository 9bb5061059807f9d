use pallet_voting::pallet::Pallet;
use pallet_voting::types::{Config, Duration, Error, Event, Freeze, Proposal, Status, Vote};
use std::collections::HashMap;

const ALICE: u64 = 0;
const BOB: u64 = 1;
const CHARLIE: u64 = 2;
const DAVE: u64 = 3;
const EVE: u64 = 4;

const PROPOSAL: u64 = 0x5eed;
const PROPOSAL_1: u64 = 101;
const PROPOSAL_2: u64 = 102;
const PROPOSAL_3: u64 = 103;
const PROPOSAL_4: u64 = 104;

/// A small host ledger around the engine: balances, freezes and the block clock.
struct Host {
    voting: Pallet,
    balances: HashMap<u64, u128>,
    frozen: HashMap<u64, u128>,
    block: u64,
}

impl Host {
    fn new() -> Host {
        Host {
            voting: Pallet::new(Config {
                proposal_duration_tier1: 1,
                proposal_duration_tier2: 2,
                proposal_duration_tier3: 4,
            }),
            balances: HashMap::new(),
            frozen: HashMap::new(),
            block: 0,
        }
    }

    fn next_block(&mut self) {
        self.block += 1;
    }

    fn go_to_block(&mut self, block: u64) {
        self.block = block;
    }

    fn mint_into(&mut self, who: u64, amount: u128) {
        *self.balances.entry(who).or_insert(0) += amount;
    }

    fn free_balance(&self, who: u64) -> u128 {
        *self.balances.get(&who).unwrap_or(&0)
    }

    fn total_balance(&self, who: u64) -> u128 {
        self.free_balance(who)
    }

    fn balance_frozen(&self, who: u64) -> u128 {
        *self.frozen.get(&who).unwrap_or(&0)
    }

    fn can_withdraw(&self, who: u64, amount: u128) -> bool {
        amount <= self.free_balance(who) - self.balance_frozen(who)
    }

    fn apply(&mut self, who: u64, freeze: Freeze) {
        let now = self.balance_frozen(who);
        let next = match freeze {
            Freeze::Extend(a) => now.max(a as u128),
            Freeze::SetTo(a) => a as u128,
            Freeze::Thaw => 0,
        };
        self.frozen.insert(who, next);
    }

    fn submit(&mut self, who: u64, hash: u64, duration: Duration) -> Result<Event, Error> {
        let now = self.block;
        self.voting.submit_proposal(who, hash, duration, now)
    }

    fn vote(&mut self, who: u64, hash: u64, vote: Vote) -> Result<Event, Error> {
        let (now, free) = (self.block, self.free_balance(who));
        let (event, freeze) = self.voting.cast_vote(who, hash, vote, now, free)?;
        self.apply(who, freeze);
        Ok(event)
    }

    fn close(&mut self, who: u64, hash: u64) -> Result<Event, Error> {
        let now = self.block;
        self.voting.close_proposal(who, hash, now)
    }

    fn claim(&mut self, who: u64, hash: u64) -> Result<Event, Error> {
        let (event, freeze) = self.voting.claim_back_tokens(who, hash)?;
        self.apply(who, freeze);
        Ok(event)
    }

    fn proposal(&self, hash: u64) -> Proposal {
        self.voting.get_proposal(hash).unwrap()
    }
}

fn submit_proposal_setup() -> (Host, u64) {
    let mut host = Host::new();
    host.next_block();
    host.mint_into(ALICE, 100);
    host.mint_into(BOB, 100);
    host.mint_into(CHARLIE, 100);
    host.voting.register_account(BOB);
    host.next_block();
    assert!(host.submit(ALICE, PROPOSAL, Duration::Tier1).is_ok());
    host.next_block();
    (host, PROPOSAL)
}

fn submit_proposal_multiple_setup() -> Host {
    let mut host = Host::new();
    host.go_to_block(1);
    host.mint_into(ALICE, 100);
    host.mint_into(BOB, 100);
    host.mint_into(CHARLIE, 100);
    host.voting.register_account(BOB);
    host.next_block();
    for hash in [PROPOSAL_1, PROPOSAL_2, PROPOSAL_3, PROPOSAL_4] {
        assert!(host.submit(ALICE, hash, Duration::Tier1).is_ok());
    }
    host.next_block();
    host
}

#[test]
fn register_account_works() {
    let mut host = Host::new();
    host.next_block();
    assert_eq!(host.voting.register_account(BOB), Event::AccountRegistered { who: BOB });
    assert!(host.voting.is_registered(BOB));
    assert_eq!(host.voting.register_account(BOB), Event::AccountRegistered { who: BOB });
    assert!(host.voting.is_registered(BOB));
}

#[test]
fn circle_of_trust_register_account_works() {
    let mut host = Host::new();
    host.next_block();
    host.voting.register_account(BOB);
    assert_eq!(
        host.voting.circle_of_trust_register_account(BOB, CHARLIE),
        Ok(Event::AccountRegistered { who: CHARLIE })
    );
    assert_eq!(
        host.voting.circle_of_trust_register_account(DAVE, EVE),
        Err(Error::NotRegistered)
    );
    assert!(host.voting.is_registered(BOB));
    assert!(host.voting.is_registered(CHARLIE));
    assert!(!host.voting.is_registered(EVE));
}

#[test]
fn submit_proposal_works() {
    let mut host = Host::new();
    host.next_block();
    assert_eq!(
        host.submit(ALICE, PROPOSAL, Duration::Tier1),
        Ok(Event::ProposalCreated { who: ALICE, proposal: PROPOSAL })
    );
    let fetched = host.voting.get_proposal(PROPOSAL);
    assert!(fetched.is_ok());
    assert_eq!(
        fetched.unwrap(),
        Proposal {
            status: Status::Active,
            owner: ALICE,
            aye_votes: 0,
            nay_votes: 0,
            deadline: 100_801
        }
    );
}

#[test]
fn not_enough_tokens_error_works() {
    let mut host = Host::new();
    host.next_block();
    host.mint_into(BOB, 20);
    host.voting.register_account(BOB);
    host.next_block();
    assert!(host.submit(ALICE, PROPOSAL, Duration::Tier1).is_ok());
    host.next_block();
    assert_eq!(host.vote(BOB, PROPOSAL, Vote::Aye(5)), Err(Error::NotEnoughTokens));
    host.next_block();
    assert_eq!(host.proposal(PROPOSAL).aye_votes, 0);
    assert!(host.vote(BOB, PROPOSAL, Vote::Aye(3)).is_ok());
    assert_eq!(host.proposal(PROPOSAL).aye_votes, 3);
    assert_eq!(host.balance_frozen(BOB), 9);
}

#[test]
fn vote_aye_works() {
    let (mut host, hash) = submit_proposal_setup();
    assert_eq!(
        host.vote(BOB, hash, Vote::Aye(3)),
        Ok(Event::VotedAye { who: BOB, proposal: hash, votes: 3 })
    );
    host.next_block();
    assert_eq!(host.voting.account_votes(BOB, hash), Some(3));
    assert_eq!(host.free_balance(BOB), 100);
    assert_eq!(host.total_balance(BOB), 100);
    assert_eq!(host.balance_frozen(BOB), 9);
    assert!(!host.can_withdraw(BOB, 95));
    assert!(host.can_withdraw(BOB, 10));
    let proposal = host.proposal(hash);
    assert_eq!(proposal.aye_votes, 3);
    assert_eq!(proposal.nay_votes, 0);
}

#[test]
fn vote_nay_works() {
    let (mut host, hash) = submit_proposal_setup();
    assert_eq!(
        host.vote(BOB, hash, Vote::Nay(3)),
        Ok(Event::VotedNay { who: BOB, proposal: hash, votes: 3 })
    );
    host.next_block();
    assert_eq!(host.voting.account_votes(BOB, hash), Some(3));
    assert_eq!(host.free_balance(BOB), 100);
    assert_eq!(host.total_balance(BOB), 100);
    assert_eq!(host.balance_frozen(BOB), 9);
    assert!(!host.can_withdraw(BOB, 95));
    assert!(host.can_withdraw(BOB, 10));
    let proposal = host.proposal(hash);
    assert_eq!(proposal.aye_votes, 0);
    assert_eq!(proposal.nay_votes, 3);
}

#[test]
fn account_can_vote_on_same_proposal_multiple_times() {
    let (mut host, hash) = submit_proposal_setup();
    assert!(host.vote(BOB, hash, Vote::Aye(3)).is_ok());
    host.next_block();
    assert!(host.vote(BOB, hash, Vote::Aye(5)).is_ok());
    host.next_block();
    assert_eq!(host.voting.account_votes(BOB, hash), Some(8));
    assert_eq!(host.voting.account_proposals(BOB), vec![hash]);
    assert_eq!(host.free_balance(BOB), 100);
    assert_eq!(host.total_balance(BOB), 100);
    assert_eq!(host.balance_frozen(BOB), 64);
    assert!(!host.can_withdraw(BOB, 95));
    assert!(host.can_withdraw(BOB, 10));
    let proposal = host.proposal(hash);
    assert_eq!(proposal.aye_votes, 8);
    assert_eq!(proposal.nay_votes, 0);
}

#[test]
fn unregistered_account_cannot_vote() {
    let (mut host, hash) = submit_proposal_setup();
    assert_eq!(host.vote(CHARLIE, hash, Vote::Aye(1)), Err(Error::NotRegistered));
}

#[test]
fn cannot_vote_on_closed_proposal() {
    let (mut host, hash) = submit_proposal_setup();
    assert!(host.vote(BOB, hash, Vote::Aye(3)).is_ok());
    host.go_to_block(100_900);
    assert!(host.close(ALICE, hash).is_ok());
    host.go_to_block(100_901);
    assert_eq!(
        host.vote(BOB, hash, Vote::Aye(3)),
        Err(Error::VotingOnClosedProposalNotAllowed)
    );
}

#[test]
fn cannot_vote_on_too_many_proposals() {
    let mut host = submit_proposal_multiple_setup();
    assert!(host.vote(BOB, PROPOSAL_1, Vote::Aye(2)).is_ok());
    assert!(host.vote(BOB, PROPOSAL_2, Vote::Aye(2)).is_ok());
    assert!(host.vote(BOB, PROPOSAL_3, Vote::Aye(2)).is_ok());
    assert_eq!(
        host.vote(BOB, PROPOSAL_4, Vote::Aye(2)),
        Err(Error::VoteProposalsExceeded)
    );
}

#[test]
fn close_proposal_works() {
    let (mut host, hash) = submit_proposal_setup();
    assert!(host.vote(BOB, hash, Vote::Aye(3)).is_ok());
    host.go_to_block(100_900);
    assert_eq!(host.close(ALICE, hash), Ok(Event::ProposalClosed { who: ALICE, hash }));
    host.go_to_block(100_901);
    let p = host.proposal(hash);
    assert_eq!(p.status, Status::Passed);
    assert_eq!(p.aye_votes, 3);
}

#[test]
fn anyone_can_close_proposal() {
    let (mut host, hash) = submit_proposal_setup();
    host.go_to_block(100_901);
    assert!(host.close(BOB, hash).is_ok());
    assert_eq!(host.close(ALICE, hash), Err(Error::ProposalNotActive));
}

#[test]
fn frozen_balance_is_correct_after_multiple_votes() {
    let mut host = submit_proposal_multiple_setup();
    assert!(host.vote(BOB, PROPOSAL_1, Vote::Aye(3)).is_ok());
    assert!(host.vote(BOB, PROPOSAL_2, Vote::Aye(4)).is_ok());
    assert_eq!(host.balance_frozen(BOB), 16);
    assert!(host.vote(BOB, PROPOSAL_3, Vote::Aye(5)).is_ok());
    assert_eq!(host.balance_frozen(BOB), 25);
    assert!(host.vote(BOB, PROPOSAL_3, Vote::Aye(3)).is_ok());
    host.go_to_block(100_910);
    assert_eq!(host.balance_frozen(BOB), 64);
    assert!(host.close(ALICE, PROPOSAL_3).is_ok());
    host.next_block();
    assert_eq!(host.claim(BOB, PROPOSAL_3), Ok(Event::TokensClaimed { who: BOB }));
    host.next_block();
    assert_eq!(host.balance_frozen(BOB), 16);
    assert!(host.close(ALICE, PROPOSAL_2).is_ok());
    assert!(host.close(ALICE, PROPOSAL_1).is_ok());
    host.next_block();
    assert!(host.claim(BOB, PROPOSAL_2).is_ok());
    assert_eq!(host.balance_frozen(BOB), 9);
    assert!(host.claim(BOB, PROPOSAL_1).is_ok());
    assert_eq!(host.balance_frozen(BOB), 0);
    assert_eq!(host.free_balance(BOB), 100);
    assert_eq!(host.total_balance(BOB), 100);
}

#[test]
fn claim_back_tokens_works() {
    let (mut host, hash) = submit_proposal_setup();
    assert!(host.vote(BOB, hash, Vote::Aye(3)).is_ok());
    host.go_to_block(100_900);
    assert!(host.close(ALICE, hash).is_ok());
    host.next_block();
    assert!(host.claim(BOB, hash).is_ok());
    host.next_block();
    assert_eq!(host.free_balance(BOB), 100);
    assert_eq!(host.total_balance(BOB), 100);
    assert_eq!(host.balance_frozen(BOB), 0);
    assert!(host.can_withdraw(BOB, 98));
}
