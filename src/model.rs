//! The mathematical model of the governance engine and what each operation does to it.
use crate::bounded::MAX_PROPOSALS_ACCOUNT_CAN_VOTE;
use crate::types::{
    closed_status, sat_add, tier_weeks, vote_weight, AccountId, BlockNumber, Config, Duration,
    Error, Freeze, Proposal, ProposalHash, Status, Vote, BLOCKS_IN_WEEK,
};
use vstd::prelude::*;

verus! {

/// The weight an account holds on a proposal: what it voted, or nothing.
pub open spec fn weight_of(votes: Map<ProposalHash, u32>, hash: ProposalHash) -> u32 {
    if votes.contains_key(hash) {
        votes[hash]
    } else {
        0
    }
}

/// The weights `held` once `votes` more are added on `hash`, held at `u32::MAX`.
pub open spec fn accumulate(held: Map<ProposalHash, u32>, hash: ProposalHash, votes: u32) -> Map<
    ProposalHash,
    u32,
> {
    held.insert(
        hash,
        if held.contains_key(hash) {
            sat_add(held[hash], votes)
        } else {
            votes
        },
    )
}

/// The heaviest weight an account holds over the proposals in `list` (zero for an empty list).
pub open spec fn max_weight(votes: Map<ProposalHash, u32>, list: Seq<ProposalHash>) -> u32
    decreases list.len(),
{
    if list.len() == 0 {
        0
    } else {
        let rest = max_weight(votes, list.drop_last());
        let last = weight_of(votes, list.last());
        if last > rest {
            last
        } else {
            rest
        }
    }
}

/// The collateral an account must keep frozen: the square of its heaviest open vote.
pub open spec fn collateral(votes: Map<ProposalHash, u32>, list: Seq<ProposalHash>) -> int {
    max_weight(votes, list) as int * max_weight(votes, list) as int
}

/// The position of the first occurrence of `hash` in `list`.
pub open spec fn first_index(list: Seq<ProposalHash>, hash: ProposalHash) -> int {
    choose|i: int|
        0 <= i < list.len() && list[i] == hash && forall|j: int| 0 <= j < i ==> list[j] != hash
}

/// `a + b`, held at `u64::MAX`.
pub open spec fn sat_add_block(a: BlockNumber, b: BlockNumber) -> BlockNumber {
    if a as int + b as int > u64::MAX as int {
        u64::MAX
    } else {
        (a + b) as BlockNumber
    }
}

/// The block at which a proposal submitted at `now` for `duration` becomes closeable.
pub open spec fn deadline_of(config: Config, duration: Duration, now: BlockNumber) -> BlockNumber {
    sat_add_block(now, (tier_weeks(config, duration) as int * BLOCKS_IN_WEEK as int) as BlockNumber)
}

/// A proposal with a vote added to its tally.
pub open spec fn with_vote(p: Proposal, vote: Vote) -> Proposal {
    match vote {
        Vote::Aye(n) => Proposal { aye_votes: sat_add(p.aye_votes, n), ..p },
        Vote::Nay(n) => Proposal { nay_votes: sat_add(p.nay_votes, n), ..p },
    }
}

/// The state of the engine.
pub struct GovernanceState {
    /// The duration of each tier.
    pub config: Config,
    /// Accounts allowed to vote and to register others.
    pub registered: Set<AccountId>,
    /// Every submitted proposal, by its hash.
    pub proposals: Map<ProposalHash, Proposal>,
    /// For each account, the weight it holds on each proposal.
    pub votes: Map<AccountId, Map<ProposalHash, u32>>,
    /// For each account, the proposals it holds an open position in, oldest first.
    pub open: Map<AccountId, Seq<ProposalHash>>,
}

impl GovernanceState {
    /// The state of a fresh engine.
    pub open spec fn genesis(config: Config) -> GovernanceState {
        GovernanceState {
            config,
            registered: Set::empty(),
            proposals: Map::empty(),
            votes: Map::empty(),
            open: Map::empty(),
        }
    }

    /// The weights `who` holds, by proposal.
    pub open spec fn votes_of(self, who: AccountId) -> Map<ProposalHash, u32> {
        if self.votes.contains_key(who) {
            self.votes[who]
        } else {
            Map::empty()
        }
    }

    /// The proposals `who` holds an open position in.
    pub open spec fn open_of(self, who: AccountId) -> Seq<ProposalHash> {
        if self.open.contains_key(who) {
            self.open[who]
        } else {
            Seq::empty()
        }
    }

    /// Every open list stays within its bound and free of repeats, and an account holds a
    /// weight on a proposal exactly when that proposal is in its open list.
    pub open spec fn wf(self) -> bool {
        forall|a: AccountId|
            {
                &&& #[trigger] self.open_of(a).len() <= MAX_PROPOSALS_ACCOUNT_CAN_VOTE
                &&& self.open_of(a).no_duplicates()
                &&& forall|h: ProposalHash|
                    #![trigger self.votes_of(a).contains_key(h)]
                    #![trigger self.open_of(a).contains(h)]
                    self.votes_of(a).contains_key(h) <==> self.open_of(a).contains(h)
            }
    }

    /// The collateral `who` must keep frozen.
    pub open spec fn collateral_of(self, who: AccountId) -> int {
        collateral(self.votes_of(who), self.open_of(who))
    }

    /// `who` becomes registered.
    pub open spec fn register(self, who: AccountId) -> GovernanceState {
        GovernanceState { registered: self.registered.insert(who), ..self }
    }

    /// A registered `signer` registers `who`.
    pub open spec fn trust_register(self, signer: AccountId, who: AccountId) -> Result<
        GovernanceState,
        Error,
    > {
        if self.registered.contains(signer) {
            Ok(self.register(who))
        } else {
            Err(Error::NotRegistered)
        }
    }

    /// `who` submits the proposal `hash` at block `now`.
    pub open spec fn submit(
        self,
        who: AccountId,
        hash: ProposalHash,
        duration: Duration,
        now: BlockNumber,
    ) -> Result<GovernanceState, Error> {
        if self.proposals.contains_key(hash) {
            Err(Error::AlreadySubmitted)
        } else {
            let p = Proposal {
                status: Status::Active,
                deadline: deadline_of(self.config, duration, now),
                owner: who,
                aye_votes: 0,
                nay_votes: 0,
            };
            Ok(GovernanceState { proposals: self.proposals.insert(hash, p), ..self })
        }
    }

    /// Whether `who` may vote on `hash` at block `now`, and if not, why.
    pub open spec fn vote_check(
        self,
        who: AccountId,
        hash: ProposalHash,
        now: BlockNumber,
    ) -> Result<(), Error> {
        if !self.proposals.contains_key(hash) {
            Err(Error::ProposalNotFound)
        } else if !self.registered.contains(who) {
            Err(Error::NotRegistered)
        } else if self.proposals[hash].status != Status::Active {
            Err(Error::VotingOnClosedProposalNotAllowed)
        } else if now >= self.proposals[hash].deadline {
            Err(Error::ProposalNotActive)
        } else {
            Ok(())
        }
    }

    /// The vote ledger records `votes` more of `who` on `hash`.
    pub open spec fn record_vote(self, who: AccountId, hash: ProposalHash, votes: u32) -> Result<
        GovernanceState,
        Error,
    > {
        if !self.proposals.contains_key(hash) {
            Err(Error::ProposalNotFound)
        } else {
            Ok(
                GovernanceState {
                    votes: self.votes.insert(who, accumulate(self.votes_of(who), hash, votes)),
                    ..self
                },
            )
        }
    }

    /// `who` adds `votes` to its weight on `hash`, holding `free` unfrozen tokens.
    pub open spec fn record_position(
        self,
        who: AccountId,
        hash: ProposalHash,
        votes: u32,
        free: u128,
    ) -> Result<(GovernanceState, Freeze), Error> {
        let new_votes = accumulate(self.votes_of(who), hash, votes);
        let list = self.open_of(who);
        let new_list = if list.contains(hash) {
            list
        } else {
            list.push(hash)
        };
        let c = collateral(new_votes, new_list);
        if !self.proposals.contains_key(hash) {
            Err(Error::ProposalNotFound)
        } else if !list.contains(hash) && list.len() >= MAX_PROPOSALS_ACCOUNT_CAN_VOTE {
            Err(Error::VoteProposalsExceeded)
        } else if c > u32::MAX {
            Err(Error::ArithmeticError)
        } else if (free as int) < c {
            Err(Error::NotEnoughTokens)
        } else {
            Ok(
                (
                    GovernanceState {
                        votes: self.votes.insert(who, new_votes),
                        open: self.open.insert(who, new_list),
                        ..self
                    },
                    Freeze::Extend(c as u32),
                ),
            )
        }
    }

    /// The tally of `hash` takes a vote.
    pub open spec fn tally(self, hash: ProposalHash, vote: Vote) -> GovernanceState {
        GovernanceState {
            proposals: self.proposals.insert(hash, with_vote(self.proposals[hash], vote)),
            ..self
        }
    }

    /// `who` casts `vote` on `hash` at block `now`, holding `free` unfrozen tokens.
    pub open spec fn vote(
        self,
        who: AccountId,
        hash: ProposalHash,
        vote: Vote,
        now: BlockNumber,
        free: u128,
    ) -> Result<(GovernanceState, Freeze), Error> {
        match self.vote_check(who, hash, now) {
            Err(e) => Err(e),
            Ok(_) => match self.record_position(who, hash, vote_weight(vote), free) {
                Err(e) => Err(e),
                Ok((s, f)) => Ok((s.tally(hash, vote), f)),
            },
        }
    }

    /// The proposal `hash` is closed at block `now`.
    pub open spec fn close(self, hash: ProposalHash, now: BlockNumber) -> Result<
        GovernanceState,
        Error,
    > {
        if !self.proposals.contains_key(hash) {
            Err(Error::ProposalNotFound)
        } else if self.proposals[hash].status != Status::Active {
            Err(Error::ProposalNotActive)
        } else if now < self.proposals[hash].deadline {
            Err(Error::ProposalDeadlineNotPassed)
        } else {
            let p = self.proposals[hash];
            Ok(
                GovernanceState {
                    proposals: self.proposals.insert(
                        hash,
                        Proposal { status: closed_status(p.aye_votes, p.nay_votes), ..p },
                    ),
                    ..self
                },
            )
        }
    }

    /// `who` gives up its position on `hash`, and its collateral is derived anew.
    pub open spec fn release_position(self, who: AccountId, hash: ProposalHash) -> Result<
        (GovernanceState, Freeze),
        Error,
    > {
        let list = self.open_of(who);
        let new_list = list.remove(first_index(list, hash));
        let new_votes = self.votes_of(who).remove(hash);
        let c = collateral(new_votes, new_list);
        if !list.contains(hash) {
            Err(Error::ProposalNotFound)
        } else if c > u32::MAX {
            Err(Error::ArithmeticError)
        } else {
            Ok(
                (
                    GovernanceState {
                        votes: self.votes.insert(who, new_votes),
                        open: self.open.insert(who, new_list),
                        ..self
                    },
                    if c > 0 {
                        Freeze::SetTo(c as u32)
                    } else {
                        Freeze::Thaw
                    },
                ),
            )
        }
    }

    /// `who` claims back the tokens frozen for the closed proposal `hash`.
    pub open spec fn claim(self, who: AccountId, hash: ProposalHash) -> Result<
        (GovernanceState, Freeze),
        Error,
    > {
        if !self.proposals.contains_key(hash) {
            Err(Error::ProposalNotFound)
        } else if self.proposals[hash].status == Status::Active {
            Err(Error::ProposalStillActive)
        } else {
            self.release_position(who, hash)
        }
    }
}

/// The freeze an account holds once the host ledger has carried out `f` on `current`.
pub open spec fn apply_freeze(current: int, f: Freeze) -> int {
    match f {
        Freeze::Extend(a) => if a as int > current {
            a as int
        } else {
            current
        },
        Freeze::SetTo(a) => a as int,
        Freeze::Thaw => 0,
    }
}

} // verus!
