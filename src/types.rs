//! Plain data of the governance engine: votes, proposals, events, errors.
use vstd::prelude::*;

verus! {

/// An account, as the host ledger identifies it.
pub type AccountId = u64;

/// The content fingerprint of a proposal, supplied by the caller and assumed collision-free.
pub type ProposalHash = u64;

/// A block height of the host ledger.
pub type BlockNumber = u64;

/// An amount of the host ledger's native token.
pub type Balance = u128;

/// Seconds in one week.
pub const WEEK_IN_SECONDS: u32 = 604800;

/// Seconds between two blocks.
pub const BLOCK_TIME_SECONDS: u32 = 6;

/// Blocks produced in one week.
pub const BLOCKS_IN_WEEK: u32 = WEEK_IN_SECONDS / BLOCK_TIME_SECONDS;

/// A vote on a proposal, with its weight.
#[derive(Clone, Copy, PartialEq, Eq, Structural, Debug)]
pub enum Vote {
    Aye(u32),
    Nay(u32),
}

/// Status of a proposal.
#[derive(Clone, Copy, PartialEq, Eq, Structural, Debug)]
pub enum Status {
    Active,
    Failed,
    Passed,
}

/// Duration tiers for a proposal.
#[derive(Clone, Copy, PartialEq, Eq, Structural, Debug)]
pub enum Duration {
    Tier1,
    Tier2,
    Tier3,
}

/// Proposal data.
#[derive(Clone, Copy, PartialEq, Eq, Structural, Debug)]
pub struct Proposal {
    pub status: Status,
    pub deadline: BlockNumber,
    pub owner: AccountId,
    pub aye_votes: u32,
    pub nay_votes: u32,
}

/// What a successful call reports.
#[derive(Clone, Copy, PartialEq, Eq, Structural, Debug)]
pub enum Event {
    /// Account has been registered.
    AccountRegistered { who: AccountId },
    /// Proposal has been created.
    ProposalCreated { who: AccountId, proposal: ProposalHash },
    /// Proposal has been closed.
    ProposalClosed { who: AccountId, hash: ProposalHash },
    /// Account has voted aye.
    VotedAye { who: AccountId, proposal: ProposalHash, votes: u32 },
    /// Account has voted nay.
    VotedNay { who: AccountId, proposal: ProposalHash, votes: u32 },
    /// Tokens have been unfrozen.
    TokensClaimed { who: AccountId },
}

/// A reason for freezing funds.
#[derive(Clone, Copy, PartialEq, Eq, Structural, Debug)]
pub enum FreezeReason {
    ProposalVote,
}

/// What the host ledger must do to an account's freeze for `FreezeReason::ProposalVote`.
#[derive(Clone, Copy, PartialEq, Eq, Structural, Debug)]
pub enum Freeze {
    /// Raise the freeze to at least this amount.
    Extend(u32),
    /// Set the freeze to exactly this amount.
    SetTo(u32),
    /// Release the freeze entirely.
    Thaw,
}

/// Errors to inform users that something went wrong.
#[derive(Clone, Copy, PartialEq, Eq, Structural, Debug)]
pub enum Error {
    /// The voting account is not registered.
    NotRegistered,
    /// The proposal hash has already been submitted.
    AlreadySubmitted,
    /// Cannot close proposal before deadline.
    ProposalDeadlineNotPassed,
    /// The proposal doesn't exist.
    ProposalNotFound,
    /// Tokens can't be claimed back while the proposal is still active.
    ProposalStillActive,
    /// Cannot close or vote on an inactive proposal.
    ProposalNotActive,
    /// Account doesn't have enough tokens to vote.
    NotEnoughTokens,
    /// No votes for proposal. The engine keeps its vote ledger and open lists in step, so
    /// none of its operations returns this.
    NoVotesFoundForAccount,
    /// Arithmetic error.
    ArithmeticError,
    /// Exceeded amount of proposals account can vote on.
    VoteProposalsExceeded,
    /// Cannot vote on a closed proposal.
    VotingOnClosedProposalNotAllowed,
}

/// The duration of each tier, in weeks.
#[derive(Clone, Copy, PartialEq, Eq, Structural, Debug)]
pub struct Config {
    pub proposal_duration_tier1: u8,
    pub proposal_duration_tier2: u8,
    pub proposal_duration_tier3: u8,
}

/// The weight that a vote carries.
pub open spec fn vote_weight(vote: Vote) -> u32 {
    match vote {
        Vote::Aye(n) => n,
        Vote::Nay(n) => n,
    }
}

/// The event that reports a vote.
pub open spec fn vote_event(
    who: AccountId,
    proposal: ProposalHash,
    vote: Vote,
    votes: u32,
) -> Event {
    match vote {
        Vote::Aye(_) => Event::VotedAye { who, proposal, votes },
        Vote::Nay(_) => Event::VotedNay { who, proposal, votes },
    }
}

/// `a + b`, held at `u32::MAX`.
pub open spec fn sat_add(a: u32, b: u32) -> u32 {
    if a as int + b as int > u32::MAX as int {
        u32::MAX
    } else {
        (a + b) as u32
    }
}

/// The number of weeks a tier lasts.
pub open spec fn tier_weeks(config: Config, duration: Duration) -> u8 {
    match duration {
        Duration::Tier1 => config.proposal_duration_tier1,
        Duration::Tier2 => config.proposal_duration_tier2,
        Duration::Tier3 => config.proposal_duration_tier3,
    }
}

/// The status a proposal closes with: passed on a strict majority of ayes, failed otherwise.
pub open spec fn closed_status(aye_votes: u32, nay_votes: u32) -> Status {
    if aye_votes > nay_votes {
        Status::Passed
    } else {
        Status::Failed
    }
}

} // verus!
