//! The engine: trust registry, proposal store, vote ledger and collateral engine.
use crate::bounded::{
    list_clone, list_contains, list_get, list_items, list_len, list_new, list_remove,
    list_try_push, ProposalList,
};
use crate::laws::{
    lemma_bookkeeping_keeps_wf, lemma_claim_keeps_wf, lemma_genesis_wf, lemma_vote_keeps_wf,
};
use crate::model::{accumulate, collateral, first_index, max_weight, weight_of, GovernanceState};
use crate::types::{
    closed_status, vote_event, vote_weight, AccountId, Balance, BlockNumber, Config, Duration,
    Error, Event, Freeze, Proposal, ProposalHash, Status, Vote, BLOCKS_IN_WEEK,
};
use std::collections::HashMap;
use vstd::prelude::*;

verus! {

/// The governance engine and everything it stores.
pub struct Pallet {
    config: Config,
    registered_accounts: HashMap<AccountId, bool>,
    submitted_proposals: HashMap<ProposalHash, Proposal>,
    account_votes: HashMap<AccountId, HashMap<ProposalHash, u32>>,
    account_proposals_map: HashMap<AccountId, ProposalList>,
}

impl View for Pallet {
    type V = GovernanceState;

    closed spec fn view(&self) -> GovernanceState {
        GovernanceState {
            config: self.config,
            registered: self.registered_accounts@.dom(),
            proposals: self.submitted_proposals@,
            votes: self.account_votes@.map_values(|m: HashMap<ProposalHash, u32>| m@),
            open: self.account_proposals_map@.map_values(|v: ProposalList| list_items(v)),
        }
    }
}

impl Pallet {
    /// A fresh engine: nobody registered, no proposals, no votes.
    pub fn new(config: Config) -> (r: Pallet)
        ensures
            r@ == GovernanceState::genesis(config),
            r@.wf(),
    {
        let r = Pallet {
            config,
            registered_accounts: HashMap::new(),
            submitted_proposals: HashMap::new(),
            account_votes: HashMap::new(),
            account_proposals_map: HashMap::new(),
        };
        proof {
            assert(r@.registered =~= Set::empty());
            assert(r@.votes =~= Map::empty());
            assert(r@.open =~= Map::empty());
            lemma_genesis_wf(config);
        }
        r
    }

    /// Register account: a privileged call that allows `who` to vote on proposals.
    pub fn register_account(&mut self, who: AccountId) -> (r: Event)
        ensures
            final(self)@ == old(self)@.register(who),
            r == (Event::AccountRegistered { who }),
            old(self)@.wf() ==> final(self)@.wf(),
    {
        self.registered_accounts.insert(who, true);
        proof {
            assert(self@.registered =~= old(self)@.registered.insert(who));
            if old(self)@.wf() {
                lemma_bookkeeping_keeps_wf(old(self)@, who, who, 0, Duration::Tier1, 0);
            }
        }
        Event::AccountRegistered { who }
    }

    /// Circle of trust register account: an already registered `signer` registers `who`.
    pub fn circle_of_trust_register_account(&mut self, signer: AccountId, who: AccountId) -> (r:
        Result<Event, Error>)
        ensures
            match r {
                Ok(e) => old(self)@.trust_register(signer, who) == Ok::<GovernanceState, Error>(
                    final(self)@,
                ) && e == (Event::AccountRegistered { who }),
                Err(e) => old(self)@.trust_register(signer, who) == Err::<GovernanceState, Error>(
                    e,
                ) && final(self)@ == old(self)@,
            },
            old(self)@.wf() ==> final(self)@.wf(),
    {
        if self.registered_accounts.contains_key(&signer) {
            let e = self.register_account(who);
            proof {
                if old(self)@.wf() {
                    lemma_bookkeeping_keeps_wf(old(self)@, signer, who, 0, Duration::Tier1, 0);
                }
            }
            Ok(e)
        } else {
            Err(Error::NotRegistered)
        }
    }

    /// Submit a proposal: `who` submits `proposal` at block `now`, open for the weeks of
    /// `duration`.
    pub fn submit_proposal(
        &mut self,
        who: AccountId,
        proposal: ProposalHash,
        duration: Duration,
        now: BlockNumber,
    ) -> (r: Result<Event, Error>)
        ensures
            match r {
                Ok(e) => old(self)@.submit(who, proposal, duration, now) == Ok::<
                    GovernanceState,
                    Error,
                >(final(self)@) && e == (Event::ProposalCreated { who, proposal }),
                Err(e) => old(self)@.submit(who, proposal, duration, now) == Err::<
                    GovernanceState,
                    Error,
                >(e) && final(self)@ == old(self)@,
            },
            old(self)@.wf() ==> final(self)@.wf(),
    {
        if self.submitted_proposals.contains_key(&proposal) {
            return Err(Error::AlreadySubmitted);
        }
        let tier: u8 = match duration {
            Duration::Tier1 => self.config.proposal_duration_tier1,
            Duration::Tier2 => self.config.proposal_duration_tier2,
            Duration::Tier3 => self.config.proposal_duration_tier3,
        };
        assert(tier as int * BLOCKS_IN_WEEK as int <= 255 * 100800) by (nonlinear_arith)
            requires
                tier <= 255,
                BLOCKS_IN_WEEK == 100800,
        ;
        let duration_in_blocks: u32 = tier as u32 * BLOCKS_IN_WEEK;
        let deadline = now.saturating_add(duration_in_blocks as u64);
        let metadata = Proposal {
            status: Status::Active,
            deadline,
            owner: who,
            aye_votes: 0,
            nay_votes: 0,
        };
        self.submitted_proposals.insert(proposal, metadata);
        proof {
            if old(self)@.wf() {
                lemma_bookkeeping_keeps_wf(old(self)@, who, who, proposal, duration, now);
            }
        }
        Ok(Event::ProposalCreated { who, proposal })
    }

    /// Cast votes on a proposal: `who` votes at block `now`, holding `free_balance` unfrozen
    /// tokens. On success the host ledger is to carry out the returned freeze.
    pub fn cast_vote(
        &mut self,
        who: AccountId,
        proposal: ProposalHash,
        vote: Vote,
        now: BlockNumber,
        free_balance: Balance,
    ) -> (r: Result<(Event, Freeze), Error>)
        ensures
            match r {
                Ok((e, f)) => old(self)@.vote(who, proposal, vote, now, free_balance) == Ok::<
                    (GovernanceState, Freeze),
                    Error,
                >((final(self)@, f)) && e == vote_event(who, proposal, vote, vote_weight(vote)),
                Err(e) => old(self)@.vote(who, proposal, vote, now, free_balance) == Err::<
                    (GovernanceState, Freeze),
                    Error,
                >(e) && final(self)@ == old(self)@,
            },
            old(self)@.wf() ==> final(self)@.wf(),
    {
        match self.verify_vote_conditions(who, proposal, now) {
            Ok(()) => {},
            Err(e) => {
                return Err(e);
            },
        }
        let votes = Self::extract_votes(&vote);
        let freeze = match self.insert_and_update_account_frozen_balance(
            who,
            proposal,
            votes,
            free_balance,
        ) {
            Ok(f) => f,
            Err(e) => {
                return Err(e);
            },
        };
        match self.add_votes_to_proposal(proposal, &vote) {
            Ok(()) => {},
            Err(e) => {
                return Err(e);
            },
        }
        proof {
            if old(self)@.wf() {
                lemma_vote_keeps_wf(old(self)@, who, proposal, vote, now, free_balance);
            }
        }
        Ok((Self::get_vote_event(who, proposal, &vote, votes), freeze))
    }

    /// Close a proposal whose deadline has passed: it passes on a strict majority of ayes
    /// and fails otherwise. Anyone may close it.
    pub fn close_proposal(&mut self, who: AccountId, hash: ProposalHash, now: BlockNumber) -> (r:
        Result<Event, Error>)
        ensures
            match r {
                Ok(e) => old(self)@.close(hash, now) == Ok::<GovernanceState, Error>(final(self)@)
                    && e == (Event::ProposalClosed { who, hash }),
                Err(e) => old(self)@.close(hash, now) == Err::<GovernanceState, Error>(e)
                    && final(self)@ == old(self)@,
            },
            old(self)@.wf() ==> final(self)@.wf(),
    {
        let mut proposal = match self.get_proposal(hash) {
            Ok(p) => p,
            Err(e) => {
                return Err(e);
            },
        };
        if proposal.status != Status::Active {
            return Err(Error::ProposalNotActive);
        }
        if now >= proposal.deadline {
            Self::set_proposal_closed_status(&mut proposal);
            self.submitted_proposals.insert(hash, proposal);
            proof {
                if old(self)@.wf() {
                    lemma_bookkeeping_keeps_wf(old(self)@, who, who, hash, Duration::Tier1, now);
                }
            }
            Ok(Event::ProposalClosed { who, hash })
        } else {
            Err(Error::ProposalDeadlineNotPassed)
        }
    }

    /// Unfreeze tokens for a voting account: once `proposal_hash` is closed, `who` gives up
    /// its position on it. On success the host ledger is to carry out the returned freeze.
    pub fn claim_back_tokens(&mut self, who: AccountId, proposal_hash: ProposalHash) -> (r: Result<
        (Event, Freeze),
        Error,
    >)
        ensures
            match r {
                Ok((e, f)) => old(self)@.claim(who, proposal_hash) == Ok::<
                    (GovernanceState, Freeze),
                    Error,
                >((final(self)@, f)) && e == (Event::TokensClaimed { who }),
                Err(e) => old(self)@.claim(who, proposal_hash) == Err::<
                    (GovernanceState, Freeze),
                    Error,
                >(e) && final(self)@ == old(self)@,
            },
            old(self)@.wf() ==> final(self)@.wf(),
    {
        let proposal = match self.get_proposal(proposal_hash) {
            Ok(p) => p,
            Err(e) => {
                return Err(e);
            },
        };
        match Self::check_proposal_is_closed(&proposal) {
            Ok(()) => {},
            Err(e) => {
                return Err(e);
            },
        }
        match self.update_account_frozen_balance_after_claim(who, proposal_hash) {
            Ok(f) => {
                proof {
                    if old(self)@.wf() {
                        lemma_claim_keeps_wf(old(self)@, who, proposal_hash);
                    }
                }
                Ok((Event::TokensClaimed { who }, f))
            },
            Err(e) => Err(e),
        }
    }

    /// Convert a block number to the balance type.
    pub fn convert_block_number_to_balance(block_number: BlockNumber) -> (r: Balance)
        ensures
            r == block_number,
    {
        block_number as Balance
    }

    /// Get a proposal from the store.
    pub fn get_proposal(&self, hash: ProposalHash) -> (r: Result<Proposal, Error>)
        ensures
            r == (if self@.proposals.contains_key(hash) {
                Ok::<Proposal, Error>(self@.proposals[hash])
            } else {
                Err::<Proposal, Error>(Error::ProposalNotFound)
            }),
    {
        match self.submitted_proposals.get(&hash) {
            Some(p) => Ok(*p),
            None => Err(Error::ProposalNotFound),
        }
    }

    /// Check if a proposal has closed.
    pub fn check_proposal_is_closed(proposal: &Proposal) -> (r: Result<(), Error>)
        ensures
            r == (if proposal.status == Status::Active {
                Err::<(), Error>(Error::ProposalStillActive)
            } else {
                Ok::<(), Error>(())
            }),
    {
        if proposal.status == Status::Active {
            Err(Error::ProposalStillActive)
        } else {
            Ok(())
        }
    }

    /// Verify that `who` may vote on `proposal_hash` at block `now`.
    pub fn verify_vote_conditions(
        &self,
        who: AccountId,
        proposal_hash: ProposalHash,
        now: BlockNumber,
    ) -> (r: Result<(), Error>)
        ensures
            r == self@.vote_check(who, proposal_hash, now),
    {
        let fetched = match self.submitted_proposals.get(&proposal_hash) {
            Some(p) => *p,
            None => {
                return Err(Error::ProposalNotFound);
            },
        };
        if !self.registered_accounts.contains_key(&who) {
            Err(Error::NotRegistered)
        } else if fetched.status != Status::Active {
            Err(Error::VotingOnClosedProposalNotAllowed)
        } else if now >= fetched.deadline {
            Err(Error::ProposalNotActive)
        } else {
            Ok(())
        }
    }

    /// Add a vote to a proposal's tally, held at `u32::MAX`.
    pub fn add_votes_to_proposal(&mut self, hash: ProposalHash, vote: &Vote) -> (r: Result<
        (),
        Error,
    >)
        ensures
            old(self)@.proposals.contains_key(hash) ==> r is Ok && final(self)@ == old(
                self,
            )@.tally(hash, *vote),
            !old(self)@.proposals.contains_key(hash) ==> r == Err::<(), Error>(
                Error::ProposalNotFound,
            ) && final(self)@ == old(self)@,
    {
        let mut p = match self.get_proposal(hash) {
            Ok(p) => p,
            Err(e) => {
                return Err(e);
            },
        };
        match vote {
            Vote::Aye(n) => {
                p.aye_votes = p.aye_votes.saturating_add(*n);
            },
            Vote::Nay(n) => {
                p.nay_votes = p.nay_votes.saturating_add(*n);
            },
        }
        self.submitted_proposals.insert(hash, p);
        Ok(())
    }

    /// The weight a vote carries.
    pub fn extract_votes(vote: &Vote) -> (r: u32)
        ensures
            r == vote_weight(*vote),
    {
        match vote {
            Vote::Aye(n) => *n,
            Vote::Nay(n) => *n,
        }
    }

    /// The event that reports a vote of `votes` by `who` on `proposal`.
    pub fn get_vote_event(who: AccountId, proposal: ProposalHash, vote: &Vote, votes: u32) -> (r:
        Event)
        ensures
            r == vote_event(who, proposal, *vote, votes),
    {
        match vote {
            Vote::Aye(_) => Event::VotedAye { who, proposal, votes },
            Vote::Nay(_) => Event::VotedNay { who, proposal, votes },
        }
    }

    /// Store `votes` more of `who` on `proposal` in the vote ledger, held at `u32::MAX`.
    pub fn persist_account_vote_tokens(
        &mut self,
        who: AccountId,
        proposal: ProposalHash,
        votes: u32,
    ) -> (r: Result<(), Error>)
        ensures
            match r {
                Ok(()) => old(self)@.record_vote(who, proposal, votes) == Ok::<
                    GovernanceState,
                    Error,
                >(final(self)@),
                Err(e) => old(self)@.record_vote(who, proposal, votes) == Err::<
                    GovernanceState,
                    Error,
                >(e) && final(self)@ == old(self)@,
            },
    {
        if !self.submitted_proposals.contains_key(&proposal) {
            return Err(Error::ProposalNotFound);
        }
        let mut held = self.account_vote_map(who);
        let w: u32 = match held.get(&proposal) {
            Some(n) => n.saturating_add(votes),
            None => votes,
        };
        held.insert(proposal, w);
        self.account_votes.insert(who, held);
        proof {
            assert(held@ =~= accumulate(old(self)@.votes_of(who), proposal, votes));
            assert(self@.votes =~= old(self)@.votes.insert(who, held@));
        }
        Ok(())
    }

    /// Update an account's frozen balance after a vote of `votes` on `proposal_hash`: the
    /// position is opened if it is new, and the collateral checked against `free_balance`
    /// before anything is stored.
    pub fn insert_and_update_account_frozen_balance(
        &mut self,
        who: AccountId,
        proposal_hash: ProposalHash,
        votes: u32,
        free_balance: Balance,
    ) -> (r: Result<Freeze, Error>)
        ensures
            match r {
                Ok(f) => old(self)@.record_position(who, proposal_hash, votes, free_balance)
                    == Ok::<
                    (GovernanceState, Freeze),
                    Error,
                >((final(self)@, f)),
                Err(e) => old(self)@.record_position(who, proposal_hash, votes, free_balance)
                    == Err::<
                    (GovernanceState, Freeze),
                    Error,
                >(e) && final(self)@ == old(self)@,
            },
    {
        if !self.submitted_proposals.contains_key(&proposal_hash) {
            return Err(Error::ProposalNotFound);
        }
        let mut held = self.account_vote_map(who);
        let w: u32 = match held.get(&proposal_hash) {
            Some(n) => n.saturating_add(votes),
            None => votes,
        };
        held.insert(proposal_hash, w);
        assert(held@ =~= accumulate(old(self)@.votes_of(who), proposal_hash, votes));
        let mut proposals = self.account_proposal_list(who);
        if !list_contains(&proposals, proposal_hash) {
            match list_try_push(&mut proposals, proposal_hash) {
                Ok(()) => {},
                Err(_) => {
                    return Err(Error::VoteProposalsExceeded);
                },
            }
        }
        let frozen = match Self::get_frozen_balance(&held, &proposals) {
            Ok(c) => c,
            Err(e) => {
                return Err(e);
            },
        };
        if free_balance < frozen as Balance {
            return Err(Error::NotEnoughTokens);
        }
        match self.persist_account_vote_tokens(who, proposal_hash, votes) {
            Ok(()) => {},
            Err(e) => {
                return Err(e);
            },
        }
        self.account_proposals_map.insert(who, proposals);
        proof {
            assert(self@.open =~= old(self)@.open.insert(who, list_items(proposals)));
        }
        Ok(Freeze::Extend(frozen))
    }

    /// Set a closed proposal's status from its tally.
    pub fn set_proposal_closed_status(proposal: &mut Proposal)
        ensures
            *final(proposal) == (Proposal {
                status: closed_status(old(proposal).aye_votes, old(proposal).nay_votes),
                ..*old(proposal)
            }),
    {
        if proposal.aye_votes > proposal.nay_votes {
            proposal.status = Status::Passed;
        } else {
            proposal.status = Status::Failed;
        }
    }

    /// Whether `who` is registered.
    pub fn is_registered(&self, who: AccountId) -> (r: bool)
        ensures
            r == self@.registered.contains(who),
    {
        self.registered_accounts.contains_key(&who)
    }

    /// The weight `who` holds on `proposal`, if any.
    pub fn account_votes(&self, who: AccountId, proposal: ProposalHash) -> (r: Option<u32>)
        ensures
            r == (if self@.votes_of(who).contains_key(proposal) {
                Some(self@.votes_of(who)[proposal])
            } else {
                None::<u32>
            }),
    {
        match self.account_votes.get(&who) {
            Some(m) => match m.get(&proposal) {
                Some(w) => Some(*w),
                None => None,
            },
            None => None,
        }
    }

    /// The proposals `who` holds an open position in, oldest first.
    pub fn account_proposals(&self, who: AccountId) -> (r: Vec<ProposalHash>)
        ensures
            r@ == self@.open_of(who),
    {
        let list = self.account_proposal_list(who);
        let n = list_len(&list);
        let mut out: Vec<ProposalHash> = Vec::new();
        let mut i: usize = 0;
        while i < n
            invariant
                n as int == list_items(list).len(),
                i <= n,
                out@ == list_items(list).take(i as int),
            decreases n - i,
        {
            out.push(list_get(&list, i));
            assert(list_items(list).take(i as int + 1) =~= list_items(list).take(i as int).push(
                list_items(list)[i as int],
            ));
            i += 1;
        }
        assert(list_items(list).take(n as int) =~= list_items(list));
        out
    }

    /// The duration of each tier.
    pub fn config(&self) -> (r: Config)
        ensures
            r == self@.config,
    {
        self.config
    }
    /// The weights `who` holds, by proposal, as a map of its own.
    fn account_vote_map(&self, who: AccountId) -> (r: HashMap<ProposalHash, u32>)
        ensures
            r@ == self@.votes_of(who),
    {
        match self.account_votes.get(&who) {
            Some(m) => m.clone(),
            None => HashMap::new(),
        }
    }

    /// The proposals `who` holds an open position in, as a list of its own.
    fn account_proposal_list(&self, who: AccountId) -> (r: ProposalList)
        ensures
            list_items(r) == self@.open_of(who),
    {
        match self.account_proposals_map.get(&who) {
            Some(v) => list_clone(v),
            None => list_new(),
        }
    }

    /// Return the frozen balance that the weights `votes` on the proposals `proposals` call
    /// for: the square of the heaviest of them.
    pub fn get_frozen_balance(votes: &HashMap<ProposalHash, u32>, proposals: &ProposalList) -> (r:
        Result<u32, Error>)
        ensures
            r == (if collateral(votes@, list_items(*proposals)) > u32::MAX {
                Err::<u32, Error>(Error::ArithmeticError)
            } else {
                Ok::<u32, Error>(collateral(votes@, list_items(*proposals)) as u32)
            }),
    {
        let ghost items = list_items(*proposals);
        let n = list_len(proposals);
        let mut i: usize = 0;
        let mut heaviest: u32 = 0;
        while i < n
            invariant
                items == list_items(*proposals),
                n as int == items.len(),
                i <= n,
                heaviest == max_weight(votes@, items.take(i as int)),
            decreases n - i,
        {
            let hash = list_get(proposals, i);
            let w: u32 = match votes.get(&hash) {
                Some(x) => *x,
                None => 0,
            };
            assert(w == weight_of(votes@, hash));
            if w > heaviest {
                heaviest = w;
            }
            assert(items.take(i as int + 1).drop_last() =~= items.take(i as int));
            assert(items.take(i as int + 1).last() == hash);
            i += 1;
        }
        assert(items.take(n as int) =~= items);
        match heaviest.checked_mul(heaviest) {
            Some(sq) => Ok(sq),
            None => Err(Error::ArithmeticError),
        }
    }

    /// Update an account's frozen balance after claiming back tokens: the position on
    /// `proposal_hash` is given up and the collateral derived from what remains open.
    pub fn update_account_frozen_balance_after_claim(
        &mut self,
        who: AccountId,
        proposal_hash: ProposalHash,
    ) -> (r: Result<Freeze, Error>)
        ensures
            match r {
                Ok(f) => old(self)@.release_position(who, proposal_hash) == Ok::<
                    (GovernanceState, Freeze),
                    Error,
                >((final(self)@, f)),
                Err(e) => old(self)@.release_position(who, proposal_hash) == Err::<
                    (GovernanceState, Freeze),
                    Error,
                >(e) && final(self)@ == old(self)@,
            },
    {
        let mut proposals = self.account_proposal_list(who);
        let ghost items = list_items(proposals);
        let n = list_len(&proposals);
        let mut j: usize = 0;
        while j < n && list_get(&proposals, j) != proposal_hash
            invariant
                n as int == items.len(),
                list_items(proposals) == items,
                j <= n,
                forall|k: int| 0 <= k < j ==> items[k] != proposal_hash,
            decreases n - j,
        {
            j += 1;
        }
        if j == n {
            assert(!items.contains(proposal_hash));
            return Err(Error::ProposalNotFound);
        }
        assert(items[j as int] == proposal_hash);
        assert(items.contains(proposal_hash));
        assert(first_index(items, proposal_hash) == j as int) by {
            let f = first_index(items, proposal_hash);
            assert(0 <= f < items.len() && items[f] == proposal_hash && forall|k: int|
                0 <= k < f ==> items[k] != proposal_hash);
            if f < j {
            } else if f > j {
            }
        };
        list_remove(&mut proposals, j);
        let mut votes = self.account_vote_map(who);
        votes.remove(&proposal_hash);
        let frozen = match Self::get_frozen_balance(&votes, &proposals) {
            Ok(c) => c,
            Err(e) => {
                return Err(e);
            },
        };
        self.account_votes.insert(who, votes);
        self.account_proposals_map.insert(who, proposals);
        proof {
            assert(self@.votes =~= old(self)@.votes.insert(who, votes@));
            assert(self@.open =~= old(self)@.open.insert(who, list_items(proposals)));
        }
        if frozen > 0 {
            Ok(Freeze::SetTo(frozen))
        } else {
            Ok(Freeze::Thaw)
        }
    }
}

} // verus!
