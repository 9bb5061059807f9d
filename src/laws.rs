//! Laws of the governance engine, proved over its model.
use crate::bounded::MAX_PROPOSALS_ACCOUNT_CAN_VOTE;
use crate::model::{
    accumulate, apply_freeze, collateral, first_index, max_weight, weight_of, GovernanceState,
};
use crate::types::{
    vote_weight, AccountId, BlockNumber, Config, Duration, Error, Freeze, ProposalHash, Status,
    Vote,
};
use vstd::prelude::*;

verus! {

/// Every weight held on a listed proposal is at most the heaviest, and the heaviest is one
/// of them (or zero for an empty list).
pub proof fn lemma_max_weight_bounds(votes: Map<ProposalHash, u32>, list: Seq<ProposalHash>)
    ensures
        forall|i: int| 0 <= i < list.len() ==> weight_of(votes, list[i]) <= max_weight(votes, list),
        list.len() == 0 ==> max_weight(votes, list) == 0,
        list.len() > 0 ==> exists|i: int|
            0 <= i < list.len() && max_weight(votes, list) == weight_of(votes, list[i]),
    decreases list.len(),
{
    if list.len() > 0 {
        let rest = list.drop_last();
        lemma_max_weight_bounds(votes, rest);
        assert forall|i: int| 0 <= i < list.len() implies weight_of(votes, list[i]) <= max_weight(
            votes,
            list,
        ) by {
            if i < list.len() - 1 {
                assert(list[i] == rest[i]);
            }
        }
        if weight_of(votes, list.last()) > max_weight(votes, rest) {
            assert(max_weight(votes, list) == weight_of(votes, list[list.len() - 1]));
        } else if rest.len() == 0 {
            assert(max_weight(votes, list) == weight_of(votes, list[0]));
        } else {
            let i = choose|i: int|
                0 <= i < rest.len() && max_weight(votes, rest) == weight_of(votes, rest[i]);
            assert(list[i] == rest[i]);
        }
    }
}

/// Adding weight on a proposal, and opening it if it was not open, never lowers the heaviest
/// open weight.
pub proof fn lemma_max_weight_grows(
    votes: Map<ProposalHash, u32>,
    list: Seq<ProposalHash>,
    hash: ProposalHash,
    w: u32,
)
    ensures
        max_weight(votes, list) <= max_weight(accumulate(votes, hash, w), list),
        max_weight(votes, list) <= max_weight(accumulate(votes, hash, w), list.push(hash)),
{
    let grown = accumulate(votes, hash, w);
    lemma_max_weight_bounds(votes, list);
    lemma_max_weight_bounds(grown, list);
    lemma_max_weight_bounds(grown, list.push(hash));
    if list.len() > 0 {
        let i = choose|i: int|
            0 <= i < list.len() && max_weight(votes, list) == weight_of(votes, list[i]);
        assert(weight_of(votes, list[i]) <= weight_of(grown, list[i]));
        assert(list.push(hash)[i] == list[i]);
    }
}

/// A fresh engine is well formed.
pub proof fn lemma_genesis_wf(config: Config)
    ensures
        GovernanceState::genesis(config).wf(),
{
}

/// Registration, submission and closing leave every open list and every vote as they were,
/// so they keep the state well formed.
pub proof fn lemma_bookkeeping_keeps_wf(
    s: GovernanceState,
    signer: AccountId,
    who: AccountId,
    hash: ProposalHash,
    duration: Duration,
    now: BlockNumber,
)
    requires
        s.wf(),
    ensures
        s.register(who).wf(),
        s.trust_register(signer, who) is Ok ==> s.trust_register(signer, who)->Ok_0.wf(),
        s.submit(who, hash, duration, now) is Ok ==> s.submit(who, hash, duration, now)->Ok_0.wf(),
        s.close(hash, now) is Ok ==> s.close(hash, now)->Ok_0.wf(),
{
    assert forall|a: AccountId| #[trigger] s.register(who).open_of(a) == s.open_of(a) by {}
    assert forall|a: AccountId| #[trigger] s.register(who).votes_of(a) == s.votes_of(a) by {}
    if s.submit(who, hash, duration, now) is Ok {
        let t = s.submit(who, hash, duration, now)->Ok_0;
        assert forall|a: AccountId| #[trigger] t.open_of(a) == s.open_of(a) by {}
        assert forall|a: AccountId| #[trigger] t.votes_of(a) == s.votes_of(a) by {}
    }
    if s.close(hash, now) is Ok {
        let t = s.close(hash, now)->Ok_0;
        assert forall|a: AccountId| #[trigger] t.open_of(a) == s.open_of(a) by {}
        assert forall|a: AccountId| #[trigger] t.votes_of(a) == s.votes_of(a) by {}
    }
}

/// A successful vote keeps the state well formed.
pub proof fn lemma_vote_keeps_wf(
    s: GovernanceState,
    who: AccountId,
    hash: ProposalHash,
    vote: Vote,
    now: BlockNumber,
    free: u128,
)
    requires
        s.wf(),
        s.vote(who, hash, vote, now, free) is Ok,
    ensures
        s.vote(who, hash, vote, now, free)->Ok_0.0.wf(),
{
    let t = s.vote(who, hash, vote, now, free)->Ok_0.0;
    let list = s.open_of(who);
    let held = s.votes_of(who);
    assert(s.open_of(who).len() <= MAX_PROPOSALS_ACCOUNT_CAN_VOTE);
    assert forall|a: AccountId| #![trigger t.open_of(a)]
        {
            &&& t.open_of(a).len() <= MAX_PROPOSALS_ACCOUNT_CAN_VOTE
            &&& t.open_of(a).no_duplicates()
            &&& forall|h: ProposalHash|
                #![trigger t.votes_of(a).contains_key(h)]
                #![trigger t.open_of(a).contains(h)]
                t.votes_of(a).contains_key(h) <==> t.open_of(a).contains(h)
        } by {
        assert(s.open_of(a).len() <= MAX_PROPOSALS_ACCOUNT_CAN_VOTE);
        if a == who {
            let new_list = t.open_of(a);
            if !list.contains(hash) {
                assert(new_list == list.push(hash));
                assert forall|i: int, j: int|
                    0 <= i < new_list.len() && 0 <= j < new_list.len() && i != j implies new_list[i]
                    != new_list[j] by {
                    if i == list.len() as int {
                        assert(list[j] == new_list[j]);
                    } else if j == list.len() as int {
                        assert(list[i] == new_list[i]);
                    }
                }
                assert forall|h: ProposalHash|
                    h == hash || list.contains(h) implies #[trigger] new_list.contains(h) by {
                    if h == hash {
                        assert(new_list[list.len() as int] == h);
                    } else {
                        let k = choose|k: int| 0 <= k < list.len() && list[k] == h;
                        assert(new_list[k] == h);
                    }
                }
                assert forall|h: ProposalHash|
                    #[trigger] new_list.contains(h) implies h == hash || list.contains(h) by {
                    if h != hash {
                        let k = choose|k: int| 0 <= k < new_list.len() && new_list[k] == h;
                        assert(list[k] == h);
                    }
                }
            }
            assert forall|h: ProposalHash|
                t.votes_of(a).contains_key(h) <==> #[trigger] t.open_of(a).contains(h) by {
                assert(held.contains_key(h) <==> list.contains(h));
            }
        } else {
            assert(t.open_of(a) == s.open_of(a));
            assert(t.votes_of(a) == s.votes_of(a));
        }
    }
}

/// A successful claim keeps the state well formed.
pub proof fn lemma_claim_keeps_wf(s: GovernanceState, who: AccountId, hash: ProposalHash)
    requires
        s.wf(),
        s.claim(who, hash) is Ok,
    ensures
        s.claim(who, hash)->Ok_0.0.wf(),
{
    let t = s.claim(who, hash)->Ok_0.0;
    let list = s.open_of(who);
    let held = s.votes_of(who);
    assert(list.len() <= MAX_PROPOSALS_ACCOUNT_CAN_VOTE && list.no_duplicates());
    let k = choose|k: int| 0 <= k < list.len() && list[k] == hash;
    assert(0 <= k < list.len() && list[k] == hash && forall|j: int| 0 <= j < k ==> list[j] != hash);
    let i = first_index(list, hash);
    assert(i == k);
    let new_list = list.remove(i);
    assert forall|a: AccountId| #![trigger t.open_of(a)]
        {
            &&& t.open_of(a).len() <= MAX_PROPOSALS_ACCOUNT_CAN_VOTE
            &&& t.open_of(a).no_duplicates()
            &&& forall|h: ProposalHash|
                #![trigger t.votes_of(a).contains_key(h)]
                #![trigger t.open_of(a).contains(h)]
                t.votes_of(a).contains_key(h) <==> t.open_of(a).contains(h)
        } by {
        assert(s.open_of(a).len() <= MAX_PROPOSALS_ACCOUNT_CAN_VOTE);
        if a == who {
            assert(t.open_of(a) == new_list);
            assert forall|p: int, q: int|
                0 <= p < new_list.len() && 0 <= q < new_list.len() && p != q implies new_list[p]
                != new_list[q] by {
                let pp = if p < i { p } else { p + 1 };
                let qq = if q < i { q } else { q + 1 };
                assert(new_list[p] == list[pp] && new_list[q] == list[qq]);
            }
            assert forall|h: ProposalHash|
                t.votes_of(a).contains_key(h) <==> #[trigger] t.open_of(a).contains(h) by {
                assert(held.contains_key(h) <==> list.contains(h));
                if new_list.contains(h) {
                    let p = choose|p: int| 0 <= p < new_list.len() && new_list[p] == h;
                    let pp = if p < i { p } else { p + 1 };
                    assert(list[pp] == h && pp != i);
                }
                if h != hash && list.contains(h) {
                    let p = choose|p: int| 0 <= p < list.len() && list[p] == h;
                    assert(p != i);
                    let np = if p < i { p } else { p - 1 };
                    assert(new_list[np] == h);
                }
            }
        } else {
            assert(t.open_of(a) == s.open_of(a));
            assert(t.votes_of(a) == s.votes_of(a));
        }
    }
}

/// Registering the same account twice leaves the same state as registering it once.
pub proof fn lemma_register_idempotent(s: GovernanceState, who: AccountId)
    ensures
        s.register(who).register(who) == s.register(who),
{
    assert(s.register(who).register(who).registered =~= s.register(who).registered);
}

/// An unregistered caller never registers anyone, and the state stays as it was.
pub proof fn lemma_trust_closure(s: GovernanceState, signer: AccountId, who: AccountId)
    requires
        !s.registered.contains(signer),
    ensures
        s.trust_register(signer, who) == Err::<GovernanceState, Error>(Error::NotRegistered),
{
}

/// A successful vote never lowers either tally of the proposal, and adds its weight to the
/// side it was cast on, held at `u32::MAX`.
pub proof fn lemma_vote_tally_grows(
    s: GovernanceState,
    who: AccountId,
    hash: ProposalHash,
    vote: Vote,
    now: BlockNumber,
    free: u128,
)
    requires
        s.vote(who, hash, vote, now, free) is Ok,
    ensures
        ({
            let t = s.vote(who, hash, vote, now, free)->Ok_0.0;
            let (p, q) = (s.proposals[hash], t.proposals[hash]);
            &&& q.aye_votes >= p.aye_votes
            &&& q.nay_votes >= p.nay_votes
            &&& p.aye_votes as int + p.nay_votes as int + vote_weight(vote) <= u32::MAX
                ==> q.aye_votes as int + q.nay_votes as int == p.aye_votes as int
                + p.nay_votes as int + vote_weight(vote)
        }),
{
}

/// The aye weight of a run of votes.
pub open spec fn aye_total(votes: Seq<Vote>) -> int
    decreases votes.len(),
{
    if votes.len() == 0 {
        0
    } else {
        aye_total(votes.drop_last()) + match votes.last() {
            Vote::Aye(n) => n as int,
            Vote::Nay(_) => 0,
        }
    }
}

/// The nay weight of a run of votes.
pub open spec fn nay_total(votes: Seq<Vote>) -> int
    decreases votes.len(),
{
    if votes.len() == 0 {
        0
    } else {
        nay_total(votes.drop_last()) + match votes.last() {
            Vote::Aye(_) => 0,
            Vote::Nay(n) => n as int,
        }
    }
}

/// Over a run of successful votes on one proposal, each tally grows by exactly the weight
/// cast on its side, as long as neither side reaches `u32::MAX`; neither ever decreases.
pub proof fn lemma_tally_sums_votes(
    states: Seq<GovernanceState>,
    voters: Seq<AccountId>,
    hash: ProposalHash,
    votes: Seq<Vote>,
    nows: Seq<BlockNumber>,
    frees: Seq<u128>,
)
    requires
        states.len() == votes.len() + 1,
        voters.len() == votes.len(),
        nows.len() == votes.len(),
        frees.len() == votes.len(),
        forall|i: int|
            0 <= i < votes.len() ==> {
                let r = #[trigger] states[i].vote(voters[i], hash, votes[i], nows[i], frees[i]);
                r is Ok && r->Ok_0.0 == states[i + 1]
            },
        states[0].proposals[hash].aye_votes as int + aye_total(votes) <= u32::MAX,
        states[0].proposals[hash].nay_votes as int + nay_total(votes) <= u32::MAX,
    ensures
        states.last().proposals[hash].aye_votes == states[0].proposals[hash].aye_votes as int
            + aye_total(votes),
        states.last().proposals[hash].nay_votes == states[0].proposals[hash].nay_votes as int
            + nay_total(votes),
        forall|i: int, j: int|
            0 <= i <= j < states.len() ==> states[i].proposals[hash].aye_votes
                <= states[j].proposals[hash].aye_votes && states[i].proposals[hash].nay_votes
                <= states[j].proposals[hash].nay_votes,
    decreases votes.len(),
{
    let n = votes.len();
    if n > 0 {
        let k = n - 1;
        let (s0, sk) = (states.drop_last(), states[k]);
        lemma_tally_sums_votes(
            states.drop_last(),
            voters.drop_last(),
            hash,
            votes.drop_last(),
            nows.drop_last(),
            frees.drop_last(),
        );
        assert(aye_total(votes.drop_last()) <= aye_total(votes));
        assert(nay_total(votes.drop_last()) <= nay_total(votes));
        assert(states[k].vote(voters[k], hash, votes[k], nows[k], frees[k]) is Ok);
        assert(s0.last() == sk);
        assert forall|i: int, j: int|
            0 <= i <= j < states.len() implies states[i].proposals[hash].aye_votes
            <= states[j].proposals[hash].aye_votes && states[i].proposals[hash].nay_votes
            <= states[j].proposals[hash].nay_votes by {
            if i == n {
            } else if j == n {
                assert(s0[i] == states[i]);
                assert(s0[k] == states[k]);
            } else {
                assert(s0[i] == states[i] && s0[j] == states[j]);
            }
        }
    }
}

/// Closing a proposal and claiming tokens back leave every tally as it was.
pub proof fn lemma_close_and_claim_keep_tallies(
    s: GovernanceState,
    hash: ProposalHash,
    other: ProposalHash,
    who: AccountId,
    now: BlockNumber,
)
    requires
        s.proposals.contains_key(hash),
    ensures
        s.close(other, now) is Ok ==> {
            let q = s.close(other, now)->Ok_0.proposals[hash];
            q.aye_votes == s.proposals[hash].aye_votes && q.nay_votes
                == s.proposals[hash].nay_votes
        },
        s.claim(who, other) is Ok ==> s.claim(who, other)->Ok_0.0.proposals == s.proposals,
{
}

/// After a successful vote, a ledger that carries out the returned freeze holds exactly the
/// voter's new collateral, the square of its heaviest open vote, if it held the old one; no
/// other account's collateral moves.
pub proof fn lemma_collateral_after_vote(
    s: GovernanceState,
    who: AccountId,
    hash: ProposalHash,
    vote: Vote,
    now: BlockNumber,
    free: u128,
    frozen: int,
)
    requires
        s.vote(who, hash, vote, now, free) is Ok,
        frozen == s.collateral_of(who),
    ensures
        ({
            let (t, f) = s.vote(who, hash, vote, now, free)->Ok_0;
            &&& apply_freeze(frozen, f) == t.collateral_of(who)
            &&& forall|a: AccountId| a != who ==> t.collateral_of(a) == s.collateral_of(a)
        }),
{
    let (t, f) = s.vote(who, hash, vote, now, free)->Ok_0;
    let w = match vote {
        Vote::Aye(n) => n,
        Vote::Nay(n) => n,
    };
    let list = s.open_of(who);
    lemma_max_weight_grows(s.votes_of(who), list, hash, w);
    let old_max = max_weight(s.votes_of(who), list);
    let new_max = max_weight(t.votes_of(who), t.open_of(who));
    assert(old_max <= new_max);
    assert(old_max as int * old_max as int <= new_max as int * new_max as int) by (nonlinear_arith)
        requires
            old_max <= new_max,
    ;
    assert forall|a: AccountId| a != who implies t.collateral_of(a) == s.collateral_of(a) by {
        assert(t.votes_of(a) == s.votes_of(a));
        assert(t.open_of(a) == s.open_of(a));
    }
}

/// After a successful claim, the returned freeze sets the ledger to the collateral of what
/// stays open, whatever it held before; it thaws exactly when that collateral is zero. No
/// other account's collateral moves.
pub proof fn lemma_collateral_after_claim(
    s: GovernanceState,
    who: AccountId,
    hash: ProposalHash,
    frozen: int,
)
    requires
        s.claim(who, hash) is Ok,
    ensures
        ({
            let (t, f) = s.claim(who, hash)->Ok_0;
            &&& apply_freeze(frozen, f) == t.collateral_of(who)
            &&& (f == Freeze::Thaw) == (t.collateral_of(who) == 0)
            &&& t.collateral_of(who) == collateral(
                s.votes_of(who).remove(hash),
                t.open_of(who),
            )
            &&& forall|a: AccountId| a != who ==> t.collateral_of(a) == s.collateral_of(a)
        }),
{
    let (t, f) = s.claim(who, hash)->Ok_0;
    assert forall|a: AccountId| a != who implies t.collateral_of(a) == s.collateral_of(a) by {
        assert(t.votes_of(a) == s.votes_of(a));
        assert(t.open_of(a) == s.open_of(a));
    }
}

/// A registered account's vote on a closed proposal fails, so its tally stays as it is.
pub proof fn lemma_closed_proposal_rejects_votes(
    s: GovernanceState,
    who: AccountId,
    hash: ProposalHash,
    vote: Vote,
    now: BlockNumber,
    free: u128,
)
    requires
        s.proposals.contains_key(hash),
        s.proposals[hash].status != Status::Active,
        s.registered.contains(who),
    ensures
        s.vote(who, hash, vote, now, free) == Err::<(GovernanceState, Freeze), Error>(
            Error::VotingOnClosedProposalNotAllowed,
        ),
{
}

/// A closed proposal is left as it is by every successful close and claim.
pub proof fn lemma_closed_proposal_unchanged(
    s: GovernanceState,
    hash: ProposalHash,
    other: ProposalHash,
    who: AccountId,
    now: BlockNumber,
)
    requires
        s.proposals.contains_key(hash),
        s.proposals[hash].status != Status::Active,
    ensures
        s.close(other, now) is Ok ==> s.close(other, now)->Ok_0.proposals[hash]
            == s.proposals[hash],
        s.claim(who, other) is Ok ==> s.claim(who, other)->Ok_0.0.proposals[hash]
            == s.proposals[hash],
{
}

/// A proposal cannot be closed one block before its deadline, and can be at its deadline.
pub proof fn lemma_deadline_boundary(s: GovernanceState, hash: ProposalHash)
    requires
        s.proposals.contains_key(hash),
        s.proposals[hash].status == Status::Active,
        s.proposals[hash].deadline > 0,
    ensures
        s.close(hash, (s.proposals[hash].deadline - 1) as BlockNumber) == Err::<
            GovernanceState,
            Error,
        >(Error::ProposalDeadlineNotPassed),
        s.close(hash, s.proposals[hash].deadline) is Ok,
{
}

/// A vote that would open one more proposal for an account already at its bound fails.
pub proof fn lemma_capacity_bound(
    s: GovernanceState,
    who: AccountId,
    hash: ProposalHash,
    vote: Vote,
    now: BlockNumber,
    free: u128,
)
    requires
        s.vote_check(who, hash, now) is Ok,
        s.open_of(who).len() == MAX_PROPOSALS_ACCOUNT_CAN_VOTE,
        !s.open_of(who).contains(hash),
    ensures
        s.vote(who, hash, vote, now, free) == Err::<(GovernanceState, Freeze), Error>(
            Error::VoteProposalsExceeded,
        ),
{
}

/// A proposal whose tallies are equal closes as failed.
pub proof fn lemma_tie_fails(s: GovernanceState, hash: ProposalHash, now: BlockNumber)
    requires
        s.close(hash, now) is Ok,
        s.proposals[hash].aye_votes == s.proposals[hash].nay_votes,
    ensures
        s.close(hash, now)->Ok_0.proposals[hash].status == Status::Failed,
{
}

} // verus!
