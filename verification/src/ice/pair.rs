//! Candidate pairs: their priority, their order, and how a new candidate
//! is paired with the candidates of the other side.

use super::types::{Candidate, MAX_CANDIDATE_PRIORITY};
use vstd::prelude::*;

verus! {

/// The most pairs that the agent keeps.
pub const MAX_PAIRS: usize = 100;

/// The most checks that may be in flight at once.
pub const MAX_CONCURRENT: usize = 10;

/// The weight of the smaller priority in a pair's priority: 2^32.
pub const PRIORITY_SCALE: u64 = 4294967296;

/// How far the check of one pair has come.
#[derive(Clone, Copy, Debug, PartialEq, Eq, Structural)]
pub enum CheckState {
    Waiting,
    InProgress,
    Succeeded,
    Failed,
}

/// A local and a remote candidate considered together.
#[derive(Clone, Copy, Debug)]
pub struct CandidatePair {
    /// Index into the local candidates.
    pub local_idx: usize,
    /// Index into the remote candidates.
    pub remote_idx: usize,
    /// Priority of the pair: the pairs are ordered by it.
    pub prio: u64,
    /// Current state of checking the pair.
    pub state: CheckState,
    /// The time a binding request was sent for this pair.
    pub attempted: Option<u64>,
    /// Transaction id of that request, to match the response with it.
    pub trans_id: Option<[u8; 12]>,
}

/// The priority of a pair, where `g` is the priority of the candidate that
/// the controlling agent provided and `d` that of the controlled agent's.
pub open spec fn pair_priority_of(g: u32, d: u32) -> int {
    4294967296 * (if g < d { g as int } else { d as int })
        + 2 * (if g < d { d as int } else { g as int })
        + (if g > d { 1int } else { 0int })
}

/// The priority of a pair is a 64-bit number unless both candidates carry
/// the largest 32-bit priority.
pub proof fn lemma_pair_priority_fits(g: u32, d: u32)
    ensures
        0 <= pair_priority_of(g, d),
        (pair_priority_of(g, d) <= u64::MAX) == !(g == u32::MAX && d == u32::MAX),
{
}

/// Computes the priority of a pair.
pub fn pair_priority(g: u32, d: u32) -> (r: u64)
    requires
        pair_priority_of(g, d) <= u64::MAX,
    ensures
        r == pair_priority_of(g, d),
{
    let low: u64 = if g < d { g as u64 } else { d as u64 };
    let high: u64 = if g < d { d as u64 } else { g as u64 };
    let extra: u64 = if g > d { 1 } else { 0 };
    PRIORITY_SCALE * low + 2 * high + extra
}

/// Pairs in non-increasing order of priority.
pub open spec fn sorted_desc(pairs: Seq<CandidatePair>) -> bool {
    forall|i: int, j: int| 0 <= i < j < pairs.len() ==> pairs[i].prio >= pairs[j].prio
}

/// No two pairs join the same two candidates.
pub open spec fn distinct_pairs(pairs: Seq<CandidatePair>) -> bool {
    forall|i: int, j: int|
        0 <= i < j < pairs.len() ==> !(pairs[i].local_idx == pairs[j].local_idx
            && pairs[i].remote_idx == pairs[j].remote_idx)
}

/// Every pair points into candidate lists of the given lengths.
pub open spec fn pairs_in_range(pairs: Seq<CandidatePair>, n_local: nat, n_remote: nat) -> bool {
    forall|i: int|
        0 <= i < pairs.len() ==> (#[trigger] pairs[i]).local_idx < n_local && pairs[i].remote_idx
            < n_remote
}

/// Every candidate carries a priority with which each pair's priority fits
/// in 64 bits.
pub open spec fn priorities_in_range(candidates: Seq<Candidate>) -> bool {
    forall|i: int|
        0 <= i < candidates.len() ==> (#[trigger] candidates[i]).spec_prio()
            <= MAX_CANDIDATE_PRIORITY
}

/// The priority that a pair of the candidates at `local_idx` and
/// `remote_idx` has: the controlling agent's candidate is the local one
/// where this agent controls, and the remote one where it does not.
pub open spec fn priority_between(
    local: Seq<Candidate>,
    remote: Seq<Candidate>,
    controlling: bool,
    local_idx: int,
    remote_idx: int,
) -> int {
    if controlling {
        pair_priority_of(local[local_idx].spec_prio(), remote[remote_idx].spec_prio())
    } else {
        pair_priority_of(remote[remote_idx].spec_prio(), local[local_idx].spec_prio())
    }
}

/// Every pair points at two candidates and carries the priority that the
/// two have together.
pub open spec fn priced(
    pairs: Seq<CandidatePair>,
    local: Seq<Candidate>,
    remote: Seq<Candidate>,
    controlling: bool,
) -> bool {
    forall|i: int|
        0 <= i < pairs.len() ==> (#[trigger] pairs[i]).local_idx < local.len()
            && pairs[i].remote_idx < remote.len() && pairs[i].prio == priority_between(
            local,
            remote,
            controlling,
            pairs[i].local_idx as int,
            pairs[i].remote_idx as int,
        )
}

/// A pair that waits has never been attempted, and every other pair has
/// been sent under a transaction id. No check has been given up: nothing
/// here ends a check that gets no answer.
pub open spec fn states_consistent(pairs: Seq<CandidatePair>) -> bool {
    forall|i: int|
        0 <= i < pairs.len() ==> ((#[trigger] pairs[i]).state == CheckState::Waiting) == (
        pairs[i].trans_id.is_none()) && (pairs[i].state == CheckState::Waiting) == (
        pairs[i].attempted.is_none()) && pairs[i].state != CheckState::Failed
}

impl CheckState {
    /// Whether a check in this state may next be found in state `next`:
    /// it stays as it is, or goes from waiting to in progress, or from in
    /// progress to one of its two ends.
    pub open spec fn may_become(self, next: CheckState) -> bool {
        ||| next == self
        ||| self == CheckState::Waiting && next == CheckState::InProgress
        ||| self == CheckState::InProgress && (next == CheckState::Succeeded || next
            == CheckState::Failed)
    }
}

/// How many pairs are in the given state.
pub open spec fn count_state(pairs: Seq<CandidatePair>, state: CheckState) -> nat
    decreases pairs.len(),
{
    if pairs.len() == 0 {
        0
    } else {
        count_state(pairs.drop_last(), state) + if pairs.last().state == state {
            1nat
        } else {
            0nat
        }
    }
}

/// How many pairs wait in front of position `i`.
#[verifier::opaque]
pub open spec fn waiting_before(pairs: Seq<CandidatePair>, i: int) -> nat {
    count_state(pairs.take(i), CheckState::Waiting)
}

/// Counting over one more pair.
pub proof fn lemma_count_take_next(pairs: Seq<CandidatePair>, state: CheckState, i: int)
    requires
        0 <= i < pairs.len(),
    ensures
        count_state(pairs.take(i + 1), state) == count_state(pairs.take(i), state) + if pairs[i].state
            == state {
            1nat
        } else {
            0nat
        },
{
    assert(pairs.take(i + 1).drop_last() =~= pairs.take(i));
}

/// No pair waits in front of the first, and all that wait do so in front
/// of the end.
pub proof fn lemma_waiting_before_ends(pairs: Seq<CandidatePair>)
    ensures
        waiting_before(pairs, 0) == 0,
        waiting_before(pairs, pairs.len() as int) == count_state(pairs, CheckState::Waiting),
{
    reveal(waiting_before);
    assert(pairs.take(0) =~= Seq::<CandidatePair>::empty());
    assert(pairs.take(pairs.len() as int) =~= pairs);
}

/// The pairs that wait in front of a position, counted one position at a
/// time.
pub proof fn lemma_waiting_before_next(pairs: Seq<CandidatePair>, i: int)
    requires
        0 <= i < pairs.len(),
    ensures
        waiting_before(pairs, i + 1) == waiting_before(pairs, i) + if pairs[i].state
            == CheckState::Waiting {
            1nat
        } else {
            0nat
        },
{
    reveal(waiting_before);
    lemma_count_take_next(pairs, CheckState::Waiting, i);
}

/// The pairs that wait in front of a position are no more than those that
/// wait in front of a later one, and no more than all that wait.
pub proof fn lemma_waiting_before_monotone(pairs: Seq<CandidatePair>, i: int, j: int)
    requires
        0 <= i <= j <= pairs.len(),
    ensures
        waiting_before(pairs, i) <= waiting_before(pairs, j),
        waiting_before(pairs, j) <= count_state(pairs, CheckState::Waiting),
    decreases pairs.len() - i,
{
    if i < pairs.len() {
        lemma_waiting_before_next(pairs, i);
        if i < j {
            lemma_waiting_before_monotone(pairs, i + 1, j);
        } else {
            lemma_waiting_before_monotone(pairs, i + 1, j + 1);
        }
    } else {
        lemma_waiting_before_ends(pairs);
    }
}

/// Replacing one pair moves each count by what the old and the new pair
/// contribute.
pub proof fn lemma_count_update(
    pairs: Seq<CandidatePair>,
    state: CheckState,
    i: int,
    p: CandidatePair,
)
    requires
        0 <= i < pairs.len(),
    ensures
        count_state(pairs.update(i, p), state) + (if pairs[i].state == state {
            1nat
        } else {
            0nat
        }) == count_state(pairs, state) + (if p.state == state {
            1nat
        } else {
            0nat
        }),
    decreases pairs.len(),
{
    let after = pairs.update(i, p);
    if i == pairs.len() - 1 {
        assert(after.drop_last() =~= pairs.drop_last());
    } else {
        lemma_count_update(pairs.drop_last(), state, i, p);
        assert(after.drop_last() =~= pairs.drop_last().update(i, p));
    }
}

/// Inserting one pair adds what it contributes to each count.
pub proof fn lemma_count_insert(
    pairs: Seq<CandidatePair>,
    state: CheckState,
    i: int,
    p: CandidatePair,
)
    requires
        0 <= i <= pairs.len(),
    ensures
        count_state(pairs.insert(i, p), state) == count_state(pairs, state) + (if p.state == state {
            1nat
        } else {
            0nat
        }),
    decreases pairs.len(),
{
    let after = pairs.insert(i, p);
    if i == pairs.len() {
        assert(after.drop_last() =~= pairs);
    } else {
        lemma_count_insert(pairs.drop_last(), state, i, p);
        assert(after.drop_last() =~= pairs.drop_last().insert(i, p));
        assert(after.last() == pairs.last());
    }
}

/// The first position at or after `from` whose pair has a priority below
/// `prio`, or the length where there is none.
pub open spec fn insert_pos_from(pairs: Seq<CandidatePair>, prio: u64, from: int) -> int
    decreases pairs.len() - from,
{
    if from < 0 || from >= pairs.len() || pairs[from].prio < prio {
        from
    } else {
        insert_pos_from(pairs, prio, from + 1)
    }
}

/// Where a pair of priority `prio` goes: behind every pair whose priority
/// is at least `prio`, so that of two equal pairs the earlier stays first.
pub open spec fn insert_pos(pairs: Seq<CandidatePair>, prio: u64) -> int {
    insert_pos_from(pairs, prio, 0)
}

/// The pairs with `pair` put in its place.
pub open spec fn inserted(pairs: Seq<CandidatePair>, pair: CandidatePair) -> Seq<CandidatePair> {
    pairs.insert(insert_pos(pairs, pair.prio), pair)
}

pub proof fn lemma_insert_pos_from(pairs: Seq<CandidatePair>, prio: u64, from: int)
    requires
        0 <= from <= pairs.len(),
        forall|k: int| 0 <= k < from ==> (#[trigger] pairs[k]).prio >= prio,
    ensures
        from <= insert_pos_from(pairs, prio, from) <= pairs.len(),
        forall|k: int|
            0 <= k < insert_pos_from(pairs, prio, from) ==> (#[trigger] pairs[k]).prio >= prio,
        insert_pos_from(pairs, prio, from) < pairs.len() ==> pairs[insert_pos_from(
            pairs,
            prio,
            from,
        )].prio < prio,
    decreases pairs.len() - from,
{
    if from < pairs.len() && pairs[from].prio >= prio {
        lemma_insert_pos_from(pairs, prio, from + 1);
    }
}

/// Putting a pair in its place keeps the order, adds one pair, and leaves
/// every other pair as it was.
pub proof fn lemma_inserted(pairs: Seq<CandidatePair>, pair: CandidatePair)
    requires
        sorted_desc(pairs),
    ensures
        sorted_desc(inserted(pairs, pair)),
        inserted(pairs, pair).len() == pairs.len() + 1,
        0 <= insert_pos(pairs, pair.prio) <= pairs.len(),
        forall|state: CheckState|
            count_state(inserted(pairs, pair), state) == count_state(pairs, state) + (if pair.state
                == state {
                1nat
            } else {
                0nat
            }),
{
    lemma_insert_pos_from(pairs, pair.prio, 0);
    let pos = insert_pos(pairs, pair.prio);
    let after = inserted(pairs, pair);
    assert forall|i: int, j: int| 0 <= i < j < after.len() implies after[i].prio
        >= after[j].prio by {
        if j < pos {
            assert(after[i] == pairs[i] && after[j] == pairs[j]);
        } else if j == pos {
            assert(after[i] == pairs[i]);
        } else if i < pos {
            assert(after[i] == pairs[i] && after[j] == pairs[j - 1]);
            assert(pairs[pos].prio < pair.prio);
            assert(pos <= j - 1);
        } else if i == pos {
            assert(after[j] == pairs[j - 1]);
            assert(pos <= j - 1);
        } else {
            assert(after[i] == pairs[i - 1] && after[j] == pairs[j - 1]);
        }
    }
    assert forall|state: CheckState|
        count_state(inserted(pairs, pair), state) == count_state(pairs, state) + (if pair.state
            == state {
            1nat
        } else {
            0nat
        }) by {
        lemma_count_insert(pairs, state, pos, pair);
    }
}

/// Puts `pair` into pairs that are in order, behind every pair of the same
/// or a higher priority.
pub fn insert_by_priority(pairs: &mut Vec<CandidatePair>, pair: CandidatePair)
    requires
        sorted_desc(old(pairs)@),
    ensures
        final(pairs)@ == inserted(old(pairs)@, pair),
        sorted_desc(final(pairs)@),
{
    let mut k: usize = 0;
    while k < pairs.len() && pairs[k].prio >= pair.prio
        invariant
            0 <= k <= pairs@.len(),
            pairs@ == old(pairs)@,
            insert_pos_from(pairs@, pair.prio, k as int) == insert_pos(pairs@, pair.prio),
        decreases pairs@.len() - k,
    {
        k += 1;
    }
    proof {
        lemma_inserted(pairs@, pair);
    }
    pairs.insert(k, pair);
}

/// A new candidate on its way into the pairs: on which side it arrives,
/// whether this agent controls, and the candidate's index and priority.
pub ghost struct Arrival {
    pub local: bool,
    pub controlling: bool,
    pub idx: usize,
    pub prio: u32,
}

/// The pair of an arriving candidate with the candidate at `other_idx` of
/// the other side, whose priority is `other_prio`. The candidate of the
/// controlling agent is the local one exactly when this agent controls.
pub open spec fn formed_pair(a: Arrival, other_idx: usize, other_prio: u32) -> CandidatePair {
    CandidatePair {
        local_idx: if a.local {
            a.idx
        } else {
            other_idx
        },
        remote_idx: if a.local {
            other_idx
        } else {
            a.idx
        },
        prio: (if a.local == a.controlling {
            pair_priority_of(a.prio, other_prio)
        } else {
            pair_priority_of(other_prio, a.prio)
        }) as u64,
        state: CheckState::Waiting,
        attempted: None,
        trans_id: None,
    }
}

/// The pairs once the arriving candidate has met the first `n` candidates
/// of the other side, one after the other: each meeting forms a pair and
/// puts it in its place, as long as fewer than `MAX_PAIRS` pairs exist.
pub open spec fn paired(
    pairs: Seq<CandidatePair>,
    a: Arrival,
    others: Seq<Candidate>,
    n: nat,
) -> Seq<CandidatePair>
    decreases n,
{
    if n == 0 {
        pairs
    } else {
        let before = paired(pairs, a, others, (n - 1) as nat);
        if before.len() >= MAX_PAIRS {
            before
        } else {
            inserted(before, formed_pair(a, (n - 1) as usize, others[n - 1].spec_prio()))
        }
    }
}

/// The index that a pair holds on the side of an arriving candidate.
pub open spec fn near_idx(p: CandidatePair, local: bool) -> usize {
    if local {
        p.local_idx
    } else {
        p.remote_idx
    }
}

/// The index that a pair holds on the side opposite an arriving candidate.
pub open spec fn far_idx(p: CandidatePair, local: bool) -> usize {
    if local {
        p.remote_idx
    } else {
        p.local_idx
    }
}

/// Every pair was formed before the arrival, or with one of the first `n`
/// candidates of the other side.
pub open spec fn formed_within(
    pairs: Seq<CandidatePair>,
    a: Arrival,
    n_others: nat,
    n: nat,
) -> bool {
    forall|k: int|
        0 <= k < pairs.len() ==> {
            ||| near_idx(#[trigger] pairs[k], a.local) < a.idx && far_idx(pairs[k], a.local)
                < n_others
            ||| near_idx(pairs[k], a.local) == a.idx && far_idx(pairs[k], a.local) < n
        }
}

/// What pairing keeps and what it adds: the order, the bound, that no pair
/// occurs twice, that new pairs wait, and the number of pairs.
pub proof fn lemma_paired(pairs: Seq<CandidatePair>, a: Arrival, others: Seq<Candidate>, n: nat)
    requires
        n <= others.len() <= usize::MAX,
        pairs.len() <= MAX_PAIRS,
        sorted_desc(pairs),
        distinct_pairs(pairs),
        states_consistent(pairs),
        formed_within(pairs, a, others.len(), 0),
    ensures
        paired(pairs, a, others, n).len() == if pairs.len() + n <= MAX_PAIRS {
            pairs.len() + n
        } else {
            MAX_PAIRS as nat
        },
        sorted_desc(paired(pairs, a, others, n)),
        distinct_pairs(paired(pairs, a, others, n)),
        states_consistent(paired(pairs, a, others, n)),
        formed_within(paired(pairs, a, others, n), a, others.len(), n),
        forall|state: CheckState|
            state != CheckState::Waiting ==> count_state(paired(pairs, a, others, n), state)
                == count_state(pairs, state),
    decreases n,
{
    if n > 0 {
        let m = (n - 1) as nat;
        lemma_paired(pairs, a, others, m);
        let before = paired(pairs, a, others, m);
        if before.len() < MAX_PAIRS {
            let p = formed_pair(a, m as usize, others[m as int].spec_prio());
            let after = inserted(before, p);
            lemma_inserted(before, p);
            let pos = insert_pos(before, p.prio);
            assert(after == paired(pairs, a, others, n));
            assert forall|k: int| 0 <= k < after.len() implies {
                ||| (k < pos && #[trigger] after[k] == before[k])
                ||| (k == pos && after[k] == p)
                ||| (k > pos && after[k] == before[k - 1])
            } by {}
            assert(near_idx(p, a.local) == a.idx && far_idx(p, a.local) == m);
            assert forall|i: int, j: int| 0 <= i < j < after.len() implies !(after[i].local_idx
                == after[j].local_idx && after[i].remote_idx == after[j].remote_idx) by {
                let bi = if i < pos {
                    i
                } else {
                    i - 1
                };
                let bj = if j < pos {
                    j
                } else {
                    j - 1
                };
                if i != pos && j != pos {
                    assert(after[i] == before[bi] && after[j] == before[bj]);
                } else if i == pos {
                    assert(after[j] == before[bj]);
                    assert(near_idx(before[bj], a.local) != a.idx || far_idx(before[bj], a.local)
                        != m);
                } else {
                    assert(after[i] == before[bi]);
                    assert(near_idx(before[bi], a.local) != a.idx || far_idx(before[bi], a.local)
                        != m);
                }
            }
        }
    }
}

/// Pairing gives each new pair the priority that its two candidates have
/// together, and leaves the priority of every other pair alone.
pub proof fn lemma_paired_priced(
    pairs: Seq<CandidatePair>,
    a: Arrival,
    own: Seq<Candidate>,
    c: Candidate,
    others: Seq<Candidate>,
    n: nat,
)
    requires
        n <= others.len() <= usize::MAX,
        own.len() == a.idx,
        c.spec_prio() == a.prio,
        c.spec_prio() <= MAX_CANDIDATE_PRIORITY,
        priorities_in_range(others),
        if a.local {
            priced(pairs, own, others, a.controlling)
        } else {
            priced(pairs, others, own, a.controlling)
        },
    ensures
        if a.local {
            priced(paired(pairs, a, others, n), own.push(c), others, a.controlling)
        } else {
            priced(paired(pairs, a, others, n), others, own.push(c), a.controlling)
        },
    decreases n,
{
    let longer = own.push(c);
    if n == 0 {
        assert forall|i: int| 0 <= i < own.len() implies longer[i] == own[i] by {}
    } else {
        let m = (n - 1) as nat;
        lemma_paired_priced(pairs, a, own, c, others, m);
        let before = paired(pairs, a, others, m);
        if before.len() < MAX_PAIRS {
            let p = formed_pair(a, m as usize, others[m as int].spec_prio());
            let after = inserted(before, p);
            lemma_insert_pos_from(before, p.prio, 0);
            let pos = insert_pos(before, p.prio);
            lemma_pair_priority_fits(a.prio, others[m as int].spec_prio());
            lemma_pair_priority_fits(others[m as int].spec_prio(), a.prio);
            assert(longer[a.idx as int] == c);
            assert forall|k: int| 0 <= k < after.len() implies {
                ||| (k < pos && #[trigger] after[k] == before[k])
                ||| (k == pos && after[k] == p)
                ||| (k > pos && after[k] == before[k - 1])
            } by {}
        }
    }
}

} // verus!
