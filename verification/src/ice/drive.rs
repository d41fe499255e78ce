//! How a drive call walks the pairs, step by step, and what the walk adds
//! up to.

use super::model::{driven_pair, request_for, started, IceModel};
use super::pair::{
    count_state, distinct_pairs, lemma_count_update, lemma_waiting_before_ends,
    lemma_waiting_before_monotone, lemma_waiting_before_next, pairs_in_range, priced,
    sorted_desc, states_consistent, waiting_before, CandidatePair, CheckState, MAX_CONCURRENT,
};
use super::types::{BindingRequest, Candidate};
use vstd::prelude::*;

verus! {

/// The pairs `cur` of a walk that has passed the first `i` of the pairs
/// `first`: each pair passed that waited is started under the id of its
/// rank among the waiting pairs, and every other pair is as it was.
#[verifier::opaque]
pub open spec fn drive_progress(
    first: Seq<CandidatePair>,
    cur: Seq<CandidatePair>,
    i: int,
    time: u64,
    ids: Seq<[u8; 12]>,
) -> bool {
    &&& cur.len() == first.len()
    &&& 0 <= i <= first.len()
    &&& forall|j: int|
        0 <= j < i ==> #[trigger] cur[j] == (if first[j].state == CheckState::Waiting {
            started(first[j], time, ids[waiting_before(first, j) as int])
        } else {
            first[j]
        })
    &&& forall|j: int| i <= j < first.len() ==> #[trigger] cur[j] == first[j]
}

/// The requests of a walk that has passed the first `i` pairs: one for
/// each pair passed that waited, at the pair's rank.
#[verifier::opaque]
pub open spec fn requests_progress(
    m: IceModel,
    requests: Seq<BindingRequest>,
    i: int,
    ids: Seq<[u8; 12]>,
) -> bool {
    forall|j: int|
        0 <= j < i && j < m.pairs.len() && (#[trigger] m.pairs[j]).state == CheckState::Waiting ==> {
            &&& waiting_before(m.pairs, j) < requests.len()
            &&& request_for(
                m,
                m.pairs[j],
                ids[waiting_before(m.pairs, j) as int],
                requests[waiting_before(m.pairs, j) as int],
            )
        }
}

pub proof fn lemma_drive_begin(m: IceModel, time: u64, ids: Seq<[u8; 12]>)
    ensures
        drive_progress(m.pairs, m.pairs, 0, time, ids),
        requests_progress(m, Seq::<BindingRequest>::empty(), 0, ids),
        waiting_before(m.pairs, 0) == 0,
{
    reveal(drive_progress);
    reveal(requests_progress);
    lemma_waiting_before_ends(m.pairs);
}

/// Passing a pair that does not wait.
pub proof fn lemma_drive_skip(
    m: IceModel,
    cur: Seq<CandidatePair>,
    requests: Seq<BindingRequest>,
    i: int,
    time: u64,
    ids: Seq<[u8; 12]>,
)
    requires
        drive_progress(m.pairs, cur, i, time, ids),
        requests_progress(m, requests, i, ids),
        0 <= i < m.pairs.len(),
        cur[i].state != CheckState::Waiting,
    ensures
        drive_progress(m.pairs, cur, i + 1, time, ids),
        requests_progress(m, requests, i + 1, ids),
        waiting_before(m.pairs, i + 1) == waiting_before(m.pairs, i),
{
    reveal(drive_progress);
    reveal(requests_progress);
    assert(cur[i] == m.pairs[i]);
    lemma_waiting_before_next(m.pairs, i);
}

/// What is known of the pair that the walk has come to.
pub proof fn lemma_drive_at(
    m: IceModel,
    cur: Seq<CandidatePair>,
    i: int,
    time: u64,
    ids: Seq<[u8; 12]>,
)
    requires
        drive_progress(m.pairs, cur, i, time, ids),
        0 <= i < m.pairs.len(),
    ensures
        cur.len() == m.pairs.len(),
        cur[i] == m.pairs[i],
        waiting_before(m.pairs, i + 1) == waiting_before(m.pairs, i) + if m.pairs[i].state
            == CheckState::Waiting {
            1nat
        } else {
            0nat
        },
        waiting_before(m.pairs, i + 1) <= count_state(m.pairs, CheckState::Waiting),
        waiting_before(m.pairs, i) <= count_state(m.pairs, CheckState::Waiting),
{
    lemma_waiting_before_monotone(m.pairs, i, m.pairs.len() as int);
    reveal(drive_progress);
    lemma_waiting_before_next(m.pairs, i);
    lemma_waiting_before_monotone(m.pairs, i + 1, m.pairs.len() as int);
}

/// Starting the check of a pair that waits.
pub proof fn lemma_drive_start(
    m: IceModel,
    cur: Seq<CandidatePair>,
    requests: Seq<BindingRequest>,
    i: int,
    time: u64,
    ids: Seq<[u8; 12]>,
    req: BindingRequest,
)
    requires
        drive_progress(m.pairs, cur, i, time, ids),
        requests_progress(m, requests, i, ids),
        0 <= i < m.pairs.len(),
        cur[i].state == CheckState::Waiting,
        requests.len() == waiting_before(m.pairs, i),
        request_for(m, m.pairs[i], ids[waiting_before(m.pairs, i) as int], req),
    ensures
        drive_progress(
            m.pairs,
            cur.update(i, started(cur[i], time, ids[waiting_before(m.pairs, i) as int])),
            i + 1,
            time,
            ids,
        ),
        requests_progress(m, requests.push(req), i + 1, ids),
        waiting_before(m.pairs, i + 1) == waiting_before(m.pairs, i) + 1,
        count_state(
            cur.update(i, started(cur[i], time, ids[waiting_before(m.pairs, i) as int])),
            CheckState::InProgress,
        ) == count_state(cur, CheckState::InProgress) + 1,
{
    reveal(drive_progress);
    reveal(requests_progress);
    let first = m.pairs;
    let k = waiting_before(first, i);
    let p = started(cur[i], time, ids[k as int]);
    assert(cur[i] == first[i]);
    lemma_waiting_before_next(first, i);
    lemma_count_update(cur, CheckState::InProgress, i, p);
    let longer = requests.push(req);
    assert forall|j: int|
        0 <= j < i + 1 && j < first.len() && (#[trigger] first[j]).state
            == CheckState::Waiting implies waiting_before(first, j) < longer.len() && request_for(
        m,
        first[j],
        ids[waiting_before(first, j) as int],
        longer[waiting_before(first, j) as int],
    ) by {
        if j < i {
            assert(longer[waiting_before(first, j) as int] == requests[waiting_before(
                first,
                j,
            ) as int]);
        }
    }
}

/// Where the walk stops, it has started as many checks as the budget
/// allows, and the pairs are those of the model.
pub proof fn lemma_drive_end(
    m: IceModel,
    cur: Seq<CandidatePair>,
    i: int,
    time: u64,
    ids: Seq<[u8; 12]>,
)
    requires
        m.checks_allowed(),
        drive_progress(m.pairs, cur, i, time, ids),
        waiting_before(m.pairs, i) <= ids.len(),
        count_state(m.pairs, CheckState::InProgress) + waiting_before(m.pairs, i)
            <= MAX_CONCURRENT || waiting_before(m.pairs, i) == 0,
        i == m.pairs.len() || count_state(m.pairs, CheckState::InProgress) + waiting_before(
            m.pairs,
            i,
        ) >= MAX_CONCURRENT || (m.pairs[i].state == CheckState::Waiting && waiting_before(
            m.pairs,
            i,
        ) == ids.len()),
    ensures
        waiting_before(m.pairs, i) == m.drive_budget(ids.len()),
        cur == m.driven(time, ids).pairs,
        m.drive_exhausts(ids.len()) == (i == m.pairs.len() && count_state(
            m.pairs,
            CheckState::InProgress,
        ) + waiting_before(m.pairs, i) < MAX_CONCURRENT),
{
    reveal(drive_progress);
    let first = m.pairs;
    let len = first.len() as int;
    let k = waiting_before(first, i);
    lemma_waiting_before_monotone(first, i, len);
    lemma_waiting_before_ends(first);
    if i < len {
        lemma_waiting_before_next(first, i);
        lemma_waiting_before_monotone(first, i + 1, len);
    }
    assert(k == m.drive_budget(ids.len()));
    assert forall|j: int| 0 <= j < len implies #[trigger] cur[j] == driven_pair(
        first,
        j,
        k,
        time,
        ids,
    ) by {
        if j < i {
            lemma_waiting_before_next(first, j);
            lemma_waiting_before_monotone(first, j + 1, i);
        } else {
            lemma_waiting_before_monotone(first, i, j);
        }
    }
    assert(cur =~= m.driven(time, ids).pairs);
}

/// The walk keeps the order of the pairs, what they point to, and that
/// exactly the pairs that wait are without a transaction id.
pub proof fn lemma_drive_keeps_shape(
    first: Seq<CandidatePair>,
    cur: Seq<CandidatePair>,
    i: int,
    time: u64,
    ids: Seq<[u8; 12]>,
    local: Seq<Candidate>,
    remote: Seq<Candidate>,
    controlling: bool,
)
    requires
        drive_progress(first, cur, i, time, ids),
        sorted_desc(first),
        distinct_pairs(first),
        states_consistent(first),
        pairs_in_range(first, local.len(), remote.len()),
        priced(first, local, remote, controlling),
    ensures
        sorted_desc(cur),
        distinct_pairs(cur),
        states_consistent(cur),
        pairs_in_range(cur, local.len(), remote.len()),
        priced(cur, local, remote, controlling),
{
    reveal(drive_progress);
    assert forall|j: int| 0 <= j < cur.len() implies (#[trigger] cur[j]).prio == first[j].prio
        && cur[j].local_idx == first[j].local_idx && cur[j].remote_idx == first[j].remote_idx && (
    cur[j].state == CheckState::Waiting) == (cur[j].trans_id.is_none()) && (cur[j].state
        == CheckState::Waiting) == (cur[j].attempted.is_none()) && cur[j].state
        != CheckState::Failed by {
        assert(first[j] == first[j]);
    }
}

/// The requests of a walk that has stopped, as a drive call owes them.
pub proof fn lemma_requests_end(
    m: IceModel,
    requests: Seq<BindingRequest>,
    i: int,
    ids: Seq<[u8; 12]>,
)
    requires
        0 <= i <= m.pairs.len(),
        requests_progress(m, requests, i, ids),
        requests.len() == waiting_before(m.pairs, i),
    ensures
        forall|j: int|
            0 <= j < m.pairs.len() && (#[trigger] m.pairs[j]).state == CheckState::Waiting
                && waiting_before(m.pairs, j) < requests.len() ==> request_for(
                m,
                m.pairs[j],
                ids[waiting_before(m.pairs, j) as int],
                requests[waiting_before(m.pairs, j) as int],
            ),
{
    reveal(requests_progress);
    assert forall|j: int|
        0 <= j < m.pairs.len() && (#[trigger] m.pairs[j]).state == CheckState::Waiting
            && waiting_before(m.pairs, j) < requests.len() implies request_for(
        m,
        m.pairs[j],
        ids[waiting_before(m.pairs, j) as int],
        requests[waiting_before(m.pairs, j) as int],
    ) by {
        if j >= i {
            lemma_waiting_before_monotone(m.pairs, i, j);
        }
    }
}

} // verus!
