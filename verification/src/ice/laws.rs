//! What holds of the agent whatever it is handed.

use super::model::{driven_pair, find_sent, find_sent_from, sent_under, succeeded, IceModel};
use super::pair::{
    count_state, distinct_pairs, lemma_count_take_next, lemma_count_update, lemma_paired,
    lemma_waiting_before_ends, lemma_waiting_before_monotone, lemma_waiting_before_next,
    lemma_paired_priced, pair_priority_of, sorted_desc, waiting_before, CandidatePair,
    CheckState, MAX_CONCURRENT, MAX_PAIRS,
};
use super::types::{
    Candidate, IceError, SocketAddress, StunKind, StunMessage, MAX_CANDIDATE_PRIORITY,
};
use vstd::prelude::*;

verus! {

/// Where the search for a pair sent under an id ends: at the first such
/// pair, or at the length.
pub proof fn lemma_find_sent_from(pairs: Seq<CandidatePair>, id: Seq<u8>, from: int)
    requires
        0 <= from <= pairs.len(),
    ensures
        from <= find_sent_from(pairs, id, from) <= pairs.len(),
        forall|k: int|
            from <= k < find_sent_from(pairs, id, from) ==> !sent_under(#[trigger] pairs[k], id),
        find_sent_from(pairs, id, from) < pairs.len() ==> sent_under(
            pairs[find_sent_from(pairs, id, from)],
            id,
        ),
    decreases pairs.len() - from,
{
    if from < pairs.len() && !sent_under(pairs[from], id) {
        lemma_find_sent_from(pairs, id, from + 1);
    }
}

/// A candidate that arrives leaves the agent well formed: the pairs stay
/// in order of priority, no pair occurs twice, and there are as many pairs
/// as before and one more for each candidate of the other side, up to
/// `MAX_PAIRS`. Each pair carries the priority that its two candidates
/// have together. The candidate's index must be one that the machine can
/// hold.
pub proof fn lemma_with_candidate_wf(m: IceModel, local: bool, c: Candidate)
    requires
        m.wf(),
        m.side(local).len() < usize::MAX,
        c.spec_prio() <= MAX_CANDIDATE_PRIORITY,
    ensures
        m.with_candidate(local, c).wf(),
        m.with_candidate(local, c).pairs.len() == if m.ignores(local, c) || m.side(local).contains(
            c,
        ) {
            m.pairs.len()
        } else if m.pairs.len() + m.side(!local).len() <= MAX_PAIRS {
            m.pairs.len() + m.side(!local).len()
        } else {
            MAX_PAIRS as nat
        },
{
    if !(m.ignores(local, c) || m.side(local).contains(c)) {
        let a = m.arrival(local, c);
        let others = m.side(!local);
        lemma_paired(m.pairs, a, others, others.len());
        lemma_paired_priced(m.pairs, a, m.side(local), c, others, others.len());
        assert(m.side(local).push(c).no_duplicates());
    }
}

/// A message that is handed to the agent leaves it well formed.
pub proof fn lemma_handled_wf(m: IceModel, target: SocketAddress, stun: StunMessage)
    requires
        m.wf(),
    ensures
        m.handled(target, stun).wf(),
{
    let k = find_sent(m.pairs, stun.trans_id@);
    lemma_find_sent_from(m.pairs, stun.trans_id@, 0);
    if m.accepts(target, stun) == Ok::<bool, IceError>(true) && stun.kind
        == StunKind::BindingResponse && k < m.pairs.len() {
        let p = succeeded(m.pairs[k]);
        lemma_count_update(m.pairs, CheckState::InProgress, k, p);
    }
}

/// A candidate that is already known on its side forms no pairs and is
/// not stored again, and after any arrival no two pairs join the same two
/// candidates.
pub proof fn lemma_no_duplicate_pairs(m: IceModel, local: bool, c: Candidate)
    requires
        m.wf(),
        m.side(local).len() < usize::MAX,
        c.spec_prio() <= MAX_CANDIDATE_PRIORITY,
    ensures
        m.side(local).contains(c) ==> m.with_candidate(local, c) == m,
        distinct_pairs(m.with_candidate(local, c).pairs),
        m.with_candidate(local, c).side(local).no_duplicates(),
{
    lemma_with_candidate_wf(m, local, c);
}

/// After a candidate has arrived, each pair has at least the priority of
/// the pair behind it.
pub proof fn lemma_pairs_stay_sorted(m: IceModel, local: bool, c: Candidate)
    requires
        m.wf(),
        m.side(local).len() < usize::MAX,
        c.spec_prio() <= MAX_CANDIDATE_PRIORITY,
    ensures
        forall|i: int|
            0 <= i && i + 1 < m.with_candidate(local, c).pairs.len() ==> (#[trigger] m.with_candidate(
                local,
                c,
            ).pairs[i]).prio >= m.with_candidate(local, c).pairs[i + 1].prio,
{
    lemma_with_candidate_wf(m, local, c);
}

/// Once a candidate has been paired with a candidate of the other side,
/// the role can no longer be set.
pub proof fn lemma_role_fixed_by_pairs(m: IceModel, local: bool, c: Candidate)
    requires
        m.wf(),
        m.side(local).len() < usize::MAX,
        c.spec_prio() <= MAX_CANDIDATE_PRIORITY,
        !m.ignores(local, c),
        !m.side(local).contains(c),
        m.side(!local).len() > 0,
    ensures
        !m.with_candidate(local, c).role_open(),
{
    lemma_with_candidate_wf(m, local, c);
}

/// A message that names a known peer but not this agent's own username is
/// an authentication error: it is never passed over as meant for another
/// agent.
pub proof fn lemma_own_username_mismatch(m: IceModel, target: SocketAddress, stun: StunMessage)
    requires
        m.knows_peer(m.peer_segment(stun)),
        m.own_segment(stun) != m.local_creds.username@,
    ensures
        m.accepts(target, stun) == Err::<bool, IceError>(IceError::UsernameMismatch(target)),
        m.accepts(target, stun) != Ok::<bool, IceError>(false),
{
}

/// A message that names no known peer is not for this agent, and handing
/// it to the agent changes nothing.
pub proof fn lemma_unknown_peer(m: IceModel, target: SocketAddress, stun: StunMessage)
    requires
        !m.knows_peer(m.peer_segment(stun)),
    ensures
        m.accepts(target, stun) == Ok::<bool, IceError>(false),
        m.handled(target, stun) == m,
{
}

/// A message that the agent turns down with an error changes nothing.
pub proof fn lemma_rejected_changes_nothing(m: IceModel, target: SocketAddress, stun: StunMessage)
    requires
        m.accepts(target, stun).is_err(),
    ensures
        m.handled(target, stun) == m,
{
}

/// An accepted binding response moves the first pair sent under its
/// transaction id to `Succeeded` and leaves every other pair as it was.
/// Where no pair was sent under the id, no pair and no candidate changes.
pub proof fn lemma_response_settles_one_pair(m: IceModel, target: SocketAddress, stun: StunMessage)
    requires
        m.accepts(target, stun) == Ok::<bool, IceError>(true),
        stun.kind == StunKind::BindingResponse,
    ensures
        m.handled(target, stun).pairs.len() == m.pairs.len(),
        m.handled(target, stun).local_candidates == m.local_candidates,
        m.handled(target, stun).remote_candidates == m.remote_candidates,
        m.handled(target, stun).remote_creds == m.remote_creds,
        0 <= find_sent(m.pairs, stun.trans_id@) <= m.pairs.len(),
        forall|j: int|
            0 <= j < m.pairs.len() && j != find_sent(m.pairs, stun.trans_id@) ==> (
            #[trigger] m.handled(target, stun).pairs[j]) == m.pairs[j],
        find_sent(m.pairs, stun.trans_id@) < m.pairs.len() ==> {
            &&& sent_under(m.pairs[find_sent(m.pairs, stun.trans_id@)], stun.trans_id@)
            &&& m.handled(target, stun).pairs[find_sent(m.pairs, stun.trans_id@)] == succeeded(
                m.pairs[find_sent(m.pairs, stun.trans_id@)],
            )
        },
        find_sent(m.pairs, stun.trans_id@) == m.pairs.len() ==> {
            &&& m.handled(target, stun).pairs == m.pairs
            &&& forall|j: int|
                0 <= j < m.pairs.len() ==> !sent_under(#[trigger] m.pairs[j], stun.trans_id@)
        },
{
    lemma_find_sent_from(m.pairs, stun.trans_id@, 0);
}

/// The checks in flight among the first `i` pairs after a drive that
/// starts `n` checks.
proof fn lemma_driven_count_upto(
    first: Seq<CandidatePair>,
    n: nat,
    time: u64,
    ids: Seq<[u8; 12]>,
    i: int,
)
    requires
        0 <= i <= first.len(),
    ensures
        count_state(
            Seq::new(first.len(), |j: int| driven_pair(first, j, n, time, ids)).take(i),
            CheckState::InProgress,
        ) == count_state(first.take(i), CheckState::InProgress) + if waiting_before(first, i) < n {
            waiting_before(first, i)
        } else {
            n
        },
    decreases i,
{
    let after = Seq::new(first.len(), |j: int| driven_pair(first, j, n, time, ids));
    if i == 0 {
        lemma_waiting_before_ends(first);
        assert(after.take(0) =~= Seq::<CandidatePair>::empty());
        assert(first.take(0) =~= Seq::<CandidatePair>::empty());
    } else {
        lemma_driven_count_upto(first, n, time, ids, i - 1);
        lemma_count_take_next(after, CheckState::InProgress, i - 1);
        lemma_count_take_next(first, CheckState::InProgress, i - 1);
        lemma_waiting_before_next(first, i - 1);
        assert(after[i - 1] == driven_pair(first, i - 1, n, time, ids));
    }
}

/// A drive call starts as many checks as its budget says, and never lets
/// more than `MAX_CONCURRENT` checks be in flight.
pub proof fn lemma_drive_respects_cap(m: IceModel, time: u64, ids: Seq<[u8; 12]>)
    requires
        count_state(m.pairs, CheckState::InProgress) <= MAX_CONCURRENT,
    ensures
        count_state(m.driven(time, ids).pairs, CheckState::InProgress) == count_state(
            m.pairs,
            CheckState::InProgress,
        ) + if m.checks_allowed() {
            m.drive_budget(ids.len())
        } else {
            0
        },
        count_state(m.driven(time, ids).pairs, CheckState::InProgress) <= MAX_CONCURRENT,
{
    if m.checks_allowed() {
        let n = m.drive_budget(ids.len());
        let len = m.pairs.len() as int;
        let after = Seq::new(m.pairs.len(), |j: int| driven_pair(m.pairs, j, n, time, ids));
        lemma_driven_count_upto(m.pairs, n, time, ids, len);
        lemma_waiting_before_ends(m.pairs);
        assert(after.take(len) =~= after);
        assert(m.pairs.take(len) =~= m.pairs);
        assert(m.driven(time, ids).pairs == after);
    }
}

/// A drive call starts the waiting pairs in order: a pair that it starts
/// stands in front of every pair that it leaves waiting, and has at least
/// that pair's priority.
pub proof fn lemma_drive_starts_best_first(
    m: IceModel,
    time: u64,
    ids: Seq<[u8; 12]>,
    i: int,
    j: int,
)
    requires
        sorted_desc(m.pairs),
        m.checks_allowed(),
        0 <= i < m.pairs.len(),
        0 <= j < m.pairs.len(),
        m.pairs[i].state == CheckState::Waiting,
        m.pairs[j].state == CheckState::Waiting,
        m.driven(time, ids).pairs[i].state == CheckState::InProgress,
        m.driven(time, ids).pairs[j].state == CheckState::Waiting,
    ensures
        i < j,
        m.pairs[i].prio >= m.pairs[j].prio,
{
    if j <= i {
        lemma_waiting_before_monotone(m.pairs, j, i);
    }
}

/// No operation moves a check backwards: a message that is handed to the
/// agent and a drive call leave each pair's check as it is, or move it one
/// step on from waiting to in progress, or from in progress to succeeded.
pub proof fn lemma_checks_only_advance(
    m: IceModel,
    target: SocketAddress,
    stun: StunMessage,
    time: u64,
    ids: Seq<[u8; 12]>,
    j: int,
)
    requires
        m.wf(),
        0 <= j < m.pairs.len(),
    ensures
        m.handled(target, stun).pairs.len() == m.pairs.len(),
        m.driven(time, ids).pairs.len() == m.pairs.len(),
        m.pairs[j].state.may_become(m.handled(target, stun).pairs[j].state),
        m.pairs[j].state.may_become(m.driven(time, ids).pairs[j].state),
{
    lemma_find_sent_from(m.pairs, stun.trans_id@, 0);
}

/// The candidate lists never shrink: an arrival leaves every candidate
/// at its index, on both sides, so the indices that the pairs hold stay
/// good.
pub proof fn lemma_candidates_stay(m: IceModel, local: bool, c: Candidate, side: bool, i: int)
    requires
        0 <= i < m.side(side).len(),
    ensures
        m.with_candidate(local, c).side(side).len() >= m.side(side).len(),
        m.with_candidate(local, c).side(side)[i] == m.side(side)[i],
{
}

/// The connection takes only the steps that its states allow, whatever
/// message is handed to the agent and whenever it is driven.
pub proof fn lemma_connection_steps(
    m: IceModel,
    target: SocketAddress,
    stun: StunMessage,
    time: u64,
    ids: Seq<[u8; 12]>,
)
    requires
        m.wf(),
    ensures
        m.conn_state.may_become(m.handled(target, stun).conn_state),
        m.conn_state.may_become(m.driven(time, ids).conn_state),
{
}

/// Every pair carries the priority that was computed when it was formed:
/// with `g` the priority of the controlling agent's candidate and `d` that
/// of the controlled agent's, 2^32 times the smaller of the two, plus twice
/// the larger, plus one where `g` is the larger.
pub proof fn lemma_pair_priority_formula(m: IceModel, i: int)
    requires
        m.wf(),
        0 <= i < m.pairs.len(),
    ensures
        ({
            let local = m.local_candidates[m.pairs[i].local_idx as int].spec_prio();
            let remote = m.remote_candidates[m.pairs[i].remote_idx as int].spec_prio();
            let g = if m.controlling {
                local
            } else {
                remote
            };
            let d = if m.controlling {
                remote
            } else {
                local
            };
            &&& m.pairs[i].prio == pair_priority_of(g, d)
            &&& m.pairs[i].prio == 4294967296 * (if g < d {
                g
            } else {
                d
            }) + 2 * (if g < d {
                d
            } else {
                g
            }) + (if g > d {
                1int
            } else {
                0int
            })
        }),
{
}

} // verus!
