//! The ICE agent: candidates, candidate pairs, STUN authentication and the
//! connectivity checks that the controlling side drives.
//!
//! The agent does no I/O. It is handed decoded messages, the current time
//! and fresh transaction ids, and hands back the messages to be sent.

pub mod drive;
pub mod laws;
pub mod model;
pub mod pair;
pub mod types;

pub use model::IceConnectionState;

use drive::{
    drive_progress, lemma_drive_at, lemma_drive_begin, lemma_drive_end, lemma_drive_keeps_shape,
    lemma_drive_skip, lemma_drive_start, lemma_requests_end, requests_progress,
};
use laws::{lemma_handled_wf, lemma_with_candidate_wf};
use model::{
    find_sent, find_sent_from, has_waiting, request_for, sent_under, started, IceModel,
};
use pair::{
    count_state, formed_pair, insert_by_priority, lemma_count_take_next, lemma_pair_priority_fits,
    pair_priority, paired, pairs_in_range, sorted_desc, states_consistent, waiting_before,
    Arrival, CandidatePair, CheckState, MAX_CONCURRENT, MAX_PAIRS,
};
use types::{
    same_trans_id, BindingReply, BindingRequest, Candidate, IceCreds, IceError, SocketAddress,
    StunKind, StunMessage, PASSWORD_LEN, USERNAME_LEN,
};
use vstd::prelude::*;

verus! {

/// `format!`: the first string, a colon, and the second string.
#[verifier::external_body]
fn join_usernames(first: &String, second: &String) -> (r: String)
    ensures
        r@ == first@ + seq![':'] + second@,
{
    format!("{}:{}", first, second)
}

/// The agent of one peer session.
pub struct IceState {
    /// Whether this is the controlling agent.
    controlling: bool,
    /// If we are running ice-lite mode and only deal with local host candidates.
    ice_lite: bool,
    /// If we got indication there be no more local candidates.
    local_end_of_candidates: bool,
    /// If we got indication there be no more remote candidates.
    remote_end_of_candidates: bool,
    /// State of checking connection.
    conn_state: IceConnectionState,
    /// Local credentials for STUN. We use one set for all m-lines.
    local_creds: IceCreds,
    /// Remote credentials for STUN, no username twice.
    remote_creds: Vec<IceCreds>,
    /// Addresses that have been "unlocked" via STUN. These are now verified
    /// for other kinds of data.
    verified: Vec<SocketAddress>,
    /// Candidates, in the order they drop in.
    local_candidates: Vec<Candidate>,
    /// Candidates, in the order they drop in.
    remote_candidates: Vec<Candidate>,
    /// Pairs formed by combining all local/remote as they drop in.
    candidate_pairs: Vec<CandidatePair>,
}

impl View for IceState {
    type V = IceModel;

    closed spec fn view(&self) -> IceModel {
        IceModel {
            controlling: self.controlling,
            ice_lite: self.ice_lite,
            local_end: self.local_end_of_candidates,
            remote_end: self.remote_end_of_candidates,
            conn_state: self.conn_state,
            local_creds: self.local_creds,
            remote_creds: self.remote_creds@,
            verified: self.verified@.to_set(),
            local_candidates: self.local_candidates@,
            remote_candidates: self.remote_candidates@,
            pairs: self.candidate_pairs@,
        }
    }
}

fn contains_candidate(list: &Vec<Candidate>, c: Candidate) -> (r: bool)
    ensures
        r == list@.contains(c),
{
    let mut i: usize = 0;
    while i < list.len()
        invariant
            0 <= i <= list@.len(),
            forall|k: int| 0 <= k < i ==> list@[k] != c,
        decreases list@.len() - i,
    {
        if list[i] == c {
            return true;
        }
        i += 1;
    }
    false
}

fn contains_addr(list: &Vec<SocketAddress>, addr: SocketAddress) -> (r: bool)
    ensures
        r == list@.to_set().contains(addr),
{
    let mut i: usize = 0;
    while i < list.len()
        invariant
            0 <= i <= list@.len(),
            forall|k: int| 0 <= k < i ==> list@[k] != addr,
        decreases list@.len() - i,
    {
        if list[i] == addr {
            assert(list@.contains(addr));
            return true;
        }
        i += 1;
    }
    assert(!list@.contains(addr));
    false
}

impl IceState {
    /// A controlled agent with no candidates. Its credentials are made
    /// once, by whoever has a source of random characters: a username of
    /// `USERNAME_LEN` and a password of `PASSWORD_LEN` characters.
    pub fn new(local_creds: IceCreds, ice_lite: bool) -> (r: Self)
        requires
            local_creds.username@.len() == USERNAME_LEN,
            local_creds.password@.len() == PASSWORD_LEN,
        ensures
            r@ == (IceModel {
                controlling: false,
                ice_lite,
                local_end: false,
                remote_end: false,
                conn_state: IceConnectionState::New,
                local_creds,
                remote_creds: Seq::empty(),
                verified: Set::empty(),
                local_candidates: Seq::empty(),
                remote_candidates: Seq::empty(),
                pairs: Seq::empty(),
            }),
            r@.wf(),
    {
        let r = IceState {
            controlling: false,
            ice_lite,
            local_end_of_candidates: false,
            remote_end_of_candidates: false,
            conn_state: IceConnectionState::New,
            local_creds,
            remote_creds: Vec::new(),
            verified: Vec::new(),
            local_candidates: Vec::new(),
            remote_candidates: Vec::new(),
            candidate_pairs: Vec::new(),
        };
        assert(r.verified@.to_set() =~= Set::empty());
        assert(r.remote_creds@ =~= Seq::empty());
        assert(r.local_candidates@ =~= Seq::empty());
        assert(r.remote_candidates@ =~= Seq::empty());
        assert(r.candidate_pairs@ =~= Seq::empty());
        r
    }

    /// Whether the role may still be set.
    pub fn can_set_controlling(&self) -> (r: bool)
        ensures
            r == self@.role_open(),
    {
        self.candidate_pairs.len() == 0
    }

    /// Sets the role. The role decides which side's priority weighs more
    /// in a pair, so it is set before the first pair is formed.
    pub fn set_controlling(&mut self, c: bool)
        requires
            old(self)@.role_open(),
        ensures
            final(self)@ == (IceModel { controlling: c, ..old(self)@ }),
            old(self)@.wf() ==> final(self)@.wf(),
    {
        self.controlling = c;
    }

    pub fn add_local_candidate(&mut self, c: Candidate)
        requires
            old(self)@.wf(),
        ensures
            final(self)@ == old(self)@.with_candidate(true, c),
            final(self)@.wf(),
    {
        if self.local_end_of_candidates {
            return ;
        }
        if self.ice_lite && !c.is_host() {
            return ;
        }
        let ghost before = self@;
        Self::do_add_candidate(
            &mut self.local_candidates,
            &self.remote_candidates,
            &mut self.candidate_pairs,
            c,
            true,
            self.controlling,
        );
        let stored: usize = self.local_candidates.len();
        proof {
            use_type_invariant(&c);
            if !before.local_candidates.contains(c) {
                lemma_with_candidate_wf(before, true, c);
            }
        }
    }

    pub fn add_remote_candidate(&mut self, c: Candidate)
        requires
            old(self)@.wf(),
        ensures
            final(self)@ == old(self)@.with_candidate(false, c),
            final(self)@.wf(),
    {
        if self.remote_end_of_candidates {
            return ;
        }
        let ghost before = self@;
        Self::do_add_candidate(
            &mut self.remote_candidates,
            &self.local_candidates,
            &mut self.candidate_pairs,
            c,
            false,
            self.controlling,
        );
        let stored: usize = self.remote_candidates.len();
        proof {
            use_type_invariant(&c);
            if !before.remote_candidates.contains(c) {
                lemma_with_candidate_wf(before, false, c);
            }
        }
    }

    /// Appends `candidate` to `add_to` unless it is there already, and
    /// pairs it with each candidate of `pair_with`.
    fn do_add_candidate(
        add_to: &mut Vec<Candidate>,
        pair_with: &Vec<Candidate>,
        pair_to: &mut Vec<CandidatePair>,
        candidate: Candidate,
        local: bool,
        controlling: bool,
    )
        requires
            sorted_desc(old(pair_to)@),
        ensures
            old(add_to)@.contains(candidate) ==> final(add_to)@ == old(add_to)@ && final(pair_to)@
                == old(pair_to)@,
            !old(add_to)@.contains(candidate) ==> final(add_to)@ == old(add_to)@.push(candidate)
                && final(pair_to)@ == paired(
                old(pair_to)@,
                (Arrival {
                    local,
                    controlling,
                    idx: old(add_to)@.len() as usize,
                    prio: candidate.spec_prio(),
                }),
                pair_with@,
                pair_with@.len(),
            ),
    {
        if contains_candidate(add_to, candidate) {
            return ;
        }
        let left_idx: usize = add_to.len();
        let left_prio: u32 = candidate.prio();
        let ghost a = Arrival { local, controlling, idx: left_idx, prio: left_prio };
        add_to.push(candidate);

        let mut right_idx: usize = 0;
        while right_idx < pair_with.len()
            invariant
                0 <= right_idx <= pair_with@.len(),
                left_prio <= types::MAX_CANDIDATE_PRIORITY,
                a == (Arrival { local, controlling, idx: left_idx, prio: left_prio }),
                pair_to@ == paired(old(pair_to)@, a, pair_with@, right_idx as nat),
                sorted_desc(pair_to@),
            decreases pair_with@.len() - right_idx,
        {
            if pair_to.len() < MAX_PAIRS {
                let right_prio: u32 = pair_with[right_idx].prio();
                proof {
                    lemma_pair_priority_fits(left_prio, right_prio);
                    lemma_pair_priority_fits(right_prio, left_prio);
                }
                let prio: u64 = if local == controlling {
                    pair_priority(left_prio, right_prio)
                } else {
                    pair_priority(right_prio, left_prio)
                };
                let pair = CandidatePair {
                    local_idx: if local {
                        left_idx
                    } else {
                        right_idx
                    },
                    remote_idx: if local {
                        right_idx
                    } else {
                        left_idx
                    },
                    prio,
                    state: CheckState::Waiting,
                    attempted: None,
                    trans_id: None,
                };
                assert(pair == formed_pair(a, right_idx, right_prio));
                insert_by_priority(pair_to, pair);
            }
            right_idx += 1;
        }
    }

    fn knows_username(&self, username: &String) -> (r: bool)
        ensures
            r == self@.knows_peer(username@),
    {
        let mut i: usize = 0;
        while i < self.remote_creds.len()
            invariant
                0 <= i <= self.remote_creds@.len(),
                forall|k: int|
                    0 <= k < i ==> (#[trigger] self.remote_creds@[k]).username@ != username@,
            decreases self.remote_creds@.len() - i,
        {
            if self.remote_creds[i].username == *username {
                assert(self@.remote_creds[i as int].username@ == username@);
                return true;
            }
            i += 1;
        }
        false
    }

    /// Adds credentials of the peer, unless some with the same username
    /// are known.
    pub fn add_remote_creds(&mut self, creds: IceCreds)
        requires
            old(self)@.wf(),
        ensures
            final(self)@ == old(self)@.with_remote_creds(creds),
            final(self)@.wf(),
    {
        if !self.knows_username(&creds.username) {
            self.remote_creds.push(creds);
        }
    }

    /// Whether a message sent to `target` is for this agent and authentic.
    /// `Ok(false)` says that the message names a peer unknown here: it may
    /// be for another agent on the same socket.
    pub fn accepts_stun(&self, target: SocketAddress, stun: &StunMessage) -> (r: Result<
        bool,
        IceError,
    >)
        ensures
            r == self@.accepts(target, *stun),
    {
        let (first, second) = stun.split_username();
        let (own, peer) = if self.controlling {
            (second, first)
        } else {
            (first, second)
        };

        if !self.knows_username(peer) {
            // this is not a fault, the packet might not be for this peer.
            return Ok(false);
        }
        if !(*own == self.local_creds.username) {
            // maybe a name clash on the remote username
            return Err(IceError::UsernameMismatch(target));
        }
        let mut check_ok = false;
        if self.controlling {
            let mut i: usize = 0;
            while i < self.remote_creds.len()
                invariant
                    0 <= i <= self.remote_creds@.len(),
                    check_ok == exists|k: int|
                        0 <= k < i && stun.integrity_holds(
                            (#[trigger] self.remote_creds@[k]).password@,
                        ),
                decreases self.remote_creds@.len() - i,
            {
                let ok = stun.check_integrity(&self.remote_creds[i].password);
                check_ok = check_ok || ok;
                i += 1;
            }
        } else {
            check_ok = stun.check_integrity(&self.local_creds.password);
        }
        if !check_ok {
            return Err(IceError::IntegrityFailed(target));
        }
        Ok(true)
    }

    /// The first pair that was sent under `id`, or the number of pairs.
    fn find_pair_sent_under(&self, id: &[u8; 12]) -> (k: usize)
        ensures
            k == find_sent(self@.pairs, id@),
            k <= self@.pairs.len(),
            k < self@.pairs.len() ==> sent_under(self@.pairs[k as int], id@),
    {
        let mut k: usize = 0;
        while k < self.candidate_pairs.len()
            invariant
                0 <= k <= self.candidate_pairs@.len(),
                find_sent_from(self.candidate_pairs@, id@, k as int) == find_sent(
                    self.candidate_pairs@,
                    id@,
                ),
            decreases self.candidate_pairs@.len() - k,
        {
            let found = match &self.candidate_pairs[k].trans_id {
                Some(t) => same_trans_id(t, id),
                None => false,
            };
            if found {
                return k;
            }
            k += 1;
        }
        k
    }

    /// Takes in a message that was sent from `source` to `target`.
    ///
    /// A message that is not for this agent changes nothing and is
    /// answered with `Ok(None)`. An accepted message verifies `target` and
    /// sets the connection state. A binding response then settles the pair
    /// it answers. A binding request is answered: the reply goes from
    /// `target` back to `source`, under the agent's own password.
    pub fn handle_stun(&mut self, source: SocketAddress, target: SocketAddress, stun: &StunMessage) -> (r:
        Result<Option<BindingReply>, IceError>)
        requires
            old(self)@.wf(),
            old(self)@.accepts(target, *stun) == Ok::<bool, IceError>(true) ==> stun.kind
                != StunKind::Other,
        ensures
            final(self)@ == old(self)@.handled(target, *stun),
            final(self)@.wf(),
            old(self)@.accepts(target, *stun) matches Err(e) ==> r == Err::<
                Option<BindingReply>,
                IceError,
            >(e),
            old(self)@.accepts(target, *stun) == Ok::<bool, IceError>(false) ==> r == Ok::<
                Option<BindingReply>,
                IceError,
            >(None),
            old(self)@.accepts(target, *stun) == Ok::<bool, IceError>(true) ==> match stun.kind {
                StunKind::BindingResponse => if find_sent(old(self)@.pairs, stun.trans_id@) < old(
                    self,
                )@.pairs.len() {
                    r == Ok::<Option<BindingReply>, IceError>(None)
                } else {
                    r == Err::<Option<BindingReply>, IceError>(IceError::UnknownTransaction)
                },
                _ => r matches Ok(Some(reply)) && reply.source == target && reply.destination
                    == source && reply.password@ == old(self)@.local_creds.password@
                    && reply.trans_id == stun.trans_id,
            },
    {
        proof {
            lemma_handled_wf(self@, target, *stun);
        }
        match self.accepts_stun(target, stun) {
            Err(e) => {
                return Err(e);
            },
            Ok(false) => {
                return Ok(None);
            },
            Ok(true) => {},
        }
        // on the back of an authenticated message, the address it was
        // sent to is verified for other kinds of data.
        if !contains_addr(&self.verified, target) {
            let ghost before = self.verified@;
            self.verified.push(target);
            assert(self.verified@.to_set() =~= before.to_set().insert(target)) by {
                assert forall|a: SocketAddress|
                    self.verified@.to_set().contains(a) == before.to_set().insert(target).contains(
                        a,
                    ) by {
                    if before.contains(a) {
                        let k = choose|k: int| 0 <= k < before.len() && before[k] == a;
                        assert(self.verified@[k] == a);
                    }
                    if a == target {
                        assert(self.verified@[before.len() as int] == a);
                    }
                }
            }
        } else {
            assert(self.verified@.to_set() =~= self.verified@.to_set().insert(target));
        }
        let next = if self.has_more_candidates_to_check() {
            IceConnectionState::Connected
        } else {
            IceConnectionState::Completed
        };
        self.set_conn_state(next);

        if stun.is_binding_response() {
            let k = self.find_pair_sent_under(&stun.trans_id);
            if k < self.candidate_pairs.len() {
                let mut pair = self.candidate_pairs[k];
                pair.state = CheckState::Succeeded;
                self.candidate_pairs.set(k, pair);
                return Ok(None);
            } else {
                return Err(IceError::UnknownTransaction);
            }
        }
        Ok(
            Some(
                BindingReply {
                    source: target,
                    destination: source,
                    password: self.local_creds.password.clone(),
                    trans_id: stun.trans_id,
                },
            ),
        )
    }

    pub fn is_stun_verified(&self, addr: SocketAddress) -> (r: bool)
        ensures
            r == self@.verified.contains(addr),
    {
        contains_addr(&self.verified, addr)
    }

    pub fn has_any_verified(&self) -> (r: bool)
        ensures
            r == exists|a: SocketAddress| self@.verified.contains(a),
    {
        if self.verified.len() > 0 {
            assert(self@.verified.contains(self.verified@[0]));
            true
        } else {
            assert forall|a: SocketAddress| !self@.verified.contains(a) by {
                if self.verified@.contains(a) {
                    let k = choose|k: int| 0 <= k < self.verified@.len() && self.verified@[k] == a;
                }
            }
            false
        }
    }

    pub fn local_creds(&self) -> (r: &IceCreds)
        ensures
            *r == self@.local_creds,
    {
        &self.local_creds
    }

    /// The peer's credentials, in the order they were added.
    pub fn remote_creds(&self) -> (r: &[IceCreds])
        ensures
            r@ == self@.remote_creds,
    {
        self.remote_creds.as_slice()
    }

    pub fn local_candidates(&self) -> (r: &[Candidate])
        ensures
            r@ == self@.local_candidates,
    {
        self.local_candidates.as_slice()
    }

    pub fn remote_candidates(&self) -> (r: &[Candidate])
        ensures
            r@ == self@.remote_candidates,
    {
        self.remote_candidates.as_slice()
    }

    /// The pairs, the highest priority first.
    pub fn candidate_pairs(&self) -> (r: &[CandidatePair])
        ensures
            r@ == self@.pairs,
    {
        self.candidate_pairs.as_slice()
    }

    pub fn conn_state(&self) -> (r: IceConnectionState)
        ensures
            r == self@.conn_state,
    {
        self.conn_state
    }

    pub fn is_controlling(&self) -> (r: bool)
        ensures
            r == self@.controlling,
    {
        self.controlling
    }

    pub fn set_remote_end_of_candidates(&mut self)
        ensures
            final(self)@ == (IceModel { remote_end: true, ..old(self)@ }),
            old(self)@.wf() ==> final(self)@.wf(),
    {
        if self.remote_end_of_candidates {
            return ;
        }
        self.remote_end_of_candidates = true;
    }

    pub fn set_local_end_of_candidates(&mut self)
        ensures
            final(self)@ == (IceModel { local_end: true, ..old(self)@ }),
            old(self)@.wf() ==> final(self)@.wf(),
    {
        if self.local_end_of_candidates {
            return ;
        }
        self.local_end_of_candidates = true;
    }

    pub fn local_end_of_candidates(&self) -> (r: bool)
        ensures
            r == self@.local_end,
    {
        self.local_end_of_candidates
    }

    pub fn remote_end_of_candidates(&self) -> (r: bool)
        ensures
            r == self@.remote_end,
    {
        self.remote_end_of_candidates
    }

    fn set_conn_state(&mut self, c: IceConnectionState)
        ensures
            final(self)@ == (IceModel { conn_state: c, ..old(self)@ }),
    {
        if c != self.conn_state {
            self.conn_state = c;
        }
    }

    /// Drives the connectivity checks of the controlling agent at `time`.
    ///
    /// A controlled agent, or one whose connection is past checking, does
    /// nothing. Otherwise the connection leaves `New` for `Checking`, and
    /// the pairs that wait are started in order of priority, each under the
    /// next of the fresh transaction ids in `ids`, until `MAX_CONCURRENT`
    /// checks are in flight, no pair waits or the ids are used up. The
    /// binding requests to send come back in the order the pairs were
    /// started. Where the agent finds no pair waiting while there is room
    /// for a check, a `Connected` connection is `Completed`.
    ///
    /// The peer's credentials must be known before the first check.
    pub fn drive_stun_controlling(&mut self, time: u64, ids: &Vec<[u8; 12]>) -> (requests: Vec<
        BindingRequest,
    >)
        requires
            old(self)@.wf(),
            old(self)@.checks_allowed() && old(self)@.drive_budget(ids@.len()) > 0 ==> old(
                self,
            )@.remote_creds.len() > 0,
        ensures
            final(self)@ == old(self)@.driven(time, ids@),
            final(self)@.wf(),
            requests@.len() == if old(self)@.checks_allowed() {
                old(self)@.drive_budget(ids@.len())
            } else {
                0
            },
            forall|i: int|
                0 <= i < old(self)@.pairs.len() && (#[trigger] old(self)@.pairs[i]).state
                    == CheckState::Waiting && waiting_before(old(self)@.pairs, i)
                    < requests@.len() ==> request_for(
                    old(self)@,
                    old(self)@.pairs[i],
                    ids@[waiting_before(old(self)@.pairs, i) as int],
                    requests@[waiting_before(old(self)@.pairs, i) as int],
                ),
            count_state(final(self)@.pairs, CheckState::InProgress) == count_state(
                old(self)@.pairs,
                CheckState::InProgress,
            ) + requests@.len(),
            count_state(final(self)@.pairs, CheckState::InProgress) <= MAX_CONCURRENT,
    {
        let mut requests: Vec<BindingRequest> = Vec::new();
        if !self.controlling {
            return requests;
        }
        if !self.conn_state.should_check() {
            return requests;
        }
        let ghost start = self@;
        if self.conn_state == IceConnectionState::New {
            self.set_conn_state(IceConnectionState::Checking);
        }
        let ghost checking = self@;
        let len: usize = self.candidate_pairs.len();
        let mut in_progress: usize = self.count_candidates_in_progress();
        let mut i: usize = 0;
        let mut out_of_ids = false;
        proof {
            lemma_drive_begin(start, time, ids@);
        }
        // The pairs are in order of priority, so the first that waits is
        // the top pair.
        while i < len && in_progress < MAX_CONCURRENT && !out_of_ids
            invariant
                len == start.pairs.len(),
                self@ == (IceModel { pairs: self.candidate_pairs@, ..checking }),
                checking == (IceModel { conn_state: checking.conn_state, ..start }),
                start.remote_creds.len() > 0 || start.drive_budget(ids@.len()) == 0,
                pairs_in_range(
                    start.pairs,
                    start.local_candidates.len(),
                    start.remote_candidates.len(),
                ),
                states_consistent(start.pairs),
                0 <= i <= len,
                drive_progress(start.pairs, self.candidate_pairs@, i as int, time, ids@),
                requests_progress(start, requests@, i as int, ids@),
                requests@.len() == waiting_before(start.pairs, i as int),
                requests@.len() <= ids@.len(),
                in_progress == count_state(self.candidate_pairs@, CheckState::InProgress),
                in_progress == count_state(start.pairs, CheckState::InProgress) + requests@.len(),
                in_progress <= MAX_CONCURRENT,
                out_of_ids ==> i < len && start.pairs[i as int].state == CheckState::Waiting
                    && requests@.len() == ids@.len(),
            decreases
                    len - i + if out_of_ids {
                        0int
                    } else {
                        1int
                    },
        {
            proof {
                lemma_drive_at(start, self.candidate_pairs@, i as int, time, ids@);
            }
            let next: CandidatePair = self.candidate_pairs[i];
            if next.state == CheckState::Waiting {
                if requests.len() >= ids.len() {
                    out_of_ids = true;
                } else {
                    let k: usize = requests.len();
                    assert(start.drive_budget(ids@.len()) > 0);
                    let (pair, request) = Self::send_binding_request(
                        next,
                        &self.local_candidates[next.local_idx],
                        &self.remote_candidates[next.remote_idx],
                        time,
                        &self.local_creds,
                        &self.remote_creds[self.remote_creds.len() - 1],
                        ids[k],
                    );
                    proof {
                        lemma_drive_start(
                            start,
                            self.candidate_pairs@,
                            requests@,
                            i as int,
                            time,
                            ids@,
                            request,
                        );
                    }
                    self.candidate_pairs.set(i, pair);
                    requests.push(request);
                    in_progress += 1;
                    i += 1;
                }
            } else {
                proof {
                    lemma_drive_skip(start, self.candidate_pairs@, requests@, i as int, time, ids@);
                }
                i += 1;
            }
        }
        proof {
            lemma_drive_end(start, self.candidate_pairs@, i as int, time, ids@);
            lemma_drive_keeps_shape(
                start.pairs,
                self.candidate_pairs@,
                i as int,
                time,
                ids@,
                start.local_candidates,
                start.remote_candidates,
                start.controlling,
            );
            lemma_requests_end(start, requests@, i as int, ids@);
        }
        if in_progress < MAX_CONCURRENT && i == len {
            // No more pairs to check.
            if self.conn_state == IceConnectionState::Connected {
                self.set_conn_state(IceConnectionState::Completed);
            }
        }
        requests
    }

    /// Starts the check of a pair that waits: the pair as it is once the
    /// request is out, and the request to send.
    fn send_binding_request(
        next: CandidatePair,
        local: &Candidate,
        remote: &Candidate,
        time: u64,
        local_creds: &IceCreds,
        remote_creds: &IceCreds,
        trans_id: [u8; 12],
    ) -> (r: (CandidatePair, BindingRequest))
        requires
            next.state == CheckState::Waiting,
            next.attempted.is_none(),
        ensures
            r.0 == started(next, time, trans_id),
            r.1.source == local.spec_addr(),
            r.1.destination == remote.spec_addr(),
            r.1.username@ == remote_creds.username@ + seq![':'] + local_creds.username@,
            r.1.password@ == remote_creds.password@,
            r.1.trans_id == trans_id,
    {
        let mut pair = next;
        pair.state = CheckState::InProgress;
        pair.attempted = Some(time);
        pair.trans_id = Some(trans_id);
        let request = BindingRequest {
            source: local.addr(),
            destination: remote.addr(),
            username: join_usernames(&remote_creds.username, &local_creds.username),
            password: remote_creds.password.clone(),
            trans_id,
        };
        (pair, request)
    }

    fn has_more_candidates_to_check(&self) -> (r: bool)
        ensures
            r == has_waiting(self@.pairs),
    {
        let mut i: usize = 0;
        while i < self.candidate_pairs.len()
            invariant
                0 <= i <= self.candidate_pairs@.len(),
                forall|k: int|
                    0 <= k < i ==> (#[trigger] self.candidate_pairs@[k]).state
                        != CheckState::Waiting,
            decreases self.candidate_pairs@.len() - i,
        {
            if self.candidate_pairs[i].state == CheckState::Waiting {
                return true;
            }
            i += 1;
        }
        false
    }

    fn count_candidates_in_progress(&self) -> (r: usize)
        ensures
            r == count_state(self@.pairs, CheckState::InProgress),
    {
        let mut i: usize = 0;
        let mut n: usize = 0;
        while i < self.candidate_pairs.len()
            invariant
                0 <= i <= self.candidate_pairs@.len(),
                n <= i,
                n == count_state(self.candidate_pairs@.take(i as int), CheckState::InProgress),
            decreases self.candidate_pairs@.len() - i,
        {
            proof {
                lemma_count_take_next(self.candidate_pairs@, CheckState::InProgress, i as int);
            }
            if self.candidate_pairs[i].state == CheckState::InProgress {
                n += 1;
            }
            i += 1;
        }
        assert(self.candidate_pairs@.take(i as int) =~= self.candidate_pairs@);
        n
    }
}

} // verus!
