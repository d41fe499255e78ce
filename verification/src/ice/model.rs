//! The agent as a mathematical value, and each of its operations as a
//! function from one such value to the next.

use super::pair::{
    count_state, distinct_pairs, paired, pairs_in_range, priced, priorities_in_range, sorted_desc,
    states_consistent, waiting_before, Arrival, CandidatePair, CheckState, MAX_CONCURRENT,
    MAX_PAIRS,
};
use super::types::{
    BindingRequest, Candidate, CandidateKind, IceCreds, IceError, SocketAddress, StunKind,
    StunMessage, PASSWORD_LEN, USERNAME_LEN,
};
use vstd::prelude::*;

verus! {

/// State of the connection as a whole.
#[derive(Clone, Copy, Debug, PartialEq, Eq, Structural)]
pub enum IceConnectionState {
    /// Waiting for candidates.
    New,
    /// Checking pairs of local-remote candidates.
    Checking,
    /// A usable pair of local-remote candidates found, but still checking.
    Connected,
    /// A usable pair of local-remote candidates found. Checking is finished.
    Completed,
    /// No connection found from the candidate pairs.
    Failed,
    /// Shut down.
    Closed,
}

impl IceConnectionState {
    /// Whether connectivity checks go on in this state.
    pub open spec fn checks(self) -> bool {
        self == IceConnectionState::New || self == IceConnectionState::Checking || self
            == IceConnectionState::Connected
    }

    /// Whether a connection in this state may next be found in state
    /// `next`. It stays as it is, or leaves `New` for `Checking`, or is
    /// found `Connected` or `Completed` on the back of an authenticated
    /// message or of a drive call that finds nothing left to check.
    /// `Failed` and `Closed` are left for no other state.
    pub open spec fn may_become(self, next: IceConnectionState) -> bool {
        ||| next == self
        ||| self == IceConnectionState::New && next == IceConnectionState::Checking
        ||| self != IceConnectionState::Failed && self != IceConnectionState::Closed && (next
            == IceConnectionState::Connected || next == IceConnectionState::Completed)
    }

    /// The state's name in lower case.
    pub open spec fn name(self) -> Seq<char> {
        match self {
            IceConnectionState::New => "new"@,
            IceConnectionState::Checking => "checking"@,
            IceConnectionState::Connected => "connected"@,
            IceConnectionState::Completed => "completed"@,
            IceConnectionState::Failed => "failed"@,
            IceConnectionState::Closed => "closed"@,
        }
    }

    pub fn should_check(&self) -> (r: bool)
        ensures
            r == self.checks(),
    {
        match self {
            IceConnectionState::New => true,
            IceConnectionState::Checking => true,
            IceConnectionState::Connected => true,
            _ => false,
        }
    }

    pub fn as_str(&self) -> (r: &'static str)
        ensures
            r@ == self.name(),
    {
        match self {
            IceConnectionState::New => "new",
            IceConnectionState::Checking => "checking",
            IceConnectionState::Connected => "connected",
            IceConnectionState::Completed => "completed",
            IceConnectionState::Failed => "failed",
            IceConnectionState::Closed => "closed",
        }
    }
}

/// Everything the agent holds.
pub ghost struct IceModel {
    /// Whether this is the controlling agent.
    pub controlling: bool,
    /// Whether the agent runs in lite mode and deals with local host
    /// candidates only.
    pub ice_lite: bool,
    /// Whether no more local candidates will come.
    pub local_end: bool,
    /// Whether no more remote candidates will come.
    pub remote_end: bool,
    pub conn_state: IceConnectionState,
    /// The agent's own credentials.
    pub local_creds: IceCreds,
    /// The peer's credentials, in the order they were added.
    pub remote_creds: Seq<IceCreds>,
    /// The addresses that an authenticated message was sent to.
    pub verified: Set<SocketAddress>,
    pub local_candidates: Seq<Candidate>,
    pub remote_candidates: Seq<Candidate>,
    pub pairs: Seq<CandidatePair>,
}

/// No username occurs twice.
pub open spec fn distinct_usernames(creds: Seq<IceCreds>) -> bool {
    forall|i: int, j: int|
        0 <= i < j < creds.len() ==> creds[i].username@ != creds[j].username@
}

/// Whether some pair waits to be checked.
pub open spec fn has_waiting(pairs: Seq<CandidatePair>) -> bool {
    exists|i: int| 0 <= i < pairs.len() && (#[trigger] pairs[i]).state == CheckState::Waiting
}

/// Whether `pair` was sent under the transaction id `id`.
pub open spec fn sent_under(pair: CandidatePair, id: Seq<u8>) -> bool {
    pair.trans_id.is_some() && pair.trans_id.unwrap()@ == id
}

/// The first position at or after `from` whose pair was sent under `id`,
/// or the length where there is none.
pub open spec fn find_sent_from(pairs: Seq<CandidatePair>, id: Seq<u8>, from: int) -> int
    decreases pairs.len() - from,
{
    if from < 0 || from >= pairs.len() || sent_under(pairs[from], id) {
        from
    } else {
        find_sent_from(pairs, id, from + 1)
    }
}

/// The first pair that was sent under `id`, or the length where no pair
/// was.
pub open spec fn find_sent(pairs: Seq<CandidatePair>, id: Seq<u8>) -> int {
    find_sent_from(pairs, id, 0)
}

/// A pair whose check has succeeded.
pub open spec fn succeeded(p: CandidatePair) -> CandidatePair {
    CandidatePair { state: CheckState::Succeeded, ..p }
}

/// A pair whose check was started at `time` under the transaction id `id`.
pub open spec fn started(p: CandidatePair, time: u64, id: [u8; 12]) -> CandidatePair {
    CandidatePair {
        state: CheckState::InProgress,
        attempted: Some(time),
        trans_id: Some(id),
        ..p
    }
}

/// The pair at `i` after a drive that starts `n` checks: the first `n`
/// pairs that wait are started, each under the next unused id.
pub open spec fn driven_pair(
    pairs: Seq<CandidatePair>,
    i: int,
    n: nat,
    time: u64,
    ids: Seq<[u8; 12]>,
) -> CandidatePair {
    if pairs[i].state == CheckState::Waiting && waiting_before(pairs, i) < n {
        started(pairs[i], time, ids[waiting_before(pairs, i) as int])
    } else {
        pairs[i]
    }
}

/// Whether a binding request is the one that a drive call owes for `pair`
/// under the transaction id `id`: from the pair's local address to its
/// remote address, in the name of the peer's latest credentials.
pub open spec fn request_for(
    m: IceModel,
    pair: CandidatePair,
    id: [u8; 12],
    req: BindingRequest,
) -> bool {
    &&& req.source == m.local_candidates[pair.local_idx as int].spec_addr()
    &&& req.destination == m.remote_candidates[pair.remote_idx as int].spec_addr()
    &&& req.username@ == m.remote_creds.last().username@ + seq![':'] + m.local_creds.username@
    &&& req.password@ == m.remote_creds.last().password@
    &&& req.trans_id == id
}

impl IceModel {
    /// What holds of the agent at all times.
    pub open spec fn wf(self) -> bool {
        &&& self.pairs.len() <= MAX_PAIRS
        &&& sorted_desc(self.pairs)
        &&& distinct_pairs(self.pairs)
        &&& states_consistent(self.pairs)
        &&& pairs_in_range(self.pairs, self.local_candidates.len(), self.remote_candidates.len())
        &&& priorities_in_range(self.local_candidates)
        &&& priorities_in_range(self.remote_candidates)
        &&& priced(self.pairs, self.local_candidates, self.remote_candidates, self.controlling)
        &&& count_state(self.pairs, CheckState::InProgress) <= MAX_CONCURRENT
        &&& self.local_candidates.no_duplicates()
        &&& self.remote_candidates.no_duplicates()
        &&& self.local_candidates.len() <= usize::MAX
        &&& self.remote_candidates.len() <= usize::MAX
        &&& distinct_usernames(self.remote_creds)
        &&& self.conn_state != IceConnectionState::Failed
        &&& self.conn_state != IceConnectionState::Closed
        &&& self.local_creds.username@.len() == USERNAME_LEN
        &&& self.local_creds.password@.len() == PASSWORD_LEN
    }

    /// Whether the role may still be set: only while there are no pairs.
    pub open spec fn role_open(self) -> bool {
        self.pairs.len() == 0
    }

    /// Whether a candidate that arrives on the given side is left out
    /// without a look at it: the side is closed, or the agent runs in lite
    /// mode and the candidate is a local one of another kind than host.
    pub open spec fn ignores(self, local: bool, c: Candidate) -> bool {
        if local {
            self.local_end || (self.ice_lite && c.spec_kind() != CandidateKind::Host)
        } else {
            self.remote_end
        }
    }

    /// The candidates of one side.
    pub open spec fn side(self, local: bool) -> Seq<Candidate> {
        if local {
            self.local_candidates
        } else {
            self.remote_candidates
        }
    }

    /// How a candidate that arrives now enters the pairs.
    pub open spec fn arrival(self, local: bool, c: Candidate) -> Arrival {
        Arrival {
            local,
            controlling: self.controlling,
            idx: self.side(local).len() as usize,
            prio: c.spec_prio(),
        }
    }

    /// The agent after a candidate has arrived on the given side. One that
    /// is ignored or already known changes nothing. Any other is appended
    /// to its side and paired with every candidate of the other side.
    pub open spec fn with_candidate(self, local: bool, c: Candidate) -> IceModel {
        if self.ignores(local, c) || self.side(local).contains(c) {
            self
        } else {
            let pairs = paired(
                self.pairs,
                self.arrival(local, c),
                self.side(!local),
                self.side(!local).len(),
            );
            if local {
                IceModel { local_candidates: self.local_candidates.push(c), pairs, ..self }
            } else {
                IceModel { remote_candidates: self.remote_candidates.push(c), pairs, ..self }
            }
        }
    }

    /// Whether the peer has credentials with this username.
    pub open spec fn knows_peer(self, username: Seq<char>) -> bool {
        exists|i: int|
            0 <= i < self.remote_creds.len() && (#[trigger] self.remote_creds[i]).username@
                == username
    }

    /// The agent after credentials of the peer were added: a username that
    /// is known already changes nothing.
    pub open spec fn with_remote_creds(self, creds: IceCreds) -> IceModel {
        if self.knows_peer(creds.username@) {
            self
        } else {
            IceModel { remote_creds: self.remote_creds.push(creds), ..self }
        }
    }

    /// The segment of a message's username that names this agent. The
    /// controlling agent reads the segments in the opposite order.
    pub open spec fn own_segment(self, stun: StunMessage) -> Seq<char> {
        if self.controlling {
            stun.username_second@
        } else {
            stun.username_first@
        }
    }

    /// The segment of a message's username that names the peer.
    pub open spec fn peer_segment(self, stun: StunMessage) -> Seq<char> {
        if self.controlling {
            stun.username_first@
        } else {
            stun.username_second@
        }
    }

    /// Whether the message's integrity verifies: for the controlling agent
    /// under the password of any of the peer's credentials, for the
    /// controlled agent under its own password.
    pub open spec fn integrity_ok(self, stun: StunMessage) -> bool {
        if self.controlling {
            exists|i: int|
                0 <= i < self.remote_creds.len() && stun.integrity_holds(
                    (#[trigger] self.remote_creds[i]).password@,
                )
        } else {
            stun.integrity_holds(self.local_creds.password@)
        }
    }

    /// Whether a message sent to `target` is for this agent and authentic.
    pub open spec fn accepts(self, target: SocketAddress, stun: StunMessage) -> Result<
        bool,
        IceError,
    > {
        if !self.knows_peer(self.peer_segment(stun)) {
            Ok(false)
        } else if self.own_segment(stun) != self.local_creds.username@ {
            Err(IceError::UsernameMismatch(target))
        } else if !self.integrity_ok(stun) {
            Err(IceError::IntegrityFailed(target))
        } else {
            Ok(true)
        }
    }

    /// The agent once it has accepted a message sent to `target`: the
    /// address is verified, and the connection is `Connected` while a pair
    /// waits and `Completed` when none does.
    pub open spec fn after_accepted(self, target: SocketAddress) -> IceModel {
        IceModel {
            verified: self.verified.insert(target),
            conn_state: if has_waiting(self.pairs) {
                IceConnectionState::Connected
            } else {
                IceConnectionState::Completed
            },
            ..self
        }
    }

    /// The agent after a message sent to `target` was handed to it. A
    /// message that is not accepted changes nothing. A binding response
    /// moves the first pair sent under its transaction id to `Succeeded`.
    pub open spec fn handled(self, target: SocketAddress, stun: StunMessage) -> IceModel {
        if self.accepts(target, stun) != Ok::<bool, IceError>(true) {
            self
        } else {
            let m = self.after_accepted(target);
            let k = find_sent(self.pairs, stun.trans_id@);
            if stun.kind == StunKind::BindingResponse && k < self.pairs.len() {
                IceModel { pairs: self.pairs.update(k, succeeded(self.pairs[k])), ..m }
            } else {
                m
            }
        }
    }

    /// Whether a drive call sends checks at all.
    pub open spec fn checks_allowed(self) -> bool {
        self.controlling && self.conn_state.checks()
    }

    /// How many checks a drive call starts with `ids` fresh transaction
    /// ids at hand: as many as pairs wait, as ids are there, and as the
    /// limit on checks in flight leaves room for.
    pub open spec fn drive_budget(self, ids: nat) -> nat {
        let in_flight = count_state(self.pairs, CheckState::InProgress);
        let room = if in_flight >= MAX_CONCURRENT {
            0nat
        } else {
            (MAX_CONCURRENT - in_flight) as nat
        };
        let waiting = count_state(self.pairs, CheckState::Waiting);
        let most = if room < waiting {
            room
        } else {
            waiting
        };
        if most < ids {
            most
        } else {
            ids
        }
    }

    /// Whether a drive call finds that no pair waits while there is still
    /// room for a check.
    pub open spec fn drive_exhausts(self, ids: nat) -> bool {
        self.drive_budget(ids) == count_state(self.pairs, CheckState::Waiting) && count_state(
            self.pairs,
            CheckState::InProgress,
        ) + self.drive_budget(ids) < MAX_CONCURRENT
    }

    /// The agent after a drive call at `time` with the given fresh ids.
    pub open spec fn driven(self, time: u64, ids: Seq<[u8; 12]>) -> IceModel {
        if !self.checks_allowed() {
            self
        } else {
            IceModel {
                conn_state: if self.conn_state == IceConnectionState::New {
                    IceConnectionState::Checking
                } else if self.conn_state == IceConnectionState::Connected && self.drive_exhausts(
                    ids.len(),
                ) {
                    IceConnectionState::Completed
                } else {
                    self.conn_state
                },
                pairs: Seq::new(
                    self.pairs.len(),
                    |i: int| driven_pair(self.pairs, i, self.drive_budget(ids.len()), time, ids),
                ),
                ..self
            }
        }
    }
}

} // verus!
