//! The plain values that the agent exchanges with the session around it:
//! addresses, candidates, credentials, decoded STUN messages and the
//! messages that the agent asks to have sent.

use vstd::prelude::*;

verus! {

/// An IPv4 or IPv6 address as a number.
#[derive(Clone, Copy, Debug, PartialEq, Eq, Structural)]
pub enum IpAddress {
    V4(u32),
    V6(u128),
}

/// An address and a port.
#[derive(Clone, Copy, Debug, PartialEq, Eq, Structural)]
pub struct SocketAddress {
    pub ip: IpAddress,
    pub port: u16,
}

/// How a candidate address was learned.
#[derive(Clone, Copy, Debug, PartialEq, Eq, Structural)]
pub enum CandidateKind {
    Host,
    PeerReflexive,
    ServerReflexive,
    Relayed,
}

/// The largest priority a candidate may carry: with it, the priority of
/// every pair of candidates fits in 64 bits.
pub const MAX_CANDIDATE_PRIORITY: u32 = 0xffff_fffe;

/// A local or remote address eligible for use. Two candidates are the same
/// when address, kind and priority all agree.
#[derive(Clone, Copy, Debug, PartialEq, Eq, Structural)]
pub struct Candidate {
    addr: SocketAddress,
    kind: CandidateKind,
    prio: u32,
}

impl Candidate {
    /// What holds of every candidate: its priority is in range.
    #[verifier::type_invariant]
    pub open spec fn in_range(self) -> bool {
        self.spec_prio() <= MAX_CANDIDATE_PRIORITY
    }

    pub closed spec fn spec_addr(&self) -> SocketAddress {
        self.addr
    }

    pub closed spec fn spec_kind(&self) -> CandidateKind {
        self.kind
    }

    pub closed spec fn spec_prio(&self) -> u32 {
        self.prio
    }

    /// A candidate is told apart by these three values and nothing else.
    pub proof fn lemma_same_fields(a: Candidate, b: Candidate)
        ensures
            (a == b) == (a.spec_addr() == b.spec_addr() && a.spec_kind() == b.spec_kind()
                && a.spec_prio() == b.spec_prio()),
    {
    }

    /// A candidate, unless the priority is above `MAX_CANDIDATE_PRIORITY`.
    pub fn new(addr: SocketAddress, kind: CandidateKind, prio: u32) -> (r: Option<Candidate>)
        ensures
            r.is_some() == (prio <= MAX_CANDIDATE_PRIORITY),
            r.is_some() ==> r.unwrap().spec_addr() == addr && r.unwrap().spec_kind() == kind
                && r.unwrap().spec_prio() == prio,
    {
        if prio <= MAX_CANDIDATE_PRIORITY {
            Some(Candidate { addr, kind, prio })
        } else {
            None
        }
    }

    pub fn addr(&self) -> (r: SocketAddress)
        ensures
            r == self.spec_addr(),
    {
        self.addr
    }

    pub fn kind(&self) -> (r: CandidateKind)
        ensures
            r == self.spec_kind(),
    {
        self.kind
    }

    pub fn prio(&self) -> (r: u32)
        ensures
            r == self.spec_prio(),
            r <= MAX_CANDIDATE_PRIORITY,
    {
        proof {
            use_type_invariant(self);
        }
        self.prio
    }

    pub fn is_host(&self) -> (r: bool)
        ensures
            r == (self.spec_kind() == CandidateKind::Host),
    {
        self.kind == CandidateKind::Host
    }
}

/// The number of characters in the username that an agent goes by.
pub const USERNAME_LEN: usize = 8;

/// The number of characters in the password that an agent goes by.
pub const PASSWORD_LEN: usize = 24;

/// A username and password negotiated for STUN. Two sets of credentials
/// stand for the same peer when their usernames agree.
#[derive(Clone, Debug)]
pub struct IceCreds {
    pub username: String,
    pub password: String,
}

/// The kinds of STUN message that reach the agent.
#[derive(Clone, Copy, Debug, PartialEq, Eq, Structural)]
pub enum StunKind {
    BindingRequest,
    BindingResponse,
    Other,
}

/// A decoded STUN message, as far as the agent reads it.
///
/// The username attribute has the form `first:second`; the two segments are
/// held apart. `verified_passwords` holds the passwords under which the
/// message's integrity attribute was found to verify.
#[derive(Clone, Debug)]
pub struct StunMessage {
    pub kind: StunKind,
    pub trans_id: [u8; 12],
    pub username_first: String,
    pub username_second: String,
    pub verified_passwords: Vec<String>,
}

impl StunMessage {
    /// Whether the message's integrity verifies under `password`.
    pub open spec fn integrity_holds(&self, password: Seq<char>) -> bool {
        exists|i: int|
            0 <= i < self.verified_passwords@.len() && (#[trigger] self.verified_passwords@[i])@
                == password
    }

    pub fn split_username(&self) -> (r: (&String, &String))
        ensures
            r.0 == &self.username_first,
            r.1 == &self.username_second,
    {
        (&self.username_first, &self.username_second)
    }

    pub fn check_integrity(&self, password: &String) -> (r: bool)
        ensures
            r == self.integrity_holds(password@),
    {
        let mut i: usize = 0;
        while i < self.verified_passwords.len()
            invariant
                0 <= i <= self.verified_passwords@.len(),
                forall|k: int| 0 <= k < i ==> (#[trigger] self.verified_passwords@[k])@ != password@,
            decreases self.verified_passwords@.len() - i,
        {
            if self.verified_passwords[i] == *password {
                return true;
            }
            i += 1;
        }
        false
    }

    pub fn is_binding_request(&self) -> (r: bool)
        ensures
            r == (self.kind == StunKind::BindingRequest),
    {
        self.kind == StunKind::BindingRequest
    }

    pub fn is_binding_response(&self) -> (r: bool)
        ensures
            r == (self.kind == StunKind::BindingResponse),
    {
        self.kind == StunKind::BindingResponse
    }
}

/// Why the agent turned a STUN message down.
#[derive(Clone, Copy, Debug, PartialEq, Eq, Structural)]
pub enum IceError {
    /// The message names a known peer but not this agent's own username.
    /// Carries the address that the message was sent to.
    UsernameMismatch(SocketAddress),
    /// The message's integrity verifies under none of the passwords that
    /// apply. Carries the address that the message was sent to.
    IntegrityFailed(SocketAddress),
    /// A binding response answers no request that the agent has in flight.
    UnknownTransaction,
}

/// A binding request that the agent asks to have encoded and sent.
#[derive(Clone, Debug)]
pub struct BindingRequest {
    pub source: SocketAddress,
    pub destination: SocketAddress,
    /// The peer's username, a colon, and the agent's own.
    pub username: String,
    /// The password that authenticates the request.
    pub password: String,
    pub trans_id: [u8; 12],
}

/// A binding response that the agent asks to have encoded and sent.
#[derive(Clone, Debug)]
pub struct BindingReply {
    pub source: SocketAddress,
    pub destination: SocketAddress,
    /// The password that authenticates the response.
    pub password: String,
    pub trans_id: [u8; 12],
}

/// Whether two transaction ids hold the same bytes.
pub fn same_trans_id(a: &[u8; 12], b: &[u8; 12]) -> (r: bool)
    ensures
        r == (a@ == b@),
{
    let mut i: usize = 0;
    while i < 12
        invariant
            0 <= i <= 12,
            forall|k: int| 0 <= k < i ==> a@[k] == b@[k],
        decreases 12 - i,
    {
        if a[i] != b[i] {
            return false;
        }
        i += 1;
    }
    assert(a@ =~= b@);
    true
}

} // verus!
