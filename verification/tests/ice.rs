use ice_agent::ice::IceConnectionState;
use ice_agent::ice::pair::{pair_priority, CheckState, MAX_CONCURRENT, MAX_PAIRS};
use ice_agent::ice::types::{
    same_trans_id, Candidate, CandidateKind, IceCreds, IceError, IpAddress, SocketAddress,
    StunKind, StunMessage, MAX_CANDIDATE_PRIORITY, PASSWORD_LEN, USERNAME_LEN,
};
use ice_agent::ice::IceState;

fn addr(last: u32, port: u16) -> SocketAddress {
    SocketAddress { ip: IpAddress::V4(0x0a00_0000 + last), port }
}

fn host(last: u32, prio: u32) -> Candidate {
    Candidate::new(addr(last, 5000), CandidateKind::Host, prio).expect("priority in range")
}

fn creds(username: &str, password: &str) -> IceCreds {
    IceCreds { username: username.to_string(), password: password.to_string() }
}

fn agent(controlling: bool) -> IceState {
    assert_eq!("locluser".chars().count(), USERNAME_LEN);
    assert_eq!("local-password-of-24-chr".chars().count(), PASSWORD_LEN);
    let mut ice = IceState::new(creds("locluser", "local-password-of-24-chr"), false);
    ice.set_controlling(controlling);
    ice
}

fn message(kind: StunKind, first: &str, second: &str, passwords: &[&str], id: [u8; 12]) -> StunMessage {
    StunMessage {
        kind,
        trans_id: id,
        username_first: first.to_string(),
        username_second: second.to_string(),
        verified_passwords: passwords.iter().map(|p| p.to_string()).collect(),
    }
}

fn ids(n: u8) -> Vec<[u8; 12]> {
    (0..n).map(|k| [k + 1; 12]).collect()
}

fn count(ice: &IceState, state: CheckState) -> usize {
    ice.candidate_pairs().iter().filter(|p| p.state == state).count()
}

fn assert_sorted(ice: &IceState) {
    let pairs = ice.candidate_pairs();
    for i in 1..pairs.len() {
        assert!(pairs[i - 1].prio >= pairs[i].prio);
    }
}

#[test]
fn priority_formula_concrete_case() {
    assert_eq!(pair_priority(100, 50), 214748365001);
    assert_eq!(pair_priority(50, 100), 214748364800 + 200);
    assert_eq!(pair_priority(7, 7), 4294967296 * 7 + 14);
    assert_eq!(pair_priority(0, 0), 0);
    assert_eq!(pair_priority(u32::MAX, MAX_CANDIDATE_PRIORITY), u64::MAX);
}

#[test]
fn candidate_priority_is_bounded() {
    assert!(Candidate::new(addr(1, 1), CandidateKind::Host, u32::MAX).is_none());
    let c = Candidate::new(addr(1, 1), CandidateKind::Relayed, MAX_CANDIDATE_PRIORITY).unwrap();
    assert_eq!(c.prio(), MAX_CANDIDATE_PRIORITY);
    assert_eq!(c.addr(), addr(1, 1));
    assert_eq!(c.kind(), CandidateKind::Relayed);
    assert!(!c.is_host());
    assert!(host(1, 1).is_host());
}

#[test]
fn new_agent_is_controlled_and_empty() {
    let ice = IceState::new(creds("abcdefgh", "0123456789abcdef01234567"), true);
    assert!(!ice.is_controlling());
    assert!(ice.can_set_controlling());
    assert_eq!(ice.conn_state(), IceConnectionState::New);
    assert_eq!(ice.local_creds().username, "abcdefgh");
    assert_eq!(ice.local_creds().password, "0123456789abcdef01234567");
    assert!(ice.local_candidates().is_empty());
    assert!(ice.remote_candidates().is_empty());
    assert!(ice.candidate_pairs().is_empty());
    assert!(!ice.has_any_verified());
    assert!(!ice.local_end_of_candidates());
    assert!(!ice.remote_end_of_candidates());
}

#[test]
fn pairs_are_the_cross_combination() {
    let mut ice = agent(true);
    ice.add_local_candidate(host(1, 100));
    assert_eq!(ice.candidate_pairs().len(), 0);
    ice.add_remote_candidate(host(2, 50));
    assert_eq!(ice.candidate_pairs().len(), 1);
    ice.add_remote_candidate(host(3, 70));
    assert_eq!(ice.candidate_pairs().len(), 2);
    ice.add_local_candidate(host(4, 10));
    assert_eq!(ice.candidate_pairs().len(), 4);
    assert_sorted(&ice);
    // identical candidates form no further pairs
    ice.add_local_candidate(host(4, 10));
    ice.add_remote_candidate(host(3, 70));
    assert_eq!(ice.local_candidates().len(), 2);
    assert_eq!(ice.remote_candidates().len(), 2);
    assert_eq!(ice.candidate_pairs().len(), 4);
    let prios: Vec<u64> = ice.candidate_pairs().iter().map(|p| p.prio).collect();
    assert_eq!(
        prios,
        vec![
            4294967296 * 70 + 200 + 1,
            4294967296 * 50 + 200 + 1,
            4294967296 * 10 + 140,
            4294967296 * 10 + 100,
        ]
    );
    let first = ice.candidate_pairs()[0];
    assert_eq!((first.local_idx, first.remote_idx), (0, 1));
    assert_eq!(first.state, CheckState::Waiting);
    assert_eq!(first.attempted, None);
    assert_eq!(first.trans_id, None);
    let last = ice.candidate_pairs()[3];
    assert_eq!((last.local_idx, last.remote_idx), (1, 0));
}

#[test]
fn controlling_side_gives_g() {
    // controlled agent: the remote candidate is the controlling side's
    let mut ice = agent(false);
    ice.add_local_candidate(host(1, 100));
    ice.add_remote_candidate(host(2, 50));
    assert_eq!(ice.candidate_pairs()[0].prio, 4294967296 * 50 + 200);
    let mut ice = agent(false);
    ice.add_remote_candidate(host(2, 100));
    ice.add_local_candidate(host(1, 50));
    assert_eq!(ice.candidate_pairs()[0].prio, 214748365001);
    assert_eq!(ice.candidate_pairs()[0].local_idx, 0);
    assert_eq!(ice.candidate_pairs()[0].remote_idx, 0);
}

#[test]
fn equal_priorities_keep_insertion_order() {
    let mut ice = agent(true);
    ice.add_local_candidate(host(1, 100));
    ice.add_remote_candidate(host(2, 100));
    ice.add_remote_candidate(host(3, 100));
    ice.add_remote_candidate(host(4, 100));
    let order: Vec<usize> = ice.candidate_pairs().iter().map(|p| p.remote_idx).collect();
    assert_eq!(order, vec![0, 1, 2]);
}

#[test]
fn pair_count_is_capped() {
    let mut ice = agent(true);
    for i in 0..12u32 {
        ice.add_local_candidate(host(i, 1000 + i));
    }
    for i in 0..12u32 {
        ice.add_remote_candidate(host(100 + i, 500 + 7 * i));
        let expected = std::cmp::min(MAX_PAIRS, 12 * (i as usize + 1));
        assert_eq!(ice.candidate_pairs().len(), expected);
        assert_sorted(&ice);
    }
    // beyond the cap candidates are still stored
    assert_eq!(ice.remote_candidates().len(), 12);
    assert_eq!(ice.candidate_pairs().len(), 100);
    for (i, p) in ice.candidate_pairs().iter().enumerate() {
        for q in &ice.candidate_pairs()[i + 1..] {
            assert!((p.local_idx, p.remote_idx) != (q.local_idx, q.remote_idx));
        }
    }
}

#[test]
fn role_is_fixed_once_pairs_exist() {
    let mut ice = agent(false);
    ice.add_local_candidate(host(1, 100));
    assert!(ice.can_set_controlling());
    ice.set_controlling(true);
    assert!(ice.is_controlling());
    ice.add_remote_candidate(host(2, 100));
    assert!(!ice.can_set_controlling());
}

#[test]
fn end_of_candidates_closes_a_side() {
    let mut ice = agent(true);
    ice.add_remote_candidate(host(2, 100));
    ice.set_local_end_of_candidates();
    ice.set_local_end_of_candidates();
    assert!(ice.local_end_of_candidates());
    ice.add_local_candidate(host(1, 100));
    assert!(ice.local_candidates().is_empty());
    assert!(ice.candidate_pairs().is_empty());
    ice.add_remote_candidate(host(3, 100));
    assert_eq!(ice.remote_candidates().len(), 2);
    ice.set_remote_end_of_candidates();
    assert!(ice.remote_end_of_candidates());
    ice.add_remote_candidate(host(4, 100));
    assert_eq!(ice.remote_candidates().len(), 2);
}

#[test]
fn lite_mode_takes_local_host_candidates_only() {
    let mut ice = IceState::new(creds("locluser", "local-password-of-24-chr"), true);
    let relayed = Candidate::new(addr(9, 1), CandidateKind::Relayed, 5).unwrap();
    ice.add_local_candidate(relayed);
    assert!(ice.local_candidates().is_empty());
    ice.add_local_candidate(host(1, 5));
    assert_eq!(ice.local_candidates().len(), 1);
    ice.add_remote_candidate(relayed);
    assert_eq!(ice.remote_candidates().len(), 1);
    assert_eq!(ice.candidate_pairs().len(), 1);
}

#[test]
fn local_username_mismatch_is_an_error() {
    let mut ice = agent(false);
    ice.add_remote_creds(creds("peeruser", "peer-pw"));
    let m = message(StunKind::BindingRequest, "someone", "peeruser", &["local-password-of-24-chr"], [1; 12]);
    assert_eq!(ice.accepts_stun(addr(1, 1), &m), Err(IceError::UsernameMismatch(addr(1, 1))));
    // the controlling agent reads the segments the other way round
    let mut ice = agent(true);
    ice.add_remote_creds(creds("peeruser", "peer-pw"));
    let m = message(StunKind::BindingResponse, "peeruser", "someone", &["peer-pw"], [1; 12]);
    assert_eq!(ice.accepts_stun(addr(1, 1), &m), Err(IceError::UsernameMismatch(addr(1, 1))));
    let m = message(StunKind::BindingResponse, "peeruser", "locluser", &["peer-pw"], [1; 12]);
    assert_eq!(ice.accepts_stun(addr(1, 1), &m), Ok(true));
}

#[test]
fn unknown_peer_is_not_for_this_agent() {
    let mut ice = agent(false);
    ice.add_local_candidate(host(1, 100));
    ice.add_remote_candidate(host(2, 100));
    let m = message(StunKind::BindingRequest, "locluser", "stranger", &["local-password-of-24-chr"], [1; 12]);
    assert_eq!(ice.accepts_stun(addr(1, 1), &m), Ok(false));
    ice.add_remote_creds(creds("peeruser", "peer-pw"));
    assert_eq!(ice.accepts_stun(addr(1, 1), &m), Ok(false));
    let both_wrong = message(StunKind::BindingRequest, "someone", "stranger", &[], [1; 12]);
    assert_eq!(ice.accepts_stun(addr(1, 1), &both_wrong), Ok(false));
    let r = ice.handle_stun(addr(2, 5000), addr(1, 5000), &m);
    assert!(matches!(r, Ok(None)));
    assert!(!ice.has_any_verified());
    assert!(!ice.is_stun_verified(addr(1, 5000)));
    assert_eq!(ice.conn_state(), IceConnectionState::New);
    assert_eq!(count(&ice, CheckState::Waiting), 1);
}

#[test]
fn integrity_failure_is_an_error() {
    let mut ice = agent(false);
    ice.add_remote_creds(creds("peeruser", "peer-pw"));
    let m = message(StunKind::BindingRequest, "locluser", "peeruser", &["peer-pw"], [1; 12]);
    assert_eq!(ice.accepts_stun(addr(1, 1), &m), Err(IceError::IntegrityFailed(addr(1, 1))));
    let r = ice.handle_stun(addr(2, 1), addr(1, 1), &m);
    assert!(matches!(r, Err(IceError::IntegrityFailed(_))));
    assert!(!ice.has_any_verified());
    let ok = message(StunKind::BindingRequest, "locluser", "peeruser", &["x", "local-password-of-24-chr"], [1; 12]);
    assert_eq!(ice.accepts_stun(addr(1, 1), &ok), Ok(true));
}

#[test]
fn controlling_agent_accepts_any_remote_password() {
    let mut ice = agent(true);
    ice.add_remote_creds(creds("peer-one", "pw-one"));
    ice.add_remote_creds(creds("peer-two", "pw-two"));
    // same username again: the first set stays
    ice.add_remote_creds(creds("peer-one", "pw-other"));
    assert_eq!(ice.remote_creds().len(), 2);
    assert_eq!(ice.remote_creds()[0].password, "pw-one");
    assert_eq!(ice.remote_creds()[1].username, "peer-two");
    let m = message(StunKind::BindingResponse, "peer-one", "locluser", &["pw-two"], [1; 12]);
    assert_eq!(ice.accepts_stun(addr(1, 1), &m), Ok(true));
    let m = message(StunKind::BindingResponse, "peer-two", "locluser", &["pw-other"], [1; 12]);
    assert_eq!(ice.accepts_stun(addr(1, 1), &m), Err(IceError::IntegrityFailed(addr(1, 1))));
    let m = message(StunKind::BindingResponse, "peer-two", "locluser", &["local-password-of-24-chr"], [1; 12]);
    assert_eq!(ice.accepts_stun(addr(1, 1), &m), Err(IceError::IntegrityFailed(addr(1, 1))));
}

#[test]
fn binding_request_is_answered() {
    let mut ice = agent(false);
    ice.add_remote_creds(creds("peeruser", "peer-pw"));
    ice.add_local_candidate(host(1, 100));
    ice.add_remote_candidate(host(2, 100));
    let m = message(StunKind::BindingRequest, "locluser", "peeruser", &["local-password-of-24-chr"], [9; 12]);
    let reply = ice.handle_stun(addr(2, 5000), addr(1, 5000), &m).unwrap().expect("a reply");
    assert_eq!(reply.source, addr(1, 5000));
    assert_eq!(reply.destination, addr(2, 5000));
    assert_eq!(reply.password, "local-password-of-24-chr");
    assert_eq!(reply.trans_id, [9; 12]);
    assert!(ice.is_stun_verified(addr(1, 5000)));
    assert!(!ice.is_stun_verified(addr(2, 5000)));
    assert!(ice.has_any_verified());
    // a pair still waits
    assert_eq!(ice.conn_state(), IceConnectionState::Connected);
    assert_eq!(count(&ice, CheckState::Waiting), 1);
}

#[test]
fn unmatched_response_is_an_error() {
    let mut ice = agent(true);
    ice.add_remote_creds(creds("peeruser", "peer-pw"));
    ice.add_local_candidate(host(1, 100));
    ice.add_remote_candidate(host(2, 100));
    let requests = ice.drive_stun_controlling(7, &ids(1));
    assert_eq!(requests.len(), 1);
    let before: Vec<_> = ice.candidate_pairs().to_vec();
    let m = message(StunKind::BindingResponse, "peeruser", "locluser", &["peer-pw"], [77; 12]);
    let r = ice.handle_stun(addr(2, 5000), addr(1, 5000), &m);
    assert!(matches!(r, Err(IceError::UnknownTransaction)));
    let after = ice.candidate_pairs();
    assert_eq!(after.len(), before.len());
    for (a, b) in after.iter().zip(before.iter()) {
        assert_eq!(a.state, b.state);
        assert_eq!(a.trans_id, b.trans_id);
        assert_eq!(a.attempted, b.attempted);
        assert_eq!(a.prio, b.prio);
    }
}

#[test]
fn response_settles_exactly_its_pair() {
    let mut ice = agent(true);
    ice.add_remote_creds(creds("peeruser", "peer-pw"));
    ice.add_local_candidate(host(1, 100));
    ice.add_remote_candidate(host(2, 90));
    ice.add_remote_candidate(host(3, 80));
    ice.add_remote_candidate(host(4, 70));
    let requests = ice.drive_stun_controlling(7, &ids(2));
    assert_eq!(requests.len(), 2);
    let m = message(StunKind::BindingResponse, "peeruser", "locluser", &["peer-pw"], requests[1].trans_id);
    let r = ice.handle_stun(requests[1].destination, requests[1].source, &m);
    assert!(matches!(r, Ok(None)));
    let states: Vec<CheckState> = ice.candidate_pairs().iter().map(|p| p.state).collect();
    assert_eq!(states, vec![CheckState::InProgress, CheckState::Succeeded, CheckState::Waiting]);
    assert_eq!(ice.conn_state(), IceConnectionState::Connected);
    assert!(ice.is_stun_verified(addr(1, 5000)));
}

#[test]
fn end_to_end_single_pair() {
    let mut ice = agent(true);
    ice.add_remote_creds(creds("peeruser", "peer-pw"));
    ice.add_local_candidate(host(1, 100));
    ice.add_remote_candidate(host(2, 100));
    assert_eq!(ice.conn_state(), IceConnectionState::New);

    let requests = ice.drive_stun_controlling(1234, &ids(3));
    assert_eq!(requests.len(), 1);
    assert_eq!(ice.conn_state(), IceConnectionState::Checking);
    let req = &requests[0];
    assert_eq!(req.source, addr(1, 5000));
    assert_eq!(req.destination, addr(2, 5000));
    assert_eq!(req.username, "peeruser:locluser");
    assert_eq!(req.password, "peer-pw");
    assert_eq!(req.trans_id, [1; 12]);
    let pair = ice.candidate_pairs()[0];
    assert_eq!(pair.state, CheckState::InProgress);
    assert_eq!(pair.attempted, Some(1234));
    assert_eq!(pair.trans_id, Some([1; 12]));

    // nothing more to send
    assert!(ice.drive_stun_controlling(1300, &ids(3)).is_empty());
    assert_eq!(ice.conn_state(), IceConnectionState::Checking);

    let m = message(StunKind::BindingResponse, "peeruser", "locluser", &["peer-pw"], req.trans_id);
    let r = ice.handle_stun(req.destination, req.source, &m);
    assert!(matches!(r, Ok(None)));
    assert_eq!(ice.candidate_pairs()[0].state, CheckState::Succeeded);
    assert_eq!(ice.conn_state(), IceConnectionState::Completed);
    assert!(ice.is_stun_verified(addr(1, 5000)));
    assert!(ice.drive_stun_controlling(1400, &ids(3)).is_empty());
    assert_eq!(ice.conn_state(), IceConnectionState::Completed);
}

#[test]
fn at_most_ten_checks_in_flight() {
    let mut ice = agent(true);
    ice.add_remote_creds(creds("peeruser", "peer-pw"));
    for i in 0..4u32 {
        ice.add_local_candidate(host(i, 100 + i));
    }
    for i in 0..5u32 {
        ice.add_remote_candidate(host(50 + i, 200 + i));
    }
    assert_eq!(count(&ice, CheckState::Waiting), 20);
    let requests = ice.drive_stun_controlling(1, &ids(30));
    assert_eq!(requests.len(), MAX_CONCURRENT);
    assert_eq!(count(&ice, CheckState::InProgress), 10);
    // the ten started are the ten of highest priority, in that order
    for (k, p) in ice.candidate_pairs().iter().enumerate() {
        if k < 10 {
            assert_eq!(p.state, CheckState::InProgress);
            assert_eq!(p.trans_id, Some(requests[k].trans_id));
            assert_eq!(requests[k].source, ice.local_candidates()[p.local_idx].addr());
            assert_eq!(requests[k].destination, ice.remote_candidates()[p.remote_idx].addr());
        } else {
            assert_eq!(p.state, CheckState::Waiting);
        }
    }
    for _ in 0..5 {
        assert!(ice.drive_stun_controlling(2, &ids(30)).is_empty());
        assert_eq!(count(&ice, CheckState::InProgress), 10);
    }
    // one answer makes room for one more check
    let m = message(StunKind::BindingResponse, "peeruser", "locluser", &["peer-pw"], requests[0].trans_id);
    assert!(matches!(ice.handle_stun(requests[0].destination, requests[0].source, &m), Ok(None)));
    assert_eq!(ice.conn_state(), IceConnectionState::Connected);
    let more = ice.drive_stun_controlling(3, &vec![[200; 12], [201; 12]]);
    assert_eq!(more.len(), 1);
    assert_eq!(more[0].trans_id, [200; 12]);
    assert_eq!(count(&ice, CheckState::InProgress), 10);
    assert_eq!(count(&ice, CheckState::Waiting), 9);
    assert_eq!(ice.candidate_pairs()[10].attempted, Some(3));
    assert_eq!(ice.conn_state(), IceConnectionState::Connected);
}

#[test]
fn drive_uses_only_the_ids_at_hand() {
    let mut ice = agent(true);
    ice.add_remote_creds(creds("old-peer", "old-pw"));
    ice.add_remote_creds(creds("new-peer", "new-pw"));
    ice.add_local_candidate(host(1, 100));
    for i in 0..3u32 {
        ice.add_remote_candidate(host(50 + i, 200 + i));
    }
    assert!(ice.drive_stun_controlling(1, &Vec::new()).is_empty());
    assert_eq!(ice.conn_state(), IceConnectionState::Checking);
    let requests = ice.drive_stun_controlling(2, &ids(2));
    assert_eq!(requests.len(), 2);
    assert_eq!(requests[0].username, "new-peer:locluser");
    assert_eq!(requests[0].password, "new-pw");
    assert_eq!(count(&ice, CheckState::Waiting), 1);
}

#[test]
fn controlled_agent_does_not_drive() {
    let mut ice = agent(false);
    ice.add_remote_creds(creds("peeruser", "peer-pw"));
    ice.add_local_candidate(host(1, 100));
    ice.add_remote_candidate(host(2, 100));
    assert!(ice.drive_stun_controlling(1, &ids(3)).is_empty());
    assert_eq!(ice.conn_state(), IceConnectionState::New);
    assert_eq!(count(&ice, CheckState::Waiting), 1);
}

#[test]
fn connected_completes_when_nothing_waits() {
    let mut ice = agent(true);
    ice.add_remote_creds(creds("peeruser", "peer-pw"));
    ice.add_local_candidate(host(1, 100));
    ice.add_remote_candidate(host(2, 100));
    ice.add_remote_candidate(host(3, 90));
    let first = ice.drive_stun_controlling(1, &ids(1));
    let m = message(StunKind::BindingResponse, "peeruser", "locluser", &["peer-pw"], first[0].trans_id);
    assert!(matches!(ice.handle_stun(first[0].destination, first[0].source, &m), Ok(None)));
    assert_eq!(ice.conn_state(), IceConnectionState::Connected);
    let second = ice.drive_stun_controlling(2, &vec![[50; 12]]);
    assert_eq!(second.len(), 1);
    assert_eq!(ice.conn_state(), IceConnectionState::Completed);
}

#[test]
fn connection_state_names() {
    assert_eq!(IceConnectionState::New.as_str(), "new");
    assert_eq!(IceConnectionState::Checking.as_str(), "checking");
    assert_eq!(IceConnectionState::Connected.as_str(), "connected");
    assert_eq!(IceConnectionState::Completed.as_str(), "completed");
    assert_eq!(IceConnectionState::Failed.as_str(), "failed");
    assert_eq!(IceConnectionState::Closed.as_str(), "closed");
    assert!(IceConnectionState::New.should_check());
    assert!(IceConnectionState::Checking.should_check());
    assert!(IceConnectionState::Connected.should_check());
    assert!(!IceConnectionState::Completed.should_check());
    assert!(!IceConnectionState::Failed.should_check());
    assert!(!IceConnectionState::Closed.should_check());
}

#[test]
fn stun_message_accessors() {
    let m = message(StunKind::BindingRequest, "a", "b", &["p", "q"], [3; 12]);
    assert_eq!(m.split_username(), (&"a".to_string(), &"b".to_string()));
    assert!(m.check_integrity(&"q".to_string()));
    assert!(!m.check_integrity(&"r".to_string()));
    assert!(m.is_binding_request());
    assert!(!m.is_binding_response());
    assert!(same_trans_id(&[3; 12], &m.trans_id));
    let mut other = [3u8; 12];
    other[11] = 4;
    assert!(!same_trans_id(&other, &m.trans_id));
}
