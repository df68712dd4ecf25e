use edge_agent::clock::millis_ahead;
use edge_agent::holepunch::heartbeat::{exhausted_text, register_beat, Beat, BeatAction, Heartbeat};
use edge_agent::holepunch::punch::{
    plan_punch, Punch, PunchAction, PunchEvent, PunchPhase, PunchPlan,
};
use edge_agent::holepunch::retry::{
    accept_connect, read_connect, refusal_text, retry_delay, send_failed, ConnectResponse,
    ConnectStep, RetryOutcome, RetryTable,
};
use edge_agent::holepunch::stun::{
    build_binding_request, gather_candidates, get_host_candidates, parse_binding_response,
    parse_xor_mapped_address, request_with, CandidateCache, StunError, ATTR_XOR_MAPPED_ADDRESS,
    BINDING_RESPONSE,
};
use edge_agent::net::{IpAddr, SocketAddr};
use edge_agent::registry::{ConnTable, PeerNumbers, VipTable};
use edge_agent::tun::{route_frame, Outbound};
use edge_agent::types::{Candidate, CandidateType, ConnState, HolePunchTask};

const MAGIC_COOKIE: [u8; 4] = [0x21, 0x12, 0xA4, 0x42];
const NOW: u64 = 1_700_000_000_000;

fn host(ip: IpAddr, port: u16) -> Candidate {
    Candidate { addr_type: CandidateType::Host, address: SocketAddr::new(ip, port) }
}

fn task(peer: &str, punch_at: u64) -> HolePunchTask {
    HolePunchTask {
        peer_id: peer.to_string(),
        candidates: vec![host(IpAddr::v4(10, 0, 0, 1), 4433)],
        conn_id: None,
        peer_virtual_ip: Some(IpAddr::v4(10, 9, 9, 9)),
        punch_at,
    }
}

fn failed(why: &str) -> RetryOutcome {
    RetryOutcome::Failed(why.to_string())
}

#[test]
fn clock_differences() {
    assert_eq!(millis_ahead(5, 3), 2);
    assert_eq!(millis_ahead(3, 5), -2);
    assert_eq!(millis_ahead(u64::MAX, 0), u64::MAX as i128);
    assert_eq!(millis_ahead(0, u64::MAX), -(u64::MAX as i128));
}

#[test]
fn punches_are_planned() {
    assert_eq!(plan_punch(NOW + 2401, NOW), PunchPlan::FallBack);
    assert_eq!(plan_punch(NOW + 2400, NOW), PunchPlan::Wait(2000));
    assert_eq!(plan_punch(NOW + 2000, NOW), PunchPlan::Wait(2000));
    assert_eq!(plan_punch(NOW + 1, NOW), PunchPlan::Wait(1));
    assert_eq!(plan_punch(NOW, NOW), PunchPlan::Now);
    assert_eq!(plan_punch(NOW - 600, NOW), PunchPlan::Now);
    assert_eq!(plan_punch(NOW - 601, NOW), PunchPlan::FallBack);
    assert_eq!(plan_punch(u64::MAX, NOW), PunchPlan::FallBack);
    assert_eq!(plan_punch(u64::MAX, 0), PunchPlan::FallBack);
}

#[test]
fn a_punch_that_succeeds() {
    let mut conns = ConnTable::new();
    let mut vips = VipTable::new();
    conns.insert("other", ConnState::Relay);
    let mut punch = Punch::new(task("node-a", NOW + 100));
    assert_eq!(punch.step(PunchEvent::Begin(NOW), &mut conns, &mut vips), PunchAction::Sleep(100));
    assert_eq!(conns.get("node-a"), None);
    assert_eq!(punch.step(PunchEvent::WaitOver, &mut conns, &mut vips), PunchAction::Connect);
    assert_eq!(conns.get("node-a"), Some(ConnState::Punching));
    assert_eq!(
        punch.step(PunchEvent::CandidateFailed, &mut conns, &mut vips),
        PunchAction::AwaitNext
    );
    assert_eq!(punch.step(PunchEvent::Connected(7), &mut conns, &mut vips), PunchAction::Done);
    assert_eq!(punch.phase, PunchPhase::Finished);
    assert_eq!(conns.get("node-a"), Some(ConnState::Direct(7)));
    assert_eq!(conns.get("other"), Some(ConnState::Relay));
    assert_eq!(vips.get(IpAddr::v4(10, 9, 9, 9)), Some("node-a".to_string()));
}

#[test]
fn a_punch_that_fails() {
    let mut conns = ConnTable::new();
    let mut vips = VipTable::new();
    let mut punch = Punch::new(task("node-a", NOW - 10));
    assert_eq!(punch.step(PunchEvent::Begin(NOW), &mut conns, &mut vips), PunchAction::Connect);
    assert_eq!(punch.step(PunchEvent::Exhausted, &mut conns, &mut vips), PunchAction::Done);
    assert_eq!(conns.get("node-a"), Some(ConnState::Relay));
    assert_eq!(vips.get(IpAddr::v4(10, 9, 9, 9)), None);
}

#[test]
fn a_punch_out_of_time_falls_back() {
    let mut conns = ConnTable::new();
    let mut vips = VipTable::new();
    let mut punch = Punch::new(task("node-a", NOW - 1000));
    assert_eq!(punch.step(PunchEvent::Begin(NOW), &mut conns, &mut vips), PunchAction::Done);
    assert_eq!(conns.get("node-a"), Some(ConnState::Relay));
    let mut punch = Punch::new(task("node-b", NOW + 5));
    punch.step(PunchEvent::Begin(NOW), &mut conns, &mut vips);
    assert_eq!(punch.step(PunchEvent::Cancelled, &mut conns, &mut vips), PunchAction::Done);
    assert_eq!(conns.get("node-b"), None);
}

#[test]
fn first_connection_is_kept() {
    let mut conns = ConnTable::new();
    assert!(conns.settle_direct("a", 1));
    assert!(!conns.settle_direct("a", 2));
    assert_eq!(conns.get("a"), Some(ConnState::Direct(1)));
    conns.insert("b", ConnState::Unavailable);
    assert!(!conns.settle_direct("b", 3));
    conns.insert("b", ConnState::Relay);
    assert!(conns.settle_direct("b", 3));

    let mut vips = VipTable::new();
    let mut punch = Punch::new(task("c", NOW));
    punch.step(PunchEvent::Begin(NOW), &mut conns, &mut vips);
    conns.insert("c", ConnState::Direct(8));
    punch.step(PunchEvent::Connected(9), &mut conns, &mut vips);
    assert_eq!(conns.get("c"), Some(ConnState::Direct(8)));
    assert_eq!(vips.get(IpAddr::v4(10, 9, 9, 9)), None);
}

#[test]
fn tables_hold_what_was_put_in() {
    let mut conns = ConnTable::new();
    assert_eq!(conns.len(), 0);
    conns.insert("a", ConnState::Relay);
    conns.insert("b", ConnState::Punching);
    conns.insert("a", ConnState::Relay);
    assert_eq!(conns.len(), 2);
    assert!(conns.is_relay("a"));
    assert!(!conns.is_relay("b"));
    assert_eq!(conns.relay_peers(), vec!["a".to_string()]);
    conns.remove("a");
    assert_eq!(conns.len(), 1);
    assert!(conns.relay_peers().is_empty());

    let mut vips = VipTable::new();
    vips.insert(IpAddr::V4(1), "four");
    vips.insert(IpAddr::V6(1), "six");
    assert_eq!(vips.get(IpAddr::V4(1)), Some("four".to_string()));
    assert_eq!(vips.get(IpAddr::V6(1)), Some("six".to_string()));
    vips.insert(IpAddr::V4(1), "new");
    assert_eq!(vips.get(IpAddr::V4(1)), Some("new".to_string()));

    conns.insert("r", ConnState::Relay);
    let mut numbers = PeerNumbers::new();
    numbers.insert("r", 1);
    numbers.insert("b", 2);
    numbers.insert("gone", 3);
    assert_eq!(numbers.get("gone"), Some(3));
    numbers.retain_relays(&conns);
    assert_eq!(numbers.get("r"), Some(1));
    assert_eq!(numbers.get("b"), None);
    assert_eq!(numbers.get("gone"), None);
    numbers.remove("r");
    assert_eq!(numbers.get("r"), None);
}

#[test]
fn punched_peers_are_routed_to_and_failed_ones_retried() {
    let mut conns = ConnTable::new();
    let mut vips = VipTable::new();
    let mut table = RetryTable::new();
    let mut packet = vec![0u8; 20];
    packet[0] = 0x45;
    packet[16..20].copy_from_slice(&[10, 9, 9, 9]);

    let mut punch = Punch::new(task("node-a", NOW));
    punch.step(PunchEvent::Begin(NOW), &mut conns, &mut vips);
    punch.step(PunchEvent::Exhausted, &mut conns, &mut vips);
    assert!(matches!(route_frame(&packet, false, &vips, &conns), Outbound::Drop));
    let due = table.scan(&conns);
    assert_eq!(due.len(), 1);
    assert_eq!(due[0].peer, "node-a");

    let mut punch = Punch::new(task("node-a", NOW));
    punch.step(PunchEvent::Begin(NOW), &mut conns, &mut vips);
    punch.step(PunchEvent::Connected(5), &mut conns, &mut vips);
    table.settle("node-a", &RetryOutcome::Punched, &mut conns);
    match route_frame(&packet, false, &vips, &conns) {
        Outbound::Send { conn, packet: sent } => {
            assert_eq!(conn, 5);
            assert_eq!(sent, packet);
        }
        other => panic!("{:?}", other),
    }
    assert!(table.scan(&conns).is_empty());
}

#[test]
fn retry_delays() {
    assert_eq!(retry_delay(30, -10), 20);
    assert_eq!(retry_delay(30, 10), 40);
    assert_eq!(retry_delay(120, 0), 120);
    assert_eq!(retry_delay(3, -10), 5);
    assert_eq!(retry_delay(5, 0), 5);
}

#[test]
fn scans_hand_out_each_peer_once() {
    let mut conns = ConnTable::new();
    let mut table = RetryTable::new();
    assert!(table.scan(&conns).is_empty());
    conns.insert("a", ConnState::Relay);
    conns.insert("b", ConnState::Relay);
    conns.insert("c", ConnState::Direct(1));
    let due = table.scan(&conns);
    assert_eq!(due.len(), 2);
    for retry in &due {
        assert!(retry.peer == "a" || retry.peer == "b");
        assert!(20 <= retry.delay && retry.delay <= 40);
    }
    assert_ne!(due[0].peer, due[1].peer);
    assert!(table.is_in_flight("a") && table.is_in_flight("b"));
    assert!(!table.is_in_flight("c"));
    assert!(table.scan(&conns).is_empty());
    table.settle("a", &RetryOutcome::Offline, &mut conns);
    let due = table.scan(&conns);
    assert_eq!(due.len(), 1);
    assert_eq!(due[0].peer, "a");
}

#[test]
fn pauses_double_up_to_two_minutes() {
    let mut conns = ConnTable::new();
    conns.insert("a", ConnState::Relay);
    let mut table = RetryTable::new();
    assert_eq!(table.pause("a"), 30);
    assert_eq!(table.schedule("a", 3), Some(33));
    assert_eq!(table.schedule("a", 3), None);
    for expected in [60, 120, 120] {
        table.settle("a", &failed("Worker 返回 500"), &mut conns);
        assert_eq!(table.pause("a"), expected);
        assert!(!table.is_in_flight("a"));
    }
    table.settle("a", &failed("fetch_connect 403: from_offline"), &mut conns);
    assert_eq!(table.pause("a"), 120);
    table.settle("a", &RetryOutcome::Punched, &mut conns);
    assert_eq!(table.pause("a"), 120);
    conns.insert("a", ConnState::Direct(4));
    conns.insert("z", ConnState::Relay);
    table.scan(&conns);
    assert_eq!(table.pause("a"), 30);
}

#[test]
fn peers_of_other_groups_are_forgotten() {
    let mut conns = ConnTable::new();
    conns.insert("a", ConnState::Relay);
    let mut table = RetryTable::new();
    table.scan(&conns);
    table.settle("a", &failed("x"), &mut conns);
    table.scan(&conns);
    table.settle("a", &failed("fetch_connect 403: group_mismatch"), &mut conns);
    assert_eq!(conns.get("a"), None);
    assert_eq!(table.pause("a"), 30);
    assert!(!table.is_in_flight("a"));
    assert!(table.scan(&conns).is_empty());
}

#[test]
fn connect_answers_are_read() {
    assert!(matches!(read_connect(404, &Vec::new()), ConnectStep::Offline));
    assert!(matches!(read_connect(200, &Vec::new()), ConnectStep::ReadTask));
    let text = |status: u16, body: &str| match read_connect(status, &body.as_bytes().to_vec()) {
        ConnectStep::Failed(why) => why,
        other => panic!("{:?}", other),
    };
    assert_eq!(
        text(403, r#"{"error":"group_mismatch"}"#),
        "fetch_connect 403: group_mismatch"
    );
    assert_eq!(text(403, r#"{"error":7}"#), "fetch_connect 403: unknown");
    assert_eq!(text(403, "oops"), "fetch_connect 403: unknown");
    assert_eq!(text(500, ""), "Worker 返回 500 Internal Server Error");
    assert_eq!(text(299 + 1, ""), "Worker 返回 300 Multiple Choices");
    assert_eq!(refusal_text(&None), "fetch_connect 403: unknown");
    assert_eq!(refusal_text(&Some("e".to_string())), "fetch_connect 403: e");
    assert_eq!(send_failed("https://w/connect"), "POST https://w/connect 失败");
}

#[test]
fn connect_answers_become_tasks() {
    let response = ConnectResponse {
        ok: true,
        t: NOW,
        target_candidates: vec![host(IpAddr::v4(10, 0, 0, 1), 1)],
        target_conn_id: Some("cid".to_string()),
        target_virtual_ip: None,
    };
    let task = accept_connect("node-b", Some(response.clone())).unwrap();
    assert_eq!(task.peer_id, "node-b");
    assert_eq!(task.candidates, response.target_candidates);
    assert_eq!(task.conn_id, Some("cid".to_string()));
    assert_eq!(task.punch_at, NOW);
    let refused = ConnectResponse { ok: false, ..response };
    assert_eq!(accept_connect("b", Some(refused)).unwrap_err(), "Worker 返回 ok=false");
    assert_eq!(accept_connect("b", None).unwrap_err(), "解析 /connect 响应失败");
}

#[test]
fn heartbeats_stop_at_the_third_failure() {
    let mut beat = Heartbeat::new();
    assert_eq!(beat.step(Beat::ProbeFailed), BeatAction::Continue);
    assert_eq!(beat.step(Beat::RegisterFailed), BeatAction::Continue);
    assert_eq!(beat.step(Beat::Registered), BeatAction::Continue);
    assert_eq!(beat.failures, 0);
    assert_eq!(beat.step(Beat::RegisterFailed), BeatAction::Continue);
    assert_eq!(beat.step(Beat::RegisterFailed), BeatAction::Continue);
    assert_eq!(beat.step(Beat::RegisterFailed), BeatAction::RegistersExhausted);
    let mut beat = Heartbeat { failures: 2 };
    assert_eq!(beat.step(Beat::ProbeFailed), BeatAction::ProbesExhausted);
    assert_eq!(register_beat(Some(204)), Beat::Registered);
    assert_eq!(register_beat(Some(500)), Beat::RegisterFailed);
    assert_eq!(register_beat(None), Beat::RegisterFailed);
    assert_eq!(exhausted_text(BeatAction::Continue), None);
    assert_eq!(
        exhausted_text(BeatAction::ProbesExhausted),
        Some("STUN 探测连续失败 3 次".to_string())
    );
    assert_eq!(
        exhausted_text(BeatAction::RegistersExhausted),
        Some("Worker 注册连续失败 3 次".to_string())
    );
}

#[test]
fn test_build_binding_request_length() {
    let req = build_binding_request();
    assert_eq!(req.len(), 20);
    assert_eq!(req[0], 0x00);
    assert_eq!(req[1], 0x01);
    assert_eq!(req[4..8], MAGIC_COOKIE);
}

#[test]
fn requests_carry_their_transaction() {
    let id: Vec<u8> = (1..13).collect();
    let req = request_with(&id);
    assert_eq!(req[..8], [0, 1, 0, 0, 0x21, 0x12, 0xA4, 0x42]);
    assert_eq!(req[8..], id[..]);
}

fn response(attributes: &[u8]) -> Vec<u8> {
    let mut resp = Vec::new();
    resp.extend_from_slice(&BINDING_RESPONSE.to_be_bytes());
    resp.extend_from_slice(&[0x00, attributes.len() as u8]);
    resp.extend_from_slice(&MAGIC_COOKIE);
    resp.extend_from_slice(&[0x00u8; 12]);
    resp.extend_from_slice(attributes);
    resp
}

#[test]
fn test_parse_binding_response_ipv4() {
    let mut resp = Vec::new();
    resp.extend_from_slice(&BINDING_RESPONSE.to_be_bytes());
    resp.extend_from_slice(&[0x00, 0x0C]);
    resp.extend_from_slice(&MAGIC_COOKIE);
    resp.extend_from_slice(&[0x00u8; 12]);
    resp.extend_from_slice(&ATTR_XOR_MAPPED_ADDRESS.to_be_bytes());
    resp.extend_from_slice(&[0x00, 0x08]);
    resp.extend_from_slice(&[0x00, 0x01]);
    let port_xor = 4433u16 ^ 0x2112;
    resp.extend_from_slice(&port_xor.to_be_bytes());
    let ip_bytes = [203u8, 0, 113, 5];
    for i in 0..4 {
        resp.push(ip_bytes[i] ^ MAGIC_COOKIE[i]);
    }

    let addr = parse_binding_response(&resp).unwrap();
    assert_eq!(addr.port, 4433);
    assert_eq!(addr.ip, IpAddr::v4(203, 0, 113, 5));
}

#[test]
fn test_parse_binding_response_too_short() {
    assert!(parse_binding_response(&[0; 10]).is_err());
}

#[test]
fn test_parse_binding_response_wrong_type() {
    let mut resp = vec![0x00, 0x00];
    resp.extend_from_slice(&[0x00, 0x00]);
    resp.extend_from_slice(&MAGIC_COOKIE);
    resp.extend_from_slice(&[0u8; 12]);
    assert!(parse_binding_response(&resp).is_err());
}

#[test]
fn responses_without_an_address() {
    let short = parse_binding_response(&[0; 19]).unwrap_err();
    assert_eq!(short, StunError::TooShort(19));
    assert_eq!(short.message(), "STUN 响应太短 (19)");
    let mut request = response(&[]);
    request[0] = 0x00;
    let wrong = parse_binding_response(&request).unwrap_err();
    assert_eq!(wrong, StunError::NotAResponse(0x0001));
    assert_eq!(wrong.message(), "非 Binding Response (type=0x0001)");
    let mut cookie = response(&[]);
    cookie[7] = 0;
    assert_eq!(parse_binding_response(&cookie), Err(StunError::BadCookie));
    assert_eq!(StunError::BadCookie.message(), "Magic Cookie 不匹配");
    assert_eq!(parse_binding_response(&response(&[])), Err(StunError::NoMappedAddress));
    let truncated = response(&[0x00, 0x20, 0x00, 0x08, 0x00, 0x01]);
    assert_eq!(parse_binding_response(&truncated), Err(StunError::NoMappedAddress));
    let six = response(&[0x00, 0x20, 0x00, 0x08, 0x00, 0x02, 0, 0, 0, 0, 0, 0]);
    assert_eq!(parse_binding_response(&six), Err(StunError::Ipv6));
    let unknown = response(&[0x00, 0x20, 0x00, 0x08, 0x00, 0x1f, 0, 0, 0, 0, 0, 0]);
    let e = parse_binding_response(&unknown).unwrap_err();
    assert_eq!(e, StunError::UnknownFamily(0x1f));
    assert_eq!(e.message(), "不支持的地址族: 0x1f");
    assert_eq!(parse_xor_mapped_address(&[0, 1, 2]), Err(StunError::AddressTooShort));
    assert_eq!(StunError::AddressTooShort.message(), "XOR-MAPPED-ADDRESS 太短");
    assert_eq!(StunError::Ipv6.message(), "IPv6 XOR-MAPPED-ADDRESS 暂不支持");
    assert_eq!(StunError::NoMappedAddress.message(), "未找到 XOR-MAPPED-ADDRESS attribute");
}

#[test]
fn other_attributes_are_skipped_with_their_padding() {
    let mut attributes = vec![0x80, 0x22, 0x00, 0x05, b'h', b'e', b'l', b'l', b'o', 0, 0, 0];
    attributes.extend_from_slice(&[0x00, 0x20, 0x00, 0x04, 0, 0, 0, 0]);
    attributes.extend_from_slice(&[0x00, 0x20, 0x00, 0x08, 0x00, 0x01]);
    attributes.extend_from_slice(&(80u16 ^ 0x2112).to_be_bytes());
    attributes.extend_from_slice(&(0x0102_0304u32 ^ 0x2112_A442).to_be_bytes());
    let addr = parse_binding_response(&response(&attributes)).unwrap();
    assert_eq!(addr, SocketAddr::new(IpAddr::v4(1, 2, 3, 4), 80));
}

#[test]
fn test_host_candidates_port() {
    let ips = vec![IpAddr::v4(127, 0, 0, 1), IpAddr::v4(192, 168, 1, 2), IpAddr::V6(7)];
    let candidates = get_host_candidates(&ips, None, 4433);
    assert_eq!(candidates.len(), 1);
    for c in candidates {
        assert_ne!(c.address.port, 0);
    }
}

#[test]
fn host_candidates_fall_back() {
    let lan = IpAddr::v4(192, 168, 1, 2);
    assert_eq!(get_host_candidates(&Vec::new(), Some(lan), 5), vec![host(lan, 5)]);
    assert_eq!(
        get_host_candidates(&vec![IpAddr::v4(10, 0, 0, 1)], Some(lan), 5),
        vec![host(IpAddr::v4(10, 0, 0, 1), 5)]
    );
    assert!(get_host_candidates(&Vec::new(), Some(IpAddr::v4(127, 0, 0, 1)), 5).is_empty());
    assert!(get_host_candidates(&Vec::new(), Some(IpAddr::V6(1)), 5).is_empty());
    assert!(get_host_candidates(&Vec::new(), None, 5).is_empty());
}

#[test]
fn observed_addresses_come_last() {
    let hosts = vec![host(IpAddr::v4(10, 0, 0, 1), 4433)];
    let observed = SocketAddr::new(IpAddr::v4(203, 0, 113, 5), 61000);
    let all = gather_candidates(hosts.clone(), Some(observed), 4433);
    assert_eq!(all.len(), 2);
    assert_eq!(all[0], hosts[0]);
    assert_eq!(all[1].addr_type, CandidateType::Srflx);
    assert_eq!(all[1].address, SocketAddr::new(observed.ip, 4433));
    assert_eq!(gather_candidates(hosts.clone(), None, 4433), hosts);
    let zoned = SocketAddr { ip: IpAddr::V6(9), port: 1, flowinfo: 7, scope_id: 3 };
    let all = gather_candidates(Vec::new(), Some(zoned), 4433);
    assert_eq!(all[0].address, SocketAddr { port: 4433, ..zoned });
}

#[test]
fn test_cache() {
    let c = vec![host(IpAddr::v4(10, 0, 0, 1), 4433)];
    let mut cache = CandidateCache::new();
    cache.set_cached(&c, 0);
    let got = cache.get_cached(0).unwrap_or_default();
    assert!(!got.is_empty());
    assert_eq!(got[0].address.ip, IpAddr::v4(10, 0, 0, 1));
}

#[test]
fn candidates_are_kept_for_five_minutes() {
    let second: u128 = 1_000_000_000;
    let c = vec![host(IpAddr::v4(10, 0, 0, 1), 4433)];
    let mut cache = CandidateCache::new();
    assert!(cache.get_cached(0).is_none());
    cache.set_cached(&c, 10 * second);
    assert_eq!(cache.get_cached(310 * second - 1), Some(c.clone()));
    assert_eq!(cache.get_cached(310 * second), None);
    assert_eq!(cache.get_cached(0), Some(c.clone()));
    cache.set_cached(&Vec::new(), 20 * second);
    cache.set_cached(&vec![c[0], host(IpAddr::v4(10, 0, 0, 2), 0)], 20 * second);
    assert_eq!(cache.get_cached(309 * second), Some(c));
    assert_eq!(cache.get_cached(311 * second), None);
}
