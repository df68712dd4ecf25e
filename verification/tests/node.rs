use edge_agent::auth::{
    backoff_delay, check_token_status, init_next, refresh_interval, InitAction, RefreshAction, RefreshOutcome,
    Refresher, TokenClient, TokenResponse, BACKOFF_INITIAL, BACKOFF_MAX, MAX_CONSECUTIVE_FAILURES,
};
use edge_agent::config::{
    adopt_edge_id, apply_env_override, assign_conn_id, config_candidates, default_data_dir, edge_id_path,
    find_config, load_edge_id, must_save_edge_id, set_conn_id, Config, ConfigError, ConfigFile, EnvOverrides,
};
use edge_agent::net::{Cidr, IpAddr, SocketAddr};
use edge_agent::registry::{ConnTable, VipTable};
use edge_agent::tun::{
    inbound_frame, parse_dst_ip, prefix_len_to_netmask, route_frame, tun_address, Outbound,
    PacketError, TunAddress,
};
use edge_agent::tunnel::{
    cloudflared_args, extract_tunnel_url_from_line, poll_next, ready_endpoints, resolve_cloudflared_path,
    restart_delay, run_action, wait_next, PollAction, RunAction, RunEvent, Supervisor,
    TunnelAction, TunnelEvent, WaitAction,
};
use edge_agent::types::{
    Candidate, CandidateError, CandidateField, CandidateType, ConnState, HolePunchTask, Platform,
    ReloadCmd, RuleMode, HP_CHANNEL_SIZE, RELOAD_CHANNEL_SIZE,
};
use edge_agent::worker::{
    bearer, connect_request, endpoint, is_success, register_reply, register_request, RegisterError,
};

fn no_env() -> EnvOverrides {
    EnvOverrides {
        worker_url: None,
        auth_secret: None,
        edge_id: None,
        tunnel_token: None,
        cloudflared_path: None,
        stun_server: None,
        cdn_manifest: None,
        data_dir: None,
        virtual_ip: None,
        group_name: None,
        group_password: None,
    }
}

fn no_file() -> ConfigFile {
    ConfigFile {
        worker_url: None,
        auth_secret: None,
        tunnel_token: None,
        cloudflared_path: None,
        stun_server: None,
        cdn_manifest: None,
        data_dir: None,
        virtual_ip: None,
        group_name: None,
        group_password: None,
    }
}

fn some(value: &str) -> Option<String> {
    Some(value.to_string())
}

fn defaults() -> Config {
    Config::default(&None, Platform::Other, &None)
}

fn complete() -> Config {
    let mut cfg = defaults();
    cfg.worker_url = "https://worker.test".into();
    cfg.auth_secret = "secret-123".into();
    cfg.edge_id = "node-test".into();
    cfg.tunnel_token = "token-abc".into();
    cfg.virtual_ip = "10.0.0.1/24".into();
    cfg.group_name = "test-net".into();
    cfg.group_password = "password123".into();
    cfg
}

#[test]
fn test_token_client_from_config() {
    let mut cfg = defaults();
    cfg.worker_url = "https://worker.test".into();
    cfg.edge_id = "node-test".into();
    cfg.auth_secret = "secret-123".into();

    let client = TokenClient::from_config(&cfg);
    assert_eq!(client.worker_url, "https://worker.test");
    assert_eq!(client.edge_id, "node-test");
}

#[test]
fn token_requests() {
    let mut cfg = complete();
    cfg.worker_url = "https://worker.test//".into();
    let client = TokenClient::with_tunnel(&cfg, "https://t.example");
    assert_eq!(client.url(), "https://worker.test/token");
    let request = client.request();
    assert_eq!(request.edge_id, "node-test");
    assert_eq!(request.secret, "secret-123");
    assert_eq!(request.tunnel_url, "https://t.example");
    assert_eq!(TokenClient::from_config(&cfg).request().tunnel_url, "");
}

#[test]
fn test_token_response_deserialize() {
    let json = r#"{"token":"eyJhbGciOiJIUzI1NiJ9.test","expires_in":86400}"#;
    let value: serde_json::Value = serde_json::from_str(json).unwrap();
    let resp = TokenResponse {
        token: value["token"].as_str().unwrap().to_string(),
        expires_in: value["expires_in"].as_u64().unwrap(),
    };
    assert_eq!(resp.token, "eyJhbGciOiJIUzI1NiJ9.test");
    assert_eq!(resp.expires_in, 86400);
}

#[test]
fn test_refresh_interval_saturating() {
    let interval = refresh_interval(1800);
    assert_eq!(interval, 60);
}

#[test]
fn refresh_intervals() {
    assert_eq!(refresh_interval(86400), 82800);
    assert_eq!(refresh_interval(3660), 60);
    assert_eq!(refresh_interval(3661), 61);
    assert_eq!(refresh_interval(0), 60);
    assert_eq!(refresh_interval(u64::MAX), u64::MAX - 3600);
}

#[test]
fn test_constants_sane() {
    assert!(BACKOFF_INITIAL < BACKOFF_MAX);
    assert!(MAX_CONSECUTIVE_FAILURES > 0);
}

#[test]
fn first_tokens_are_asked_for_three_times() {
    assert_eq!(init_next(1, true), InitAction::Done);
    assert_eq!(init_next(1, false), InitAction::RetryAfter(2));
    assert_eq!(init_next(2, false), InitAction::RetryAfter(2));
    assert_eq!(init_next(3, false), InitAction::Fail);
}

#[test]
fn renewals_back_off_and_give_up() {
    let (mut refresher, first) = Refresher::begin(86400);
    assert_eq!(first, RefreshAction::AskAfter(82800));
    assert_eq!([backoff_delay(1), backoff_delay(2), backoff_delay(3), backoff_delay(9)], [30, 60, 120, 120]);
    for expected in [30, 60, 120, 120] {
        assert_eq!(refresher.step(RefreshOutcome::Failed), RefreshAction::AskAfter(expected));
    }
    let mut recovered = refresher;
    assert_eq!(refresher.step(RefreshOutcome::Failed), RefreshAction::GiveUp);
    assert_eq!(
        recovered.step(RefreshOutcome::Renewed(7200)),
        RefreshAction::AskAfter(3600)
    );
    assert_eq!(recovered.step(RefreshOutcome::Failed), RefreshAction::AskAfter(30));
    assert_eq!(edge_agent::auth::give_up_text(), "Token 续签连续失败 5 次，触发 shutdown");
}

#[test]
fn token_answers_are_checked() {
    assert!(check_token_status("https://w/token", 200, "").is_ok());
    assert_eq!(
        check_token_status("https://w/token", 401, "no"),
        Err("POST https://w/token 返回 401 Unauthorized: no".to_string())
    );
    assert_eq!(edge_agent::auth::send_failed("u"), "POST u 请求失败");
}

#[test]
fn test_config_default() {
    let cfg = defaults();
    assert_eq!(cfg.stun_server, "stun.cloudflare.com:3478");
    assert!(cfg.cloudflared_path.is_none());
    assert!(cfg.quic_conn_id.is_empty());
}

#[test]
fn test_config_validate_ok() {
    let mut cfg = defaults();
    cfg.worker_url = "https://worker.test".into();
    cfg.auth_secret = "secret-123".into();
    cfg.edge_id = "node-test".into();
    cfg.tunnel_token = "token-abc".into();
    cfg.virtual_ip = "10.0.0.1/24".into();
    cfg.group_name = "test-net".into();
    cfg.group_password = "password123".into();
    assert!(cfg.validate().is_ok());
}

#[test]
fn test_config_validate_fails_on_empty_fields() {
    let cfg = defaults();
    let err = cfg.validate().unwrap_err();
    let msg = err.message();
    assert!(msg.contains("worker_url"), "{}", msg);
}

#[test]
fn test_config_validate_bad_worker_url() {
    let mut cfg = defaults();
    cfg.worker_url = "not-a-url".into();
    cfg.auth_secret = "s".into();
    cfg.edge_id = "n".into();
    cfg.tunnel_token = "t".into();
    let err = cfg.validate().unwrap_err();
    assert!(err.message().contains("http://"), "{}", err.message());
}

#[test]
fn configurations_are_checked_in_order() {
    let broken = |change: fn(&mut Config)| {
        let mut cfg = complete();
        change(&mut cfg);
        cfg.validate().unwrap_err().message()
    };
    assert_eq!(
        broken(|c| c.worker_url = "".into()),
        "worker_url 未设置（环境变量 EDGE_WORKER_URL 或 config.toml 中配置）"
    );
    assert_eq!(
        broken(|c| c.worker_url = "ftp://x".into()),
        "worker_url 格式错误，必须以 http:// 或 https:// 开头"
    );
    assert_eq!(broken(|c| c.auth_secret = "".into()), "auth_secret 未设置");
    assert_eq!(broken(|c| c.tunnel_token = "".into()), "tunnel_token 未设置");
    assert_eq!(
        broken(|c| c.virtual_ip = "".into()),
        "virtual_ip 未设置（格式如 10.0.0.1/24）"
    );
    assert_eq!(
        broken(|c| c.virtual_ip = "10.0.0.1".into()),
        "virtual_ip 必须是 CIDR 格式（含掩码位），如 10.0.0.1/24，当前值: 10.0.0.1"
    );
    assert_eq!(
        broken(|c| c.virtual_ip = "10.0.0.1/99".into()),
        "virtual_ip 格式无效，应为 CIDR 格式如 10.0.0.1/24"
    );
    assert_eq!(broken(|c| c.group_name = "".into()), "group_name 未设置");
    assert_eq!(broken(|c| c.group_password = "1234567".into()), "group_password 长度至少 8 位");
    let mut bytes = complete();
    bytes.group_password = "密码密".into();
    assert!(bytes.validate().is_ok());
    assert!(matches!(
        complete().validate_with(None),
        Err(ConfigError::BadVirtualIp)
    ));
    assert_eq!(
        complete().virtual_cidr(),
        Some(Cidr { ip: IpAddr::v4(10, 0, 0, 1), prefix: 24 })
    );
}

#[test]
fn test_env_override_str() {
    let mut cfg = defaults();
    cfg.worker_url = "original".into();
    apply_env_override(&mut cfg, &no_env(), Platform::Other);
    assert_eq!(cfg.worker_url, "original");
}

#[test]
fn environment_overrides_the_file() {
    let file = ConfigFile {
        worker_url: some("https://file"),
        data_dir: some("/srv/edge"),
        stun_server: some("1.2.3.4:5"),
        ..no_file()
    };
    let cfg = Config::from_file(&file, Platform::Other, "/etc/edge-agent");
    assert_eq!(cfg.worker_url, "https://file");
    assert_eq!(cfg.data_dir, "/srv/edge");
    assert_eq!(cfg.cdn_manifest, "/srv/edge/cdn_list.toml");
    assert_eq!(cfg.stun_server, "1.2.3.4:5");

    let env = EnvOverrides {
        worker_url: some(""),
        edge_id: some("me"),
        data_dir: some("/env"),
        cloudflared_path: some("/bin/cloudflared"),
        ..no_env()
    };
    let mut over = cfg.clone();
    apply_env_override(&mut over, &env, Platform::Other);
    assert_eq!(over.worker_url, "https://file");
    assert_eq!(over.edge_id, "me");
    assert_eq!(over.data_dir, "/env");
    assert_eq!(over.cdn_manifest, "/env/cdn_list.toml");
    assert_eq!(over.cloudflared_path, some("/bin/cloudflared"));

    let mut kept = cfg.clone();
    let env = EnvOverrides { data_dir: some("/env"), cdn_manifest: some("/m.toml"), ..no_env() };
    apply_env_override(&mut kept, &env, Platform::Other);
    assert_eq!(kept.cdn_manifest, "/m.toml");
    let mut empty = cfg.clone();
    let env = EnvOverrides { data_dir: some("/env"), cdn_manifest: some(""), ..no_env() };
    apply_env_override(&mut empty, &env, Platform::Other);
    assert_eq!(empty.cdn_manifest, "/srv/edge/cdn_list.toml");
}

#[test]
fn configurations_are_loaded() {
    let file = ConfigFile {
        worker_url: some("https://w"),
        auth_secret: some("s"),
        tunnel_token: some("t"),
        virtual_ip: some("10.0.0.1/24"),
        group_name: some("g"),
        group_password: some("12345678"),
        ..no_file()
    };
    let load = |file: Option<ConfigFile>, env: &EnvOverrides| {
        Config::load(&file, env, Platform::Other, &None)
    };
    let cfg = load(Some(file.clone()), &no_env()).unwrap();
    assert_eq!(cfg.cdn_manifest, "/etc/edge-agent/cdn_list.toml");
    let env = EnvOverrides { data_dir: some("/d"), ..no_env() };
    let cfg = load(Some(file.clone()), &env).unwrap();
    assert_eq!(cfg.cdn_manifest, "/d/cdn_list.toml");
    let exe = some("C:\\edge");
    let cfg = Config::load(&Some(file.clone()), &no_env(), Platform::Windows, &exe).unwrap();
    assert_eq!(cfg.cdn_manifest, "C:\\edge\\cdn_list.toml");
    assert!(matches!(load(None, &no_env()), Err(ConfigError::NoWorkerUrl)));
    let env = EnvOverrides { group_password: some("short"), ..no_env() };
    assert!(matches!(load(Some(file), &env), Err(ConfigError::ShortGroupPassword)));
}

#[test]
fn configuration_files_are_found() {
    let places = config_candidates(&some("/data"), Platform::Other);
    assert_eq!(
        places,
        vec!["./config.toml", "/data/config.toml", "/etc/edge-agent/config.toml"]
    );
    assert_eq!(find_config(&places, &vec![false, true, true]), "/data/config.toml");
    assert_eq!(find_config(&places, &vec![false, false, true]), "/etc/edge-agent/config.toml");
    assert_eq!(find_config(&places, &vec![false, false, false]), "./config.toml");
    assert_eq!(config_candidates(&None, Platform::Other).len(), 2);
}

#[test]
fn defaults_follow_the_environment() {
    assert_eq!(defaults().data_dir, "/etc/edge-agent");
    assert_eq!(defaults().cdn_manifest, "/etc/edge-agent/cdn_list.toml");
    let named = Config::default(&some("/srv/edge"), Platform::Android, &None);
    assert_eq!(named.data_dir, "/srv/edge");
    assert_eq!(named.cdn_manifest, "/srv/edge/cdn_list.toml");
    let beside = Config::default(&None, Platform::Windows, &some("D:\\agent\\"));
    assert_eq!(beside.data_dir, "D:\\agent\\");
    assert_eq!(beside.cdn_manifest, "D:\\agent\\cdn_list.toml");
}

#[test]
fn data_directories() {
    assert_eq!(default_data_dir(&some("/x"), Platform::Android, &None), "/x");
    assert_eq!(default_data_dir(&None, Platform::Other, &some("/exe")), "/etc/edge-agent");
    assert_eq!(default_data_dir(&None, Platform::Windows, &some("C:/exe")), "C:/exe");
    assert_eq!(default_data_dir(&None, Platform::Windows, &None), "/etc/edge-agent");
}

#[test]
fn edge_ids() {
    assert_eq!(edge_id_path(Platform::Other, "/data"), "/data/edge_id");
    assert_eq!(load_edge_id(&some(" node-1\n")), some("node-1"));
    assert_eq!(load_edge_id(&None), None);
    let mut cfg = complete();
    adopt_edge_id(&mut cfg, &None);
    assert_eq!(cfg.edge_id, "node-test");
    adopt_edge_id(&mut cfg, &some("node-2\n"));
    assert_eq!(cfg.edge_id, "node-2");
    assert!(must_save_edge_id("a", &some("b")));
    assert!(!must_save_edge_id("a", &some("a")));
    assert!(!must_save_edge_id("a", &None));
}

#[test]
fn connection_ids() {
    let mut cfg = complete();
    assign_conn_id(&mut cfg);
    let first = cfg.quic_conn_id.clone();
    let parts: Vec<usize> = first.split('-').map(|part| part.len()).collect();
    assert_eq!(parts, vec![8, 4, 4, 4, 12]);
    assert!(first.chars().all(|c| c == '-' || "0123456789abcdef".contains(c)));
    assert_eq!(first.chars().nth(14), Some('4'));
    assign_conn_id(&mut cfg);
    assert_ne!(cfg.quic_conn_id, first);
    assert_eq!(cfg.edge_id, "node-test");
    set_conn_id(&mut cfg, "mine".to_string());
    assert_eq!(cfg.quic_conn_id, "mine");
}

#[test]
fn worker_requests() {
    assert_eq!(endpoint("https://w", "/register"), "https://w/register");
    assert_eq!(endpoint("https://w//", "/connect"), "https://w/connect");
    assert_eq!(bearer("abc"), "Bearer abc");
    assert!(is_success(200) && is_success(299));
    assert!(!is_success(199) && !is_success(300));
    let mut cfg = complete();
    cfg.quic_conn_id = "cid".into();
    let request = register_request(&cfg, Vec::new(), "https://t".to_string());
    assert_eq!(request.edge_id, "node-test");
    assert_eq!(request.quic_conn_id, "cid");
    assert_eq!(request.tunnel_url, "https://t");
    assert_eq!(request.group_name, "test-net");
    assert_eq!(request.group_password, "password123");
    assert_eq!(request.virtual_ip, "10.0.0.1/24");
    let request = connect_request(&cfg, "node-b", Vec::new());
    assert_eq!(request.from, "node-test");
    assert_eq!(request.target, "node-b");
}

#[test]
fn registrations_are_answered() {
    let reply = |status: u16, body: &str| register_reply(status, &body.as_bytes().to_vec(), body);
    assert_eq!(reply(200, r#"{"edge_id":"node-7"}"#).unwrap(), some("node-7"));
    assert_eq!(reply(200, r#"{"ok":true}"#).unwrap(), None);
    assert_eq!(reply(201, "[]").unwrap(), None);
    assert!(matches!(reply(200, "oops"), Err(RegisterError::BadBody)));
    match reply(403, "no") {
        Err(RegisterError::Refused(why)) => assert_eq!(why, "注册失败: 403 Forbidden no"),
        other => panic!("{:?}", other),
    }
}

#[test]
fn test_parse_dst_ip_v4() {
    let mut pkt = vec![0u8; 20];
    pkt[0] = 0x45;
    pkt[12..16].copy_from_slice(&[10, 0, 0, 1]);
    pkt[16..20].copy_from_slice(&[10, 0, 0, 2]);

    let dst = parse_dst_ip(&pkt).unwrap();
    assert_eq!(dst, IpAddr::v4(10, 0, 0, 2));
}

#[test]
fn test_parse_dst_ip_v4_too_short() {
    assert!(parse_dst_ip(&[0x45; 10]).is_err());
}

#[test]
fn test_parse_dst_ip_empty() {
    assert!(parse_dst_ip(&[]).is_err());
}

#[test]
fn test_parse_dst_ip_unsupported_version() {
    assert!(parse_dst_ip(&[0x70; 20]).is_err());
}

#[test]
fn test_parse_dst_ip_v6() {
    let mut pkt = vec![0u8; 40];
    pkt[0] = 0x60;
    pkt[24..40].copy_from_slice(&[0, 0, 0, 0, 0, 0, 0, 0, 0, 0, 0, 0, 0, 0, 0, 1]);
    let dst = parse_dst_ip(&pkt).unwrap();
    assert_eq!(dst, IpAddr::V6(1));
}

#[test]
fn packet_errors() {
    assert_eq!(parse_dst_ip(&[]), Err(PacketError::Empty));
    assert_eq!(PacketError::Empty.message(), "空包");
    assert_eq!(parse_dst_ip(&[0x45; 19]), Err(PacketError::ShortV4(19)));
    assert_eq!(PacketError::ShortV4(19).message(), "IPv4 包长度不足 (19)");
    assert_eq!(parse_dst_ip(&[0x60; 39]), Err(PacketError::ShortV6(39)));
    assert_eq!(PacketError::ShortV6(39).message(), "IPv6 包长度不足 (39)");
    assert_eq!(parse_dst_ip(&[0x70]), Err(PacketError::UnknownVersion(7)));
    assert_eq!(PacketError::UnknownVersion(7).message(), "不支持的 IP 版本: 7");
}

#[test]
fn packets_are_routed() {
    let mut conns = ConnTable::new();
    let mut vips = VipTable::new();
    vips.insert(IpAddr::v4(10, 0, 0, 2), "direct");
    vips.insert(IpAddr::v4(10, 0, 0, 3), "relay");
    vips.insert(IpAddr::v4(10, 0, 0, 4), "punching");
    vips.insert(IpAddr::v4(10, 0, 0, 5), "unknown");
    conns.insert("direct", ConnState::Direct(9));
    conns.insert("relay", ConnState::Relay);
    conns.insert("punching", ConnState::Punching);
    let packet = |last: u8| {
        let mut pkt = vec![0u8; 20];
        pkt[0] = 0x45;
        pkt[16..20].copy_from_slice(&[10, 0, 0, last]);
        pkt
    };
    let route = |pkt: &[u8], framed: bool| route_frame(pkt, framed, &vips, &conns);
    match route(&packet(2), false) {
        Outbound::Send { conn, packet: sent } => {
            assert_eq!(conn, 9);
            assert_eq!(sent, packet(2));
        }
        other => panic!("{:?}", other),
    }
    match route(&inbound_frame(packet(2), true), true) {
        Outbound::Send { conn, packet: sent } => {
            assert_eq!(conn, 9);
            assert_eq!(sent, packet(2));
        }
        other => panic!("{:?}", other),
    }
    assert!(matches!(route(&packet(3), false), Outbound::Relayed(peer) if peer == "relay"));
    for last in [4, 5, 6] {
        assert!(matches!(route(&packet(last), false), Outbound::Drop));
    }
    assert!(matches!(route(&[], true), Outbound::Stop));
    assert!(matches!(route(&[0, 0, 8, 0], true), Outbound::Drop));
    assert!(matches!(
        route(&[0, 0, 8, 0, 0x45], true),
        Outbound::Malformed(PacketError::ShortV4(1))
    ));
}

#[test]
fn frames_tell_the_protocol() {
    assert_eq!(inbound_frame(vec![0x45, 1], true), vec![0, 0, 8, 0, 0x45, 1]);
    assert_eq!(inbound_frame(vec![0x60, 1], true), vec![0, 0, 0x86, 0xDD, 0x60, 1]);
    assert_eq!(inbound_frame(vec![], true), vec![0, 0, 8, 0]);
    assert_eq!(inbound_frame(vec![0x60, 1], false), vec![0x60, 1]);
}

#[test]
fn netmasks() {
    assert_eq!(prefix_len_to_netmask(1), 0x8000_0000);
    assert_eq!(prefix_len_to_netmask(24), 0xFFFF_FF00);
    assert_eq!(prefix_len_to_netmask(32), 0xFFFF_FFFF);
    let v4 = Some(Cidr { ip: IpAddr::v4(10, 0, 0, 1), prefix: 24 });
    assert_eq!(
        tun_address(v4, Platform::Other),
        Ok(TunAddress { ip: 0x0A00_0001, netmask: 0xFFFF_FF00 })
    );
    let v6 = Some(Cidr { ip: IpAddr::V6(1), prefix: 64 });
    assert_eq!(
        tun_address(v6, Platform::Other),
        Err("Linux TUN 当前仅支持 IPv4 虚拟地址".to_string())
    );
    assert_eq!(
        tun_address(v6, Platform::Windows),
        Err("Windows TUN 当前仅支持 IPv4 虚拟地址".to_string())
    );
    assert_eq!(tun_address(None, Platform::Other), Err("解析 virtual_ip CIDR 失败".to_string()));
}

#[test]
fn test_resolve_path_fails_gracefully() {
    let cfg = defaults();
    let result = resolve_cloudflared_path(
        &cfg.cloudflared_path,
        false,
        Platform::Other,
        &cfg.data_dir,
        None,
        None,
    );
    let msg = result.unwrap_err();
    assert!(msg.contains("cloudflared"), "{}", msg);
}

#[test]
fn programs_are_run_with_the_token() {
    assert_eq!(cloudflared_args("abc"), vec!["tunnel", "run", "--token", "abc"]);
}

#[test]
fn programs_are_found() {
    let find = |configured: Option<String>, exists, platform, beside, found| {
        resolve_cloudflared_path(&configured, exists, platform, "/d", beside, found)
    };
    assert_eq!(find(some("/c"), true, Platform::Other, None, None), Ok("/c".to_string()));
    assert_eq!(
        find(some("/c"), false, Platform::Other, None, some("/p")),
        Err("cloudflared_path 指定的路径不存在: /c".to_string())
    );
    assert_eq!(find(None, false, Platform::Other, None, some("/p")), Ok("/p".to_string()));
    assert_eq!(find(None, false, Platform::Other, some("/b"), some("/p")), Ok("/p".to_string()));
    assert_eq!(find(None, false, Platform::Windows, some("/b"), some("/p")), Ok("/b".to_string()));
    assert_eq!(find(None, false, Platform::Windows, None, some("/p")), Ok("/p".to_string()));
    assert_eq!(find(None, false, Platform::Android, some("/b"), None), Ok("/b".to_string()));
    assert_eq!(
        find(None, false, Platform::Android, None, some("/p")),
        Err("Android 下 cloudflared 必须在 /d 目录中".to_string())
    );
}

#[test]
fn test_restart_delays_length() {
    assert_eq!(restart_delay(1), 5);
    assert_eq!(restart_delay(2), 10);
    assert_eq!(restart_delay(3), 20);
    assert_eq!(restart_delay(0), 5);
}

#[test]
fn large_restart_delays() {
    assert_eq!(restart_delay(62), 5 * (1u64 << 61));
}

#[test]
fn tunnels_are_restarted_three_times() {
    let failed = TunnelEvent::Failed { cancelled: false };
    let mut supervisor = Supervisor::new();
    assert_eq!(
        supervisor.step(TunnelEvent::StartDue { cancelled: false }),
        TunnelAction::Run
    );
    assert_eq!(supervisor.step(failed), TunnelAction::Pause(5));
    assert_eq!(supervisor.step(failed), TunnelAction::Pause(10));
    let mut other = supervisor;
    assert_eq!(supervisor.step(failed), TunnelAction::Pause(20));
    assert_eq!(supervisor.step(failed), TunnelAction::GiveUp);
    assert_eq!(other.step(TunnelEvent::Failed { cancelled: true }), TunnelAction::Stop);
    assert_eq!(other.step(TunnelEvent::StartDue { cancelled: true }), TunnelAction::Stop);
    assert_eq!(other.step(TunnelEvent::Ended), TunnelAction::Stop);
    assert_eq!(edge_agent::tunnel::give_up_text(), "cloudflared 连续退出 4 次，触发 shutdown");
}

#[test]
fn runs_end_well_or_badly() {
    assert_eq!(run_action(RunEvent::Ready), RunAction::AwaitExit);
    assert_eq!(run_action(RunEvent::NotReady { cancelled: true }), RunAction::Finish);
    assert_eq!(run_action(RunEvent::NotReady { cancelled: false }), RunAction::KillAndFail);
    assert_eq!(run_action(RunEvent::Cancelled), RunAction::ShutDown);
    assert_eq!(run_action(RunEvent::Exited), RunAction::Fail);
}

#[test]
fn readiness_is_polled() {
    assert_eq!(
        ready_endpoints(),
        vec![
            "http://127.0.0.1:20241/health",
            "http://127.0.0.1:20241/ready"
        ]
    );
    assert_eq!(poll_next(0, Some(200)), PollAction::Ready);
    assert_eq!(poll_next(0, Some(404)), PollAction::Ask(1));
    assert_eq!(poll_next(0, None), PollAction::Ask(1));
    assert_eq!(poll_next(1, Some(204)), PollAction::Ready);
    assert_eq!(poll_next(1, Some(503)), PollAction::Sleep(1));
    assert_eq!(poll_next(1, None), PollAction::Sleep(1));
    assert_eq!(wait_next(true, true, u128::MAX), WaitAction::Ready);
    assert_eq!(wait_next(false, true, 0), WaitAction::GiveUp);
    assert_eq!(wait_next(false, false, 30_000_000_000), WaitAction::Sleep(500));
    assert_eq!(wait_next(false, false, 30_000_000_001), WaitAction::GiveUp);
}

#[test]
fn tunnel_urls_are_found() {
    let url = |line: &str| extract_tunnel_url_from_line(line);
    assert_eq!(
        url("INF Your quick Tunnel has been created! Visit it at https://a.example.com, ok"),
        some("https://a.example.com")
    );
    assert_eq!(url("Visit it at https://b.example.com"), some("https://b.example.com"));
    assert_eq!(url("{x=Visit it at https://c.example.com}"), some("https://c.example.com"));
    assert_eq!(
        url("Starting tunnel tunnelID=2c0fb371-1111-2222-3333-444455556666 next"),
        some("https://2c0fb371-1111-2222-3333-444455556666.cfargotunnel.com")
    );
    assert_eq!(url("tunnelID=2c0fb371-1111-2222-3333-44445555666"), None);
    assert_eq!(url("tunnelID=2c0fb37111112222333344445555666677776"), None);
    assert_eq!(url("tunnelID=é0fb371-1111-2222-3333-4444555566666"), None);
    assert_eq!(
        url("tunnelID=é0fb371-1111-2222-3333-44445555666"),
        None
    );
    assert_eq!(
        url("tunnelID=éfb371-1111-2222-3333-444455556666x"),
        some("https://éfb371-1111-2222-3333-444455556666x.cfargotunnel.com")
    );
    assert_eq!(url("Your quick Tunnel has been created"), None);
    assert_eq!(url("see https://docs.example.com"), None);
}

#[test]
fn test_candidate_serde() {
    let addr = SocketAddr::new(IpAddr::v4(203, 0, 113, 5), 4433);
    let c = Candidate { addr_type: CandidateType::Srflx, address: addr };
    let fields = c.to_fields();
    assert!(fields.contains(&CandidateField::Type(CandidateType::Srflx)));
    assert!(fields.contains(&CandidateField::Address(addr)));

    let back = Candidate::from_fields(&fields).unwrap();
    assert_eq!(back.addr_type, CandidateType::Srflx);
    assert_eq!(back.address, addr);
}

#[test]
fn candidates_keep_their_zone() {
    let addr = SocketAddr {
        ip: IpAddr::V6(0xfe80_0000_0000_0000_0000_0000_0000_0001),
        port: 4433,
        flowinfo: 0,
        scope_id: 2,
    };
    let c = Candidate { addr_type: CandidateType::Host, address: addr };
    let back = Candidate::from_fields(&c.to_fields()).unwrap();
    assert_eq!(back.address.scope_id, 2);
    assert_ne!(back.address, SocketAddr::new(addr.ip, 4433));
    assert_eq!(addr.with_port(5), SocketAddr { port: 5, ..addr });
}

#[test]
fn test_candidate_invalid_address() {
    let why = "invalid socket address syntax".to_string();
    let bad = vec![CandidateField::Type(CandidateType::Host), CandidateField::BadAddress(why)];
    let result = Candidate::from_fields(&bad);
    assert!(result.is_err());
    let message = result.unwrap_err().message();
    assert!(message.contains("invalid address"));
    assert_eq!(message, "invalid address: invalid socket address syntax");
}

#[test]
fn candidate_errors() {
    let addr = SocketAddr::new(IpAddr::v4(1, 2, 3, 4), 5);
    let kind = CandidateField::Type(CandidateType::Host);
    let place = CandidateField::Address(addr);
    let bad = CandidateField::BadAddress("e".to_string());
    let read = |fields: &[&CandidateField]| {
        Candidate::from_fields(&fields.iter().map(|field| (*field).clone()).collect())
    };
    assert!(read(&[&place, &kind]).is_ok());
    assert_eq!(read(&[&kind, &kind]), Err(CandidateError::DuplicateType));
    assert_eq!(read(&[&place, &place]), Err(CandidateError::DuplicateAddress));
    assert_eq!(read(&[&place, &bad]), Err(CandidateError::DuplicateAddress));
    assert_eq!(read(&[&bad]), Err(CandidateError::InvalidAddress("e".to_string())));
    assert_eq!(read(&[&kind]), Err(CandidateError::MissingAddress));
    assert_eq!(read(&[&place]), Err(CandidateError::MissingType));
    assert_eq!(read(&[]), Err(CandidateError::MissingType));
    assert_eq!(CandidateError::DuplicateType.message(), "duplicate field `type`");
    assert_eq!(CandidateError::DuplicateAddress.message(), "duplicate field `address`");
    assert_eq!(CandidateError::MissingType.message(), "missing field `type`");
    assert_eq!(CandidateError::MissingAddress.message(), "missing field `address`");
}

#[test]
fn test_hole_punch_task_defaults() {
    let task = HolePunchTask {
        peer_id: "node-a".into(),
        candidates: vec![Candidate {
            addr_type: CandidateType::Host,
            address: SocketAddr::new(IpAddr::v4(10, 0, 0, 1), 4433),
        }],
        conn_id: Some("fixed-cid-001".into()),
        peer_virtual_ip: Some(IpAddr::v4(10, 0, 0, 2)),
        punch_at: 1_700_000_000_000,
    };
    assert_eq!(task.peer_id, "node-a");
    assert!(task.conn_id.is_some());
}

#[test]
fn test_rule_mode_serde() {
    let cdn: String = serde_json::from_str("\"cdn\"").unwrap();
    let direct: String = serde_json::from_str("\"direct\"").unwrap();
    assert_eq!(RuleMode::from_name(&cdn).unwrap(), RuleMode::Cdn);
    assert_eq!(RuleMode::from_name(&direct).unwrap(), RuleMode::Direct);
    assert_eq!(RuleMode::from_name("Cdn"), None);
}

#[test]
fn test_channel_creation() {
    let (tx, mut rx) = tokio::sync::mpsc::channel(HP_CHANNEL_SIZE);
    let task = HolePunchTask {
        peer_id: "test".into(),
        candidates: vec![],
        conn_id: None,
        peer_virtual_ip: None,
        punch_at: 0,
    };
    tx.try_send(task).unwrap();
    let received = rx.try_recv().unwrap();
    assert_eq!(received.peer_id, "test");
    assert_eq!((HP_CHANNEL_SIZE, RELOAD_CHANNEL_SIZE), (64, 16));
}

#[test]
fn test_reload_cmd_serde() {
    let cmd = ReloadCmd::Reload;
    let cmd2 = cmd.clone();
    assert!(matches!(cmd2, ReloadCmd::Reload));
}
