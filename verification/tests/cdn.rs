use axum::http::{HeaderMap, HeaderValue};
use edge_agent::cdn::rules::{
    compute_etag, etag_from_digest, match_path, parse_manifest, LocalNetwork, Manifest,
    ManifestError, ManifestRule,
};
use edge_agent::cdn::utils::{
    first_forwarded, in_any_network, is_local_ip, is_same_subnet_24, parse_client_ip,
    pick_client_ip,
};
use edge_agent::cdn::{cdn_action, reload_rules, CdnAction, CdnEvent, ReloadError};
use edge_agent::net::{Cidr, IpAddr};
use edge_agent::types::{ReloadCmd, Rule, RuleMode};

fn rule(path: &str, mode: RuleMode, max_age: u64, cdn_url: Option<&str>) -> Rule {
    Rule {
        path: path.to_string(),
        mode,
        max_age,
        cdn_url: cdn_url.map(|s| s.to_string()),
        local_cidrs: Vec::new(),
    }
}

fn entry(path: &str, mode: &str, max_age: u64, cdn_url: Option<&str>) -> ManifestRule {
    ManifestRule {
        path: path.to_string(),
        mode: mode.to_string(),
        max_age,
        cdn_url: cdn_url.map(|s| s.to_string()),
        local_cidrs: None,
    }
}

fn text_at<'a>(value: &'a toml::Value, key: &str) -> Option<&'a str> {
    value.get(key).and_then(|v| v.as_str())
}

fn manifest_from(content: &str) -> Manifest {
    let value: toml::Value = toml::from_str(content).unwrap();
    let local_network = value.get("local_network").map(|n| LocalNetwork {
        cidrs: n
            .get("cidrs")
            .and_then(|c| c.as_array())
            .map(|list| list.iter().map(|c| c.as_str().unwrap().to_string()).collect())
            .unwrap_or_default(),
    });
    let rules = value
        .get("rules")
        .and_then(|r| r.as_array())
        .map(|list| {
            list.iter()
                .map(|r| {
                    entry(
                        text_at(r, "path").unwrap(),
                        text_at(r, "mode").unwrap(),
                        r.get("max_age").and_then(|m| m.as_integer()).unwrap_or(0) as u64,
                        text_at(r, "cdn_url"),
                    )
                })
                .collect()
        })
        .unwrap_or_default();
    Manifest { local_network, rules }
}

#[test]
fn test_match_path_exact() {
    let rules = vec![
        rule("/files/videos/", RuleMode::Cdn, 86400, Some("https://cdn.example.com/")),
        rule("/files/", RuleMode::Direct, 0, None),
    ];

    let matched = match_path(&rules, "/files/videos/1.mp4").unwrap();
    assert_eq!(matched.path, "/files/videos/");
    assert_eq!(matched.mode, RuleMode::Cdn);

    let matched = match_path(&rules, "/files/docs/readme.txt").unwrap();
    assert_eq!(matched.path, "/files/");
    assert_eq!(matched.mode, RuleMode::Direct);
}

#[test]
fn test_match_path_no_match() {
    let rules = vec![rule(
        "/files/videos/",
        RuleMode::Cdn,
        86400,
        Some("https://cdn.example.com/"),
    )];
    assert!(match_path(&rules, "/other/path").is_none());
}

#[test]
fn test_match_path_wildcard() {
    let rules = vec![rule(
        "/files/assets/large/*.mp4",
        RuleMode::Cdn,
        3600,
        Some("https://cdn.example.com/"),
    )];

    let matched = match_path(&rules, "/files/assets/large/movie.mp4").unwrap();
    assert_eq!(matched.path, "/files/assets/large/*.mp4");
}

#[test]
fn longest_prefix_wins_in_any_order() {
    let rules = vec![
        rule("/files/", RuleMode::Direct, 0, None),
        rule("/files/a/b/*", RuleMode::Direct, 1, None),
        rule("/files/a/", RuleMode::Direct, 2, None),
    ];
    assert_eq!(match_path(&rules, "/files/a/b/c").unwrap().max_age, 1);
    assert_eq!(match_path(&rules, "/files/a/c").unwrap().max_age, 2);
    assert_eq!(match_path(&rules, "/files/c").unwrap().max_age, 0);
    assert!(match_path(&rules, "/filesystem").is_none());
    assert!(match_path(&[], "/files/").is_none());
}

#[test]
fn first_of_equal_prefixes_wins() {
    let rules = vec![
        rule("/files/a/", RuleMode::Direct, 1, None),
        rule("/files/a/*", RuleMode::Direct, 2, None),
    ];
    assert_eq!(match_path(&rules, "/files/a/x").unwrap().max_age, 1);
}

#[test]
fn test_compute_etag() {
    let etag = compute_etag(1_700_000_000_000_000_123, 5);
    assert!(!etag.is_empty());
    assert_eq!(etag.len(), 16);

    let etag2 = compute_etag(1_700_000_000_000_000_123, 5);
    assert_eq!(etag, etag2);
}

#[test]
fn etag_values() {
    assert_eq!(compute_etag(0, 0), "9d908ecfb6b256de");
    assert_eq!(compute_etag(1_700_000_000_000_000_123, 5), "6581cdf15d487716");
    assert_ne!(compute_etag(1_700_000_000_000_000_123, 6), compute_etag(1_700_000_000_000_000_123, 5));
    let digest: Vec<u8> = vec![0x00, 0x0f, 0xf0, 0x9a, 0xbc, 0xde, 0xff, 0x10, 0x77];
    assert_eq!(etag_from_digest(&digest), "000ff09abcdeff10");
}

#[test]
fn test_parse_manifest_inline() {
    let toml_content = r#"
[local_network]
cidrs = ["192.168.1.0/24", "10.0.0.0/8"]

[[rules]]
path = "/files/videos/"
mode = "cdn"
max_age = 86400
cdn_url = "https://cdn.example.com/"

[[rules]]
path = "/files/docs/"
mode = "direct"
"#;

    let manifest = manifest_from(toml_content);
    assert_eq!(manifest.rules.len(), 2);
    assert_eq!(manifest.rules[0].path, "/files/videos/");
    assert_eq!(manifest.rules[0].mode, "cdn");
    assert_eq!(manifest.rules[1].mode, "direct");

    let rules = parse_manifest(&manifest).unwrap();
    assert_eq!(rules.len(), 2);
    assert_eq!(rules[0].mode, RuleMode::Cdn);
    assert_eq!(rules[0].max_age, 86400);
    assert_eq!(rules[1].local_cidrs, vec!["192.168.1.0/24", "10.0.0.0/8"]);

    let local = manifest.local_network.unwrap();
    assert_eq!(local.cidrs.len(), 2);
}

#[test]
fn test_parse_manifest_missing_cdn_url() {
    let toml_content = r#"
[[rules]]
path = "/files/videos/"
mode = "cdn"
max_age = 86400
"#;
    let manifest = manifest_from(toml_content);
    assert!(parse_manifest(&manifest).is_err());
}

#[test]
fn manifest_errors() {
    let check = |rules: Vec<ManifestRule>| {
        parse_manifest(&Manifest { local_network: None, rules }).unwrap_err()
    };
    let e = check(vec![entry("/a/", "direct", 0, None), entry("/b/", "proxy", 0, None)]);
    assert!(matches!(e, ManifestError::InvalidMode { rule: 2, .. }));
    assert_eq!(e.message(), "规则 #2 的 mode 无效: 'proxy'（应为 'cdn' 或 'direct'）");
    let e = check(vec![entry("/a/", "cdn", 0, None)]);
    assert!(matches!(e, ManifestError::MissingCdnUrl { rule: 1, .. }));
    assert_eq!(e.message(), "规则 #1 path='/a/' mode='cdn' 但缺少 cdn_url");
    let e = check(vec![entry("a/", "direct", 0, None)]);
    assert!(matches!(e, ManifestError::PathNotAbsolute { rule: 1, .. }));
    let e = check(vec![entry("/a", "direct", 0, None)]);
    assert!(matches!(e, ManifestError::PathNotTerminated { rule: 1, .. }));
}

#[test]
fn direct_rules_have_no_cdn_url() {
    let manifest = Manifest {
        local_network: None,
        rules: vec![
            entry("/a/", "direct", 0, Some("https://cdn.example.com/")),
            entry("/b/", "cdn", 0, Some("https://cdn.example.com/")),
        ],
    };
    let rules = parse_manifest(&manifest).unwrap();
    assert_eq!(rules[0].cdn_url, None);
    assert_eq!(rules[1].cdn_url, Some("https://cdn.example.com/".to_string()));
}

#[test]
fn own_networks_replace_global_ones() {
    let mut own = entry("/a/", "direct", 0, None);
    own.local_cidrs = Some(vec!["172.16.0.0/12".to_string()]);
    let manifest = Manifest {
        local_network: Some(LocalNetwork { cidrs: vec!["10.0.0.0/8".to_string()] }),
        rules: vec![own, entry("/b/*", "direct", 0, None)],
    };
    let rules = parse_manifest(&manifest).unwrap();
    assert_eq!(rules[0].local_cidrs, vec!["172.16.0.0/12"]);
    assert_eq!(rules[1].local_cidrs, vec!["10.0.0.0/8"]);
}

#[test]
fn test_parse_client_ip_cf() {
    let mut headers = HeaderMap::new();
    headers.insert("CF-Connecting-IP", "203.0.113.5".parse().unwrap());
    assert_eq!(parse_client_ip(&headers), Some(IpAddr::v4(203, 0, 113, 5)));
}

#[test]
fn test_parse_client_ip_xff() {
    let mut headers = HeaderMap::new();
    headers.insert(
        "X-Forwarded-For",
        "203.0.113.5, 10.0.0.1, 192.168.1.1".parse().unwrap(),
    );
    assert_eq!(parse_client_ip(&headers), Some(IpAddr::v4(203, 0, 113, 5)));
}

#[test]
fn test_parse_client_ip_x_real() {
    let mut headers = HeaderMap::new();
    headers.insert("X-Real-IP", "10.0.0.5".parse().unwrap());
    assert_eq!(parse_client_ip(&headers), Some(IpAddr::v4(10, 0, 0, 5)));
}

#[test]
fn test_parse_client_ip_empty() {
    let headers = HeaderMap::new();
    assert_eq!(parse_client_ip(&headers), None);
}

#[test]
fn client_ip_headers_have_an_order() {
    let mut headers: HeaderMap<HeaderValue> = HeaderMap::new();
    headers.insert("X-Real-IP", "10.0.0.5".parse().unwrap());
    headers.insert("X-Forwarded-For", "no address, 10.0.0.1".parse().unwrap());
    assert_eq!(parse_client_ip(&headers), Some(IpAddr::v4(10, 0, 0, 5)));
    headers.insert("x-forwarded-for", " 2001:db8::1 ,10.0.0.1".parse().unwrap());
    assert_eq!(
        parse_client_ip(&headers),
        Some(IpAddr::V6(0x2001_0db8_0000_0000_0000_0000_0000_0001))
    );
    headers.insert("cf-connecting-ip", "192.0.2.7".parse().unwrap());
    assert_eq!(parse_client_ip(&headers), Some(IpAddr::v4(192, 0, 2, 7)));
    headers.insert("cf-connecting-ip", HeaderValue::from_bytes(b"\xff").unwrap());
    assert!(matches!(parse_client_ip(&headers), Some(IpAddr::V6(_))));
    let a = Some(IpAddr::v4(1, 1, 1, 1));
    let b = Some(IpAddr::v4(2, 2, 2, 2));
    assert_eq!(pick_client_ip(a, b, None), a);
    assert_eq!(pick_client_ip(None, b, a), b);
    assert_eq!(pick_client_ip(None, None, a), a);
    assert_eq!(first_forwarded("\t 10.0.0.1 , 10.0.0.2"), "10.0.0.1");
    assert_eq!(first_forwarded("10.0.0.1"), "10.0.0.1");
}

#[test]
fn test_is_local_ip_cidr_match() {
    let cidrs = vec!["192.168.1.0/24".to_string()];
    assert!(is_local_ip(IpAddr::v4(192, 168, 1, 100), &cidrs, &Vec::new()));
    assert!(!is_local_ip(IpAddr::v4(10, 0, 0, 1), &cidrs, &Vec::new()));
}

#[test]
fn test_is_local_ip_multiple_cidrs() {
    let cidrs = vec!["10.0.0.0/8".to_string(), "172.16.0.0/12".to_string()];
    assert!(is_local_ip(IpAddr::v4(10, 1, 2, 3), &cidrs, &Vec::new()));
    assert!(is_local_ip(IpAddr::v4(172, 16, 0, 1), &cidrs, &Vec::new()));
    assert!(!is_local_ip(IpAddr::v4(8, 8, 8, 8), &cidrs, &Vec::new()));
}

#[test]
fn own_subnets_count_where_no_network_is_listed() {
    let own = vec![
        IpAddr::v4(127, 0, 0, 1),
        IpAddr::V6(1),
        IpAddr::v4(192, 168, 7, 20),
    ];
    assert!(is_local_ip(IpAddr::v4(192, 168, 7, 99), &Vec::new(), &own));
    assert!(!is_local_ip(IpAddr::v4(192, 168, 8, 20), &Vec::new(), &own));
    assert!(!is_same_subnet_24(IpAddr::v4(127, 0, 0, 9), &own));
    assert!(!is_same_subnet_24(IpAddr::V6(1), &own));
    let cidrs = vec!["10.0.0.0/8".to_string()];
    assert!(!is_local_ip(IpAddr::v4(192, 168, 7, 99), &cidrs, &own));
    let more = vec!["10.0.0.0/8".to_string(), "192.168.0.0/16".to_string()];
    assert!(is_local_ip(IpAddr::v4(192, 168, 7, 99), &more, &own));
    assert!(is_local_ip(IpAddr::v4(10, 0, 0, 1), &more, &own));
}

#[test]
fn texts_that_are_no_network_hold_nothing() {
    let cidrs = vec!["nonsense".to_string(), "10.0.0.0/33".to_string()];
    assert!(!is_local_ip(IpAddr::v4(10, 0, 0, 1), &cidrs, &Vec::new()));
    let host = vec!["10.0.0.1".to_string()];
    assert!(is_local_ip(IpAddr::v4(10, 0, 0, 1), &host, &Vec::new()));
    assert!(!is_local_ip(IpAddr::v4(10, 0, 0, 2), &host, &Vec::new()));
}

#[test]
fn networks_compare_leading_bits() {
    let wide = Some(Cidr { ip: IpAddr::v4(10, 0, 0, 0), prefix: 0 });
    let narrow = Some(Cidr { ip: IpAddr::v4(10, 0, 0, 77), prefix: 31 });
    let six = Some(Cidr { ip: IpAddr::V6(0x2001_0db8 << 96), prefix: 32 });
    assert!(in_any_network(IpAddr::v4(200, 1, 2, 3), &vec![None, wide]));
    assert!(!in_any_network(IpAddr::V6(5), &vec![wide]));
    assert!(in_any_network(IpAddr::v4(10, 0, 0, 76), &vec![narrow]));
    assert!(!in_any_network(IpAddr::v4(10, 0, 0, 78), &vec![narrow]));
    assert!(in_any_network(IpAddr::V6((0x2001_0db8 << 96) + 9), &vec![six]));
    assert!(!in_any_network(IpAddr::V6(0x2001_0db9 << 96), &vec![six]));
    assert!(!in_any_network(IpAddr::v4(10, 0, 0, 1), &vec![None]));
}

#[test]
fn test_reload_updates_rules() {
    let mut cdn_rules: Vec<Rule> = Vec::new();
    let manifest = manifest_from(
        r#"
[[rules]]
path = "/files/videos/"
mode = "cdn"
max_age = 86400
cdn_url = "https://cdn.example.com/"
"#,
    );

    assert_eq!(cdn_action(CdnEvent::Command(ReloadCmd::Reload)), CdnAction::Reload);
    assert_eq!(reload_rules(&mut cdn_rules, Ok(manifest)).unwrap(), 1);

    assert_eq!(cdn_rules.len(), 1);
    assert_eq!(cdn_rules[0].path, "/files/videos/");
}

#[test]
fn test_shutdown_closes_cleanly() {
    let mut cdn_rules: Vec<Rule> = Vec::new();
    let missing = Err("/nonexistent".to_string());
    assert!(reload_rules(&mut cdn_rules, missing).is_err());
    assert_eq!(cdn_action(CdnEvent::Command(ReloadCmd::Shutdown)), CdnAction::Exit);
    assert_eq!(cdn_action(CdnEvent::Cancelled), CdnAction::Exit);
    assert_eq!(cdn_action(CdnEvent::Closed), CdnAction::Exit);
}

#[test]
fn failed_reload_keeps_rules() {
    let mut rules = vec![rule("/files/", RuleMode::Direct, 7, None)];
    let e = reload_rules(&mut rules, Err("gone".to_string())).unwrap_err();
    assert!(matches!(e, ReloadError::Unreadable(_)));
    assert_eq!(e.message(), "gone");
    assert_eq!(rules[0].max_age, 7);
    let bad = Manifest { local_network: None, rules: vec![entry("x", "direct", 0, None)] };
    let e = reload_rules(&mut rules, Ok(bad)).unwrap_err();
    assert!(matches!(e, ReloadError::Refused(ManifestError::PathNotAbsolute { .. })));
    assert_eq!(e.message(), "规则 #1 的 path 必须以 '/' 开头: 'x'");
    assert_eq!(rules.len(), 1);
    let empty = Manifest { local_network: None, rules: Vec::new() };
    assert_eq!(reload_rules(&mut rules, Ok(empty)).unwrap(), 0);
    assert!(rules.is_empty());
}
