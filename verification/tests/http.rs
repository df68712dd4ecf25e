use axum::http::{HeaderMap, HeaderValue};
use edge_agent::http::files::{
    cache_control, cdn_redirect, check_file, check_inside, check_opened, file_reply, file_target,
    guess_mime_type, is_copy_fresh, needs_own_addresses, relative_path, reply_with, route_request, FileError,
    FileFound, FileReply, FileRoute, FileTime, OpenOutcome,
};
use edge_agent::http::headers::{bytes_text, header_text};
use edge_agent::http::health::{
    exp_or_unknown, extract_token_exp, health_response, reload_reply, token_payload,
};
use edge_agent::http::notify::{accept_notify, notify_status, NotifyError, NotifyPayload};
use edge_agent::net::{IpAddr, SocketAddr};
use edge_agent::paths::{is_below, join_path};
use edge_agent::types::{Candidate, CandidateType, Platform, Rule, RuleMode};

fn rule(path: &str, mode: RuleMode, max_age: u64, cdn_url: Option<&str>) -> Rule {
    Rule {
        path: path.to_string(),
        mode,
        max_age,
        cdn_url: cdn_url.map(|s| s.to_string()),
        local_cidrs: vec!["10.0.0.0/8".to_string()],
    }
}

fn path_parts(path: &str) -> Vec<Vec<u8>> {
    path.split('/').map(|c| c.as_bytes().to_vec()).collect()
}

fn payload(kind: Option<&str>, from: &str, candidates: usize, t: u64) -> NotifyPayload {
    let candidate = Candidate {
        addr_type: CandidateType::Host,
        address: SocketAddr::new(IpAddr::v4(10, 0, 0, 1), 4433),
    };
    NotifyPayload {
        msg_type: kind.map(|s| s.to_string()),
        from: from.to_string(),
        from_candidates: vec![candidate; candidates],
        from_conn_id: Some("cid".to_string()),
        from_virtual_ip: Some(IpAddr::v4(10, 0, 0, 2)),
        t,
    }
}

const NOW: u64 = 1_700_000_000_000;

#[test]
fn requests_are_routed_by_rule_and_client() {
    let rules = vec![
        rule("/files/cdn/", RuleMode::Cdn, 3600, Some("https://cdn.example.com/base//")),
        rule("/files/broken/", RuleMode::Cdn, 0, None),
        rule("/files/", RuleMode::Direct, 99, None),
    ];
    let own = Vec::new();
    let remote = Some(IpAddr::v4(203, 0, 113, 5));
    let local = Some(IpAddr::v4(10, 1, 1, 1));

    match route_request(&rules, "/files/cdn/a.mp4", remote, &own) {
        FileRoute::Redirect(to) => {
            assert_eq!(to.location, "https://cdn.example.com/base/cdn/a.mp4");
            assert_eq!(to.cache_control, "public, max-age=3600");
        }
        other => panic!("{:?}", other),
    }
    assert!(matches!(
        route_request(&rules, "/files/cdn/a.mp4", local, &own),
        FileRoute::Local { max_age: Some(3600) }
    ));
    assert!(matches!(
        route_request(&rules, "/files/cdn/a.mp4", None, &own),
        FileRoute::Local { max_age: Some(3600) }
    ));
    assert!(matches!(
        route_request(&rules, "/files/a.txt", remote, &own),
        FileRoute::Local { max_age: None }
    ));
    assert!(matches!(
        route_request(&rules, "/files/broken/a", remote, &own),
        FileRoute::Refused(FileError::NoCdnUrl)
    ));
    assert!(matches!(
        route_request(&rules, "/other", remote, &own),
        FileRoute::Refused(FileError::NoRule)
    ));
}

#[test]
fn own_addresses_matter_for_rules_without_networks() {
    let mut open = rule("/files/cdn/", RuleMode::Cdn, 1, Some("https://c"));
    open.local_cidrs = Vec::new();
    let listed = rule("/files/listed/", RuleMode::Cdn, 1, Some("https://c"));
    let mut direct = rule("/files/direct/", RuleMode::Direct, 0, None);
    direct.local_cidrs = Vec::new();
    let rules = vec![open, listed, direct];
    let client = Some(IpAddr::v4(192, 168, 7, 9));
    assert!(needs_own_addresses(&rules, "/files/cdn/a", client));
    assert!(!needs_own_addresses(&rules, "/files/cdn/a", None));
    assert!(!needs_own_addresses(&rules, "/files/listed/a", client));
    assert!(!needs_own_addresses(&rules, "/files/direct/a", client));
    assert!(!needs_own_addresses(&rules, "/other", client));
    let own = vec![IpAddr::v4(192, 168, 7, 1)];
    assert!(matches!(
        route_request(&rules, "/files/cdn/a", client, &own),
        FileRoute::Local { max_age: Some(1) }
    ));
    assert!(matches!(
        route_request(&rules, "/files/cdn/a", client, &Vec::new()),
        FileRoute::Redirect(_)
    ));
}

#[test]
fn redirects_join_url_and_path() {
    let to = cdn_redirect(Some("https://c"), "/files//x", 0).unwrap();
    assert_eq!(to.location, "https://c/x");
    assert_eq!(to.cache_control, "public, max-age=0");
    assert_eq!(cdn_redirect(Some("https://c/"), "/y", 5).unwrap().location, "https://c/y");
    assert_eq!(cdn_redirect(None, "/files/x", 5).unwrap_err(), FileError::NoCdnUrl);
}

#[test]
fn relative_paths() {
    assert_eq!(relative_path("/files/a/b"), "a/b");
    assert_eq!(relative_path("/a/b"), "a/b");
    assert_eq!(relative_path("a/b"), "a/b");
    assert_eq!(relative_path("/files/"), "");
}

#[test]
fn file_targets() {
    let target = file_target(Platform::Other, "/etc/edge-agent", "/files/a/b.txt").unwrap();
    assert_eq!(target.base_dir, "/etc/edge-agent/files");
    assert_eq!(target.file_path, "/etc/edge-agent/files/a/b.txt");
    let absolute = file_target(Platform::Other, "/data", "/files//etc/passwd").unwrap();
    assert_eq!(absolute.file_path, "/etc/passwd");
    assert_eq!(file_target(Platform::Other, "/data", "/files/").unwrap_err(), FileError::EmptyPath);
    assert_eq!(file_target(Platform::Other, "/data", "/files/../x").unwrap_err(), FileError::IllegalPath);
    assert_eq!(file_target(Platform::Other, "/data", "/files/a..b").unwrap_err(), FileError::IllegalPath);
}

#[test]
fn paths_are_joined() {
    assert_eq!(join_path(Platform::Other, "/a", "b"), "/a/b");
    assert_eq!(join_path(Platform::Other, "/a/", "b"), "/a/b");
    assert_eq!(join_path(Platform::Other, "", "b"), "b");
    assert_eq!(join_path(Platform::Other, "/a", "/b"), "/b");
}

#[test]
fn paths_are_joined_on_windows() {
    let join = |dir: &str, name: &str| join_path(Platform::Windows, dir, name);
    assert_eq!(join(r"C:\data", "files"), r"C:\data\files");
    assert_eq!(join(r"C:\data\", "files"), r"C:\data\files");
    assert_eq!(join("C:/data/", "a/b"), "C:/data/a/b");
    assert_eq!(join("", "files"), "files");
    assert_eq!(join("C:", "files"), "C:files");
    assert_eq!(join("dir", ""), r"dir\");
    assert_eq!(join(r"C:\data", r"D:\x"), r"D:\x");
    assert_eq!(join(r"C:\data", "D:x"), "D:x");
    assert_eq!(join(r"C:\data", r"\x"), r"C:\x");
    assert_eq!(join(r"C:\data", "/x"), "C:/x");
    assert_eq!(join(r"\\server\share\a", r"\x"), r"\\server\share\x");
    assert_eq!(join(r"\\server\share", "x"), r"\\server\share\x");
    assert_eq!(join(r"C:\data", r"\\server\share\x"), r"\\server\share\x");
    assert_eq!(join(r"C:\data", r"\\.\COM1"), r"\\.\COM1");
    assert_eq!(join(r"C:\data", "//server"), "C://server");
    assert_eq!(join("data", r"\x"), r"\x");
    assert_eq!(join(r"\\?\C:\data", "files"), r"\\?\C:\data\files");
    assert_eq!(join(r"\\?\C:\data\b", "./../c/d"), r"\\?\C:\data\c\d");
    assert_eq!(join(r"\\?\C:\data", "/x/.."), r"\\?\C:\");
    assert_eq!(join(r"\\?\C:", "x"), r"\\?\C:\x");
    assert_eq!(join(r"\\?\C:\", ".."), r"\\?\C:\");
    assert_eq!(join(r"\\?\UNC\server\share\a", r"\x"), r"\\?\UNC\server\share\x");
    assert_eq!(join(r"\\?\volume\a/b", "x"), r"\\?\volume\a/b\x");
    let target = file_target(Platform::Windows, r"C:\data", "/files/D:/x").unwrap();
    assert_eq!(target.base_dir, r"C:\data\files");
    assert_eq!(target.file_path, "D:/x");
}

#[test]
fn files_have_to_lie_in_the_served_directory() {
    let base = Some(path_parts("/data/files"));
    assert!(check_inside(&Some(path_parts("/data/files/a/b")), &base).is_ok());
    assert!(check_inside(&Some(path_parts("/data/files")), &base).is_ok());
    assert_eq!(
        check_inside(&Some(path_parts("/data/files2/a")), &base),
        Err(FileError::NotFound)
    );
    assert_eq!(check_inside(&Some(path_parts("/etc/passwd")), &base), Err(FileError::NotFound));
    assert_eq!(check_inside(&Some(path_parts("/data")), &base), Err(FileError::NotFound));
    assert_eq!(check_inside(&None, &base), Err(FileError::NotFound));
    assert_eq!(check_inside(&Some(path_parts("/data")), &None), Err(FileError::NoBaseDir));
    assert!(is_below(&path_parts("/a/b/c"), &path_parts("/a/b")));
    assert!(is_below(&path_parts("/a/b/c"), &path_parts("/a")));
}

#[test]
fn files_are_checked_in_order() {
    let found = |opened, file: Option<&str>, base: Option<&str>, dated| {
        check_file(&FileFound {
            opened,
            file: file.map(path_parts),
            base: base.map(path_parts),
            dated,
        })
    };
    let file = OpenOutcome::File;
    assert_eq!(found(file, Some("/d/files/a"), Some("/d/files"), true), Ok(()));
    assert_eq!(
        found(file, Some("/d/files/a"), Some("/d/files"), false),
        Err(FileError::NoEtag)
    );
    assert_eq!(found(file, Some("/e"), Some("/d/files"), false), Err(FileError::NotFound));
    assert_eq!(found(file, None, None, true), Err(FileError::NotFound));
    assert_eq!(found(file, Some("/e"), None, true), Err(FileError::NoBaseDir));
    assert_eq!(found(OpenOutcome::Missing, None, None, false), Err(FileError::NotFound));
    assert_eq!(
        found(OpenOutcome::Directory, Some("/d/files/a"), Some("/d/files"), true),
        Err(FileError::IsDirectory)
    );
}

#[test]
fn opened_files_are_checked() {
    assert_eq!(check_opened(OpenOutcome::File), Ok(()));
    assert_eq!(check_opened(OpenOutcome::Directory), Err(FileError::IsDirectory));
    assert_eq!(check_opened(OpenOutcome::NoMetadata), Err(FileError::Unreadable));
    assert_eq!(check_opened(OpenOutcome::Missing), Err(FileError::NotFound));
    assert_eq!(check_opened(OpenOutcome::Failed), Err(FileError::OpenFailed));
}

#[test]
fn file_errors_have_a_status_and_a_text() {
    let all = [
        (FileError::NoRule, 404, "路径未匹配任何规则"),
        (FileError::EmptyPath, 404, "路径为空"),
        (FileError::IllegalPath, 404, "非法路径"),
        (FileError::IsDirectory, 404, "路径是目录"),
        (FileError::Unreadable, 500, "读取文件失败"),
        (FileError::NotFound, 404, "文件不存在"),
        (FileError::OpenFailed, 500, "打开文件失败"),
        (FileError::NoBaseDir, 500, "服务器错误"),
        (FileError::NoEtag, 500, "ETag 计算失败"),
        (FileError::NoCdnUrl, 500, "CDN URL 未配置"),
    ];
    for (error, status, text) in all {
        assert_eq!(error.status(), status);
        assert_eq!(error.message(), text);
    }
}

#[test]
fn cache_control_values() {
    assert_eq!(cache_control(None), "no-cache");
    assert_eq!(cache_control(Some(0)), "no-cache");
    assert_eq!(cache_control(Some(86400)), "public, max-age=86400");
}

#[test]
fn mime_types() {
    assert_eq!(guess_mime_type("/files/a.tar.gz"), Some("application/gzip"));
    assert_eq!(guess_mime_type("/files/README"), None);
    assert_eq!(guess_mime_type("/files/INDEX.HTM"), Some("text/html"));
    assert_eq!(guess_mime_type("/files/a."), None);
    assert_eq!(guess_mime_type("html"), None);
    assert_eq!(guess_mime_type("css"), None);
    assert_eq!(guess_mime_type(".css"), Some("text/css"));
    assert_eq!(guess_mime_type(""), None);
    let all = [
        ("html", "text/html"),
        ("js", "application/javascript"),
        ("json", "application/json"),
        ("png", "image/png"),
        ("jpg", "image/jpeg"),
        ("jpeg", "image/jpeg"),
        ("gif", "image/gif"),
        ("svg", "image/svg+xml"),
        ("ico", "image/x-icon"),
        ("mp4", "video/mp4"),
        ("webm", "video/webm"),
        ("mp3", "audio/mpeg"),
        ("pdf", "application/pdf"),
        ("zip", "application/zip"),
        ("txt", "text/plain"),
        ("xml", "application/xml"),
        ("wasm", "application/wasm"),
    ];
    for (ext, mime) in all {
        assert_eq!(guess_mime_type(&format!("/files/x.{}", ext)), Some(mime));
    }
}

#[test]
fn files_are_sent_with_their_headers() {
    let mtime = FileTime { secs: 784_111_777, nanos: 0 };
    let reply = file_reply(&HeaderMap::new(), "/files/a.html", Some(60), mtime, 5);
    match reply {
        FileReply::Send(h) => {
            assert_eq!(h.content_type, Some("text/html"));
            assert_eq!(h.last_modified, "Sun, 06 Nov 1994 08:49:37 GMT");
            assert_eq!(h.cache_control, "public, max-age=60");
            assert_eq!(h.etag.len(), 18);
            assert!(h.etag.starts_with('"') && h.etag.ends_with('"'));
        }
        FileReply::NotModified => panic!("no copy is held"),
    }
}

#[test]
fn returned_tags_and_dates_are_fresh() {
    let mtime = FileTime { secs: 784_111_777, nanos: 0 };
    let sent = match file_reply(&HeaderMap::new(), "/files/a", None, mtime, 5) {
        FileReply::Send(h) => h,
        FileReply::NotModified => panic!("no copy is held"),
    };
    let with = |name: &'static str, value: &str| {
        let mut headers: HeaderMap<HeaderValue> = HeaderMap::new();
        headers.insert(name, value.parse().unwrap());
        headers
    };
    let fresh = |headers: &HeaderMap<HeaderValue>, mtime: FileTime| {
        matches!(file_reply(headers, "/files/a", None, mtime, 5), FileReply::NotModified)
    };
    assert!(fresh(&with("If-None-Match", &sent.etag), mtime));
    assert!(fresh(&with("If-None-Match", sent.etag.trim_matches('"')), mtime));
    assert!(!fresh(&with("If-None-Match", "\"0000\""), mtime));
    assert!(fresh(&with("If-Modified-Since", &sent.last_modified), mtime));
    assert!(fresh(&with("If-Modified-Since", "Sun, 06 Nov 1994 08:49:38 GMT"), mtime));
    assert!(!fresh(&with("If-Modified-Since", "Sun, 06 Nov 1994 08:49:36 GMT"), mtime));
    assert!(!fresh(&with("If-Modified-Since", "yesterday"), mtime));
    let odd = FileTime { secs: 784_111_777, nanos: 123_456_789 };
    assert!(fresh(&with("If-Modified-Since", &sent.last_modified), odd));
    assert!(!fresh(&with("If-Modified-Since", "Sun, 06 Nov 1994 08:49:36 GMT"), odd));
}

#[test]
fn freshness_of_copies() {
    let mtime = FileTime { secs: 100, nanos: 5 };
    assert!(is_copy_fresh(&Some("\"ab\"".to_string()), None, "ab", mtime));
    assert!(is_copy_fresh(&Some("ab".to_string()), None, "ab", mtime));
    assert!(!is_copy_fresh(&Some("\"ac\"".to_string()), None, "ab", mtime));
    assert!(is_copy_fresh(&Some("\"ac\"".to_string()), Some(101), "ab", mtime));
    assert!(is_copy_fresh(&None, Some(100), "ab", mtime));
    assert!(!is_copy_fresh(&None, Some(99), "ab", mtime));
    assert!(!is_copy_fresh(&None, None, "ab", mtime));
    let reply = reply_with(&None, None, "ab", mtime, "date".to_string(), "/x", Some(0));
    match reply {
        FileReply::Send(h) => {
            assert_eq!(h.etag, "\"ab\"");
            assert_eq!(h.last_modified, "date");
            assert_eq!(h.cache_control, "no-cache");
            assert_eq!(h.content_type, None);
        }
        FileReply::NotModified => panic!("no copy is held"),
    }
}

#[test]
fn headers_are_read_as_text() {
    let mut headers: HeaderMap<HeaderValue> = HeaderMap::new();
    headers.append("X-A", "first".parse().unwrap());
    headers.append("X-A", "second".parse().unwrap());
    headers.insert("X-B", HeaderValue::from_bytes(b"caf\xe9").unwrap());
    assert_eq!(header_text(&headers, "x-a"), Some("first".to_string()));
    assert_eq!(header_text(&headers, "X-B"), None);
    assert_eq!(header_text(&headers, "X-C"), None);
    assert_eq!(bytes_text(&b"a\tb ~".to_vec()), Some("a\tb ~".to_string()));
    assert_eq!(bytes_text(&vec![0x7f]), None);
}

#[test]
fn notifications_become_tasks() {
    let task = accept_notify(payload(Some("hole_punch"), "node-a", 2, NOW + 30_000), NOW).unwrap();
    assert_eq!(task.peer_id, "node-a");
    assert_eq!(task.candidates.len(), 2);
    assert!(task.conn_id.is_none());
    assert_eq!(task.peer_virtual_ip, Some(IpAddr::v4(10, 0, 0, 2)));
    assert_eq!(task.punch_at, NOW + 30_000);
    assert!(accept_notify(payload(Some("hole_punch"), "n", 1, NOW - 30_000), NOW).is_ok());
}

#[test]
fn notifications_are_refused() {
    let refused = |p: NotifyPayload| accept_notify(p, NOW).unwrap_err();
    assert_eq!(refused(payload(None, "n", 1, NOW)), NotifyError::UnknownType);
    assert_eq!(refused(payload(Some("ping"), "n", 1, NOW)), NotifyError::UnknownType);
    assert_eq!(refused(payload(Some("hole_punch"), "", 1, NOW)), NotifyError::NoPeer);
    assert_eq!(refused(payload(Some("hole_punch"), "n", 0, NOW)), NotifyError::NoCandidates);
    assert_eq!(
        refused(payload(Some("hole_punch"), "n", 1, NOW + 30_001)),
        NotifyError::OutOfTime
    );
    assert_eq!(
        refused(payload(Some("hole_punch"), "n", 1, NOW - 30_001)),
        NotifyError::OutOfTime
    );
    assert_eq!(refused(payload(Some("hole_punch"), "n", 1, u64::MAX)), NotifyError::OutOfTime);
    let at_epoch = accept_notify(payload(Some("hole_punch"), "n", 1, u64::MAX), 0);
    assert_eq!(at_epoch.unwrap_err(), NotifyError::OutOfTime);
    assert_eq!(notify_status(false, false), 400);
    assert_eq!(notify_status(true, true), 200);
    assert_eq!(notify_status(true, false), 503);
}

#[test]
fn token_ends_are_read() {
    let exp = |token: &str| extract_token_exp(&Some(token.to_string()));
    let good = "eyJhbGciOiJIUzI1NiJ9.eyJleHAiOjE3MDAwMDAwMDAsInN1YiI6Im4_PiJ9.signature";
    assert_eq!(exp(good), 1_700_000_000);
    assert_eq!(exp("a.eyJleHAiOjE3MDAwMDAwMDAsInN1YiI6Im4_PiJ9"), 1_700_000_000);
    assert_eq!(exp("a.eyJleHAiOiJzb29uIn0.c"), 0);
    assert_eq!(exp("a.bm90IGpzb24.c"), 0);
    assert_eq!(exp("a.!!!.c"), 0);
    assert_eq!(exp("nodots"), 0);
    assert_eq!(exp(""), 0);
    assert_eq!(extract_token_exp(&None), 0);
    assert_eq!(token_payload("a.b.c.d"), Some("b"));
    assert_eq!(token_payload("a."), Some(""));
    assert_eq!(token_payload("a"), None);
    assert_eq!(exp_or_unknown(Some(7)), 7);
    assert_eq!(exp_or_unknown(None), 0);
}

#[test]
fn health_tells_the_state() {
    let health = health_response(true, 3, 42, 41, "0.8.0");
    assert!(health.ok);
    assert_eq!(health.status, "running");
    assert!(health.tunnel_ready);
    assert_eq!(health.peer_count, 3);
    assert_eq!(health.token_exp, 42);
    assert_eq!(health.version, "0.8.0");
    assert_eq!(health_response(false, 0, 42, 42, "0.8.0").token_exp, 0);
    assert_eq!(health_response(false, 0, 0, 42, "0.8.0").token_exp, 0);
    assert_eq!(reload_reply(true), Ok("reload triggered"));
    assert_eq!(reload_reply(false), Err(503));
}
