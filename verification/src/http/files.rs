//! `GET /files/*`: redirect to the CDN or serve from the disk.

use axum::http::{HeaderMap, HeaderValue};
use vstd::prelude::*;
use vstd::string::*;

use crate::cdn::rules;
use crate::cdn::utils;
use crate::http::headers;
use crate::net::IpAddr;
use crate::paths;
use crate::text;
use crate::types::{Platform, Rule, RuleMode};

verus! {

/// Why a file is not served.
#[derive(Debug, Clone, Copy, PartialEq, Eq, Structural)]
pub enum FileError {
    /// No rule covers the path.
    NoRule,
    /// The path names no file.
    EmptyPath,
    /// The path holds `..`.
    IllegalPath,
    /// The path names a directory.
    IsDirectory,
    /// The file could be opened, but not examined.
    Unreadable,
    /// There is no such file, or it lies outside the served directory.
    NotFound,
    /// The file could not be opened.
    OpenFailed,
    /// The served directory cannot be resolved.
    NoBaseDir,
    /// The time of the last change is unknown.
    NoEtag,
    /// The rule redirects, but names no URL.
    NoCdnUrl,
}

impl FileError {
    /// The HTTP status.
    pub open spec fn code(self) -> u16 {
        match self {
            FileError::NoRule | FileError::EmptyPath | FileError::IllegalPath
            | FileError::IsDirectory | FileError::NotFound => 404,
            FileError::Unreadable | FileError::OpenFailed | FileError::NoBaseDir
            | FileError::NoEtag | FileError::NoCdnUrl => 500,
        }
    }

    /// The message in the response.
    pub open spec fn text(self) -> Seq<char> {
        match self {
            FileError::NoRule => "路径未匹配任何规则"@,
            FileError::EmptyPath => "路径为空"@,
            FileError::IllegalPath => "非法路径"@,
            FileError::IsDirectory => "路径是目录"@,
            FileError::Unreadable => "读取文件失败"@,
            FileError::NotFound => "文件不存在"@,
            FileError::OpenFailed => "打开文件失败"@,
            FileError::NoBaseDir => "服务器错误"@,
            FileError::NoEtag => "ETag 计算失败"@,
            FileError::NoCdnUrl => "CDN URL 未配置"@,
        }
    }

    /// The HTTP status.
    pub fn status(&self) -> (r: u16)
        ensures
            r == self.code(),
    {
        match self {
            FileError::NoRule | FileError::EmptyPath | FileError::IllegalPath
            | FileError::IsDirectory | FileError::NotFound => 404,
            FileError::Unreadable | FileError::OpenFailed | FileError::NoBaseDir
            | FileError::NoEtag | FileError::NoCdnUrl => 500,
        }
    }

    /// The message in the response.
    pub fn message(&self) -> (r: &'static str)
        ensures
            r@ == self.text(),
    {
        match self {
            FileError::NoRule => "路径未匹配任何规则",
            FileError::EmptyPath => "路径为空",
            FileError::IllegalPath => "非法路径",
            FileError::IsDirectory => "路径是目录",
            FileError::Unreadable => "读取文件失败",
            FileError::NotFound => "文件不存在",
            FileError::OpenFailed => "打开文件失败",
            FileError::NoBaseDir => "服务器错误",
            FileError::NoEtag => "ETag 计算失败",
            FileError::NoCdnUrl => "CDN URL 未配置",
        }
    }
}

/// A request path relative to `/files/`.
pub open spec fn relative_of(path: Seq<char>) -> Seq<char> {
    match text::after_prefix(path, "/files/"@) {
        Some(rest) => rest,
        None => match text::after_prefix(path, "/"@) {
            Some(rest) => rest,
            None => path,
        },
    }
}

/// A request path relative to `/files/`.
pub fn relative_path<'a>(path: &'a str) -> (r: &'a str)
    ensures
        r@ == relative_of(path@),
{
    match text::strip_prefix(path, "/files/") {
        Some(rest) => rest,
        None => match text::strip_prefix(path, "/") {
            Some(rest) => rest,
            None => path,
        },
    }
}

/// What `Cache-Control` says: how long a shared cache may keep the file, if at all.
pub open spec fn cache_control_of(max_age: Option<u64>) -> Seq<char> {
    match max_age {
        None => "no-cache"@,
        Some(age) => if age == 0 {
            "no-cache"@
        } else {
            "public, max-age="@ + text::decimal(age as nat)
        },
    }
}

/// What `Cache-Control` says about a file that is served.
pub fn cache_control(max_age: Option<u64>) -> (r: String)
    ensures
        r@ == cache_control_of(max_age),
{
    match max_age {
        None => "no-cache".to_owned(),
        Some(age) => if age == 0 {
            "no-cache".to_owned()
        } else {
            text::concat("public, max-age=", text::decimal_text(age).as_str())
        },
    }
}

/// Where a redirect leads: the relative path below the CDN's URL.
pub open spec fn location_of(base: Seq<char>, path: Seq<char>) -> Seq<char> {
    text::trim_end_of(base, '/') + "/"@ + text::trim_start_of(relative_of(path), '/')
}

/// A redirect to the CDN, with status 302.
#[derive(Debug, Clone)]
pub struct Redirect {
    pub location: String,
    pub cache_control: String,
}

/// The redirect to the CDN for a path.
pub fn cdn_redirect(cdn_url: Option<&str>, path: &str, max_age: u64) -> (r: Result<
    Redirect,
    FileError,
>)
    ensures
        match cdn_url {
            Some(base) => r matches Ok(to) && to.location@ == location_of(base@, path@)
                && to.cache_control@ == "public, max-age="@ + text::decimal(max_age as nat),
            None => r == Err::<Redirect, FileError>(FileError::NoCdnUrl),
        },
{
    match cdn_url {
        None => Err(FileError::NoCdnUrl),
        Some(base) => {
            let relative = relative_path(path);
            Ok(
                Redirect {
                    location: text::concat3(
                        text::trim_end(base, '/'),
                        "/",
                        text::trim_start(relative, '/'),
                    ),
                    cache_control: text::concat(
                        "public, max-age=",
                        text::decimal_text(max_age).as_str(),
                    ),
                },
            )
        },
    }
}

/// What becomes of a request for a file.
#[derive(Debug, Clone)]
pub enum FileRoute {
    /// Serve the file from the disk; a shared cache may keep it for so many seconds.
    Local { max_age: Option<u64> },
    /// Redirect to the CDN.
    Redirect(Redirect),
    /// Answer with an error.
    Refused(FileError),
}

/// `route` is what a rule makes of a request.
pub open spec fn is_route_by(
    route: FileRoute,
    rule: Rule,
    path: Seq<char>,
    client: Option<IpAddr>,
    own: Seq<IpAddr>,
) -> bool {
    if rule.mode == RuleMode::Direct {
        route == (FileRoute::Local { max_age: None })
    } else if client is None || utils::local_ip(client->0, rule.local_cidrs@, own) {
        route == (FileRoute::Local { max_age: Some(rule.max_age) })
    } else {
        match rule.cdn_url {
            None => route == FileRoute::Refused(FileError::NoCdnUrl),
            Some(base) => route matches FileRoute::Redirect(to) && to.location@ == location_of(
                base@,
                path,
            ) && to.cache_control@ == "public, max-age="@ + text::decimal(rule.max_age as nat),
        }
    }
}

/// What becomes of a request once its rule is known.
fn route_by(rule: &Rule, path: &str, client: Option<IpAddr>, own: &Vec<IpAddr>) -> (r: FileRoute)
    ensures
        is_route_by(r, *rule, path@, client, own@),
{
    if rule.mode == RuleMode::Direct {
        return FileRoute::Local { max_age: None };
    }
    let is_local = match client {
        Some(ip) => utils::is_local_ip(ip, &rule.local_cidrs, own),
        None => true,
    };
    if is_local {
        return FileRoute::Local { max_age: Some(rule.max_age) };
    }
    let cdn_url = match &rule.cdn_url {
        Some(url) => Some(url.as_str()),
        None => None,
    };
    match cdn_redirect(cdn_url, path, rule.max_age) {
        Ok(to) => FileRoute::Redirect(to),
        Err(e) => FileRoute::Refused(e),
    }
}

/// What becomes of a request depends on the machine's own addresses: the best
/// rule redirects, lists no networks, and the client is known.
pub open spec fn own_matter(rules: Seq<Rule>, path: Seq<char>, client: Option<IpAddr>) -> bool {
    client is Some && exists|i: int| #[trigger]
        rules::is_best_rule(rules, path, i) && rules[i].mode == RuleMode::Cdn
            && rules[i].local_cidrs@.len() == 0
}

/// Whether what becomes of a request depends on the machine's own addresses.
pub fn needs_own_addresses(rules: &[Rule], path: &str, client: Option<IpAddr>) -> (r: bool)
    ensures
        r == own_matter(rules@, path@, client),
{
    if client.is_none() {
        return false;
    }
    match rules::match_path(rules, path) {
        None => {
            proof {
                assert forall|i: int| !#[trigger] rules::is_best_rule(rules@, path@, i) by {}
            }
            false
        },
        Some(rule) => {
            let r = rule.mode == RuleMode::Cdn && rule.local_cidrs.len() == 0;
            proof {
                let k = choose|k: int|
                    #[trigger] rules::is_best_rule(rules@, path@, k) && *rule == rules@[k];
                assert forall|i: int| #[trigger] rules::is_best_rule(rules@, path@, i) implies i
                    == k by {
                    rules::best_rule_is_unique(rules@, path@, i, k);
                }
            }
            r
        },
    }
}

/// `route` is what becomes of a request: the best rule for its path decides,
/// and without a rule it is refused.
pub open spec fn is_route(
    route: FileRoute,
    rules: Seq<Rule>,
    path: Seq<char>,
    client: Option<IpAddr>,
    own: Seq<IpAddr>,
) -> bool {
    &&& (forall|i: int|
        0 <= i < rules.len() ==> !rules::rule_covers(#[trigger] rules[i].path@, path)) ==> route
        == FileRoute::Refused(FileError::NoRule)
    &&& forall|i: int| #[trigger]
        rules::is_best_rule(rules, path, i) ==> is_route_by(route, rules[i], path, client, own)
}

/// Decides what becomes of a request for a file, by the best rule for its
/// path. `client` is the client's address, `own` are the machine's own.
pub fn route_request(
    rules: &[Rule],
    path: &str,
    client: Option<IpAddr>,
    own: &Vec<IpAddr>,
) -> (r: FileRoute)
    ensures
        is_route(r, rules@, path@, client, own@),
{
    match rules::match_path(rules, path) {
        None => FileRoute::Refused(FileError::NoRule),
        Some(rule) => {
            let r = route_by(rule, path, client, own);
            proof {
                let k = choose|k: int|
                    #[trigger] rules::is_best_rule(rules@, path@, k) && *rule == rules@[k];
                assert forall|i: int| #[trigger] rules::is_best_rule(rules@, path@, i) implies i
                    == k by {
                    rules::best_rule_is_unique(rules@, path@, i, k);
                }
            }
            r
        },
    }
}

/// A file to serve.
#[derive(Debug, Clone)]
pub struct FileTarget {
    /// The directory that the file has to lie in.
    pub base_dir: String,
    pub file_path: String,
}

/// `r` is where the file for a request path lies.
pub open spec fn is_target(
    r: Result<FileTarget, FileError>,
    platform: Platform,
    data_dir: Seq<char>,
    path: Seq<char>,
) -> bool {
    if relative_of(path).len() == 0 {
        r == Err::<FileTarget, FileError>(FileError::EmptyPath)
    } else if text::has_text(relative_of(path), ".."@) {
        r == Err::<FileTarget, FileError>(FileError::IllegalPath)
    } else {
        r matches Ok(target) && target.base_dir@ == paths::joined(platform, data_dir, "files"@)
            && target.file_path@ == paths::joined(
            platform,
            paths::joined(platform, data_dir, "files"@),
            relative_of(path),
        )
    }
}

/// Where the file for a request path lies, before the disk is looked at.
pub fn file_target(platform: Platform, data_dir: &str, req_path: &str) -> (r: Result<
    FileTarget,
    FileError,
>)
    ensures
        is_target(r, platform, data_dir@, req_path@),
{
    let relative = relative_path(req_path);
    if relative.is_empty() {
        return Err(FileError::EmptyPath);
    }
    if text::contains_text(relative, "..") {
        return Err(FileError::IllegalPath);
    }
    let base_dir = paths::join_path(platform, data_dir, "files");
    let file_path = paths::join_path(platform, base_dir.as_str(), relative);
    Ok(FileTarget { base_dir, file_path })
}

/// What opening a file led to.
#[derive(Debug, Clone, Copy, PartialEq, Eq, Structural)]
pub enum OpenOutcome {
    /// A regular file is open.
    File,
    /// A directory is open.
    Directory,
    /// The file is open, but could not be examined.
    NoMetadata,
    /// There is no such file.
    Missing,
    /// Something else went wrong.
    Failed,
}

/// Whether a file that was opened can be served.
pub fn check_opened(outcome: OpenOutcome) -> (r: Result<(), FileError>)
    ensures
        r == match outcome {
            OpenOutcome::File => Ok::<(), FileError>(()),
            OpenOutcome::Directory => Err(FileError::IsDirectory),
            OpenOutcome::NoMetadata => Err(FileError::Unreadable),
            OpenOutcome::Missing => Err(FileError::NotFound),
            OpenOutcome::Failed => Err(FileError::OpenFailed),
        },
{
    match outcome {
        OpenOutcome::File => Ok(()),
        OpenOutcome::Directory => Err(FileError::IsDirectory),
        OpenOutcome::NoMetadata => Err(FileError::Unreadable),
        OpenOutcome::Missing => Err(FileError::NotFound),
        OpenOutcome::Failed => Err(FileError::OpenFailed),
    }
}

/// Whether a file lies in the served directory, links resolved. Both paths are
/// given as their components, `None` where a path could not be resolved.
pub fn check_inside(file: &Option<Vec<Vec<u8>>>, base: &Option<Vec<Vec<u8>>>) -> (r: Result<
    (),
    FileError,
>)
    ensures
        r == match (*file, *base) {
            (None, _) => Err::<(), FileError>(FileError::NotFound),
            (Some(_), None) => Err(FileError::NoBaseDir),
            (Some(f), Some(b)) => if paths::below(
                paths::components(f@),
                paths::components(b@),
            ) {
                Ok(())
            } else {
                Err(FileError::NotFound)
            },
        },
{
    match file {
        None => Err(FileError::NotFound),
        Some(f) => match base {
            None => Err(FileError::NoBaseDir),
            Some(b) => if paths::is_below(f, b) {
                Ok(())
            } else {
                Err(FileError::NotFound)
            },
        },
    }
}

/// What the disk holds for a target.
#[derive(Debug, Clone)]
pub struct FileFound {
    pub opened: OpenOutcome,
    /// The file's path with links resolved, where that could be done.
    pub file: Option<Vec<Vec<u8>>>,
    /// The served directory's path with links resolved, where that could be done.
    pub base: Option<Vec<Vec<u8>>>,
    /// The time of the last change is known.
    pub dated: bool,
}

/// Why a file is not served, if it is not: it has to be open, to lie in the
/// served directory, and to have a time of its last change, in this order.
pub open spec fn refusal_of(found: FileFound) -> Option<FileError> {
    match found.opened {
        OpenOutcome::Directory => Some(FileError::IsDirectory),
        OpenOutcome::NoMetadata => Some(FileError::Unreadable),
        OpenOutcome::Missing => Some(FileError::NotFound),
        OpenOutcome::Failed => Some(FileError::OpenFailed),
        OpenOutcome::File => match (found.file, found.base) {
            (None, _) => Some(FileError::NotFound),
            (Some(_), None) => Some(FileError::NoBaseDir),
            (Some(f), Some(b)) => if !paths::below(
                paths::components(f@),
                paths::components(b@),
            ) {
                Some(FileError::NotFound)
            } else if !found.dated {
                Some(FileError::NoEtag)
            } else {
                None
            },
        },
    }
}

/// Whether a file can be served.
pub fn check_file(found: &FileFound) -> (r: Result<(), FileError>)
    ensures
        match refusal_of(*found) {
            Some(e) => r == Err::<(), FileError>(e),
            None => r is Ok,
        },
{
    match check_opened(found.opened) {
        Err(e) => Err(e),
        Ok(()) => match check_inside(&found.file, &found.base) {
            Err(e) => Err(e),
            Ok(()) => if found.dated {
                Ok(())
            } else {
                Err(FileError::NoEtag)
            },
        },
    }
}

/// The seconds since 1970-01-01 that an HTTP date text stands for, if it is one.
pub uninterp spec fn http_date_secs(text: Seq<char>) -> Option<u64>;

/// The HTTP date text for a time in seconds since 1970-01-01.
pub uninterp spec fn http_date_of(secs: u64) -> Seq<char>;

/// The first second of the year 10000, which has no HTTP date.
pub const HTTP_DATE_END: u64 = 253402300800;

/// Reads an HTTP date.
///
/// Calls `httpdate::parse_http_date`. Trusted: what it returns depends on the
/// text alone, and is a whole number of seconds since 1970-01-01.
#[verifier::external_body]
fn parse_http_date(text: &str) -> (r: Option<u64>)
    ensures
        r == http_date_secs(text@),
{
    let time = httpdate::parse_http_date(text).ok()?;
    Some(time.duration_since(std::time::UNIX_EPOCH).ok()?.as_secs())
}

/// Writes an HTTP date.
///
/// Calls `httpdate::fmt_http_date`, which panics on times from the year 10000
/// on. Trusted: the text depends on the whole seconds alone, and
/// `httpdate::parse_http_date` reads the same second from it.
#[verifier::external_body]
fn write_http_date(secs: u64) -> (r: String)
    requires
        secs < HTTP_DATE_END,
    ensures
        r@ == http_date_of(secs),
        http_date_secs(r@) == Some(secs),
{
    httpdate::fmt_http_date(std::time::UNIX_EPOCH + std::time::Duration::from_secs(secs))
}

/// The time of a file's last change, since 1970-01-01.
#[derive(Debug, Clone, Copy, PartialEq, Eq, Structural)]
pub struct FileTime {
    pub secs: u64,
    /// The nanoseconds past the whole second.
    pub nanos: u32,
}

impl FileTime {
    /// The time in nanoseconds.
    pub open spec fn total_nanos(self) -> int {
        self.secs * 1_000_000_000 + self.nanos
    }

    /// A time with less than a second of nanoseconds, that an HTTP date can tell.
    pub open spec fn valid(self) -> bool {
        self.secs < HTTP_DATE_END && self.nanos < 1_000_000_000
    }
}

/// The tag that a client holds is the file's, with quotes around it or without.
pub open spec fn tag_matches(held: Seq<char>, etag: Seq<char>) -> bool {
    text::trim_both_of(held, '"') == etag || held == etag
}

/// The time that a client holds is no earlier than the file's, in whole
/// seconds: HTTP dates tell no more.
pub open spec fn held_since(held_secs: u64, mtime: FileTime) -> bool {
    held_secs >= mtime.secs
}

/// The client's copy is still good: by its tag, or by its time.
pub open spec fn copy_is_fresh(
    held_tag: Option<Seq<char>>,
    held_secs: Option<u64>,
    etag: Seq<char>,
    mtime: FileTime,
) -> bool {
    ||| held_tag matches Some(tag) && tag_matches(tag, etag)
    ||| held_secs matches Some(secs) && held_since(secs, mtime)
}

/// Whether the client's copy is still good. `held_tag` is what its request
/// gave as `If-None-Match`, `held_secs` the time given as `If-Modified-Since`.
pub fn is_copy_fresh(
    held_tag: &Option<String>,
    held_secs: Option<u64>,
    etag: &str,
    mtime: FileTime,
) -> (r: bool)
    ensures
        r == copy_is_fresh(
            match *held_tag {
                Some(tag) => Some(tag@),
                None => None,
            },
            held_secs,
            etag@,
            mtime,
        ),
{
    match held_tag {
        Some(tag) => {
            let bare = text::trim_start(text::trim_end(tag.as_str(), '"'), '"');
            if text::same_text(bare, etag) || text::same_text(tag.as_str(), etag) {
                return true;
            }
        },
        None => {},
    }
    match held_secs {
        Some(secs) => secs >= mtime.secs,
        None => false,
    }
}

/// The position behind the last dot among the first `n` characters; zero where
/// there is none.
pub open spec fn extension_from(path: Seq<char>, n: int) -> int
    decreases n,
{
    if n <= 0 {
        0
    } else if path[n - 1] == '.' {
        n
    } else {
        extension_from(path, n - 1)
    }
}

/// The extension of a path, in lower case: what follows its last dot. A path
/// without a dot has none.
pub open spec fn extension_of(path: Seq<char>) -> Option<Seq<char>> {
    let start = extension_from(path, path.len() as int);
    if start == 0 {
        None
    } else {
        Some(text::lower(path.skip(start)))
    }
}

/// The media type for a path, by its extension.
pub open spec fn mime_for(path: Seq<char>) -> Option<Seq<char>> {
    match extension_of(path) {
        Some(ext) => mime_of(ext),
        None => None,
    }
}

/// The media type for an extension in lower case.
pub open spec fn mime_of(ext: Seq<char>) -> Option<Seq<char>> {
    if ext == "html"@ || ext == "htm"@ {
        Some("text/html"@)
    } else if ext == "css"@ {
        Some("text/css"@)
    } else if ext == "js"@ {
        Some("application/javascript"@)
    } else if ext == "json"@ {
        Some("application/json"@)
    } else if ext == "png"@ {
        Some("image/png"@)
    } else if ext == "jpg"@ || ext == "jpeg"@ {
        Some("image/jpeg"@)
    } else if ext == "gif"@ {
        Some("image/gif"@)
    } else if ext == "svg"@ {
        Some("image/svg+xml"@)
    } else if ext == "ico"@ {
        Some("image/x-icon"@)
    } else if ext == "mp4"@ {
        Some("video/mp4"@)
    } else if ext == "webm"@ {
        Some("video/webm"@)
    } else if ext == "mp3"@ {
        Some("audio/mpeg"@)
    } else if ext == "pdf"@ {
        Some("application/pdf"@)
    } else if ext == "zip"@ {
        Some("application/zip"@)
    } else if ext == "gz"@ {
        Some("application/gzip"@)
    } else if ext == "txt"@ {
        Some("text/plain"@)
    } else if ext == "xml"@ {
        Some("application/xml"@)
    } else if ext == "wasm"@ {
        Some("application/wasm"@)
    } else {
        None
    }
}

/// The characters of an optional text.
pub open spec fn chars_in(value: Option<&'static str>) -> Option<Seq<char>> {
    match value {
        Some(s) => Some(s@),
        None => None,
    }
}

/// Guesses the media type from a path's extension, the part behind its last
/// dot; there is none for a path without a dot.
pub fn guess_mime_type(path: &str) -> (r: Option<&'static str>)
    ensures
        chars_in(r) == mime_for(path@),
{
    let chars = text::chars_of(path);
    let mut n: usize = chars.len();
    while n > 0 && chars[n - 1] != '.'
        invariant
            n <= chars.len(),
            extension_from(chars@, chars@.len() as int) == extension_from(chars@, n as int),
        decreases n,
    {
        n = n - 1;
    }
    if n == 0 {
        return None;
    }
    let tail = path.substring_char(n, chars.len());
    proof {
        assert(path@.subrange(n as int, path@.len() as int) =~= path@.skip(n as int));
    }
    let lowered = text::lower_text(tail);
    let ext = lowered.as_str();
    if text::same_text(ext, "html") || text::same_text(ext, "htm") {
        Some("text/html")
    } else if text::same_text(ext, "css") {
        Some("text/css")
    } else if text::same_text(ext, "js") {
        Some("application/javascript")
    } else if text::same_text(ext, "json") {
        Some("application/json")
    } else if text::same_text(ext, "png") {
        Some("image/png")
    } else if text::same_text(ext, "jpg") || text::same_text(ext, "jpeg") {
        Some("image/jpeg")
    } else if text::same_text(ext, "gif") {
        Some("image/gif")
    } else if text::same_text(ext, "svg") {
        Some("image/svg+xml")
    } else if text::same_text(ext, "ico") {
        Some("image/x-icon")
    } else if text::same_text(ext, "mp4") {
        Some("video/mp4")
    } else if text::same_text(ext, "webm") {
        Some("video/webm")
    } else if text::same_text(ext, "mp3") {
        Some("audio/mpeg")
    } else if text::same_text(ext, "pdf") {
        Some("application/pdf")
    } else if text::same_text(ext, "zip") {
        Some("application/zip")
    } else if text::same_text(ext, "gz") {
        Some("application/gzip")
    } else if text::same_text(ext, "txt") {
        Some("text/plain")
    } else if text::same_text(ext, "xml") {
        Some("application/xml")
    } else if text::same_text(ext, "wasm") {
        Some("application/wasm")
    } else {
        None
    }
}

/// The headers that a file is sent with.
#[derive(Debug, Clone)]
pub struct FileHeaders {
    pub content_type: Option<&'static str>,
    pub etag: String,
    pub last_modified: String,
    pub cache_control: String,
}

/// The answer for a file that is there.
#[derive(Debug, Clone)]
pub enum FileReply {
    /// The client's copy is still good: status 304, and no more.
    NotModified,
    /// The file follows, under these headers.
    Send(FileHeaders),
}

/// The reply once the file's tag and the client's time are known.
pub open spec fn is_reply(
    reply: FileReply,
    held_tag: Option<Seq<char>>,
    held_secs: Option<u64>,
    etag: Seq<char>,
    mtime: FileTime,
    last_modified: Seq<char>,
    path: Seq<char>,
    max_age: Option<u64>,
) -> bool {
    match reply {
        FileReply::NotModified => copy_is_fresh(held_tag, held_secs, etag, mtime),
        FileReply::Send(headers) => {
            &&& !copy_is_fresh(held_tag, held_secs, etag, mtime)
            &&& chars_in(headers.content_type) == mime_for(path)
            &&& headers.etag@ == "\""@ + etag + "\""@
            &&& headers.last_modified@ == last_modified
            &&& headers.cache_control@ == cache_control_of(max_age)
        },
    }
}

/// The reply for a file once its tag and the dates are known.
pub fn reply_with(
    held_tag: &Option<String>,
    held_secs: Option<u64>,
    etag: &str,
    mtime: FileTime,
    last_modified: String,
    path: &str,
    max_age: Option<u64>,
) -> (r: FileReply)
    ensures
        is_reply(
            r,
            match *held_tag {
                Some(tag) => Some(tag@),
                None => None,
            },
            held_secs,
            etag@,
            mtime,
            last_modified@,
            path@,
            max_age,
        ),
{
    if is_copy_fresh(held_tag, held_secs, etag, mtime) {
        return FileReply::NotModified;
    }
    FileReply::Send(
        FileHeaders {
            content_type: guess_mime_type(path),
            etag: text::concat3("\"", etag, "\""),
            last_modified,
            cache_control: cache_control(max_age),
        },
    )
}

/// The time that an optional HTTP date tells.
pub open spec fn date_in(value: Option<Seq<char>>) -> Option<u64> {
    match value {
        Some(s) => http_date_secs(s),
        None => None,
    }
}

/// `reply` is the reply for a file that is there, to a request with these
/// headers.
pub open spec fn is_file_reply(
    reply: FileReply,
    request: HeaderMap<HeaderValue>,
    path: Seq<char>,
    max_age: Option<u64>,
    mtime: FileTime,
    size: u64,
) -> bool {
    is_reply(
        reply,
        headers::header_of(request, "if-none-match"@),
        date_in(headers::header_of(request, "if-modified-since"@)),
        rules::etag_of(mtime.total_nanos() as u128, size),
        mtime,
        http_date_of(mtime.secs),
        path,
        max_age,
    )
}

/// The reply for a file that is there, to a request with these headers for
/// this path. The date that goes out reads back as the second of the file's
/// last change, and a client that hands back what it was sent is told that its
/// copy is still good.
pub fn file_reply(
    request: &HeaderMap<HeaderValue>,
    path: &str,
    max_age: Option<u64>,
    mtime: FileTime,
    size: u64,
) -> (r: FileReply)
    requires
        mtime.valid(),
    ensures
        is_file_reply(r, *request, path@, max_age, mtime, size),
        rules::is_etag(rules::etag_of(mtime.total_nanos() as u128, size)),
        r matches FileReply::Send(h) ==> {
            &&& http_date_secs(h.last_modified@) == Some(mtime.secs)
            &&& copy_is_fresh(
                Some(h.etag@),
                None,
                rules::etag_of(mtime.total_nanos() as u128, size),
                mtime,
            )
            &&& copy_is_fresh(
                None,
                http_date_secs(h.last_modified@),
                rules::etag_of(mtime.total_nanos() as u128, size),
                mtime,
            )
        },
{
    let mtime_nanos: u128 = mtime.secs as u128 * 1_000_000_000 + mtime.nanos as u128;
    let etag = rules::compute_etag(mtime_nanos, size);
    proof {
        returned_tag_is_fresh(etag@, None, mtime);
    }
    let last_modified = write_http_date(mtime.secs);
    let held_tag = headers::header_text(request, "if-none-match");
    let held_secs = match headers::header_text(request, "if-modified-since") {
        Some(s) => parse_http_date(s.as_str()),
        None => None,
    };
    reply_with(&held_tag, held_secs, etag.as_str(), mtime, last_modified, path, max_age)
}

/// A client that hands back the tag that it was sent, in quotes, is told that
/// its copy is still good; so is one that leaves the quotes out.
pub proof fn returned_tag_is_fresh(etag: Seq<char>, held_secs: Option<u64>, mtime: FileTime)
    requires
        rules::is_etag(etag),
    ensures
        copy_is_fresh(Some("\""@ + etag + "\""@), held_secs, etag, mtime),
        copy_is_fresh(Some(etag), held_secs, etag, mtime),
{
    reveal_strlit("\"");
    let held = "\""@ + etag + "\""@;
    assert(rules::is_hex(etag[0]) && rules::is_hex(etag[15]));
    assert(held.len() == 18 && held[17] == '"' && held[16] == etag[15] && held[0] == '"'
        && held[1] == etag[0]);
    reveal_with_fuel(text::end_without, 3);
    reveal_with_fuel(text::start_without, 3);
    assert(text::trim_both_of(held, '"') =~= etag);
}

/// A client that hands back the date it was sent, or a later one, is told that
/// its copy is still good; one with an earlier date is sent the file.
pub proof fn returned_date_is_fresh(etag: Seq<char>, mtime: FileTime, held_secs: u64)
    ensures
        copy_is_fresh(None, Some(mtime.secs), etag, mtime),
        copy_is_fresh(None, Some(held_secs), etag, mtime) <==> held_secs >= mtime.secs,
{
}

/// A path without a dot has no media type.
pub proof fn undotted_paths_have_no_type(path: Seq<char>)
    requires
        !path.contains('.'),
    ensures
        mime_for(path) is None,
{
    no_dot_no_extension(path, path.len() as int);
}

/// Without a dot the search for one runs to the start.
proof fn no_dot_no_extension(path: Seq<char>, n: int)
    requires
        0 <= n <= path.len(),
        !path.contains('.'),
    ensures
        extension_from(path, n) == 0,
    decreases n,
{
    if n > 0 {
        assert(path.contains(path[n - 1]));
        no_dot_no_extension(path, n - 1);
    }
}

/// Without a tag and a date the file is sent.
pub proof fn plain_request_is_stale(etag: Seq<char>, mtime: FileTime)
    ensures
        !copy_is_fresh(None, None, etag, mtime),
{
}

/// Below `/files/` the file's name is what follows.
pub proof fn relative_paths_are_stripped(name: Seq<char>)
    ensures
        relative_of("/files/"@ + name) == name,
{
    let path = "/files/"@ + name;
    reveal_strlit("/files/");
    assert(path.subrange(0, 7) =~= "/files/"@);
    assert(path.skip(7) =~= name);
    assert(path.subrange(7, path.len() as int) =~= name);
}

/// Where the machine's own addresses do not matter, any others give the same.
pub proof fn other_addresses_give_the_same(
    rules: Seq<Rule>,
    i: int,
    route: FileRoute,
    path: Seq<char>,
    client: Option<IpAddr>,
    own1: Seq<IpAddr>,
    own2: Seq<IpAddr>,
)
    requires
        rules::is_best_rule(rules, path, i),
        !own_matter(rules, path, client),
        is_route_by(route, rules[i], path, client, own1),
    ensures
        is_route_by(route, rules[i], path, client, own2),
{
}

/// Only a client from elsewhere is redirected, and only where the rule says so.
pub proof fn only_remote_clients_are_redirected(
    route: FileRoute,
    rule: Rule,
    path: Seq<char>,
    client: Option<IpAddr>,
    own: Seq<IpAddr>,
)
    requires
        is_route_by(route, rule, path, client, own),
        route is Redirect,
    ensures
        rule.mode == RuleMode::Cdn,
        client is Some,
        !utils::local_ip(client->0, rule.local_cidrs@, own),
{
}

/// A rule of a manifest that was accepted always leads to a file or a redirect.
pub proof fn accepted_rules_lead_somewhere(
    route: FileRoute,
    rule: Rule,
    entry: rules::ManifestRule,
    number: usize,
    global: Seq<String>,
    path: Seq<char>,
    client: Option<IpAddr>,
    own: Seq<IpAddr>,
)
    requires
        rules::rule_error(entry, number) is None,
        rules::is_rule_of(rule, entry, global),
        is_route_by(route, rule, path, client, own),
    ensures
        route !is Refused,
{
}

/// A file that is named by a relative path is looked for below the served
/// directory, on the platforms where only `/` separates components.
pub proof fn relative_names_stay_below(platform: Platform, data_dir: Seq<char>, name: Seq<char>)
    requires
        platform != Platform::Windows,
        !text::begins_with(name, "/"@),
    ensures
        paths::joined(platform, paths::joined(platform, data_dir, "files"@), name)
            == paths::joined(platform, data_dir, "files"@) + "/"@ + name,
{
    reveal_strlit("files");
    reveal_strlit("/");
    let base = paths::joined(platform, data_dir, "files"@);
    assert(base.subrange(base.len() - 1, base.len() as int)[0] == 's');
}

/// What is served is a file that lies in the served directory, links resolved.
pub proof fn served_files_lie_inside(found: FileFound)
    requires
        refusal_of(found) is None,
    ensures
        found.opened == OpenOutcome::File,
        found.file matches Some(f) && found.base matches Some(b) && paths::below(
            paths::components(f@),
            paths::components(b@),
        ),
{
}

/// A redirect leads to the file's name below the CDN's URL, character by
/// character, whatever slashes follow the URL or come before the name.
pub proof fn redirects_keep_the_name(
    base: Seq<char>,
    slashes: Seq<char>,
    lead: Seq<char>,
    name: Seq<char>,
)
    requires
        base.len() == 0 || base.last() != '/',
        name.len() == 0 || name[0] != '/',
        forall|i: int| 0 <= i < slashes.len() ==> slashes[i] == '/',
        forall|i: int| 0 <= i < lead.len() ==> lead[i] == '/',
    ensures
        location_of(base + slashes, "/files/"@ + lead + name) == base.push('/') + name,
{
    reveal_strlit("/");
    let path = "/files/"@ + lead + name;
    assert(path =~= "/files/"@ + (lead + name));
    relative_paths_are_stripped(lead + name);
    text::trailing_runs_are_dropped(base, slashes, '/');
    text::leading_runs_are_dropped(lead, name, '/');
    assert(base + "/"@ + name =~= base.push('/') + name);
}

/// A path outside `/files/` is taken as it stands, but for the slash in front.
pub proof fn other_paths_lose_the_first_slash(name: Seq<char>)
    requires
        forall|rest: Seq<char>| name != "files/"@ + rest,
    ensures
        relative_of(seq!['/'] + name) == name,
        name.len() > 0 && name[0] != '/' ==> relative_of(name) == name,
{
    reveal_strlit("/files/");
    reveal_strlit("files/");
    reveal_strlit("/");
    let path = seq!['/'] + name;
    text::occurring_texts_were_placed(path, "/files/"@, 0);
    if text::begins_with(path, "/files/"@) {
        assert("/files/"@ =~= seq!['/'] + "files/"@);
        assert(name =~= path.skip(1));
        assert(path.skip(1) =~= "files/"@ + path.skip(7));
    }
    assert("/"@ =~= seq!['/']);
    text::placed_texts_occur(Seq::empty(), "/"@, name);
    text::occurring_texts_were_placed(name, "/files/"@, 0);
    text::occurring_texts_were_placed(name, "/"@, 0);
}

/// What a rule makes of a request: a direct rule and a local client lead to
/// the disk, with the rule's age for the latter; any other client is
/// redirected to the file's name below the rule's URL, with that age.
pub proof fn rules_decide_the_route(
    route: FileRoute,
    rule: Rule,
    base: Seq<char>,
    name: Seq<char>,
    client: IpAddr,
    own: Seq<IpAddr>,
)
    requires
        base.len() == 0 || base.last() != '/',
        name.len() == 0 || name[0] != '/',
    ensures
        is_route_by(route, rule, "/files/"@ + name, Some(client), own) ==> {
            &&& rule.mode == RuleMode::Direct ==> route == (FileRoute::Local { max_age: None })
            &&& rule.mode == RuleMode::Cdn && utils::local_ip(client, rule.local_cidrs@, own)
                ==> route == (FileRoute::Local { max_age: Some(rule.max_age) })
            &&& rule.mode == RuleMode::Cdn && !utils::local_ip(client, rule.local_cidrs@, own)
                && rule.cdn_url is None ==> route == FileRoute::Refused(FileError::NoCdnUrl)
            &&& rule.mode == RuleMode::Cdn && !utils::local_ip(client, rule.local_cidrs@, own)
                && rule.cdn_url is Some && (rule.cdn_url->0)@ == base ==> (
            route matches FileRoute::Redirect(to) && to.location@ == base.push('/') + name
                && to.cache_control@ == "public, max-age="@ + text::decimal(rule.max_age as nat))
        },
        is_route_by(route, rule, "/files/"@ + name, None, own) ==> route is Local,
{
    let none = Seq::<char>::empty();
    redirects_keep_the_name(base, none, none, name);
    assert(base + none =~= base);
    assert("/files/"@ + none + name =~= "/files/"@ + name);
}

/// What `Cache-Control` says: nothing may be kept without an age or with the
/// age zero, else it may be kept for that many seconds.
pub proof fn ages_are_told(age: u64)
    ensures
        cache_control_of(None) == "no-cache"@,
        cache_control_of(Some(0)) == "no-cache"@,
        age > 0 ==> cache_control_of(Some(age)).take(16) == "public, max-age="@
            && text::decimal_value(cache_control_of(Some(age)).skip(16)) == age,
{
    reveal_strlit("public, max-age=");
    let lead = "public, max-age="@;
    let digits = text::decimal(age as nat);
    assert((lead + digits).take(16) =~= lead);
    assert((lead + digits).skip(16) =~= digits);
    text::decimals_read_back(age as nat);
}

/// A copy is fresh by its tag exactly where the tag that the client holds is
/// the file's, with quotes around it or without; any other tag is stale.
pub proof fn other_tags_are_stale(
    held: Seq<char>,
    etag: Seq<char>,
    held_secs: Option<u64>,
    mtime: FileTime,
)
    requires
        !held.contains('"'),
        !etag.contains('"'),
    ensures
        copy_is_fresh(Some(held), None, etag, mtime) <==> held == etag,
        copy_is_fresh(Some(seq!['"'] + held + seq!['"']), None, etag, mtime) <==> held == etag,
        copy_is_fresh(Some(held), held_secs, etag, mtime) <==> held == etag || (
        held_secs matches Some(secs) && secs >= mtime.secs),
{
    let none = Seq::<char>::empty();
    let quoted = seq!['"'] + held + seq!['"'];
    if held.len() > 0 {
        assert(held.contains(held[0]));
        assert(held.contains(held.last()));
    }
    text::outer_runs_are_dropped(none, held, none, '"');
    assert(none + held + none =~= held);
    text::outer_runs_are_dropped(seq!['"'], held, seq!['"'], '"');
    assert(quoted[0] == '"');
    assert(quoted.contains('"'));
}

/// Whatever a client holds as a tag: its copy is fresh by it exactly where the
/// tag is the file's with nothing but quotes before and behind.
pub proof fn fresh_tags_are_the_files(held: Seq<char>, etag: Seq<char>, mtime: FileTime)
    requires
        etag.len() > 0,
        etag[0] != '"',
        etag.last() != '"',
    ensures
        copy_is_fresh(Some(held), None, etag, mtime) <==> exists|lead: Seq<char>, tail: Seq<char>|
            {
                &&& held == #[trigger] (lead + etag + tail)
                &&& forall|i: int| 0 <= i < lead.len() ==> lead[i] == '"'
                &&& forall|i: int| 0 <= i < tail.len() ==> tail[i] == '"'
            },
{
    text::trimming_takes_runs_only(held, '"');
    if held == etag {
        let none = Seq::<char>::empty();
        assert(held =~= none + etag + none);
    }
    assert forall|lead: Seq<char>, tail: Seq<char>|
        held == #[trigger] (lead + etag + tail) && (forall|i: int|
            0 <= i < lead.len() ==> lead[i] == '"') && (forall|i: int|
            0 <= i < tail.len() ==> tail[i] == '"') implies tag_matches(held, etag) by {
        text::outer_runs_are_dropped(lead, etag, tail, '"');
    }
}

/// A reply tells nothing but that the copy is fresh, or else sends the file
/// under its own tag in quotes, its date, its age and its type: no client gets
/// both, and every client one of them.
pub proof fn replies_send_what_is_stale(
    reply: FileReply,
    held: Seq<char>,
    etag: Seq<char>,
    mtime: FileTime,
    last_modified: Seq<char>,
    path: Seq<char>,
    max_age: Option<u64>,
)
    requires
        !held.contains('"'),
        !etag.contains('"'),
        is_reply(reply, Some(held), None, etag, mtime, last_modified, path, max_age),
    ensures
        held == etag <==> reply is NotModified,
        reply matches FileReply::Send(headers) ==> {
            &&& headers.etag@ == seq!['"'] + etag + seq!['"']
            &&& headers.last_modified@ == last_modified
            &&& headers.cache_control@ == cache_control_of(max_age)
            &&& chars_in(headers.content_type) == mime_for(path)
        },
{
    other_tags_are_stale(held, etag, None, mtime);
    reveal_strlit("\"");
    assert("\""@ =~= seq!['"']);
}

/// A request without a tag and a date is sent the file.
pub proof fn plain_requests_are_sent_the_file(
    reply: FileReply,
    etag: Seq<char>,
    mtime: FileTime,
    last_modified: Seq<char>,
    path: Seq<char>,
    max_age: Option<u64>,
)
    requires
        is_reply(reply, None, None, etag, mtime, last_modified, path, max_age),
    ensures
        reply matches FileReply::Send(headers) && headers.etag@ == seq!['"'] + etag + seq!['"']
            && headers.last_modified@ == last_modified,
{
    reveal_strlit("\"");
    assert("\""@ =~= seq!['"']);
}

/// The media type goes by what follows the last dot alone.
pub proof fn types_go_by_the_last_dot(stem: Seq<char>, ext: Seq<char>)
    requires
        !ext.contains('.'),
    ensures
        mime_for(stem.push('.') + ext) == mime_of(text::lower(ext)),
{
    let path = stem.push('.') + ext;
    last_dot_is_found(stem, ext, path.len() as int);
    assert(path.skip((stem.len() + 1) as int) =~= ext);
}

/// The search for the last dot passes over a text without one.
proof fn last_dot_is_found(stem: Seq<char>, ext: Seq<char>, n: int)
    requires
        !ext.contains('.'),
        stem.len() + 1 <= n <= stem.len() + 1 + ext.len(),
    ensures
        extension_from(stem.push('.') + ext, n) == stem.len() + 1,
    decreases n,
{
    let path = stem.push('.') + ext;
    if n > stem.len() + 1 {
        assert(path[n - 1] == ext[n - 2 - stem.len()]);
        assert(ext.contains(ext[n - 2 - stem.len()]));
        last_dot_is_found(stem, ext, n - 1);
    } else {
        assert(path[n - 1] == '.');
    }
}

/// The case of ASCII letters does not matter to the media type.
pub proof fn types_ignore_case(stem: Seq<char>, a: Seq<char>, b: Seq<char>)
    requires
        !a.contains('.'),
        !b.contains('.'),
        a.len() == b.len(),
        forall|i: int|
            0 <= i < a.len() ==> #[trigger] a[i] == b[i] || (0x41 <= a[i] as int <= 0x5a
                && b[i] as int == a[i] as int + 32),
    ensures
        mime_for(stem.push('.') + a) == mime_for(stem.push('.') + b),
{
    types_go_by_the_last_dot(stem, a);
    types_go_by_the_last_dot(stem, b);
    assert forall|i: int| 0 <= i < a.len() implies text::lower(a)[i] == text::lower(b)[i] by {
        assert(a[i] == b[i] || (0x41 <= a[i] as int <= 0x5a && b[i] as int == a[i] as int + 32));
    }
    assert(text::lower(a) =~= text::lower(b));
}

/// An extension in small letters and digits is read as it stands.
proof fn extension_is_read(stem: Seq<char>, dotted: Seq<char>, ext: Seq<char>)
    requires
        dotted.len() == ext.len() + 1,
        dotted[0] == '.',
        forall|i: int|
            0 <= i < ext.len() ==> dotted[i + 1] == #[trigger] ext[i] && (0x30 <= ext[i] as int
                <= 0x39 || 0x61 <= ext[i] as int <= 0x7a),
    ensures
        mime_for(stem + dotted) == mime_of(ext),
{
    if ext.contains('.') {
        let i = choose|i: int| 0 <= i < ext.len() && ext[i] == '.';
        assert(ext[i] as int == 0x2e);
    }
    assert(stem + dotted =~= stem.push('.') + ext);
    types_go_by_the_last_dot(stem, ext);
    assert forall|i: int| 0 <= i < ext.len() implies text::lower(ext)[i] == ext[i] by {
        assert(0x30 <= ext[i] as int <= 0x39 || 0x61 <= ext[i] as int <= 0x7a);
    }
    assert(text::lower(ext) =~= ext);
}

/// The media types that are known, by their extensions.
#[verifier::spinoff_prover]
proof fn extension_table()
    ensures
        mime_of("html"@) == Some("text/html"@),
        mime_of("htm"@) == Some("text/html"@),
        mime_of("css"@) == Some("text/css"@),
        mime_of("js"@) == Some("application/javascript"@),
        mime_of("json"@) == Some("application/json"@),
        mime_of("png"@) == Some("image/png"@),
        mime_of("jpg"@) == Some("image/jpeg"@),
        mime_of("jpeg"@) == Some("image/jpeg"@),
        mime_of("gif"@) == Some("image/gif"@),
        mime_of("svg"@) == Some("image/svg+xml"@),
        mime_of("ico"@) == Some("image/x-icon"@),
        mime_of("mp4"@) == Some("video/mp4"@),
        mime_of("webm"@) == Some("video/webm"@),
        mime_of("mp3"@) == Some("audio/mpeg"@),
        mime_of("pdf"@) == Some("application/pdf"@),
        mime_of("zip"@) == Some("application/zip"@),
        mime_of("gz"@) == Some("application/gzip"@),
        mime_of("txt"@) == Some("text/plain"@),
        mime_of("xml"@) == Some("application/xml"@),
        mime_of("wasm"@) == Some("application/wasm"@),
{
    reveal_strlit("html");
    reveal_strlit("htm");
    reveal_strlit("css");
    reveal_strlit("js");
    reveal_strlit("json");
    reveal_strlit("png");
    reveal_strlit("jpg");
    reveal_strlit("jpeg");
    reveal_strlit("gif");
    reveal_strlit("svg");
    reveal_strlit("ico");
    reveal_strlit("mp4");
    reveal_strlit("webm");
    reveal_strlit("mp3");
    reveal_strlit("pdf");
    reveal_strlit("zip");
    reveal_strlit("gz");
    reveal_strlit("txt");
    reveal_strlit("xml");
    reveal_strlit("wasm");
    assert("html"@.len() == 4 && "html"@[0] == 'h' && "html"@[1] == 't' && "html"@[2] == 'm');
    assert("htm"@.len() == 3 && "htm"@[0] == 'h' && "htm"@[1] == 't' && "htm"@[2] == 'm');
    assert("css"@.len() == 3 && "css"@[0] == 'c' && "css"@[1] == 's' && "css"@[2] == 's');
    assert("js"@.len() == 2 && "js"@[0] == 'j' && "js"@[1] == 's');
    assert("json"@.len() == 4 && "json"@[0] == 'j' && "json"@[1] == 's' && "json"@[2] == 'o');
    assert("png"@.len() == 3 && "png"@[0] == 'p' && "png"@[1] == 'n' && "png"@[2] == 'g');
    assert("jpg"@.len() == 3 && "jpg"@[0] == 'j' && "jpg"@[1] == 'p' && "jpg"@[2] == 'g');
    assert("jpeg"@.len() == 4 && "jpeg"@[0] == 'j' && "jpeg"@[1] == 'p' && "jpeg"@[2] == 'e');
    assert("gif"@.len() == 3 && "gif"@[0] == 'g' && "gif"@[1] == 'i' && "gif"@[2] == 'f');
    assert("svg"@.len() == 3 && "svg"@[0] == 's' && "svg"@[1] == 'v' && "svg"@[2] == 'g');
    assert("ico"@.len() == 3 && "ico"@[0] == 'i' && "ico"@[1] == 'c' && "ico"@[2] == 'o');
    assert("mp4"@.len() == 3 && "mp4"@[0] == 'm' && "mp4"@[1] == 'p' && "mp4"@[2] == '4');
    assert("webm"@.len() == 4 && "webm"@[0] == 'w' && "webm"@[1] == 'e' && "webm"@[2] == 'b');
    assert("mp3"@.len() == 3 && "mp3"@[0] == 'm' && "mp3"@[1] == 'p' && "mp3"@[2] == '3');
    assert("pdf"@.len() == 3 && "pdf"@[0] == 'p' && "pdf"@[1] == 'd' && "pdf"@[2] == 'f');
    assert("zip"@.len() == 3 && "zip"@[0] == 'z' && "zip"@[1] == 'i' && "zip"@[2] == 'p');
    assert("gz"@.len() == 2 && "gz"@[0] == 'g' && "gz"@[1] == 'z');
    assert("txt"@.len() == 3 && "txt"@[0] == 't' && "txt"@[1] == 'x' && "txt"@[2] == 't');
    assert("xml"@.len() == 3 && "xml"@[0] == 'x' && "xml"@[1] == 'm' && "xml"@[2] == 'l');
    assert("wasm"@.len() == 4 && "wasm"@[0] == 'w' && "wasm"@[1] == 'a' && "wasm"@[2] == 's');
}

/// The media types that are known, whatever the rest of the path is.
pub proof fn known_types(stem: Seq<char>)
    ensures
        mime_for(stem + ".html"@) == Some("text/html"@),
        mime_for(stem + ".htm"@) == Some("text/html"@),
        mime_for(stem + ".css"@) == Some("text/css"@),
        mime_for(stem + ".js"@) == Some("application/javascript"@),
        mime_for(stem + ".json"@) == Some("application/json"@),
        mime_for(stem + ".png"@) == Some("image/png"@),
        mime_for(stem + ".jpg"@) == Some("image/jpeg"@),
        mime_for(stem + ".jpeg"@) == Some("image/jpeg"@),
        mime_for(stem + ".gif"@) == Some("image/gif"@),
        mime_for(stem + ".svg"@) == Some("image/svg+xml"@),
        mime_for(stem + ".ico"@) == Some("image/x-icon"@),
        mime_for(stem + ".mp4"@) == Some("video/mp4"@),
        mime_for(stem + ".webm"@) == Some("video/webm"@),
        mime_for(stem + ".mp3"@) == Some("audio/mpeg"@),
        mime_for(stem + ".pdf"@) == Some("application/pdf"@),
        mime_for(stem + ".zip"@) == Some("application/zip"@),
        mime_for(stem + ".gz"@) == Some("application/gzip"@),
        mime_for(stem + ".txt"@) == Some("text/plain"@),
        mime_for(stem + ".xml"@) == Some("application/xml"@),
        mime_for(stem + ".wasm"@) == Some("application/wasm"@),
{
    extension_table();
    assert(mime_for(stem + ".html"@) == mime_of("html"@)) by {
        reveal_strlit(".html");
        reveal_strlit("html");
        extension_is_read(stem, ".html"@, "html"@);
    }
    assert(mime_for(stem + ".htm"@) == mime_of("htm"@)) by {
        reveal_strlit(".htm");
        reveal_strlit("htm");
        extension_is_read(stem, ".htm"@, "htm"@);
    }
    assert(mime_for(stem + ".css"@) == mime_of("css"@)) by {
        reveal_strlit(".css");
        reveal_strlit("css");
        extension_is_read(stem, ".css"@, "css"@);
    }
    assert(mime_for(stem + ".js"@) == mime_of("js"@)) by {
        reveal_strlit(".js");
        reveal_strlit("js");
        extension_is_read(stem, ".js"@, "js"@);
    }
    assert(mime_for(stem + ".json"@) == mime_of("json"@)) by {
        reveal_strlit(".json");
        reveal_strlit("json");
        extension_is_read(stem, ".json"@, "json"@);
    }
    assert(mime_for(stem + ".png"@) == mime_of("png"@)) by {
        reveal_strlit(".png");
        reveal_strlit("png");
        extension_is_read(stem, ".png"@, "png"@);
    }
    assert(mime_for(stem + ".jpg"@) == mime_of("jpg"@)) by {
        reveal_strlit(".jpg");
        reveal_strlit("jpg");
        extension_is_read(stem, ".jpg"@, "jpg"@);
    }
    assert(mime_for(stem + ".jpeg"@) == mime_of("jpeg"@)) by {
        reveal_strlit(".jpeg");
        reveal_strlit("jpeg");
        extension_is_read(stem, ".jpeg"@, "jpeg"@);
    }
    assert(mime_for(stem + ".gif"@) == mime_of("gif"@)) by {
        reveal_strlit(".gif");
        reveal_strlit("gif");
        extension_is_read(stem, ".gif"@, "gif"@);
    }
    assert(mime_for(stem + ".svg"@) == mime_of("svg"@)) by {
        reveal_strlit(".svg");
        reveal_strlit("svg");
        extension_is_read(stem, ".svg"@, "svg"@);
    }
    assert(mime_for(stem + ".ico"@) == mime_of("ico"@)) by {
        reveal_strlit(".ico");
        reveal_strlit("ico");
        extension_is_read(stem, ".ico"@, "ico"@);
    }
    assert(mime_for(stem + ".mp4"@) == mime_of("mp4"@)) by {
        reveal_strlit(".mp4");
        reveal_strlit("mp4");
        extension_is_read(stem, ".mp4"@, "mp4"@);
    }
    assert(mime_for(stem + ".webm"@) == mime_of("webm"@)) by {
        reveal_strlit(".webm");
        reveal_strlit("webm");
        extension_is_read(stem, ".webm"@, "webm"@);
    }
    assert(mime_for(stem + ".mp3"@) == mime_of("mp3"@)) by {
        reveal_strlit(".mp3");
        reveal_strlit("mp3");
        extension_is_read(stem, ".mp3"@, "mp3"@);
    }
    assert(mime_for(stem + ".pdf"@) == mime_of("pdf"@)) by {
        reveal_strlit(".pdf");
        reveal_strlit("pdf");
        extension_is_read(stem, ".pdf"@, "pdf"@);
    }
    assert(mime_for(stem + ".zip"@) == mime_of("zip"@)) by {
        reveal_strlit(".zip");
        reveal_strlit("zip");
        extension_is_read(stem, ".zip"@, "zip"@);
    }
    assert(mime_for(stem + ".gz"@) == mime_of("gz"@)) by {
        reveal_strlit(".gz");
        reveal_strlit("gz");
        extension_is_read(stem, ".gz"@, "gz"@);
    }
    assert(mime_for(stem + ".txt"@) == mime_of("txt"@)) by {
        reveal_strlit(".txt");
        reveal_strlit("txt");
        extension_is_read(stem, ".txt"@, "txt"@);
    }
    assert(mime_for(stem + ".xml"@) == mime_of("xml"@)) by {
        reveal_strlit(".xml");
        reveal_strlit("xml");
        extension_is_read(stem, ".xml"@, "xml"@);
    }
    assert(mime_for(stem + ".wasm"@) == mime_of("wasm"@)) by {
        reveal_strlit(".wasm");
        reveal_strlit("wasm");
        extension_is_read(stem, ".wasm"@, "wasm"@);
    }
}

/// Other extensions have no media type.
pub proof fn other_extensions_have_no_type(stem: Seq<char>, ext: Seq<char>)
    requires
        !ext.contains('.'),
        forall|i: int| 0 <= i < ext.len() ==> !(0x41 <= (#[trigger] ext[i]) as int <= 0x5a),
        ext != "html"@,
        ext != "htm"@,
        ext != "css"@,
        ext != "js"@,
        ext != "json"@,
        ext != "png"@,
        ext != "jpg"@,
        ext != "jpeg"@,
        ext != "gif"@,
        ext != "svg"@,
        ext != "ico"@,
        ext != "mp4"@,
        ext != "webm"@,
        ext != "mp3"@,
        ext != "pdf"@,
        ext != "zip"@,
        ext != "gz"@,
        ext != "txt"@,
        ext != "xml"@,
        ext != "wasm"@,
    ensures
        mime_for(stem.push('.') + ext) is None,
{
    types_go_by_the_last_dot(stem, ext);
    assert(text::lower(ext) =~= ext);
}

/// A name below `/files/` is looked for below the directory `files` of the
/// data directory; an empty name and one with two dots in a row are refused.
pub proof fn names_lead_below_the_data_directory(
    r: Result<FileTarget, FileError>,
    platform: Platform,
    data_dir: Seq<char>,
    name: Seq<char>,
)
    requires
        platform != Platform::Windows,
        data_dir.len() > 0,
        data_dir.last() != '/',
        name.len() == 0 || name[0] != '/',
        is_target(r, platform, data_dir, "/files/"@ + name),
    ensures
        name.len() == 0 ==> r == Err::<FileTarget, FileError>(FileError::EmptyPath),
        (exists|i: int| 0 <= i < name.len() - 1 && #[trigger] name[i] == '.' && name[i + 1] == '.')
            ==> r == Err::<FileTarget, FileError>(FileError::IllegalPath),
        name.len() > 0 && (forall|i: int|
            0 <= i < name.len() - 1 ==> !(#[trigger] name[i] == '.' && name[i + 1] == '.')) ==> (
        r matches Ok(target) && target.base_dir@ == data_dir + "/files"@ && target.file_path@
            == data_dir + "/files/"@ + name),
{
    reveal_strlit("..");
    reveal_strlit("files");
    reveal_strlit("/files");
    reveal_strlit("/files/");
    reveal_strlit("/");
    relative_paths_are_stripped(name);
    if exists|i: int| 0 <= i < name.len() - 1 && #[trigger] name[i] == '.' && name[i + 1] == '.' {
        let i = choose|i: int|
            0 <= i < name.len() - 1 && #[trigger] name[i] == '.' && name[i + 1] == '.';
        assert(name.subrange(i, i + 2) =~= ".."@);
        assert(text::occurs_at(name, ".."@, i));
    }
    if text::has_text(name, ".."@) {
        let i = choose|i: int| text::occurs_at(name, ".."@, i);
        let two = name.subrange(i, i + 2);
        assert(two[0] == name[i] && two[1] == name[i + 1]);
        assert(name[i] == '.' && name[i + 1] == '.');
    }
    paths::relative_names_are_appended(platform, data_dir, "files"@);
    if name.len() > 0 {
        let base = data_dir + "/files"@;
        assert(data_dir.push('/') + "files"@ =~= base);
        assert(base.last() == 's');
        paths::relative_names_are_appended(platform, base, name);
        assert(base.push('/') + name =~= data_dir + "/files/"@ + name);
    }
}

/// A file is served exactly where it is a regular file that could be opened,
/// lies in the served directory, and has a time of its last change.
pub proof fn only_sound_files_are_served(found: FileFound)
    ensures
        refusal_of(found) is None <==> {
            &&& found.opened == OpenOutcome::File
            &&& found.file is Some
            &&& found.base is Some
            &&& found.dated
            &&& (found.base->0)@.len() <= (found.file->0)@.len()
            &&& forall|i: int|
                0 <= i < (found.base->0)@.len() ==> (#[trigger] (found.base->0)@[i])@ == (
                found.file->0)@[i]@
        },
{
    if found.file is Some && found.base is Some {
        let f = (found.file->0)@;
        let b = (found.base->0)@;
        paths::below_means_the_same_start(paths::components(f), paths::components(b));
        if b.len() <= f.len() {
            assert forall|i: int| 0 <= i < b.len() implies paths::components(b)[i] == b[i]@
                && paths::components(f)[i] == f[i]@ by {}
            if forall|i: int| 0 <= i < b.len() ==> (#[trigger] b[i])@ == f[i]@ {
                assert forall|i: int|
                    0 <= i < b.len() implies #[trigger] paths::components(f)[i]
                    == paths::components(b)[i] by {
                    assert(b[i]@ == f[i]@);
                }
            }
            if paths::below(paths::components(f), paths::components(b)) {
                assert forall|i: int| 0 <= i < b.len() implies (#[trigger] b[i])@ == f[i]@ by {
                    assert(paths::components(f)[i] == paths::components(b)[i]);
                }
            }
        }
    }
}

/// A file outside the served directory is not found, as one that is missing;
/// a directory is told as such.
pub proof fn files_outside_are_not_found(found: FileFound)
    ensures
        found.opened == OpenOutcome::Missing ==> refusal_of(found) == Some(FileError::NotFound),
        found.opened == OpenOutcome::Directory ==> refusal_of(found) == Some(
            FileError::IsDirectory,
        ),
        found.opened == OpenOutcome::NoMetadata ==> refusal_of(found) == Some(
            FileError::Unreadable,
        ),
        found.opened == OpenOutcome::Failed ==> refusal_of(found) == Some(FileError::OpenFailed),
        found.opened == OpenOutcome::File && found.file is None ==> refusal_of(found) == Some(
            FileError::NotFound,
        ),
        found.opened == OpenOutcome::File && found.file is Some && found.base is None
            ==> refusal_of(found) == Some(FileError::NoBaseDir),
        found.opened == OpenOutcome::File && found.file is Some && found.base is Some && (
        found.base->0)@.len() > (found.file->0)@.len() ==> refusal_of(found) == Some(
            FileError::NotFound,
        ),
{
}

/// What the client asked for in vain is answered with 404, what the node could
/// not do with 500.
pub proof fn faults_have_their_status(e: FileError)
    ensures
        e.code() == 404 <==> e == FileError::NoRule || e == FileError::EmptyPath || e
            == FileError::IllegalPath || e == FileError::IsDirectory || e == FileError::NotFound,
        e.code() == 404 || e.code() == 500,
{
}

/// The reply to a request by its own headers: one that gives the file's tag is
/// told that its copy is fresh, with quotes or without; one that gives another
/// tag and no date is sent the file, as is one that gives neither.
pub proof fn requests_are_answered_by_their_tags(
    reply: FileReply,
    request: HeaderMap<HeaderValue>,
    held: Seq<char>,
    path: Seq<char>,
    max_age: Option<u64>,
    mtime: FileTime,
    size: u64,
)
    requires
        is_file_reply(reply, request, path, max_age, mtime, size),
        headers::header_of(request, "if-modified-since"@) is None,
        !held.contains('"'),
        !rules::etag_of((mtime.secs * 1_000_000_000 + mtime.nanos) as u128, size).contains('"'),
    ensures
        headers::header_of(request, "if-none-match"@) == Some(held) || headers::header_of(
            request,
            "if-none-match"@,
        ) == Some(seq!['"'] + held + seq!['"']) ==> (reply is NotModified <==> held
            == rules::etag_of((mtime.secs * 1_000_000_000 + mtime.nanos) as u128, size)),
        headers::header_of(request, "if-none-match"@) is None ==> reply is Send,
        reply matches FileReply::Send(h) ==> h.etag@ == seq!['"'] + rules::etag_of(
            (mtime.secs * 1_000_000_000 + mtime.nanos) as u128,
            size,
        ) + seq!['"'] && h.last_modified@ == http_date_of(mtime.secs),
{
    let etag = rules::etag_of(mtime.total_nanos() as u128, size);
    other_tags_are_stale(held, etag, None, mtime);
    reveal_strlit("\"");
    assert("\""@ =~= seq!['"']);
}

/// The reply to a request by its date: without a tag a copy is fresh exactly
/// where its date is readable and no earlier than the file's last change.
pub proof fn requests_are_answered_by_their_dates(
    reply: FileReply,
    request: HeaderMap<HeaderValue>,
    date: Seq<char>,
    path: Seq<char>,
    max_age: Option<u64>,
    mtime: FileTime,
    size: u64,
    secs: u64,
)
    requires
        is_file_reply(reply, request, path, max_age, mtime, size),
        headers::header_of(request, "if-none-match"@) is None,
        headers::header_of(request, "if-modified-since"@) == Some(date),
    ensures
        http_date_secs(date) == Some(secs) ==> (reply is NotModified <==> secs >= mtime.secs),
        http_date_secs(date) is None ==> reply is Send,
{
}

/// A request that no rule covers is refused; where rules cover it, one for a
/// directory at least as long as any other's decides.
pub proof fn requests_follow_the_longest_rule(
    route: FileRoute,
    rules: Seq<Rule>,
    path: Seq<char>,
    client: Option<IpAddr>,
    own: Seq<IpAddr>,
    j: int,
    dir: Seq<char>,
)
    requires
        is_route(route, rules, path, client, own),
        0 <= j < rules.len(),
        rules[j].path@ == dir,
        dir.len() > 0,
        dir.last() == '/',
        dir.len() <= path.len(),
        path.take(dir.len() as int) == dir,
    ensures
        exists|i: int|
            0 <= i < rules.len() && is_route_by(route, #[trigger] rules[i], path, client, own)
                && rules::rule_prefix(rules[i].path@).len() >= dir.len() && rules::rule_covers(
                rules[i].path@,
                path,
            ),
{
    rules::directories_cover_what_begins_with_them(dir, path);
    rules::best_rule_exists(rules, path, j);
    let i = choose|i: int| rules::is_best_rule(rules, path, i);
    rules::the_longest_directory_wins(rules, path, i, j, dir);
    assert(is_route_by(route, rules[i], path, client, own));
}

/// A request outside the directories of all rules is refused.
pub proof fn uncovered_requests_are_refused(
    route: FileRoute,
    rules: Seq<Rule>,
    path: Seq<char>,
    client: Option<IpAddr>,
    own: Seq<IpAddr>,
)
    requires
        is_route(route, rules, path, client, own),
        forall|i: int|
            0 <= i < rules.len() ==> (#[trigger] rules[i]).path@.len() > 0 && rules[i].path@.last()
                == '/' && !(rules[i].path@.len() <= path.len() && path.take(
                rules[i].path@.len() as int,
            ) == rules[i].path@),
    ensures
        route == FileRoute::Refused(FileError::NoRule),
{
    assert forall|i: int| 0 <= i < rules.len() implies !rules::rule_covers(
        #[trigger] rules[i].path@,
        path,
    ) by {
        assert(rules[i].path@.len() > 0);
        rules::directories_cover_what_begins_with_them(rules[i].path@, path);
    }
}

/// The machine's own addresses matter exactly where the client is known and
/// the best rule redirects and lists no networks.
pub proof fn own_addresses_matter_without_networks(
    rules: Seq<Rule>,
    path: Seq<char>,
    client: Option<IpAddr>,
    i: int,
)
    requires
        rules::is_best_rule(rules, path, i),
    ensures
        own_matter(rules, path, client) <==> client is Some && rules[i].mode == RuleMode::Cdn
            && rules[i].local_cidrs@.len() == 0,
{
    assert forall|k: int| #[trigger] rules::is_best_rule(rules, path, k) implies k == i by {
        rules::best_rule_is_unique(rules, path, k, i);
    }
}

/// A file that differs from the served directory in one of its components is
/// not found; one that lies inside, but without a time of its last change, has
/// no tag.
pub proof fn components_decide(found: FileFound, i: int)
    requires
        found.opened == OpenOutcome::File,
        found.file is Some,
        found.base is Some,
        (found.base->0)@.len() <= (found.file->0)@.len(),
    ensures
        0 <= i < (found.base->0)@.len() && (found.base->0)@[i]@ != (found.file->0)@[i]@
            ==> refusal_of(found) == Some(FileError::NotFound),
        (forall|k: int|
            0 <= k < (found.base->0)@.len() ==> (#[trigger] (found.base->0)@[k])@ == (
            found.file->0)@[k]@) && !found.dated ==> refusal_of(found) == Some(FileError::NoEtag),
{
    let f = (found.file->0)@;
    let b = (found.base->0)@;
    paths::below_means_the_same_start(paths::components(f), paths::components(b));
    assert forall|k: int| 0 <= k < b.len() implies paths::components(b)[k] == b[k]@
        && #[trigger] paths::components(f)[k] == f[k]@ by {}
    if 0 <= i < b.len() && b[i]@ != f[i]@ {
        assert(paths::components(f)[i] != paths::components(b)[i]);
    }
    if forall|k: int| 0 <= k < b.len() ==> (#[trigger] b[k])@ == f[k]@ {
        assert forall|k: int| 0 <= k < b.len() implies #[trigger] paths::components(f)[k]
            == paths::components(b)[k] by {
            assert(b[k]@ == f[k]@);
        }
    }
}

/// A request whose client is unknown is served from the disk, with the age of
/// a rule that redirects, and with none of a direct one.
pub proof fn unknown_clients_are_local(
    route: FileRoute,
    rule: Rule,
    path: Seq<char>,
    own: Seq<IpAddr>,
)
    requires
        is_route_by(route, rule, path, None, own),
    ensures
        rule.mode == RuleMode::Cdn ==> route == (FileRoute::Local { max_age: Some(rule.max_age) }),
        rule.mode == RuleMode::Direct ==> route == (FileRoute::Local { max_age: None }),
{
}

/// On every platform the file is looked for where its name leads from the
/// directory `files` of the data directory, and a name that is empty or holds
/// two dots in a row leads nowhere.
pub proof fn targets_lie_where_names_lead(
    r: Result<FileTarget, FileError>,
    platform: Platform,
    data_dir: Seq<char>,
    name: Seq<char>,
    a: Seq<char>,
    b: Seq<char>,
)
    requires
        is_target(r, platform, data_dir, "/files/"@ + name),
    ensures
        name.len() == 0 ==> r == Err::<FileTarget, FileError>(FileError::EmptyPath),
        name == a + ".."@ + b ==> r == Err::<FileTarget, FileError>(FileError::IllegalPath),
        r matches Ok(target) ==> target.base_dir@ == paths::joined(platform, data_dir, "files"@)
            && target.file_path@ == paths::joined(platform, target.base_dir@, name),
        name.len() > 0 && !text::has_text(name, ".."@) ==> r is Ok,
{
    reveal_strlit("..");
    relative_paths_are_stripped(name);
    text::placed_texts_occur(a, ".."@, b);
}

/// A date that is late enough keeps a copy fresh whatever tag the client
/// holds, and the file's tag does whatever date it holds.
pub proof fn tag_or_date_is_enough(
    held: Seq<char>,
    etag: Seq<char>,
    secs: u64,
    mtime: FileTime,
)
    requires
        !held.contains('"'),
        !etag.contains('"'),
    ensures
        copy_is_fresh(Some(seq!['"'] + held + seq!['"']), Some(secs), etag, mtime) <==> held == etag
            || secs >= mtime.secs,
        copy_is_fresh(Some(held), Some(secs), etag, mtime) <==> held == etag || secs >= mtime.secs,
{
    other_tags_are_stale(held, etag, Some(secs), mtime);
}

} // verus!
