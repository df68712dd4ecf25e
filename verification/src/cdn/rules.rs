//! CDN rules: checking a manifest, matching request paths, entity tags.

use sha2::Digest;
use vstd::prelude::*;
use vstd::string::*;

use crate::text;
use crate::types::{Rule, RuleMode};

verus! {

/// A CDN manifest as it was written.
#[derive(Debug, Clone)]
pub struct Manifest {
    pub local_network: Option<LocalNetwork>,
    pub rules: Vec<ManifestRule>,
}

/// The networks that count as local for every rule without its own list.
#[derive(Debug, Clone)]
pub struct LocalNetwork {
    pub cidrs: Vec<String>,
}

/// One rule of a manifest as it was written.
#[derive(Debug, Clone)]
pub struct ManifestRule {
    pub path: String,
    /// `cdn` or `direct`; there is no default.
    pub mode: String,
    pub max_age: u64,
    /// Needed for the mode `cdn`, and passed over in the mode `direct`.
    pub cdn_url: Option<String>,
    /// Overrides the networks of the manifest.
    pub local_cidrs: Option<Vec<String>>,
}

/// Why a manifest is refused. Rules are counted from one.
#[derive(Debug, Clone)]
pub enum ManifestError {
    /// The mode is neither `cdn` nor `direct`.
    InvalidMode { rule: usize, mode: String },
    /// The mode is `cdn` and no URL is given.
    MissingCdnUrl { rule: usize, path: String },
    /// The path does not begin with `/`.
    PathNotAbsolute { rule: usize, path: String },
    /// The path ends neither with `/` nor with `/*`.
    PathNotTerminated { rule: usize, path: String },
}

impl ManifestError {
    /// The message for a reader.
    pub open spec fn text(self) -> Seq<char> {
        match self {
            ManifestError::InvalidMode { rule, mode } => "规则 #"@ + text::decimal(rule as nat)
                + " 的 mode 无效: '"@ + mode@ + "'（应为 'cdn' 或 'direct'）"@,
            ManifestError::MissingCdnUrl { rule, path } => "规则 #"@ + text::decimal(rule as nat)
                + " path='"@ + path@ + "' mode='cdn' 但缺少 cdn_url"@,
            ManifestError::PathNotAbsolute { rule, path } => "规则 #"@ + text::decimal(rule as nat)
                + " 的 path 必须以 '/' 开头: '"@ + path@ + "'"@,
            ManifestError::PathNotTerminated { rule, path } => "规则 #"@ + text::decimal(rule as nat)
                + " 的 path 必须以 '/' 或 '/*' 结尾: '"@ + path@ + "'"@,
        }
    }

    /// The message for a reader.
    pub fn message(&self) -> (r: String)
        ensures
            r@ == self.text(),
    {
        let mut r = "规则 #".to_owned();
        match self {
            ManifestError::InvalidMode { rule, mode } => {
                r.append(text::decimal_text(*rule as u64).as_str());
                r.append(" 的 mode 无效: '");
                r.append(mode.as_str());
                r.append("'（应为 'cdn' 或 'direct'）");
            },
            ManifestError::MissingCdnUrl { rule, path } => {
                r.append(text::decimal_text(*rule as u64).as_str());
                r.append(" path='");
                r.append(path.as_str());
                r.append("' mode='cdn' 但缺少 cdn_url");
            },
            ManifestError::PathNotAbsolute { rule, path } => {
                r.append(text::decimal_text(*rule as u64).as_str());
                r.append(" 的 path 必须以 '/' 开头: '");
                r.append(path.as_str());
                r.append("'");
            },
            ManifestError::PathNotTerminated { rule, path } => {
                r.append(text::decimal_text(*rule as u64).as_str());
                r.append(" 的 path 必须以 '/' 或 '/*' 结尾: '");
                r.append(path.as_str());
                r.append("'");
            },
        }
        r
    }
}

/// A rule path is absolute and ends at a path segment.
pub open spec fn is_rule_path(path: Seq<char>) -> bool {
    &&& text::begins_with(path, "/"@)
    &&& text::finishes_with(path, "/"@) || text::finishes_with(path, "/*"@)
}

/// What is wrong with the rule that stands at position `number`, if anything is.
pub open spec fn rule_error(entry: ManifestRule, number: usize) -> Option<ManifestError> {
    if RuleMode::named(entry.mode@) is None {
        Some(ManifestError::InvalidMode { rule: number, mode: entry.mode })
    } else if RuleMode::named(entry.mode@) == Some(RuleMode::Cdn) && entry.cdn_url is None {
        Some(ManifestError::MissingCdnUrl { rule: number, path: entry.path })
    } else if !text::begins_with(entry.path@, "/"@) {
        Some(ManifestError::PathNotAbsolute { rule: number, path: entry.path })
    } else if !is_rule_path(entry.path@) {
        Some(ManifestError::PathNotTerminated { rule: number, path: entry.path })
    } else {
        None
    }
}

/// The first error among the rules from the position `from` on.
pub open spec fn first_error(entries: Seq<ManifestRule>, from: int) -> Option<ManifestError>
    decreases entries.len() - from,
{
    if from >= entries.len() {
        None
    } else if rule_error(entries[from], (from + 1) as usize) is Some {
        rule_error(entries[from], (from + 1) as usize)
    } else {
        first_error(entries, from + 1)
    }
}

impl Manifest {
    /// The networks that count as local where a rule lists none.
    pub open spec fn global_cidrs(self) -> Seq<String> {
        match self.local_network {
            Some(network) => network.cidrs@,
            None => Seq::empty(),
        }
    }
}

/// `rule` is what `entry` stands for, with `global` as the networks by default.
pub open spec fn is_rule_of(rule: Rule, entry: ManifestRule, global: Seq<String>) -> bool {
    &&& rule.path@ == entry.path@
    &&& RuleMode::named(entry.mode@) == Some(rule.mode)
    &&& rule.max_age == entry.max_age
    &&& rule.cdn_url == if rule.mode == RuleMode::Cdn {
        entry.cdn_url
    } else {
        None
    }
    &&& rule.local_cidrs@ == match entry.local_cidrs {
        Some(own) => own@,
        None => global,
    }
}

/// A copy of a list of texts.
fn copy_texts(texts: &Vec<String>) -> (r: Vec<String>)
    ensures
        r@ == texts@,
{
    let mut r: Vec<String> = Vec::new();
    let mut i: usize = 0;
    while i < texts.len()
        invariant
            i <= texts.len(),
            r@ == texts@.take(i as int),
        decreases texts.len() - i,
    {
        r.push(texts[i].clone());
        i = i + 1;
        proof {
            assert(texts@.take(i as int) =~= texts@.take(i - 1).push(texts@[i - 1]));
        }
    }
    proof {
        assert(texts@.take(i as int) =~= texts@);
    }
    r
}

/// Checks one rule of a manifest.
fn check_rule(entry: &ManifestRule, number: usize, global: &Vec<String>) -> (r: Result<
    Rule,
    ManifestError,
>)
    ensures
        match r {
            Ok(rule) => rule_error(*entry, number) is None && is_rule_of(rule, *entry, global@),
            Err(e) => rule_error(*entry, number) == Some(e),
        },
{
    let mode = match RuleMode::from_name(entry.mode.as_str()) {
        Some(mode) => mode,
        None => {
            return Err(ManifestError::InvalidMode { rule: number, mode: entry.mode.clone() });
        },
    };
    if mode == RuleMode::Cdn && entry.cdn_url.is_none() {
        return Err(ManifestError::MissingCdnUrl { rule: number, path: entry.path.clone() });
    }
    let local_cidrs = match &entry.local_cidrs {
        Some(own) => copy_texts(own),
        None => copy_texts(global),
    };
    if !text::starts_with(entry.path.as_str(), "/") {
        return Err(ManifestError::PathNotAbsolute { rule: number, path: entry.path.clone() });
    }
    if !text::ends_with(entry.path.as_str(), "/") && !text::ends_with(entry.path.as_str(), "/*") {
        return Err(ManifestError::PathNotTerminated { rule: number, path: entry.path.clone() });
    }
    let cdn_url = match (&entry.cdn_url, mode) {
        (Some(url), RuleMode::Cdn) => Some(url.clone()),
        _ => None,
    };
    Ok(Rule { path: entry.path.clone(), mode, max_age: entry.max_age, cdn_url, local_cidrs })
}

/// Checks a manifest and gives its rules, in order.
///
/// The first rule with an error decides: there are rules exactly where no rule
/// has one.
pub fn parse_manifest(manifest: &Manifest) -> (r: Result<Vec<Rule>, ManifestError>)
    ensures
        match r {
            Ok(rules) => {
                &&& first_error(manifest.rules@, 0) is None
                &&& rules@.len() == manifest.rules@.len()
                &&& forall|i: int|
                    0 <= i < rules@.len() ==> is_rule_of(
                        #[trigger] rules@[i],
                        manifest.rules@[i],
                        manifest.global_cidrs(),
                    )
            },
            Err(e) => first_error(manifest.rules@, 0) == Some(e),
        },
{
    let global = match &manifest.local_network {
        Some(network) => copy_texts(&network.cidrs),
        None => Vec::new(),
    };
    let mut rules: Vec<Rule> = Vec::new();
    let mut i: usize = 0;
    while i < manifest.rules.len()
        invariant
            i <= manifest.rules.len(),
            global@ == manifest.global_cidrs(),
            first_error(manifest.rules@, 0) == first_error(manifest.rules@, i as int),
            rules@.len() == i,
            forall|j: int|
                0 <= j < i ==> is_rule_of(
                    #[trigger] rules@[j],
                    manifest.rules@[j],
                    manifest.global_cidrs(),
                ),
        decreases manifest.rules.len() - i,
    {
        match check_rule(&manifest.rules[i], i + 1, &global) {
            Ok(rule) => {
                rules.push(rule);
            },
            Err(e) => {
                return Err(e);
            },
        }
        i = i + 1;
    }
    Ok(rules)
}

/// The last `*` among the first `n` characters, if no `/` comes after it.
pub open spec fn last_star(path: Seq<char>, n: int) -> Option<int>
    decreases n,
{
    if n <= 0 || path[n - 1] == '/' {
        None
    } else if path[n - 1] == '*' {
        Some(n - 1)
    } else {
        last_star(path, n - 1)
    }
}

/// How much of a rule path is taken literally: all of it, but for a last
/// segment that ends in a wildcard, which is cut off at the wildcard.
pub open spec fn prefix_end(path: Seq<char>) -> int {
    match last_star(path, path.len() as int) {
        Some(i) => text::end_without(path, '*', i),
        None => path.len() as int,
    }
}

/// The literal part of a rule path: `/files/large/*.mp4` gives `/files/large/`.
pub open spec fn rule_prefix(path: Seq<char>) -> Seq<char> {
    path.take(prefix_end(path))
}

/// A rule covers a request where its literal part ends with `/` and begins the
/// request path.
pub open spec fn rule_covers(path: Seq<char>, req_path: Seq<char>) -> bool {
    let prefix = rule_prefix(path);
    &&& prefix.len() > 0
    &&& prefix.last() == '/'
    &&& text::begins_with(req_path, prefix)
}

/// The rule at `i` covers the request, no rule with a longer literal part
/// does, and none before it with one as long.
pub open spec fn is_best_rule(rules: Seq<Rule>, req_path: Seq<char>, i: int) -> bool {
    &&& 0 <= i < rules.len()
    &&& rule_covers(rules[i].path@, req_path)
    &&& forall|j: int|
        0 <= j < rules.len() && rule_covers(#[trigger] rules[j].path@, req_path) ==> {
            ||| prefix_end(rules[j].path@) < prefix_end(rules[i].path@)
            ||| prefix_end(rules[j].path@) == prefix_end(rules[i].path@) && i <= j
        }
}

/// How much of a rule path is taken literally.
fn prefix_length(path: &Vec<char>) -> (r: usize)
    ensures
        r == prefix_end(path@),
        r <= path.len(),
{
    let mut n: usize = path.len();
    while n > 0 && path[n - 1] != '/' && path[n - 1] != '*'
        invariant
            n <= path.len(),
            last_star(path@, path@.len() as int) == last_star(path@, n as int),
        decreases n,
    {
        n = n - 1;
    }
    if n == 0 || path[n - 1] == '/' {
        return path.len();
    }
    n = n - 1;
    let ghost star = n as int;
    while n > 0 && path[n - 1] == '*'
        invariant
            n <= path.len(),
            text::end_without(path@, '*', star) == text::end_without(path@, '*', n as int),
        decreases n,
    {
        n = n - 1;
    }
    n
}

/// Whether a rule covers a request, and with how long a literal part.
fn cover_length(path: &str, req_path: &Vec<char>) -> (r: Option<usize>)
    ensures
        match r {
            Some(n) => rule_covers(path@, req_path@) && n == prefix_end(path@) && n > 0,
            None => !rule_covers(path@, req_path@),
        },
{
    let chars = text::chars_of(path);
    let n = prefix_length(&chars);
    if n == 0 || chars[n - 1] != '/' {
        return None;
    }
    let prefix = text::chars_of(path.substring_char(0, n));
    proof {
        assert(prefix@ =~= rule_prefix(path@));
    }
    if text::matches_at(req_path, &prefix, 0) {
        Some(n)
    } else {
        None
    }
}

/// The rule for a request path: the one with the longest literal part among
/// those that cover it, and the first of these.
pub fn match_path<'a>(rules: &'a [Rule], req_path: &str) -> (r: Option<&'a Rule>)
    ensures
        match r {
            Some(rule) => exists|i: int|
                #[trigger] is_best_rule(rules@, req_path@, i) && *rule == rules@[i],
            None => forall|i: int|
                0 <= i < rules@.len() ==> !rule_covers(#[trigger] rules@[i].path@, req_path@),
        },
{
    let req = text::chars_of(req_path);
    let mut best: Option<usize> = None;
    let mut best_len: usize = 0;
    let mut i: usize = 0;
    while i < rules.len()
        invariant
            i <= rules.len(),
            req@ == req_path@,
            match best {
                Some(b) => {
                    &&& b < i
                    &&& best_len == prefix_end(rules@[b as int].path@)
                    &&& is_best_rule(rules@.take(i as int), req_path@, b as int)
                },
                None => {
                    &&& best_len == 0
                    &&& forall|j: int|
                        0 <= j < i ==> !rule_covers(#[trigger] rules@[j].path@, req_path@)
                },
            },
        decreases rules.len() - i,
    {
        let ghost seen = rules@.take(i as int);
        let ghost next = rules@.take(i + 1);
        proof {
            assert(forall|j: int| 0 <= j < i ==> next[j] == seen[j]);
            assert(next[i as int] == rules@[i as int]);
        }
        match cover_length(rules[i].path.as_str(), &req) {
            Some(n) => {
                if n > best_len {
                    best_len = n;
                    best = Some(i);
                    assert(is_best_rule(next, req_path@, i as int));
                } else {
                    proof {
                        if best is Some {
                            assert(is_best_rule(next, req_path@, best->0 as int));
                        }
                    }
                }
            },
            None => {
                proof {
                    if best is Some {
                        assert(is_best_rule(next, req_path@, best->0 as int));
                    }
                }
            },
        }
        i = i + 1;
    }
    proof {
        assert(rules@.take(i as int) =~= rules@);
    }
    match best {
        Some(b) => {
            assert(is_best_rule(rules@, req_path@, b as int));
            Some(&rules[b])
        },
        None => None,
    }
}

/// At most one rule is the best for a request.
pub proof fn best_rule_is_unique(rules: Seq<Rule>, req_path: Seq<char>, i: int, j: int)
    requires
        is_best_rule(rules, req_path, i),
        is_best_rule(rules, req_path, j),
    ensures
        i == j,
{
    assert(text::begins_with(req_path, rule_prefix(rules[i].path@)));
    assert(rules[j].path@ == rules[j].path@);
}

/// Where some rule covers a request, one of them is the best.
pub proof fn best_rule_exists(rules: Seq<Rule>, req_path: Seq<char>, k: int)
    requires
        0 <= k < rules.len(),
        rule_covers(rules[k].path@, req_path),
    ensures
        exists|i: int| is_best_rule(rules, req_path, i),
    decreases rules.len(),
{
    let shorter = rules.drop_last();
    let last = rules.len() - 1;
    if exists|m: int| 0 <= m < last && rule_covers(#[trigger] rules[m].path@, req_path) {
        let m = choose|m: int| 0 <= m < last && rule_covers(#[trigger] rules[m].path@, req_path);
        assert(shorter[m] == rules[m]);
        best_rule_exists(shorter, req_path, m);
        let i = choose|i: int| is_best_rule(shorter, req_path, i);
        assert(forall|j: int| 0 <= j < last ==> rules[j] == shorter[j]);
        if rule_covers(rules[last].path@, req_path) && prefix_end(rules[last].path@) > prefix_end(
            rules[i].path@,
        ) {
            assert(is_best_rule(rules, req_path, last));
        } else {
            assert(is_best_rule(rules, req_path, i));
        }
    } else {
        assert(k == last);
        assert(is_best_rule(rules, req_path, k));
    }
}

/// A wildcard in the last segment covers the whole directory: the literal part
/// of `dir` followed by `*` and a suffix is `dir`.
pub proof fn wildcard_covers_directory(dir: Seq<char>, tail: Seq<char>)
    requires
        dir.len() > 0,
        dir.last() == '/',
        forall|i: int| 0 <= i < tail.len() ==> tail[i] != '/' && tail[i] != '*',
    ensures
        rule_prefix(dir.push('*') + tail) == dir,
{
    let path = dir.push('*') + tail;
    last_star_skips(path, path.len() as int, (dir.len() + 1) as int);
    assert(path[dir.len() as int] == '*');
    assert(path[dir.len() - 1] == '/');
    assert(last_star(path, (dir.len() + 1) as int) == Some(dir.len() as int));
    assert(prefix_end(path) == dir.len());
    assert(path.take(dir.len() as int) =~= dir);
}

/// Characters that are neither `/` nor `*` do not matter to the last wildcard.
proof fn last_star_skips(path: Seq<char>, n: int, m: int)
    requires
        0 < m <= n <= path.len(),
        forall|i: int| m <= i < n ==> path[i] != '/' && path[i] != '*',
    ensures
        last_star(path, n) == last_star(path, m),
    decreases n,
{
    if n > m {
        last_star_skips(path, n - 1, m);
    }
}

/// A rule that a manifest may hold ends at a path segment: its literal part
/// ends with `/`, so that `/files/video/` never covers `/files/videos/`.
pub proof fn rule_paths_end_at_segments(path: Seq<char>)
    requires
        is_rule_path(path),
    ensures
        rule_prefix(path).len() > 0,
        rule_prefix(path).last() == '/',
        text::finishes_with(path, "/"@) ==> rule_prefix(path) == path,
{
    reveal_strlit("/");
    reveal_strlit("/*");
    let n = path.len() as int;
    if text::finishes_with(path, "/"@) {
        assert(path[n - 1] == path.subrange(n - 1, n)[0]);
        assert(path[n - 1] == "/"@[0]);
        assert(path.take(n) =~= path);
    } else {
        let tail = path.subrange(n - 2, n);
        assert(path[n - 1] == tail[1]);
        assert(path[n - 2] == tail[0]);
        assert(tail =~= "/*"@);
        assert(path[n - 1] == '*');
        assert(path[n - 2] == '/');
        assert(last_star(path, n) == Some(n - 1));
        assert(prefix_end(path) == n - 1);
        assert(rule_prefix(path).last() == path[n - 2]);
    }
}

/// A request for a file right below a rule path is covered by the rule.
pub proof fn rules_cover_what_lies_below(path: Seq<char>, rest: Seq<char>)
    requires
        is_rule_path(path),
    ensures
        rule_covers(path, rule_prefix(path) + rest),
{
    rule_paths_end_at_segments(path);
    let prefix = rule_prefix(path);
    assert((prefix + rest).subrange(0, prefix.len() as int) =~= prefix);
}

/// Where no entry from a position on has an error, none of them has one.
pub proof fn no_error_means_no_entry_error(entries: Seq<ManifestRule>, from: int, i: int)
    requires
        0 <= from <= i < entries.len(),
        first_error(entries, from) is None,
    ensures
        rule_error(entries[i], (i + 1) as usize) is None,
    decreases i - from,
{
    if from < i {
        no_error_means_no_entry_error(entries, from + 1, i);
    }
}

/// The SHA-256 digest of bytes.
pub uninterp spec fn sha256_of(data: Seq<u8>) -> Seq<u8>;

/// The SHA-256 digest of bytes.
///
/// Calls `sha2::Sha256::digest`. Trusted: the digest has 32 bytes and depends
/// on the data alone.
#[verifier::external_body]
fn sha256(data: &Vec<u8>) -> (r: Vec<u8>)
    ensures
        r@ == sha256_of(data@),
        r@.len() == 32,
{
    sha2::Sha256::digest(data.as_slice()).to_vec()
}

/// A hexadecimal digit, in lower case.
pub open spec fn hex_digit(d: int) -> char {
    if d < 10 {
        (0x30 + d) as u32 as char
    } else {
        (0x57 + d) as u32 as char
    }
}

/// A hexadecimal digit in lower case.
pub open spec fn is_hex(c: char) -> bool {
    ('0' <= c && c <= '9') || ('a' <= c && c <= 'f')
}

/// Bytes in hexadecimal: two digits for each, the high one first.
pub open spec fn hex_of(data: Seq<u8>) -> Seq<char> {
    Seq::new(
        2 * data.len(),
        |i: int|
            if i % 2 == 0 {
                hex_digit(data[i / 2] as int / 16)
            } else {
                hex_digit(data[i / 2] as int % 16)
            },
    )
}

/// Bytes in hexadecimal.
///
/// Calls `hex::encode`. Trusted: it writes two lower case digits for each
/// byte, the high one first.
#[verifier::external_body]
pub(crate) fn hex_text(data: &Vec<u8>) -> (r: String)
    ensures
        r@ == hex_of(data@),
{
    hex::encode(data)
}

/// The `n` low bytes of a number, the least significant one first.
pub open spec fn le_bytes(value: nat, n: nat) -> Seq<u8>
    decreases n,
{
    if n == 0 {
        Seq::empty()
    } else {
        seq![(value % 256) as u8] + le_bytes(value / 256, (n - 1) as nat)
    }
}

/// Appends the `n` low bytes of a number, the least significant one first.
fn push_le_bytes(out: &mut Vec<u8>, value: u128, n: usize)
    ensures
        final(out)@ == old(out)@ + le_bytes(value as nat, n as nat),
{
    let mut rest: u128 = value;
    let mut i: usize = n;
    proof {
        assert(out@ + le_bytes(value as nat, n as nat) =~= old(out)@ + le_bytes(
            value as nat,
            n as nat,
        ));
    }
    while i > 0
        invariant
            i <= n,
            out@ + le_bytes(rest as nat, i as nat) == old(out)@ + le_bytes(value as nat, n as nat),
        decreases i,
    {
        let ghost before = out@;
        let low: u8 = (rest % 256) as u8;
        out.push(low);
        proof {
            assert(before + le_bytes(rest as nat, i as nat) =~= out@ + le_bytes(
                rest as nat / 256,
                (i - 1) as nat,
            ));
        }
        rest = rest / 256;
        i = i - 1;
    }
    proof {
        assert(out@ + le_bytes(rest as nat, 0) =~= out@);
    }
}

/// What the entity tag of a file is computed from: the time of its last
/// change in nanoseconds and its size.
pub open spec fn etag_input(mtime_nanos: u128, size: u64) -> Seq<u8> {
    le_bytes(mtime_nanos as nat, 16) + le_bytes(size as nat, 8)
}

/// The entity tag that a digest gives: its first eight bytes in hexadecimal.
pub open spec fn etag_of_digest(digest: Seq<u8>) -> Seq<char> {
    hex_of(digest.take(8))
}

/// The entity tag of a file.
pub open spec fn etag_of(mtime_nanos: u128, size: u64) -> Seq<char> {
    etag_of_digest(sha256_of(etag_input(mtime_nanos, size)))
}

/// The shape of an entity tag: sixteen hexadecimal digits.
pub open spec fn is_etag(etag: Seq<char>) -> bool {
    etag.len() == 16 && forall|i: int| 0 <= i < 16 ==> is_hex(#[trigger] etag[i])
}

/// The entity tag that a digest gives.
pub fn etag_from_digest(digest: &Vec<u8>) -> (r: String)
    requires
        digest@.len() >= 8,
    ensures
        r@ == etag_of_digest(digest@),
        is_etag(r@),
{
    proof {
        etags_are_hexadecimal(digest@);
    }
    let first = vstd::slice::slice_to_vec(vstd::slice::slice_subrange(digest.as_slice(), 0, 8));
    proof {
        assert(digest@.subrange(0, 8) =~= digest@.take(8));
    }
    hex_text(&first)
}

/// The entity tag of a file, from the time of its last change and its size.
pub fn compute_etag(mtime_nanos: u128, size: u64) -> (r: String)
    ensures
        r@ == etag_of(mtime_nanos, size),
        is_etag(r@),
{
    let mut input: Vec<u8> = Vec::new();
    push_le_bytes(&mut input, mtime_nanos, 16);
    push_le_bytes(&mut input, size as u128, 8);
    proof {
        assert(input@ =~= etag_input(mtime_nanos, size));
    }
    etag_from_digest(&sha256(&input))
}

/// An entity tag holds hexadecimal digits only, so it needs no escaping.
pub proof fn etags_are_hexadecimal(digest: Seq<u8>)
    requires
        digest.len() >= 8,
    ensures
        is_etag(etag_of_digest(digest)),
{
}

/// Files that differ in the time of their last change or in their size are
/// told apart before the digest: the input of the digest differs.
pub proof fn etag_inputs_differ(m1: u128, s1: u64, m2: u128, s2: u64)
    requires
        etag_input(m1, s1) == etag_input(m2, s2),
    ensures
        m1 == m2,
        s1 == s2,
{
    le_bytes_length(m1 as nat, 16);
    le_bytes_length(m2 as nat, 16);
    le_bytes_length(s1 as nat, 8);
    le_bytes_length(s2 as nat, 8);
    assert(etag_input(m1, s1).take(16) =~= le_bytes(m1 as nat, 16));
    assert(etag_input(m2, s2).take(16) =~= le_bytes(m2 as nat, 16));
    assert(etag_input(m1, s1).skip(16) =~= le_bytes(s1 as nat, 8));
    assert(etag_input(m2, s2).skip(16) =~= le_bytes(s2 as nat, 8));
    vstd::arithmetic::power2::lemma2_to64();
    vstd::arithmetic::power2::lemma2_to64_rest();
    vstd::arithmetic::power2::lemma_pow2_adds(64, 64);
    le_bytes_injective(m1 as nat, m2 as nat, 16);
    le_bytes_injective(s1 as nat, s2 as nat, 8);
}

proof fn le_bytes_length(value: nat, n: nat)
    ensures
        le_bytes(value, n).len() == n,
    decreases n,
{
    if n > 0 {
        le_bytes_length(value / 256, (n - 1) as nat);
    }
}

/// Numbers that fit into `n` bytes have different bytes where they differ.
proof fn le_bytes_injective(a: nat, b: nat, n: nat)
    requires
        le_bytes(a, n) == le_bytes(b, n),
        a < vstd::arithmetic::power2::pow2(8 * n),
        b < vstd::arithmetic::power2::pow2(8 * n),
    ensures
        a == b,
    decreases n,
{
    vstd::arithmetic::power2::lemma2_to64();
    if n > 0 {
        let m = (n - 1) as nat;
        vstd::arithmetic::power2::lemma_pow2_adds(8, 8 * m);
        assert(8 + 8 * m == 8 * n);
        let p = vstd::arithmetic::power2::pow2(8 * m);
        assert(a / 256 < p && b / 256 < p) by (nonlinear_arith)
            requires
                a < 256 * p,
                b < 256 * p,
        ;
        assert(le_bytes(a, n)[0] == (a % 256) as u8);
        assert(le_bytes(b, n)[0] == (b % 256) as u8);
        assert(le_bytes(a, n).skip(1) =~= le_bytes(a / 256, m));
        assert(le_bytes(b, n).skip(1) =~= le_bytes(b / 256, m));
        le_bytes_injective(a / 256, b / 256, m);
    }
}

/// A rule path that ends with `/` covers exactly the requests that begin with
/// it.
pub proof fn directories_cover_what_begins_with_them(dir: Seq<char>, req: Seq<char>)
    requires
        dir.len() > 0,
        dir.last() == '/',
    ensures
        rule_prefix(dir) == dir,
        rule_covers(dir, req) <==> dir.len() <= req.len() && req.take(dir.len() as int) == dir,
{
    assert(dir.take(dir.len() as int) =~= dir);
    if dir.len() <= req.len() {
        assert(req.subrange(0, dir.len() as int) =~= req.take(dir.len() as int));
    }
}

/// A wildcard in the last segment, with whatever behind it, covers exactly the
/// requests that begin with the directory.
pub proof fn wildcards_cover_the_directory(dir: Seq<char>, tail: Seq<char>, req: Seq<char>)
    requires
        dir.len() > 0,
        dir.last() == '/',
        forall|i: int| 0 <= i < tail.len() ==> tail[i] != '/' && tail[i] != '*',
    ensures
        rule_covers(dir.push('*') + tail, req) <==> dir.len() <= req.len() && req.take(
            dir.len() as int,
        ) == dir,
{
    wildcard_covers_directory(dir, tail);
    if dir.len() <= req.len() {
        assert(req.subrange(0, dir.len() as int) =~= req.take(dir.len() as int));
    }
}

/// A rule path that ends within a segment covers nothing.
pub proof fn broken_segments_cover_nothing(dir: Seq<char>, part: Seq<char>, req: Seq<char>)
    requires
        part.len() > 0,
        forall|i: int| 0 <= i < part.len() ==> part[i] != '/' && part[i] != '*',
        dir.len() == 0 || dir.last() == '/',
    ensures
        !rule_covers(dir + part, req),
        !rule_covers((dir + part).push('*'), req),
{
    let plain = dir + part;
    let starred = plain.push('*');
    let n = plain.len() as int;
    assert(plain[n - 1] == part.last());
    last_star_skips(plain, n, (dir.len() + 1) as int);
    assert(plain[dir.len() as int] == part[0]);
    if dir.len() > 0 {
        assert(plain[dir.len() - 1] == '/');
    }
    assert(last_star(plain, dir.len() as int) is None);
    assert(last_star(plain, (dir.len() + 1) as int) is None);
    assert(plain.take(n) =~= plain);
    assert(starred[n] == '*');
    assert(starred[n - 1] == part.last());
    assert(last_star(starred, n + 1) == Some(n));
    assert(prefix_end(starred) == n);
    assert(starred.take(n) =~= plain);
}

/// Of the rules that cover a request, the one for the longest directory is
/// taken, and the first of several for the same one.
pub proof fn the_longest_directory_wins(
    rules: Seq<Rule>,
    req: Seq<char>,
    i: int,
    j: int,
    dir: Seq<char>,
)
    requires
        is_best_rule(rules, req, i),
        0 <= j < rules.len(),
        rules[j].path@ == dir,
        dir.len() > 0,
        dir.last() == '/',
        dir.len() <= req.len(),
        req.take(dir.len() as int) == dir,
    ensures
        rule_prefix(rules[i].path@).len() >= dir.len(),
        rule_prefix(rules[i].path@).len() == dir.len() ==> i <= j,
        rules[i].path@.len() > 0 && rules[i].path@.last() == '/' ==> rules[i].path@.len()
            >= dir.len() && rules[i].path@.len() <= req.len() && req.take(
            rules[i].path@.len() as int,
        ) == rules[i].path@,
{
    directories_cover_what_begins_with_them(dir, req);
    directories_cover_what_begins_with_them(rules[j].path@, req);
    assert(rule_covers(rules[j].path@, req));
    prefix_end_is_within(rules[i].path@);
    if rules[i].path@.len() > 0 && rules[i].path@.last() == '/' {
        directories_cover_what_begins_with_them(rules[i].path@, req);
    }
}

/// The literal part of a path is a part of it.
proof fn prefix_end_is_within(path: Seq<char>)
    ensures
        0 <= prefix_end(path) <= path.len(),
{
    last_star_is_within(path, path.len() as int);
    match last_star(path, path.len() as int) {
        Some(i) => {
            stars_end_within(path, i);
        },
        None => {},
    }
}

proof fn last_star_is_within(path: Seq<char>, n: int)
    requires
        0 <= n <= path.len(),
    ensures
        last_star(path, n) matches Some(i) ==> 0 <= i < n,
    decreases n,
{
    if n > 0 && path[n - 1] != '/' && path[n - 1] != '*' {
        last_star_is_within(path, n - 1);
    }
}

proof fn stars_end_within(path: Seq<char>, n: int)
    requires
        0 <= n <= path.len(),
    ensures
        0 <= text::end_without(path, '*', n) <= n,
    decreases n,
{
    if n > 0 && path[n - 1] == '*' {
        stars_end_within(path, n - 1);
    }
}

/// A rule of a manifest is accepted exactly where its mode is `direct`, or
/// `cdn` with a URL, and its path begins with `/` and ends with `/` or `/*`.
pub proof fn sound_rules_are_accepted(entry: ManifestRule, number: usize)
    ensures
        rule_error(entry, number) is None <==> {
            &&& entry.mode@ == "direct"@ || (entry.mode@ == "cdn"@ && entry.cdn_url is Some)
            &&& entry.path@.len() > 0
            &&& entry.path@[0] == '/'
            &&& entry.path@.last() == '/' || (entry.path@.len() >= 2 && entry.path@.last() == '*'
                && entry.path@[entry.path@.len() - 2] == '/')
        },
{
    crate::types::modes_have_names(entry.mode@);
    path_shape(entry.path@);
}

/// The shape of a rule path, character by character.
proof fn path_shape(path: Seq<char>)
    ensures
        text::begins_with(path, "/"@) <==> path.len() > 0 && path[0] == '/',
        text::finishes_with(path, "/"@) <==> path.len() > 0 && path.last() == '/',
        text::finishes_with(path, "/*"@) <==> path.len() >= 2 && path.last() == '*' && path[path.len()
            - 2] == '/',
{
    reveal_strlit("/");
    reveal_strlit("/*");
    let n = path.len() as int;
    if n > 0 {
        let first = path.subrange(0, 1);
        let last = path.subrange(n - 1, n);
        assert(first[0] == path[0]);
        assert(last[0] == path.last());
        if path[0] == '/' {
            assert(first =~= "/"@);
        }
        if path.last() == '/' {
            assert(last =~= "/"@);
        }
    }
    if n >= 2 {
        let two = path.subrange(n - 2, n);
        assert(two[0] == path[n - 2] && two[1] == path[n - 1]);
        if path.last() == '*' && path[n - 2] == '/' {
            assert(two =~= "/*"@);
        }
    }
}

/// Each fault of a rule is told with the rule's number and what is wrong in
/// it: the mode first, then a missing URL, then the path.
pub proof fn rule_faults_are_told(entry: ManifestRule, number: usize)
    ensures
        entry.mode@ != "cdn"@ && entry.mode@ != "direct"@ ==> rule_error(entry, number) == Some(
            (ManifestError::InvalidMode { rule: number, mode: entry.mode }),
        ),
        entry.mode@ == "cdn"@ && entry.cdn_url is None ==> rule_error(entry, number) == Some(
            (ManifestError::MissingCdnUrl { rule: number, path: entry.path }),
        ),
        entry.mode@ == "direct"@ && (entry.path@.len() == 0 || entry.path@[0] != '/')
            ==> rule_error(entry, number) == Some(
            (ManifestError::PathNotAbsolute { rule: number, path: entry.path }),
        ),
        entry.mode@ == "direct"@ && entry.path@.len() > 0 && entry.path@[0] == '/'
            && entry.path@.last() != '/' && entry.path@.last() != '*' ==> rule_error(entry, number)
            == Some((ManifestError::PathNotTerminated { rule: number, path: entry.path })),
{
    crate::types::modes_have_names(entry.mode@);
    path_shape(entry.path@);
}

/// The first rule with a fault decides, counted from one; without a fault
/// there is none.
pub proof fn the_first_faulty_rule_decides(entries: Seq<ManifestRule>, i: int)
    requires
        0 <= i < entries.len() <= usize::MAX,
        forall|j: int| 0 <= j < i ==> rule_error(#[trigger] entries[j], (j + 1) as usize) is None,
    ensures
        rule_error(entries[i], (i + 1) as usize) is Some ==> first_error(entries, 0) == rule_error(
            entries[i],
            (i + 1) as usize,
        ),
        i == entries.len() - 1 && rule_error(entries[i], (i + 1) as usize) is None ==> first_error(
            entries,
            0,
        ) is None,
{
    sound_rules_are_passed(entries, 0, i);
    reveal_with_fuel(first_error, 2);
}

proof fn sound_rules_are_passed(entries: Seq<ManifestRule>, from: int, to: int)
    requires
        0 <= from <= to <= entries.len(),
        forall|j: int| from <= j < to ==> rule_error(#[trigger] entries[j], (j + 1) as usize) is None,
    ensures
        first_error(entries, from) == first_error(entries, to),
    decreases to - from,
{
    if from < to {
        assert(rule_error(entries[from], (from + 1) as usize) is None);
        sound_rules_are_passed(entries, from + 1, to);
    }
}

/// A rule keeps what the manifest says: its path, its mode by name, its age,
/// its URL where it redirects, and its own networks or else the manifest's.
pub proof fn rules_keep_what_the_manifest_says(
    rule: Rule,
    entry: ManifestRule,
    global: Seq<String>,
)
    requires
        is_rule_of(rule, entry, global),
    ensures
        rule.path@ == entry.path@,
        rule.max_age == entry.max_age,
        rule.mode == RuleMode::Cdn <==> entry.mode@ == "cdn"@,
        rule.mode == RuleMode::Direct <==> entry.mode@ == "direct"@,
        entry.mode@ == "cdn"@ ==> rule.cdn_url == entry.cdn_url,
        entry.mode@ == "direct"@ ==> rule.cdn_url is None,
        entry.local_cidrs is None ==> rule.local_cidrs@ == global,
        entry.local_cidrs is Some ==> rule.local_cidrs@ == (entry.local_cidrs->0)@,
{
    crate::types::modes_have_names(entry.mode@);
}

/// Bytes are written with two digits each, the upper half first.
pub proof fn hexadecimals_spell_the_bytes(data: Seq<u8>, i: int)
    requires
        0 <= i < data.len(),
    ensures
        hex_of(data).len() == 2 * data.len(),
        hex_of(data)[2 * i] as int == if data[i] < 0xa0 {
            0x30 + data[i] as int / 16
        } else {
            0x57 + data[i] as int / 16
        },
        hex_of(data)[2 * i + 1] as int == if data[i] as int % 16 < 10 {
            0x30 + data[i] as int % 16
        } else {
            0x57 + data[i] as int % 16
        },
{
    let even = 2 * i;
    let odd = 2 * i + 1;
    assert(even % 2 == 0 && even / 2 == i);
    assert(odd % 2 == 1 && odd / 2 == i);
}

/// An entity tag is the first eight bytes of the digest, and those alone.
pub proof fn tags_spell_eight_bytes(digest: Seq<u8>, other: Seq<u8>, i: int)
    requires
        digest.len() >= 8,
        other.len() >= 8,
    ensures
        etag_of_digest(digest).len() == 16,
        digest.take(8) == other.take(8) ==> etag_of_digest(digest) == etag_of_digest(other),
        0 <= i < 8 ==> etag_of_digest(digest)[2 * i] == hex_of(seq![digest[i]])[0]
            && etag_of_digest(digest)[2 * i + 1] == hex_of(seq![digest[i]])[1],
{
    if 0 <= i < 8 {
        hexadecimals_spell_the_bytes(digest.take(8), i);
        hexadecimals_spell_the_bytes(seq![digest[i]], 0);
        let even = 2 * i;
        let odd = 2 * i + 1;
        assert(even % 2 == 0 && even / 2 == i);
        assert(odd % 2 == 1 && odd / 2 == i);
    }
}

/// What is digested for a tag is the time of the last change in sixteen bytes
/// and the size in eight, each with the least significant byte first.
pub proof fn tags_are_made_from_time_and_size(mtime_nanos: u128, size: u64, i: int)
    ensures
        etag_input(mtime_nanos, size).len() == 24,
        0 <= i < 16 ==> etag_input(mtime_nanos, size)[i] == mtime_nanos as nat
            / vstd::arithmetic::power2::pow2((8 * i) as nat) % 256,
        0 <= i < 8 ==> etag_input(mtime_nanos, size)[16 + i] == size as nat
            / vstd::arithmetic::power2::pow2((8 * i) as nat) % 256,
        etag_of(mtime_nanos, size) == hex_of(
            sha256_of(etag_input(mtime_nanos, size)).take(8),
        ),
{
    le_bytes_length(mtime_nanos as nat, 16);
    le_bytes_length(size as nat, 8);
    if 0 <= i < 16 {
        le_bytes_at(mtime_nanos as nat, 16, i);
    }
    if 0 <= i < 8 {
        le_bytes_at(size as nat, 8, i);
    }
}

/// Each byte of a number, the least significant one first.
proof fn le_bytes_at(value: nat, n: nat, i: int)
    requires
        0 <= i < n,
    ensures
        le_bytes(value, n).len() == n,
        le_bytes(value, n)[i] == value / vstd::arithmetic::power2::pow2((8 * i) as nat) % 256,
    decreases n,
{
    vstd::arithmetic::power2::lemma2_to64();
    le_bytes_length(value, n);
    le_bytes_length(value / 256, (n - 1) as nat);
    if i == 0 {
        assert(value / vstd::arithmetic::power2::pow2(0) == value) by {
            assert(vstd::arithmetic::power2::pow2(0) == 1);
        }
    } else {
        le_bytes_at(value / 256, (n - 1) as nat, i - 1);
        let m = (8 * (i - 1)) as nat;
        vstd::arithmetic::power2::lemma_pow2_adds(8, m);
        vstd::arithmetic::power2::lemma_pow2_pos(m);
        assert(8 + m == 8 * i);
        vstd::arithmetic::div_mod::lemma_div_denominator(
            value as int,
            256,
            vstd::arithmetic::power2::pow2(m) as int,
        );
        assert(256 * vstd::arithmetic::power2::pow2(m) == vstd::arithmetic::power2::pow2(
            (8 * i) as nat,
        ));
    }
}

/// Several wildcards in a row are one: the literal part ends before the first.
pub proof fn runs_of_wildcards_are_one(dir: Seq<char>, stars: Seq<char>, tail: Seq<char>)
    requires
        dir.len() > 0,
        dir.last() == '/',
        stars.len() > 0,
        forall|i: int| 0 <= i < stars.len() ==> stars[i] == '*',
        forall|i: int| 0 <= i < tail.len() ==> tail[i] != '/' && tail[i] != '*',
    ensures
        rule_prefix(dir + stars + tail) == dir,
{
    let path = dir + stars + tail;
    let m = (dir.len() + stars.len()) as int;
    assert forall|i: int| m <= i < path.len() implies path[i] != '/' && path[i] != '*' by {
        assert(path[i] == tail[i - m]);
    }
    last_star_skips(path, path.len() as int, m);
    assert(path[m - 1] == stars[stars.len() - 1]);
    assert(last_star(path, m) == Some(m - 1));
    stars_are_dropped(dir, stars, tail, m - 1);
    assert(path.take(dir.len() as int) =~= dir);
}

proof fn stars_are_dropped(dir: Seq<char>, stars: Seq<char>, tail: Seq<char>, n: int)
    requires
        dir.len() > 0,
        dir.last() == '/',
        forall|i: int| 0 <= i < stars.len() ==> stars[i] == '*',
        dir.len() <= n <= dir.len() + stars.len(),
    ensures
        text::end_without(dir + stars + tail, '*', n) == dir.len(),
    decreases n,
{
    let path = dir + stars + tail;
    if n > dir.len() {
        assert(path[n - 1] == stars[n - 1 - dir.len()]);
        stars_are_dropped(dir, stars, tail, n - 1);
    } else {
        assert(path[n - 1] == dir.last());
    }
}

/// The message for a faulty rule names its number and what is wrong in it.
pub proof fn messages_name_the_rule(rule: usize, what: String)
    ensures
        text::has_text(
            (ManifestError::InvalidMode { rule, mode: what }).text(),
            text::decimal(rule as nat) + " 的 mode 无效: '"@ + what@,
        ),
        text::has_text(
            (ManifestError::MissingCdnUrl { rule, path: what }).text(),
            text::decimal(rule as nat) + " path='"@ + what@,
        ),
        text::has_text((ManifestError::PathNotAbsolute { rule, path: what }).text(), what@),
        text::has_text((ManifestError::PathNotTerminated { rule, path: what }).text(), what@),
        text::has_text(
            (ManifestError::PathNotAbsolute { rule, path: what }).text(),
            text::decimal(rule as nat),
        ),
        text::has_text(
            (ManifestError::PathNotTerminated { rule, path: what }).text(),
            text::decimal(rule as nat),
        ),
{
    let n = text::decimal(rule as nat);
    let lead = "规则 #"@;
    let a = n + " 的 mode 无效: '"@ + what@;
    let a2 = "'（应为 'cdn' 或 'direct'）"@;
    assert((ManifestError::InvalidMode { rule, mode: what }).text() =~= lead + a + a2);
    text::placed_texts_occur(lead, a, a2);
    let b = n + " path='"@ + what@;
    let b2 = "' mode='cdn' 但缺少 cdn_url"@;
    assert((ManifestError::MissingCdnUrl { rule, path: what }).text() =~= lead + b + b2);
    text::placed_texts_occur(lead, b, b2);
    let c = " 的 path 必须以 '/' 开头: '"@;
    assert((ManifestError::PathNotAbsolute { rule, path: what }).text() =~= (lead + n + c) + what@
        + "'"@);
    assert((ManifestError::PathNotAbsolute { rule, path: what }).text() =~= lead + n + (c + what@
        + "'"@));
    text::placed_texts_occur(lead + n + c, what@, "'"@);
    text::placed_texts_occur(lead, n, c + what@ + "'"@);
    let d = " 的 path 必须以 '/' 或 '/*' 结尾: '"@;
    assert((ManifestError::PathNotTerminated { rule, path: what }).text() =~= (lead + n + d) + what@
        + "'"@);
    assert((ManifestError::PathNotTerminated { rule, path: what }).text() =~= lead + n + (d + what@
        + "'"@));
    text::placed_texts_occur(lead + n + d, what@, "'"@);
    text::placed_texts_occur(lead, n, d + what@ + "'"@);
}

} // verus!
