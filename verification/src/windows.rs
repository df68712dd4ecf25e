//! Joining paths on Windows: drives, network shares, devices and verbatim
//! paths, with either slash between components.

use vstd::prelude::*;
use vstd::string::*;

use crate::text;

verus! {

/// A separator of components.
pub open spec fn is_sep(c: char) -> bool {
    c == '\\' || c == '/'
}

/// A separator of components; verbatim paths know the backslash only.
pub open spec fn parts_at(c: char, verbatim: bool) -> bool {
    c == '\\' || (c == '/' && !verbatim)
}

/// An ASCII letter.
pub open spec fn is_letter(c: char) -> bool {
    ('a' <= c && c <= 'z') || ('A' <= c && c <= 'Z')
}

/// What a path begins with.
#[derive(Debug, Clone, Copy, PartialEq, Eq, Structural)]
pub enum PrefixKind {
    /// Nothing of the kind.
    Absent,
    /// A drive, such as `C:`.
    Drive,
    /// A network share or a device, such as `\\server\share` or `\\.\COM1`.
    Named,
    /// A prefix that begins with `\\?\`.
    Verbatim,
}

/// What a path begins with, and how many characters that takes.
#[derive(Debug, Clone, Copy, PartialEq, Eq, Structural)]
pub struct Prefix {
    pub kind: PrefixKind,
    pub len: usize,
}

/// The first position at or after `from` that holds a separator, or the length.
pub open spec fn part_end(s: Seq<char>, verbatim: bool, from: int) -> int
    decreases s.len() - from,
{
    if from >= s.len() {
        s.len() as int
    } else if parts_at(s[from], verbatim) {
        from
    } else {
        part_end(s, verbatim, from + 1)
    }
}

/// Two components, one behind the other: where the second one ends, or where
/// the first one does if the second one is empty.
pub open spec fn pair_end(s: Seq<char>, verbatim: bool, from: int) -> int {
    let first = part_end(s, verbatim, from);
    let second = part_end(s, verbatim, first + 1);
    if second > first + 1 {
        second
    } else {
        first
    }
}

/// A drive at a position: a letter and a colon.
pub open spec fn drive_at(s: Seq<char>, at: int) -> bool {
    at + 2 <= s.len() && is_letter(s[at]) && s[at + 1] == ':'
}

/// What a verbatim path begins with: a share behind `UNC\`, a drive that is a
/// component of its own, or any other component.
pub open spec fn verbatim_end(s: Seq<char>) -> int {
    if s.len() >= 8 && s[4] == 'U' && s[5] == 'N' && s[6] == 'C' && is_sep(s[7]) {
        pair_end(s, true, 8)
    } else if drive_at(s, 4) && (s.len() == 6 || is_sep(s[6])) {
        6
    } else {
        part_end(s, true, 4)
    }
}

/// What a path begins with.
pub open spec fn prefix_of(s: Seq<char>) -> Prefix {
    if s.len() >= 2 && is_sep(s[0]) && is_sep(s[1]) {
        if s.len() >= 4 && s[0] == '\\' && s[1] == '\\' && s[2] == '?' && s[3] == '\\' {
            Prefix { kind: PrefixKind::Verbatim, len: verbatim_end(s) as usize }
        } else if s.len() >= 4 && s[2] == '.' && is_sep(s[3]) {
            Prefix { kind: PrefixKind::Named, len: part_end(s, false, 4) as usize }
        } else if part_end(s, false, 2) > 2 && pair_end(s, false, 2) > part_end(s, false, 2) {
            Prefix { kind: PrefixKind::Named, len: pair_end(s, false, 2) as usize }
        } else {
            Prefix { kind: PrefixKind::Absent, len: 0 }
        }
    } else if drive_at(s, 0) {
        Prefix { kind: PrefixKind::Drive, len: 2 }
    } else {
        Prefix { kind: PrefixKind::Absent, len: 0 }
    }
}

/// A component that counts: not an empty one, and a dot only in a verbatim path.
pub open spec fn counts(part: Seq<char>, verbatim: bool) -> bool {
    part.len() > 0 && (verbatim || part != "."@)
}

/// One component, if it counts.
pub open spec fn one_part(part: Seq<char>, verbatim: bool) -> Seq<Seq<char>> {
    if counts(part, verbatim) {
        seq![part]
    } else {
        Seq::empty()
    }
}

/// The components from `start` on, no separator standing before `at`.
pub open spec fn parts_from(s: Seq<char>, verbatim: bool, start: int, at: int) -> Seq<Seq<char>>
    decreases s.len() - at,
{
    if at >= s.len() {
        one_part(s.subrange(start, s.len() as int), verbatim)
    } else if parts_at(s[at], verbatim) {
        one_part(s.subrange(start, at), verbatim) + parts_from(s, verbatim, at + 1, at + 1)
    } else {
        parts_from(s, verbatim, start, at + 1)
    }
}

/// Components with further ones behind them, those from `from` on: a double
/// dot takes back the last component, if that is a name.
pub open spec fn walked(parts: Seq<Seq<char>>, more: Seq<Seq<char>>, from: int) -> Seq<Seq<char>>
    decreases more.len() - from,
{
    if from >= more.len() {
        parts
    } else if more[from] != ".."@ {
        walked(parts.push(more[from]), more, from + 1)
    } else if parts.len() > 0 && parts.last() != "."@ && parts.last() != ".."@ {
        walked(parts.drop_last(), more, from + 1)
    } else {
        walked(parts, more, from + 1)
    }
}

/// The first `n` components, each behind a backslash.
pub open spec fn written(parts: Seq<Seq<char>>, n: int) -> Seq<char>
    decreases n,
{
    if n <= 0 {
        Seq::empty()
    } else {
        written(parts, n - 1) + "\\"@ + parts[n - 1]
    }
}

/// The path begins with a separator at a position.
pub open spec fn rooted(s: Seq<char>, at: int) -> bool {
    at < s.len() && is_sep(s[at])
}

/// The position behind the root at a position, if there is one.
pub open spec fn behind_root(s: Seq<char>, at: int) -> int {
    if rooted(s, at) {
        at + 1
    } else {
        at
    }
}

/// `name` below a verbatim path whose prefix has this length, with the dots in
/// `name` carried out.
pub open spec fn joined_verbatim(dir: Seq<char>, len: int, name: Seq<char>) -> Seq<char> {
    let more = parts_from(name, false, behind_root(name, 0), behind_root(name, 0));
    let start = if rooted(name, 0) {
        Seq::empty()
    } else {
        parts_from(dir, true, behind_root(dir, len), behind_root(dir, len))
    };
    let parts = walked(start, more, 0);
    if parts.len() > 0 {
        dir.take(len) + written(parts, parts.len() as int)
    } else if rooted(name, 0) || rooted(dir, len) {
        dir.take(len) + "\\"@
    } else {
        dir.take(len)
    }
}

/// `name` below `dir`. A name with a prefix stands for itself; one that begins
/// at the root keeps the prefix of `dir` only.
pub open spec fn joined(dir: Seq<char>, name: Seq<char>) -> Seq<char> {
    if prefix_of(name).kind != PrefixKind::Absent {
        name
    } else if prefix_of(dir).kind == PrefixKind::Verbatim && name.len() > 0 {
        joined_verbatim(dir, prefix_of(dir).len as int, name)
    } else if rooted(name, 0) {
        dir.take(prefix_of(dir).len as int) + name
    } else if dir.len() == 0 || is_sep(dir.last()) || (prefix_of(dir).kind == PrefixKind::Drive
        && dir.len() == 2) {
        dir + name
    } else {
        dir + "\\"@ + name
    }
}

/// Whether a character separates components.
fn separates(c: char, verbatim: bool) -> (r: bool)
    ensures
        r == parts_at(c, verbatim),
{
    c == '\\' || (c == '/' && !verbatim)
}

/// Whether a character is a separator.
fn is_separator(c: char) -> (r: bool)
    ensures
        r == is_sep(c),
{
    c == '\\' || c == '/'
}

/// Where the part that begins at `from` ends.
fn find_part_end(s: &Vec<char>, verbatim: bool, from: usize) -> (r: usize)
    ensures
        r == part_end(s@, verbatim, from as int),
        r <= s@.len(),
        from <= s@.len() ==> from <= r,
{
    let mut i: usize = from;
    while i < s.len() && !separates(s[i], verbatim)
        invariant
            from <= i,
            from <= s@.len() ==> i <= s@.len(),
            part_end(s@, verbatim, from as int) == part_end(s@, verbatim, i as int),
        decreases s.len() - i,
    {
        i = i + 1;
    }
    if i < s.len() {
        i
    } else {
        s.len()
    }
}

/// Where two components from `from` on end.
fn find_pair_end(s: &Vec<char>, verbatim: bool, from: usize) -> (r: usize)
    requires
        from <= s@.len(),
    ensures
        r == pair_end(s@, verbatim, from as int),
        from <= r <= s@.len(),
{
    let first = find_part_end(s, verbatim, from);
    if first >= s.len() {
        return first;
    }
    let second = find_part_end(s, verbatim, first + 1);
    if second > first + 1 {
        second
    } else {
        first
    }
}

/// Whether a drive stands at a position.
fn has_drive(s: &Vec<char>, at: usize) -> (r: bool)
    requires
        at <= 4,
    ensures
        r == drive_at(s@, at as int),
{
    if s.len() < at + 2 {
        return false;
    }
    let c = s[at];
    (('a' <= c && c <= 'z') || ('A' <= c && c <= 'Z')) && s[at + 1] == ':'
}

/// What a path begins with.
pub fn path_prefix(s: &Vec<char>) -> (r: Prefix)
    ensures
        r == prefix_of(s@),
        r.len <= s@.len(),
{
    if s.len() >= 2 && is_separator(s[0]) && is_separator(s[1]) {
        if s.len() >= 4 && s[0] == '\\' && s[1] == '\\' && s[2] == '?' && s[3] == '\\' {
            let len: usize = if s.len() >= 8 && s[4] == 'U' && s[5] == 'N' && s[6] == 'C'
                && is_separator(s[7]) {
                find_pair_end(s, true, 8)
            } else if has_drive(s, 4) && (s.len() == 6 || is_separator(s[6])) {
                6
            } else {
                find_part_end(s, true, 4)
            };
            Prefix { kind: PrefixKind::Verbatim, len }
        } else if s.len() >= 4 && s[2] == '.' && is_separator(s[3]) {
            Prefix { kind: PrefixKind::Named, len: find_part_end(s, false, 4) }
        } else {
            let server = find_part_end(s, false, 2);
            let share = find_pair_end(s, false, 2);
            if server > 2 && share > server {
                Prefix { kind: PrefixKind::Named, len: share }
            } else {
                Prefix { kind: PrefixKind::Absent, len: 0 }
            }
        }
    } else if has_drive(s, 0) {
        Prefix { kind: PrefixKind::Drive, len: 2 }
    } else {
        Prefix { kind: PrefixKind::Absent, len: 0 }
    }
}

/// The characters of each text.
pub open spec fn texts(parts: Seq<String>) -> Seq<Seq<char>> {
    parts.map_values(|part: String| part@)
}

/// Puts a component behind others, if it counts.
fn push_part(parts: &mut Vec<String>, part: &str, verbatim: bool)
    ensures
        texts(final(parts)@) == texts(old(parts)@) + one_part(part@, verbatim),
{
    if !part.is_empty() && (verbatim || !text::same_text(part, ".")) {
        parts.push(part.to_owned());
        proof {
            assert(texts(parts@) =~= texts(old(parts)@) + one_part(part@, verbatim));
        }
    } else {
        proof {
            assert(texts(parts@) =~= texts(old(parts)@) + one_part(part@, verbatim));
        }
    }
}

/// The components of a path from `from` on.
fn split_parts(path: &str, verbatim: bool, from: usize) -> (r: Vec<String>)
    requires
        from <= path@.len(),
    ensures
        texts(r@) == parts_from(path@, verbatim, from as int, from as int),
{
    let s = text::chars_of(path);
    let mut r: Vec<String> = Vec::new();
    let mut start: usize = from;
    let mut at: usize = from;
    let ghost all = parts_from(path@, verbatim, from as int, from as int);
    proof {
        assert(texts(r@) =~= Seq::<Seq<char>>::empty());
        assert(texts(r@) + all =~= all);
    }
    while at < s.len()
        invariant
            s@ == path@,
            start <= at <= s@.len(),
            texts(r@) + parts_from(path@, verbatim, start as int, at as int) == all,
        decreases s.len() - at,
    {
        if separates(s[at], verbatim) {
            let ghost before = texts(r@);
            push_part(&mut r, path.substring_char(start, at), verbatim);
            proof {
                let part = one_part(path@.subrange(start as int, at as int), verbatim);
                let rest = parts_from(path@, verbatim, at + 1, at + 1);
                assert((before + part) + rest =~= before + (part + rest));
            }
            start = at + 1;
        }
        at = at + 1;
    }
    push_part(&mut r, path.substring_char(start, s.len()), verbatim);
    r
}

/// Walks along components.
fn walk(parts: Vec<String>, more: &Vec<String>) -> (r: Vec<String>)
    ensures
        texts(r@) == walked(texts(parts@), texts(more@), 0),
{
    let ghost all = walked(texts(parts@), texts(more@), 0);
    let mut r = parts;
    let mut i: usize = 0;
    while i < more.len()
        invariant
            i <= more.len(),
            walked(texts(r@), texts(more@), i as int) == all,
        decreases more.len() - i,
    {
        let ghost before = texts(r@);
        assert(texts(more@)[i as int] == more@[i as int]@);
        if !text::same_text(more[i].as_str(), "..") {
            r.push(more[i].clone());
            proof {
                assert(texts(r@) =~= before.push(texts(more@)[i as int]));
            }
        } else if r.len() > 0 {
            assert(before.last() == r@.last()@);
            let is_name = !text::same_text(r[r.len() - 1].as_str(), ".") && !text::same_text(
                r[r.len() - 1].as_str(),
                "..",
            );
            if is_name {
                r.pop();
                proof {
                    assert(texts(r@) =~= before.drop_last());
                }
            }
        }
        i = i + 1;
    }
    r
}

/// Whether a separator stands at a position.
fn has_root(s: &Vec<char>, at: usize) -> (r: bool)
    ensures
        r == rooted(s@, at as int),
{
    at < s.len() && is_separator(s[at])
}

/// `name` below a verbatim path whose prefix has this length.
fn join_verbatim(dir: &str, len: usize, name: &str) -> (r: String)
    requires
        len <= dir@.len(),
    ensures
        r@ == joined_verbatim(dir@, len as int, name@),
{
    let d = text::chars_of(dir);
    let n = text::chars_of(name);
    let name_root = has_root(&n, 0);
    let dir_root = has_root(&d, len);
    assert(dir_root ==> len < d.len());
    let more = split_parts(
        name,
        false,
        if name_root {
            1
        } else {
            0
        },
    );
    let start = if name_root {
        let none: Vec<String> = Vec::new();
        proof {
            assert(texts(none@) =~= Seq::<Seq<char>>::empty());
        }
        none
    } else {
        split_parts(
            dir,
            true,
            if dir_root {
                len + 1
            } else {
                len
            },
        )
    };
    let parts = walk(start, &more);
    let mut r = dir.substring_char(0, len).to_owned();
    proof {
        assert(dir@.subrange(0, len as int) =~= dir@.take(len as int));
    }
    if parts.len() == 0 {
        if name_root || dir_root {
            r.append("\\");
        }
        return r;
    }
    let ghost lead = r@;
    let mut i: usize = 0;
    proof {
        assert(lead + written(texts(parts@), 0) =~= lead);
    }
    while i < parts.len()
        invariant
            i <= parts.len(),
            r@ == lead + written(texts(parts@), i as int),
        decreases parts.len() - i,
    {
        r.append("\\");
        r.append(parts[i].as_str());
        i = i + 1;
        proof {
            assert(texts(parts@)[i - 1] == parts@[i - 1]@);
            let before = written(texts(parts@), i - 1);
            assert(lead + (before + "\\"@ + parts@[i - 1]@) =~= lead + before + "\\"@ + parts@[i
                - 1]@);
        }
    }
    r
}

/// `name` below `dir`.
pub fn join(dir: &str, name: &str) -> (r: String)
    ensures
        r@ == joined(dir@, name@),
{
    let d = text::chars_of(dir);
    let n = text::chars_of(name);
    if path_prefix(&n).kind != PrefixKind::Absent {
        return name.to_owned();
    }
    let prefix = path_prefix(&d);
    if prefix.kind == PrefixKind::Verbatim && n.len() > 0 {
        return join_verbatim(dir, prefix.len, name);
    }
    if has_root(&n, 0) {
        proof {
            assert(dir@.subrange(0, prefix.len as int) =~= dir@.take(prefix.len as int));
        }
        return text::concat(dir.substring_char(0, prefix.len), name);
    }
    if d.len() == 0 || is_separator(d[d.len() - 1]) || (prefix.kind == PrefixKind::Drive && d.len()
        == 2) {
        text::concat(dir, name)
    } else {
        text::concat3(dir, "\\", name)
    }
}

/// A name with a drive stands for itself, whatever the directory.
pub proof fn drives_replace(dir: Seq<char>, name: Seq<char>)
    requires
        drive_at(name, 0),
    ensures
        joined(dir, name) == name,
{
}

/// A relative name is appended to its directory, behind a backslash unless the
/// directory ends with a separator or is a bare drive.
pub proof fn relative_names_are_appended(dir: Seq<char>, name: Seq<char>)
    requires
        dir.len() > 0,
        dir[0] != '\\' && dir[0] != '/',
        name.len() == 0 || (name[0] != '\\' && name[0] != '/'),
        name.len() < 2 || name[1] != ':',
    ensures
        dir.last() == '\\' || dir.last() == '/' ==> joined(dir, name) == dir + name,
        dir.len() == 2 && 0x41 <= dir[0] as int <= 0x5a && dir[1] == ':' ==> joined(dir, name)
            == dir + name,
        dir.last() != '\\' && dir.last() != '/' && (dir.len() != 2 || dir[1] != ':') ==> joined(
            dir,
            name,
        ) == dir.push('\\') + name,
        joined(Seq::empty(), name) == name,
{
    reveal_strlit("\\");
    assert("\\"@ =~= seq!['\\']);
    assert(dir + "\\"@ + name =~= dir.push('\\') + name);
    assert(Seq::<char>::empty() + name =~= name);
}

/// A name that begins at the root keeps the drive of its directory and nothing
/// else of it; without a drive it stands for itself.
pub proof fn rooted_names_keep_the_drive(dir: Seq<char>, name: Seq<char>)
    requires
        dir.len() > 0,
        dir[0] != '\\' && dir[0] != '/',
        name.len() > 0,
        name[0] == '\\' || name[0] == '/',
        name.len() == 1 || (name[1] != '\\' && name[1] != '/' && name[1] != ':'),
    ensures
        dir.len() >= 2 && (0x41 <= dir[0] as int <= 0x5a || 0x61 <= dir[0] as int <= 0x7a) && dir[1]
            == ':' ==> joined(dir, name) == seq![dir[0], ':'] + name,
        dir.len() < 2 || dir[1] != ':' ==> joined(dir, name) == name,
{
    if drive_at(dir, 0) {
        assert(dir.take(2) =~= seq![dir[0], ':']);
    }
    assert(dir.take(0) + name =~= name);
}

/// A name with a drive of its own replaces the directory.
pub proof fn other_drives_replace_the_directory(dir: Seq<char>, letter: char, rest: Seq<char>)
    requires
        0x41 <= letter as int <= 0x5a || 0x61 <= letter as int <= 0x7a,
    ensures
        joined(dir, seq![letter, ':'] + rest) == seq![letter, ':'] + rest,
{
    drives_replace(dir, seq![letter, ':'] + rest);
}

/// A part ends at the first separator behind its start.
proof fn part_ends_at(s: Seq<char>, verbatim: bool, from: int, to: int)
    requires
        0 <= from <= to <= s.len(),
        forall|i: int| from <= i < to ==> !parts_at(#[trigger] s[i], verbatim),
        to == s.len() || parts_at(s[to], verbatim),
    ensures
        part_end(s, verbatim, from) == to,
    decreases to - from,
{
    if from < to {
        assert(!parts_at(s[from], verbatim));
        part_ends_at(s, verbatim, from + 1, to);
    }
}

/// A network share is a prefix: as a name it replaces the directory, and as a
/// directory it is what a name that begins at the root keeps.
pub proof fn shares_are_prefixes(
    dir: Seq<char>,
    server: Seq<char>,
    share: Seq<char>,
    rest: Seq<char>,
    name: Seq<char>,
)
    requires
        server.len() > 0,
        server[0] != '?' && server[0] != '.',
        share.len() > 0,
        forall|i: int| 0 <= i < server.len() ==> (#[trigger] server[i]) != '\\' && server[i] != '/',
        forall|i: int| 0 <= i < share.len() ==> (#[trigger] share[i]) != '\\' && share[i] != '/',
        rest.len() == 0 || rest[0] == '\\' || rest[0] == '/',
        name.len() > 0,
        name[0] == '\\' || name[0] == '/',
        name.len() == 1 || (name[1] != '\\' && name[1] != '/' && name[1] != ':'),
        2 + server.len() + 1 + share.len() + rest.len() <= usize::MAX,
    ensures
        joined(dir, seq!['\\', '\\'] + server + seq!['\\'] + share + rest) == seq!['\\', '\\']
            + server + seq!['\\'] + share + rest,
        joined(seq!['\\', '\\'] + server + seq!['\\'] + share + rest, name) == seq!['\\', '\\']
            + server + seq!['\\'] + share + name,
{
    let front = seq!['\\', '\\'] + server + seq!['\\'] + share;
    let path = front + rest;
    let first = 2 + server.len() as int;
    let second = first + 1 + share.len() as int;
    assert(path[0] == '\\' && path[1] == '\\' && path[2] == server[0] && path[first] == '\\');
    assert forall|i: int| 2 <= i < first implies !parts_at(#[trigger] path[i], false) by {
        assert(path[i] == server[i - 2]);
    }
    assert forall|i: int| first + 1 <= i < second implies !parts_at(#[trigger] path[i], false) by {
        assert(path[i] == share[i - first - 1]);
    }
    if second < path.len() {
        assert(path[second] == rest[0]);
    }
    part_ends_at(path, false, 2, first);
    part_ends_at(path, false, first + 1, second);
    assert(prefix_of(path) == (Prefix { kind: PrefixKind::Named, len: second as usize }));
    assert(path.take(second) =~= front);
}

/// A double dot takes back the name before it; a name goes behind the others.
pub proof fn double_dots_take_back(parts: Seq<Seq<char>>, name: Seq<char>)
    requires
        name != "."@,
        name != ".."@,
    ensures
        walked(parts, seq![name], 0) == parts.push(name),
        walked(parts, seq![name, ".."@], 0) == parts,
        walked(Seq::empty(), seq![".."@], 0) == Seq::<Seq<char>>::empty(),
{
    reveal_with_fuel(walked, 3);
    assert(parts.push(name).drop_last() =~= parts);
}

/// A path without separators is one component.
proof fn one_component(s: Seq<char>, verbatim: bool, start: int, at: int)
    requires
        0 <= start <= at <= s.len(),
        forall|i: int| at <= i < s.len() ==> !parts_at(#[trigger] s[i], verbatim),
    ensures
        parts_from(s, verbatim, start, at) == one_part(s.subrange(start, s.len() as int), verbatim),
    decreases s.len() - at,
{
    if at < s.len() {
        assert(!parts_at(s[at], verbatim));
        one_component(s, verbatim, start, at + 1);
    }
}

/// Below a directory on a verbatim drive a name is appended behind a
/// backslash, and a double dot leads back to the drive's root.
pub proof fn verbatim_drives_resolve_dots(letter: char, sub: Seq<char>, name: Seq<char>)
    requires
        0x41 <= letter as int <= 0x5a || 0x61 <= letter as int <= 0x7a,
        sub.len() > 0,
        forall|i: int| 0 <= i < sub.len() ==> #[trigger] sub[i] != '\\' && sub[i] != '.',
        name.len() > 0,
        forall|i: int|
            0 <= i < name.len() ==> #[trigger] name[i] != '\\' && name[i] != '/' && name[i] != '.'
                && name[i] != ':',
    ensures
        joined(seq!['\\', '\\', '?', '\\', letter, ':', '\\'] + sub, name) == seq![
            '\\',
            '\\',
            '?',
            '\\',
            letter,
            ':',
            '\\',
        ] + sub + seq!['\\'] + name,
        joined(seq!['\\', '\\', '?', '\\', letter, ':', '\\'] + sub, ".."@) == seq![
            '\\',
            '\\',
            '?',
            '\\',
            letter,
            ':',
            '\\',
        ],
{
    reveal_strlit(".");
    reveal_strlit("..");
    reveal_strlit("\\");
    let head = seq!['\\', '\\', '?', '\\', letter, ':', '\\'];
    let drive = seq!['\\', '\\', '?', '\\', letter, ':'];
    let dir = head + sub;
    assert(dir[0] == '\\' && dir[1] == '\\' && dir[2] == '?' && dir[3] == '\\' && dir[4] == letter
        && dir[5] == ':' && dir[6] == '\\');
    assert(prefix_of(dir) == (Prefix { kind: PrefixKind::Verbatim, len: 6 }));
    assert(dir.take(6) =~= drive);
    assert(drive + "\\"@ =~= head);
    assert forall|i: int| 7 <= i < dir.len() implies !parts_at(#[trigger] dir[i], true) by {
        assert(dir[i] == sub[i - 7]);
    }
    one_component(dir, true, 7, 7);
    assert(dir.subrange(7, dir.len() as int) =~= sub);
    let start = parts_from(dir, true, 7, 7);
    assert(start =~= seq![sub]);
    assert(sub[0] != '.');
    assert(sub != "."@ && sub != ".."@) by {
        assert("."@[0] == '.' && ".."@[0] == '.');
    }
    assert(name != "."@ && name != ".."@) by {
        assert(name[0] != '.');
        assert("."@[0] == '.' && ".."@[0] == '.');
    }
    assert forall|i: int| 0 <= i < name.len() implies !parts_at(#[trigger] name[i], false) by {}
    one_component(name, false, 0, 0);
    assert(name.subrange(0, name.len() as int) =~= name);
    assert(parts_from(name, false, 0, 0) =~= seq![name]);
    reveal_with_fuel(walked, 3);
    reveal_with_fuel(written, 3);
    let both = seq![sub].push(name);
    assert(walked(seq![sub], seq![name], 0) == both);
    assert(drive + written(both, 2) =~= head + sub + seq!['\\'] + name);
    let up = ".."@;
    assert(up.len() == 2 && up[0] == '.' && up[1] == '.');
    one_component(up, false, 0, 0);
    assert(up.subrange(0, 2) =~= up);
    assert(up != "."@);
    assert(parts_from(up, false, 0, 0) =~= seq![up]);
    assert(seq![sub].drop_last() =~= Seq::<Seq<char>>::empty());
    assert(walked(seq![sub], seq![up], 0) =~= Seq::<Seq<char>>::empty());
}

/// A device and a verbatim path replace the directory.
pub proof fn devices_and_verbatim_paths_replace(dir: Seq<char>, rest: Seq<char>)
    ensures
        joined(dir, seq!['\\', '\\', '.', '\\'] + rest) == seq!['\\', '\\', '.', '\\'] + rest,
        joined(dir, seq!['\\', '\\', '?', '\\'] + rest) == seq!['\\', '\\', '?', '\\'] + rest,
{
    let device = seq!['\\', '\\', '.', '\\'] + rest;
    let verbatim = seq!['\\', '\\', '?', '\\'] + rest;
    assert(device[0] == '\\' && device[1] == '\\' && device[2] == '.' && device[3] == '\\');
    assert(verbatim[0] == '\\' && verbatim[1] == '\\' && verbatim[2] == '?' && verbatim[3] == '\\');
}

/// A server without a share is no prefix: such a name keeps the drive of its
/// directory.
pub proof fn servers_without_shares_are_rooted(dir: Seq<char>, server: Seq<char>)
    requires
        dir.len() >= 2,
        0x41 <= dir[0] as int <= 0x5a || 0x61 <= dir[0] as int <= 0x7a,
        dir[1] == ':',
        server.len() > 0,
        server[0] != '?' && server[0] != '.',
        forall|i: int| 0 <= i < server.len() ==> (#[trigger] server[i]) != '\\' && server[i] != '/',
    ensures
        joined(dir, seq!['\\', '\\'] + server) == seq![dir[0], ':', '\\', '\\'] + server,
        joined(dir, seq!['\\', '\\'] + server + seq!['\\']) == seq![dir[0], ':', '\\', '\\']
            + server + seq!['\\'],
{
    let bare = seq!['\\', '\\'] + server;
    let ended = bare + seq!['\\'];
    let n = bare.len() as int;
    assert forall|i: int| 2 <= i < n implies !parts_at(#[trigger] bare[i], false) by {
        assert(bare[i] == server[i - 2]);
    }
    assert forall|i: int| 2 <= i < n implies !parts_at(#[trigger] ended[i], false) by {
        assert(ended[i] == server[i - 2]);
    }
    assert(bare[2] == server[0] && ended[2] == server[0] && ended[n] == '\\');
    part_ends_at(bare, false, 2, n);
    part_ends_at(ended, false, 2, n);
    part_ends_at(ended, false, n + 1, n + 1);
    assert(dir.take(2) =~= seq![dir[0], ':']);
    assert(seq![dir[0], ':'] + bare =~= seq![dir[0], ':', '\\', '\\'] + server);
    assert(seq![dir[0], ':'] + ended =~= seq![dir[0], ':', '\\', '\\'] + server + seq!['\\']);
}

/// Below a verbatim volume a name is appended behind a backslash; the volume
/// reaches to the next backslash, whatever other slashes it holds.
pub proof fn verbatim_volumes_take_names(volume: Seq<char>, name: Seq<char>)
    requires
        volume.len() > 0,
        volume.len() < 0xFFFF,
        volume.len() < 2 || volume[1] != ':',
        volume[0] != 'U',
        forall|i: int| 0 <= i < volume.len() ==> #[trigger] volume[i] != '\\',
        name.len() > 0,
        forall|i: int|
            0 <= i < name.len() ==> #[trigger] name[i] != '\\' && name[i] != '/' && name[i] != '.'
                && name[i] != ':',
    ensures
        joined(seq!['\\', '\\', '?', '\\'] + volume, name) == seq!['\\', '\\', '?', '\\']
            + volume + seq!['\\'] + name,
        joined(seq!['\\', '\\', '?', '\\'] + volume, seq!['\\'] + name) == seq![
            '\\',
            '\\',
            '?',
            '\\',
        ] + volume + seq!['\\'] + name,
{
    reveal_strlit(".");
    reveal_strlit("..");
    reveal_strlit("\\");
    let dir = seq!['\\', '\\', '?', '\\'] + volume;
    let n = dir.len() as int;
    assert(dir[0] == '\\' && dir[1] == '\\' && dir[2] == '?' && dir[3] == '\\' && dir[4]
        == volume[0]);
    if volume.len() >= 2 {
        assert(dir[5] == volume[1]);
    }
    assert forall|i: int| 4 <= i < n implies !parts_at(#[trigger] dir[i], true) by {
        assert(dir[i] == volume[i - 4]);
    }
    part_ends_at(dir, true, 4, n);
    assert(prefix_of(dir) == (Prefix { kind: PrefixKind::Verbatim, len: n as usize }));
    assert(dir.take(n) =~= dir);
    one_component(dir, true, n, n);
    assert(dir.subrange(n, n).len() == 0);
    plain_names_are_written(dir, name);
    let rooted_name = seq!['\\'] + name;
    assert(rooted_name[0] == '\\' && rooted_name[1] == name[0]);
    assert forall|i: int| 1 <= i < rooted_name.len() implies !parts_at(
        #[trigger] rooted_name[i],
        false,
    ) by {
        assert(rooted_name[i] == name[i - 1]);
    }
    one_component(rooted_name, false, 1, 1);
    assert(rooted_name.subrange(1, rooted_name.len() as int) =~= name);
    assert forall|i: int| 0 <= i < name.len() implies !parts_at(#[trigger] name[i], false) by {}
    one_component(name, false, 0, 0);
    assert(name.subrange(0, name.len() as int) =~= name);
}

/// A plain name is one component, and is written behind a backslash.
proof fn plain_names_are_written(lead: Seq<char>, name: Seq<char>)
    requires
        name.len() > 0,
        name[0] != '.',
    ensures
        one_part(name, false) == seq![name],
        walked(Seq::empty(), seq![name], 0) == seq![name],
        lead + written(seq![name], 1) == lead + seq!['\\'] + name,
{
    reveal_strlit(".");
    reveal_strlit("..");
    reveal_strlit("\\");
    assert("."@[0] == '.' && ".."@[0] == '.');
    reveal_with_fuel(walked, 3);
    reveal_with_fuel(written, 3);
    assert(Seq::<Seq<char>>::empty().push(name) =~= seq![name]);
    assert(lead + written(seq![name], 1) =~= lead + seq!['\\'] + name);
}

/// A share without a server is no prefix either.
pub proof fn shares_without_servers_are_rooted(dir: Seq<char>, rest: Seq<char>)
    requires
        dir.len() >= 2,
        0x41 <= dir[0] as int <= 0x5a || 0x61 <= dir[0] as int <= 0x7a,
        dir[1] == ':',
    ensures
        joined(dir, seq!['\\', '\\', '\\'] + rest) == seq![dir[0], ':', '\\', '\\', '\\']
            + rest,
{
    let name = seq!['\\', '\\', '\\'] + rest;
    assert(name[0] == '\\' && name[1] == '\\' && name[2] == '\\');
    part_ends_at(name, false, 2, 2);
    assert(dir.take(2) =~= seq![dir[0], ':']);
    assert(seq![dir[0], ':'] + name =~= seq![dir[0], ':', '\\', '\\', '\\'] + rest);
}

/// A name that begins at the root keeps the server and the share of a verbatim
/// directory, and nothing below them.
pub proof fn verbatim_shares_keep_the_share(
    server: Seq<char>,
    share: Seq<char>,
    rest: Seq<char>,
    name: Seq<char>,
)
    requires
        share.len() > 0,
        forall|i: int| 0 <= i < server.len() ==> #[trigger] server[i] != '\\',
        forall|i: int| 0 <= i < share.len() ==> #[trigger] share[i] != '\\',
        rest.len() == 0 || rest[0] == '\\',
        name.len() > 0,
        forall|i: int|
            0 <= i < name.len() ==> #[trigger] name[i] != '\\' && name[i] != '/' && name[i] != '.'
                && name[i] != ':',
        9 + server.len() + share.len() <= 0xFFFF,
    ensures
        joined(
            seq!['\\', '\\', '?', '\\', 'U', 'N', 'C', '\\'] + server + seq!['\\'] + share + rest,
            seq!['\\'] + name,
        ) == seq!['\\', '\\', '?', '\\', 'U', 'N', 'C', '\\'] + server + seq!['\\'] + share
            + seq!['\\'] + name,
{
    let front = seq!['\\', '\\', '?', '\\', 'U', 'N', 'C', '\\'] + server + seq!['\\'] + share;
    let dir = front + rest;
    let first = 8 + server.len() as int;
    let second = first + 1 + share.len() as int;
    assert(dir[0] == '\\' && dir[1] == '\\' && dir[2] == '?' && dir[3] == '\\' && dir[4] == 'U'
        && dir[5] == 'N' && dir[6] == 'C' && dir[7] == '\\' && dir[first] == '\\');
    assert forall|i: int| 8 <= i < first implies !parts_at(#[trigger] dir[i], true) by {
        assert(dir[i] == server[i - 8]);
    }
    assert forall|i: int| first + 1 <= i < second implies !parts_at(#[trigger] dir[i], true) by {
        assert(dir[i] == share[i - first - 1]);
    }
    if second < dir.len() {
        assert(dir[second] == rest[0]);
    }
    part_ends_at(dir, true, 8, first);
    part_ends_at(dir, true, first + 1, second);
    assert(prefix_of(dir) == (Prefix { kind: PrefixKind::Verbatim, len: second as usize }));
    assert(dir.take(second) =~= front);
    let rooted_name = seq!['\\'] + name;
    assert(rooted_name[0] == '\\' && rooted_name[1] == name[0]);
    assert forall|i: int| 1 <= i < rooted_name.len() implies !parts_at(
        #[trigger] rooted_name[i],
        false,
    ) by {
        assert(rooted_name[i] == name[i - 1]);
    }
    one_component(rooted_name, false, 1, 1);
    assert(rooted_name.subrange(1, rooted_name.len() as int) =~= name);
    plain_names_are_written(front, name);
}

} // verus!
