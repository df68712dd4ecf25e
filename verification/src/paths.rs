//! File paths as texts, joined as the platform has it.

use vstd::prelude::*;

use crate::text;
use crate::types::Platform;
use crate::windows;

verus! {

/// `name` below `dir`; an absolute `name` stands for itself. On Windows paths
/// have drives and backslashes, elsewhere `/` stands between components.
pub open spec fn joined(platform: Platform, dir: Seq<char>, name: Seq<char>) -> Seq<char> {
    if platform == Platform::Windows {
        windows::joined(dir, name)
    } else if text::begins_with(name, "/"@) || dir.len() == 0 {
        name
    } else if text::finishes_with(dir, "/"@) {
        dir + name
    } else {
        dir + "/"@ + name
    }
}

/// `name` below `dir`; an absolute `name` stands for itself.
pub fn join_path(platform: Platform, dir: &str, name: &str) -> (r: String)
    ensures
        r@ == joined(platform, dir@, name@),
{
    if platform == Platform::Windows {
        windows::join(dir, name)
    } else if text::starts_with(name, "/") || dir.is_empty() {
        name.to_owned()
    } else if text::ends_with(dir, "/") {
        text::concat(dir, name)
    } else {
        text::concat3(dir, "/", name)
    }
}

/// A path lies at or below another: its components begin with those of the other.
pub open spec fn below(file: Seq<Seq<u8>>, base: Seq<Seq<u8>>) -> bool {
    base.len() <= file.len() && file.take(base.len() as int) =~= base
}

/// The bytes of each component.
pub open spec fn components(path: Seq<Vec<u8>>) -> Seq<Seq<u8>> {
    path.map_values(|c: Vec<u8>| c@)
}

/// Whether two components hold the same bytes.
fn same_bytes(a: &Vec<u8>, b: &Vec<u8>) -> (r: bool)
    ensures
        r == (a@ == b@),
{
    if a.len() != b.len() {
        return false;
    }
    let mut i: usize = 0;
    while i < a.len()
        invariant
            i <= a.len(),
            a.len() == b.len(),
            forall|j: int| 0 <= j < i ==> a@[j] == b@[j],
        decreases a.len() - i,
    {
        if a[i] != b[i] {
            return false;
        }
        i = i + 1;
    }
    assert(a@ =~= b@);
    true
}

/// Whether a file lies at or below a directory: every component of the
/// directory's path begins the file's path.
pub fn is_below(file: &Vec<Vec<u8>>, base: &Vec<Vec<u8>>) -> (r: bool)
    ensures
        r == below(components(file@), components(base@)),
{
    if base.len() > file.len() {
        return false;
    }
    let ghost f = components(file@);
    let ghost b = components(base@);
    let mut i: usize = 0;
    while i < base.len()
        invariant
            i <= base.len() <= file.len(),
            f == components(file@),
            b == components(base@),
            forall|j: int| 0 <= j < i ==> f[j] == b[j],
        decreases base.len() - i,
    {
        if !same_bytes(&file[i], &base[i]) {
            assert(f.take(b.len() as int)[i as int] != b[i as int]);
            return false;
        }
        i = i + 1;
    }
    true
}

/// A path below a directory that lies below another lies below that one too.
pub proof fn below_is_transitive(a: Seq<Seq<u8>>, b: Seq<Seq<u8>>, c: Seq<Seq<u8>>)
    requires
        below(a, b),
        below(b, c),
    ensures
        below(a, c),
{
    assert(a.take(c.len() as int) =~= a.take(b.len() as int).take(c.len() as int));
}

/// A relative name is appended to its directory, behind one slash; an absolute
/// one stands for itself.
pub proof fn relative_names_are_appended(platform: Platform, dir: Seq<char>, name: Seq<char>)
    requires
        platform != Platform::Windows,
        dir.len() > 0,
    ensures
        (name.len() == 0 || name[0] != '/') && dir.last() != '/' ==> joined(platform, dir, name)
            == dir.push('/') + name,
        (name.len() == 0 || name[0] != '/') && dir.last() == '/' ==> joined(platform, dir, name)
            == dir + name,
        name.len() > 0 && name[0] == '/' ==> joined(platform, dir, name) == name,
        joined(platform, Seq::empty(), name) == name,
{
    reveal_strlit("/");
    assert("/"@ =~= seq!['/']);
    let last = dir.subrange(dir.len() - 1, dir.len() as int);
    assert(last[0] == dir.last());
    if dir.last() == '/' {
        assert(last =~= "/"@);
    }
    if name.len() > 0 {
        let first = name.subrange(0, 1);
        assert(first[0] == name[0]);
        if name[0] == '/' {
            assert(first =~= "/"@);
        }
    }
    assert(dir + "/"@ + name =~= dir.push('/') + name);
}

/// A path lies at or below another exactly where it begins with each of the
/// other's components, in their places.
pub proof fn below_means_the_same_start(file: Seq<Seq<u8>>, base: Seq<Seq<u8>>)
    ensures
        below(file, base) <==> base.len() <= file.len() && forall|i: int|
            0 <= i < base.len() ==> #[trigger] file[i] == base[i],
{
    if base.len() <= file.len() {
        let front = file.take(base.len() as int);
        if front == base {
            assert forall|i: int| 0 <= i < base.len() implies #[trigger] file[i] == base[i] by {
                assert(front[i] == base[i]);
            }
        }
    }
}

/// On Windows a name goes behind a backslash, on the drive of its directory.
pub proof fn windows_names_go_behind_a_backslash(letter: char, dir: Seq<char>, name: Seq<char>)
    requires
        0x41 <= letter as int <= 0x5a || 0x61 <= letter as int <= 0x7a,
        dir.len() > 0,
        dir.last() != '\\' && dir.last() != '/',
        name.len() == 0 || (name[0] != '\\' && name[0] != '/'),
        name.len() < 2 || name[1] != ':',
    ensures
        joined(Platform::Windows, seq![letter, ':'] + dir, name) == (seq![letter, ':'] + dir).push(
            '\\',
        ) + name,
{
    let whole = seq![letter, ':'] + dir;
    assert(whole.last() == dir.last());
    windows::relative_names_are_appended(whole, name);
}

} // verus!
