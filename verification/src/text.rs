//! Text as a sequence of characters: searching, trimming, joining and
//! decimal numbers.

use vstd::prelude::*;
use vstd::string::*;

verus! {

/// `pat` stands in `s` at position `i`.
pub open spec fn occurs_at(s: Seq<char>, pat: Seq<char>, i: int) -> bool {
    &&& 0 <= i
    &&& i + pat.len() <= s.len()
    &&& s.subrange(i, i + pat.len()) =~= pat
}

/// `pat` stands somewhere in `s`.
pub open spec fn has_text(s: Seq<char>, pat: Seq<char>) -> bool {
    exists|i: int| occurs_at(s, pat, i)
}

/// `pat` is a prefix of `s`.
pub open spec fn begins_with(s: Seq<char>, pat: Seq<char>) -> bool {
    occurs_at(s, pat, 0)
}

/// `pat` is a suffix of `s`.
pub open spec fn finishes_with(s: Seq<char>, pat: Seq<char>) -> bool {
    occurs_at(s, pat, s.len() - pat.len())
}

/// The first position at or after `from` where `pat` stands in `s`.
pub open spec fn find_from(s: Seq<char>, pat: Seq<char>, from: int) -> Option<int>
    decreases s.len() - from,
{
    if from + pat.len() > s.len() {
        None
    } else if occurs_at(s, pat, from) {
        Some(from)
    } else if from >= s.len() {
        None
    } else {
        find_from(s, pat, from + 1)
    }
}

/// The first position at or after `from` that holds `c`, or the length of `s`.
pub open spec fn position_of(s: Seq<char>, c: char, from: int) -> int
    decreases s.len() - from,
{
    if from >= s.len() {
        s.len() as int
    } else if s[from] == c {
        from
    } else {
        position_of(s, c, from + 1)
    }
}

/// What is left of the first `n` characters once every `c` at their end is dropped.
pub open spec fn end_without(s: Seq<char>, c: char, n: int) -> int
    decreases n,
{
    if n > 0 && s[n - 1] == c {
        end_without(s, c, n - 1)
    } else {
        n
    }
}

/// The first position at or after `from` that does not hold `c`.
pub open spec fn start_without(s: Seq<char>, c: char, from: int) -> int
    decreases s.len() - from,
{
    if from < s.len() && s[from] == c {
        start_without(s, c, from + 1)
    } else {
        from
    }
}

/// `s` without the run of `c` at its end.
pub open spec fn trim_end_of(s: Seq<char>, c: char) -> Seq<char> {
    s.take(end_without(s, c, s.len() as int))
}

/// `s` without the run of `c` at its start.
pub open spec fn trim_start_of(s: Seq<char>, c: char) -> Seq<char> {
    s.skip(start_without(s, c, 0))
}

/// `s` without the runs of `c` at both ends.
pub open spec fn trim_both_of(s: Seq<char>, c: char) -> Seq<char> {
    trim_start_of(trim_end_of(s, c), c)
}

/// The characters with the Unicode property `White_Space`.
pub open spec fn is_white(c: char) -> bool {
    ||| 0x9 <= c as int <= 0xd
    ||| c as int == 0x20
    ||| c as int == 0x85
    ||| c as int == 0xa0
    ||| c as int == 0x1680
    ||| 0x2000 <= c as int <= 0x200a
    ||| c as int == 0x2028
    ||| c as int == 0x2029
    ||| c as int == 0x202f
    ||| c as int == 0x205f
    ||| c as int == 0x3000
}

/// What is left of the first `n` characters once the white space at their end is dropped.
pub open spec fn end_before_white(s: Seq<char>, n: int) -> int
    decreases n,
{
    if n > 0 && is_white(s[n - 1]) {
        end_before_white(s, n - 1)
    } else {
        n
    }
}

/// The first position at or after `from` that holds no white space.
pub open spec fn start_after_white(s: Seq<char>, from: int) -> int
    decreases s.len() - from,
{
    if from < s.len() && is_white(s[from]) {
        start_after_white(s, from + 1)
    } else {
        from
    }
}

/// `s` without white space at its ends.
pub open spec fn trimmed(s: Seq<char>) -> Seq<char> {
    let front = s.take(end_before_white(s, s.len() as int));
    front.skip(start_after_white(front, 0))
}

/// `s` after the prefix `pat`, if it has that prefix.
pub open spec fn after_prefix(s: Seq<char>, pat: Seq<char>) -> Option<Seq<char>> {
    if begins_with(s, pat) {
        Some(s.skip(pat.len() as int))
    } else {
        None
    }
}

/// An ASCII capital letter becomes the small one; every other character stays.
pub open spec fn ascii_lower(c: char) -> char {
    if 'A' <= c && c <= 'Z' {
        ((c as u32) + 32) as u32 as char
    } else {
        c
    }
}

/// `s` with its ASCII letters in lower case.
pub open spec fn lower(s: Seq<char>) -> Seq<char> {
    s.map_values(|c: char| ascii_lower(c))
}

/// The decimal digit of a number below ten.
pub open spec fn digit(d: nat) -> char {
    (0x30 + d) as u32 as char
}

/// A number in decimal, without leading zeros.
pub open spec fn decimal(n: nat) -> Seq<char>
    decreases n,
{
    if n < 10 {
        seq![digit(n)]
    } else {
        decimal(n / 10).push(digit(n % 10))
    }
}

/// Appends one character.
///
/// Specifies `String::push`. Trusted: the text grows by that character at its
/// end.
pub assume_specification[ String::push ](s: &mut String, c: char)
    ensures
        final(s)@ == old(s)@.push(c),
;

/// The characters of a text.
pub fn chars_of(s: &str) -> (v: Vec<char>)
    ensures
        v@ == s@,
{
    let mut v: Vec<char> = Vec::new();
    for c in it: s.chars()
        invariant
            it.seq() == s@,
            v@ == s@.take(it.index()),
    {
        proof {
            assert(s@.take(it.index() + 1) =~= s@.take(it.index()).push(s@[it.index()]));
        }
        v.push(c);
    }
    proof {
        assert(s@.take(s@.len() as int) =~= s@);
    }
    v
}

/// Whether `pat` stands in `s` at position `at`.
pub fn matches_at(s: &Vec<char>, pat: &Vec<char>, at: usize) -> (r: bool)
    ensures
        r == occurs_at(s@, pat@, at as int),
{
    if pat.len() > s.len() || at > s.len() - pat.len() {
        return false;
    }
    let mut i: usize = 0;
    while i < pat.len()
        invariant
            i <= pat.len(),
            at + pat.len() <= s.len(),
            forall|j: int| 0 <= j < i ==> s@[at + j] == pat@[j],
        decreases pat.len() - i,
    {
        if s[at + i] != pat[i] {
            assert(s@.subrange(at as int, at + pat@.len())[i as int] != pat@[i as int]);
            return false;
        }
        i = i + 1;
    }
    true
}

/// The first position at or after `from` where `pat` stands in `s`.
pub fn find_chars(s: &Vec<char>, pat: &Vec<char>, from: usize) -> (r: Option<usize>)
    ensures
        match r {
            Some(i) => find_from(s@, pat@, from as int) == Some(i as int),
            None => find_from(s@, pat@, from as int) is None,
        },
{
    let mut i: usize = from;
    while i <= s.len() && pat.len() <= s.len() - i
        invariant
            from <= i,
            find_from(s@, pat@, from as int) == find_from(s@, pat@, i as int),
        decreases s.len() + 1 - i,
    {
        if matches_at(s, pat, i) {
            return Some(i);
        }
        if i == s.len() {
            return None;
        }
        i = i + 1;
    }
    None
}

/// A search finds a position exactly where the text occurs at or after the start.
pub proof fn find_from_finds(s: Seq<char>, pat: Seq<char>, from: int)
    requires
        0 <= from,
    ensures
        match find_from(s, pat, from) {
            Some(i) => {
                &&& from <= i
                &&& occurs_at(s, pat, i)
                &&& forall|j: int| from <= j < i ==> !occurs_at(s, pat, j)
            },
            None => forall|j: int| from <= j ==> !occurs_at(s, pat, j),
        },
    decreases s.len() - from,
{
    if from + pat.len() <= s.len() && !occurs_at(s, pat, from) && from < s.len() {
        find_from_finds(s, pat, from + 1);
    }
}

/// The first place of a text is the one with none of it before.
pub proof fn first_occurrence_is_found(a: Seq<char>, pat: Seq<char>, b: Seq<char>)
    requires
        forall|j: int| 0 <= j < a.len() ==> !occurs_at(a + pat + b, pat, j),
    ensures
        find_from(a + pat + b, pat, 0) == Some(a.len() as int),
{
    placed_texts_occur(a, pat, b);
    first_match_is_found(a + pat + b, pat, 0, a.len() as int);
}

/// The search runs to the first place where the text stands.
proof fn first_match_is_found(s: Seq<char>, pat: Seq<char>, from: int, to: int)
    requires
        0 <= from <= to,
        to + pat.len() <= s.len(),
        forall|j: int| from <= j < to ==> !occurs_at(s, pat, j),
        occurs_at(s, pat, to),
    ensures
        find_from(s, pat, from) == Some(to),
    decreases to - from,
{
    if from < to {
        assert(!occurs_at(s, pat, from));
        first_match_is_found(s, pat, from + 1, to);
    }
}

/// Whether `pat` stands somewhere in `s`.
pub fn contains_text(s: &str, pat: &str) -> (r: bool)
    ensures
        r == has_text(s@, pat@),
{
    proof {
        find_from_finds(s@, pat@, 0);
    }
    find_chars(&chars_of(s), &chars_of(pat), 0).is_some()
}

/// Whether `s` begins with `pat`.
pub fn starts_with(s: &str, pat: &str) -> (r: bool)
    ensures
        r == begins_with(s@, pat@),
{
    matches_at(&chars_of(s), &chars_of(pat), 0)
}

/// Whether `s` ends with `pat`.
pub fn ends_with(s: &str, pat: &str) -> (r: bool)
    ensures
        r == finishes_with(s@, pat@),
{
    let a = chars_of(s);
    let b = chars_of(pat);
    if b.len() > a.len() {
        return false;
    }
    matches_at(&a, &b, a.len() - b.len())
}

/// Whether two texts hold the same characters.
pub fn same_text(a: &str, b: &str) -> (r: bool)
    ensures
        r == (a@ == b@),
{
    let x = chars_of(a);
    let y = chars_of(b);
    if x.len() != y.len() {
        return false;
    }
    let r = matches_at(&x, &y, 0);
    proof {
        assert(x@.subrange(0, x@.len() as int) =~= x@);
    }
    r
}

/// The first position at or after `from` that holds `c`, or the length of `s`.
pub fn position_in(s: &Vec<char>, c: char, from: usize) -> (r: usize)
    requires
        from <= s.len(),
    ensures
        r == position_of(s@, c, from as int),
        from <= r <= s.len(),
{
    let mut i: usize = from;
    while i < s.len() && s[i] != c
        invariant
            from <= i <= s.len(),
            position_of(s@, c, from as int) == position_of(s@, c, i as int),
        decreases s.len() - i,
    {
        i = i + 1;
    }
    i
}

/// `s` without the run of `c` at its end.
pub fn trim_end<'a>(s: &'a str, c: char) -> (r: &'a str)
    ensures
        r@ == trim_end_of(s@, c),
{
    let v = chars_of(s);
    let mut n: usize = v.len();
    while n > 0 && v[n - 1] == c
        invariant
            n <= v.len(),
            v@ == s@,
            end_without(s@, c, s@.len() as int) == end_without(s@, c, n as int),
        decreases n,
    {
        n = n - 1;
    }
    s.substring_char(0, n)
}

/// `s` without the run of `c` at its start.
pub fn trim_start<'a>(s: &'a str, c: char) -> (r: &'a str)
    ensures
        r@ == trim_start_of(s@, c),
{
    let v = chars_of(s);
    let mut n: usize = 0;
    while n < v.len() && v[n] == c
        invariant
            n <= v.len(),
            v@ == s@,
            start_without(s@, c, 0) == start_without(s@, c, n as int),
        decreases v.len() - n,
    {
        n = n + 1;
    }
    s.substring_char(n, v.len())
}

/// Whether a character is white space.
pub fn is_whitespace(c: char) -> (r: bool)
    ensures
        r == is_white(c),
{
    let u = c as u32;
    (0x9 <= u && u <= 0xd) || u == 0x20 || u == 0x85 || u == 0xa0 || u == 0x1680 || (0x2000 <= u
        && u <= 0x200a) || u == 0x2028 || u == 0x2029 || u == 0x202f || u == 0x205f || u == 0x3000
}

/// `s` without white space at its ends.
pub fn trim<'a>(s: &'a str) -> (r: &'a str)
    ensures
        r@ == trimmed(s@),
{
    let v = chars_of(s);
    let mut n: usize = v.len();
    while n > 0 && is_whitespace(v[n - 1])
        invariant
            n <= v.len(),
            v@ == s@,
            end_before_white(s@, s@.len() as int) == end_before_white(s@, n as int),
        decreases n,
    {
        n = n - 1;
    }
    let ghost front = s@.take(n as int);
    let mut m: usize = 0;
    while m < n && is_whitespace(v[m])
        invariant
            m <= n <= v.len(),
            v@ == s@,
            front == s@.take(n as int),
            start_after_white(front, 0) == start_after_white(front, m as int),
        decreases n - m,
    {
        m = m + 1;
    }
    proof {
        assert(front.skip(m as int) =~= s@.subrange(m as int, n as int));
    }
    s.substring_char(m, n)
}

/// `s` after the prefix `pat`, if it has that prefix.
pub fn strip_prefix<'a>(s: &'a str, pat: &str) -> (r: Option<&'a str>)
    ensures
        match r {
            Some(rest) => after_prefix(s@, pat@) == Some(rest@),
            None => after_prefix(s@, pat@) is None,
        },
{
    let a = chars_of(s);
    let b = chars_of(pat);
    if matches_at(&a, &b, 0) {
        Some(s.substring_char(b.len(), a.len()))
    } else {
        None
    }
}

/// Two texts, one after the other.
pub fn concat(a: &str, b: &str) -> (r: String)
    ensures
        r@ == a@ + b@,
{
    let mut r = a.to_owned();
    r.append(b);
    r
}

/// Three texts, one after the other.
pub fn concat3(a: &str, b: &str, c: &str) -> (r: String)
    ensures
        r@ == a@ + b@ + c@,
{
    let mut r = a.to_owned();
    r.append(b);
    r.append(c);
    r
}

/// An ASCII capital letter becomes the small one; every other character stays.
fn lower_char(c: char) -> (r: char)
    ensures
        r == ascii_lower(c),
{
    if 'A' <= c && c <= 'Z' {
        ((c as u8) + 32) as char
    } else {
        c
    }
}

/// `s` with its ASCII letters in lower case.
pub fn lower_text(s: &str) -> (r: String)
    ensures
        r@ == lower(s@),
{
    let v = chars_of(s);
    let mut r = String::new();
    let mut i: usize = 0;
    while i < v.len()
        invariant
            i <= v.len(),
            v@ == s@,
            r@ == lower(s@).take(i as int),
        decreases v.len() - i,
    {
        r.push(lower_char(v[i]));
        i = i + 1;
        proof {
            assert(lower(s@).take(i as int) =~= lower(s@).take(i - 1).push(lower(s@)[i - 1]));
        }
    }
    proof {
        assert(lower(s@).take(i as int) =~= lower(s@));
    }
    r
}

/// A number in decimal, without leading zeros.
pub fn decimal_text(n: u64) -> (r: String)
    ensures
        r@ == decimal(n as nat),
    decreases n,
{
    let mut r = if n < 10 {
        String::new()
    } else {
        decimal_text(n / 10)
    };
    r.push((0x30 + (n % 10) as u8) as char);
    proof {
        if n < 10 {
            assert(r@ =~= seq![digit(n as nat)]);
        }
    }
    r
}

/// How many bytes a text has in UTF-8.
pub fn byte_length(s: &str) -> (r: usize)
    ensures
        r == vstd::utf8::encode_utf8(s@).len(),
{
    s.as_bytes().len()
}

/// How often a character stands in the first `n` characters of a text.
pub open spec fn count_of(s: Seq<char>, c: char, n: int) -> nat
    decreases n,
{
    if n <= 0 {
        0
    } else if s[n - 1] == c {
        count_of(s, c, n - 1) + 1
    } else {
        count_of(s, c, n - 1)
    }
}

/// How often a character stands in a text.
pub fn count_char(s: &Vec<char>, c: char) -> (r: usize)
    ensures
        r == count_of(s@, c, s@.len() as int),
{
    let mut n: usize = 0;
    let mut i: usize = 0;
    while i < s.len()
        invariant
            n <= i <= s.len(),
            n == count_of(s@, c, i as int),
        decreases s.len() - i,
    {
        if s[i] == c {
            n = n + 1;
        }
        i = i + 1;
    }
    n
}

/// A text stands where it was put.
pub proof fn placed_texts_occur(a: Seq<char>, pat: Seq<char>, b: Seq<char>)
    ensures
        occurs_at(a + pat + b, pat, a.len() as int),
        has_text(a + pat + b, pat),
        begins_with(pat + b, pat),
        finishes_with(a + pat, pat),
        after_prefix(pat + b, pat) == Some(b),
{
    let s = a + pat + b;
    assert(s.subrange(a.len() as int, (a.len() + pat.len()) as int) =~= pat);
    assert((pat + b).subrange(0, pat.len() as int) =~= pat);
    assert((a + pat).subrange(a.len() as int, (a.len() + pat.len()) as int) =~= pat);
    assert((pat + b).skip(pat.len() as int) =~= b);
    assert(occurs_at(s, pat, a.len() as int));
}

/// Where a text stands in another, the other is made up of what comes before,
/// the text itself, and what comes after.
pub proof fn occurring_texts_were_placed(s: Seq<char>, pat: Seq<char>, i: int)
    ensures
        occurs_at(s, pat, i) ==> 0 <= i && i + pat.len() <= s.len() && s == s.take(i) + pat
            + s.skip(i + pat.len()),
        begins_with(s, pat) <==> pat.len() <= s.len() && s == pat + s.skip(pat.len() as int),
        finishes_with(s, pat) <==> pat.len() <= s.len() && s == s.take(s.len() - pat.len()) + pat,
        after_prefix(s, pat) matches Some(rest) ==> s == pat + rest,
{
    if occurs_at(s, pat, i) {
        assert(s =~= s.take(i) + s.subrange(i, i + pat.len()) + s.skip(i + pat.len()));
    }
    if pat.len() <= s.len() {
        let n = pat.len() as int;
        let front = s.subrange(0, n);
        let back = s.subrange(s.len() - n, s.len() as int);
        assert(s =~= front + s.skip(n));
        assert(s =~= s.take(s.len() - n) + back);
        if s == pat + s.skip(n) {
            assert(front =~= pat);
        }
        if s == s.take(s.len() - n) + pat {
            assert(back =~= pat);
        }
    }
}

/// The first place of a character is the one with none of it before.
pub proof fn first_position_is_found(a: Seq<char>, c: char, b: Seq<char>)
    requires
        !a.contains(c),
    ensures
        position_of(a.push(c) + b, c, 0) == a.len(),
        position_of(a, c, 0) == a.len(),
{
    no_position_before(a, a, c, 0);
    no_position_before(a.push(c) + b, a, c, 0);
    assert((a.push(c) + b)[a.len() as int] == c);
}

/// The search passes over a text that lacks the character.
proof fn no_position_before(s: Seq<char>, a: Seq<char>, c: char, from: int)
    requires
        0 <= from <= a.len() <= s.len(),
        forall|i: int| 0 <= i < a.len() ==> s[i] == a[i],
        !a.contains(c),
    ensures
        position_of(s, c, from) == position_of(s, c, a.len() as int),
    decreases a.len() - from,
{
    if from < a.len() {
        assert(a.contains(a[from]));
        no_position_before(s, a, c, from + 1);
    }
}

/// A run of a character at the end of a text is dropped, and nothing else.
pub proof fn trailing_runs_are_dropped(s: Seq<char>, run: Seq<char>, c: char)
    requires
        s.len() == 0 || s.last() != c,
        forall|i: int| 0 <= i < run.len() ==> run[i] == c,
    ensures
        trim_end_of(s + run, c) == s,
{
    run_ends_at(s, run, c, (s.len() + run.len()) as int);
    assert((s + run).take(s.len() as int) =~= s);
}

/// A run of a character ends where the text before it does.
proof fn run_ends_at(s: Seq<char>, run: Seq<char>, c: char, n: int)
    requires
        s.len() == 0 || s.last() != c,
        forall|i: int| 0 <= i < run.len() ==> run[i] == c,
        s.len() <= n <= s.len() + run.len(),
    ensures
        end_without(s + run, c, n) == s.len(),
    decreases n,
{
    if n > s.len() {
        assert((s + run)[n - 1] == run[n - 1 - s.len()]);
        run_ends_at(s, run, c, n - 1);
    } else if n > 0 {
        assert((s + run)[n - 1] == s.last());
    }
}

/// A run of a character at the start of a text is dropped, and nothing else.
pub proof fn leading_runs_are_dropped(run: Seq<char>, s: Seq<char>, c: char)
    requires
        s.len() == 0 || s[0] != c,
        forall|i: int| 0 <= i < run.len() ==> run[i] == c,
    ensures
        trim_start_of(run + s, c) == s,
{
    run_starts_at(run, s, c, 0);
    assert((run + s).skip(run.len() as int) =~= s);
}

/// A run of a character lasts to where the text behind it begins.
proof fn run_starts_at(run: Seq<char>, s: Seq<char>, c: char, from: int)
    requires
        s.len() == 0 || s[0] != c,
        forall|i: int| 0 <= i < run.len() ==> run[i] == c,
        0 <= from <= run.len(),
    ensures
        start_without(run + s, c, from) == run.len(),
    decreases run.len() - from,
{
    if from < run.len() {
        assert((run + s)[from] == run[from]);
        run_starts_at(run, s, c, from + 1);
    } else if s.len() > 0 {
        assert((run + s)[from] == s[0]);
    }
}

/// Runs of a character at both ends of a text are dropped, and nothing else.
pub proof fn outer_runs_are_dropped(lead: Seq<char>, s: Seq<char>, tail: Seq<char>, c: char)
    requires
        s.len() == 0 || (s[0] != c && s.last() != c),
        forall|i: int| 0 <= i < lead.len() ==> lead[i] == c,
        forall|i: int| 0 <= i < tail.len() ==> tail[i] == c,
    ensures
        trim_both_of(lead + s + tail, c) == s,
{
    if s.len() == 0 {
        let run = lead + tail;
        assert(lead + s + tail =~= s + run);
        trailing_runs_are_dropped(s, run, c);
        leading_runs_are_dropped(s, s, c);
        assert(s + s =~= s);
    } else {
        assert((lead + s).last() == s.last());
        trailing_runs_are_dropped(lead + s, tail, c);
        leading_runs_are_dropped(lead, s, c);
    }
}

/// What trimming a character leaves has none of it at its ends, and what it
/// takes away is nothing but that character.
pub proof fn trimming_takes_runs_only(s: Seq<char>, c: char)
    ensures
        exists|lead: Seq<char>, tail: Seq<char>|
            {
                &&& s == #[trigger] (lead + trim_both_of(s, c) + tail)
                &&& forall|i: int| 0 <= i < lead.len() ==> lead[i] == c
                &&& forall|i: int| 0 <= i < tail.len() ==> tail[i] == c
            },
        trim_both_of(s, c).len() > 0 ==> trim_both_of(s, c)[0] != c && trim_both_of(s, c).last()
            != c,
{
    let n = end_without(s, c, s.len() as int);
    end_without_cuts(s, c, s.len() as int);
    let front = s.take(n);
    let m = start_without(front, c, 0);
    start_without_cuts(front, c, 0);
    let lead = s.take(m);
    let tail = s.skip(n);
    let core = trim_both_of(s, c);
    assert(core =~= s.subrange(m, n));
    assert(s =~= lead + core + tail);
    assert forall|i: int| 0 <= i < lead.len() implies lead[i] == c by {
        assert(front[i] == c);
    }
    assert forall|i: int| 0 <= i < tail.len() implies tail[i] == c by {
        assert(s[n + i] == c);
    }
    if core.len() > 0 {
        assert(core[0] == front[m]);
        assert(core.last() == s[n - 1]);
    }
}

/// Only the character itself is cut off at the end.
proof fn end_without_cuts(s: Seq<char>, c: char, n: int)
    requires
        0 <= n <= s.len(),
    ensures
        0 <= end_without(s, c, n) <= n,
        forall|i: int| end_without(s, c, n) <= i < n ==> s[i] == c,
        end_without(s, c, n) > 0 ==> s[end_without(s, c, n) - 1] != c,
    decreases n,
{
    if n > 0 && s[n - 1] == c {
        end_without_cuts(s, c, n - 1);
    }
}

/// Only the character itself is cut off at the start.
proof fn start_without_cuts(s: Seq<char>, c: char, from: int)
    requires
        0 <= from <= s.len(),
    ensures
        from <= start_without(s, c, from) <= s.len(),
        forall|i: int| from <= i < start_without(s, c, from) ==> s[i] == c,
        start_without(s, c, from) < s.len() ==> s[start_without(s, c, from)] != c,
    decreases s.len() - from,
{
    if from < s.len() && s[from] == c {
        start_without_cuts(s, c, from + 1);
    }
}

/// Among the ASCII characters the space and those from tab to carriage return
/// are white space, and no other.
pub proof fn ascii_white_space(c: char)
    ensures
        (c as int) < 0x80 ==> (is_white(c) <==> c == ' ' || c == '\t' || c == '\n' || c as int == 0xb
            || c as int == 0xc || c == '\r'),
{
}

/// White space around a text is dropped, and nothing else.
pub proof fn outer_white_space_is_dropped(lead: Seq<char>, s: Seq<char>, tail: Seq<char>)
    requires
        s.len() == 0 || (!is_white(s[0]) && !is_white(s.last())),
        forall|i: int| 0 <= i < lead.len() ==> is_white(lead[i]),
        forall|i: int| 0 <= i < tail.len() ==> is_white(tail[i]),
    ensures
        trimmed(lead + s + tail) == s,
{
    let whole = lead + s + tail;
    if s.len() == 0 {
        assert(forall|i: int| 0 <= i < lead.len() ==> whole[i] == lead[i]);
        assert(forall|i: int| lead.len() <= i < whole.len() ==> whole[i] == tail[i - lead.len()]);
        white_ends_at(whole, 0, whole.len() as int);
        assert(whole.take(0).skip(0) =~= s);
    } else {
        let n = (lead.len() + s.len()) as int;
        assert(whole[n - 1] == s.last());
        assert(forall|i: int| n <= i < whole.len() ==> whole[i] == tail[i - n]);
        white_ends_at(whole, n, whole.len() as int);
        let front = whole.take(n);
        assert(front[lead.len() as int] == s[0]);
        assert(forall|i: int| 0 <= i < lead.len() ==> front[i] == lead[i]);
        white_starts_at(front, 0, lead.len() as int);
        assert(front.skip(lead.len() as int) =~= s);
    }
}

/// White space reaches down to where none is.
proof fn white_ends_at(s: Seq<char>, m: int, n: int)
    requires
        0 <= m <= n <= s.len(),
        forall|i: int| m <= i < n ==> is_white(s[i]),
        m > 0 ==> !is_white(s[m - 1]),
    ensures
        end_before_white(s, n) == m,
    decreases n,
{
    if n > m {
        assert(is_white(s[n - 1]));
        white_ends_at(s, m, n - 1);
    }
}

/// White space reaches up to where none is.
proof fn white_starts_at(s: Seq<char>, from: int, m: int)
    requires
        0 <= from <= m < s.len(),
        forall|i: int| from <= i < m ==> is_white(s[i]),
        !is_white(s[m]),
    ensures
        start_after_white(s, from) == m,
    decreases m - from,
{
    if from < m {
        assert(is_white(s[from]));
        white_starts_at(s, from + 1, m);
    }
}

/// Lower case changes the ASCII capital letters, each to the letter 32 places
/// on, and leaves every other character as it is.
pub proof fn only_capitals_are_lowered(s: Seq<char>, i: int)
    requires
        0 <= i < s.len(),
    ensures
        lower(s).len() == s.len(),
        0x41 <= s[i] as int <= 0x5a ==> lower(s)[i] as int == s[i] as int + 32,
        !(0x41 <= s[i] as int <= 0x5a) ==> lower(s)[i] == s[i],
{
}

/// The number that decimal digits spell.
pub open spec fn decimal_value(digits: Seq<char>) -> int
    decreases digits.len(),
{
    if digits.len() == 0 {
        0
    } else {
        10 * decimal_value(digits.drop_last()) + (digits.last() as int - 0x30)
    }
}

/// A number in decimal reads back as the number, holds digits only, and has no
/// zero in front unless it is zero.
pub proof fn decimals_read_back(n: nat)
    ensures
        decimal_value(decimal(n)) == n,
        decimal(n).len() > 0,
        forall|i: int| 0 <= i < decimal(n).len() ==> 0x30 <= #[trigger] decimal(n)[i] as int <= 0x39,
        n > 0 ==> decimal(n)[0] as int != 0x30,
    decreases n,
{
    reveal_with_fuel(decimal_value, 2);
    if n >= 10 {
        decimals_read_back(n / 10);
        let front = decimal(n / 10);
        assert(decimal(n).drop_last() =~= front);
        assert(decimal(n)[0] == front[0]);
    } else {
        assert(decimal(n).drop_last() =~= Seq::<char>::empty());
    }
}

/// A count grows by one with each further character that is counted, and by
/// none with another one.
pub proof fn counts_grow_one_by_one(s: Seq<char>, c: char, next: char)
    ensures
        count_of(Seq::<char>::empty(), c, 0) == 0,
        count_of(s.push(next), c, (s.len() + 1) as int) == count_of(s, c, s.len() as int) + if next == c {
            1nat
        } else {
            0nat
        },
{
    count_of_front(s, s.push(next), c, s.len() as int);
}

/// A count depends on the characters that are counted alone.
proof fn count_of_front(s: Seq<char>, longer: Seq<char>, c: char, n: int)
    requires
        n <= s.len() <= longer.len(),
        forall|i: int| 0 <= i < s.len() ==> s[i] == longer[i],
    ensures
        count_of(s, c, n) == count_of(longer, c, n),
    decreases n,
{
    if n > 0 {
        count_of_front(s, longer, c, n - 1);
    }
}

/// The characters that are white space, by their numbers.
pub proof fn white_space_is_unicode_white_space(c: char)
    ensures
        is_white(c) <==> seq![
            0x9int,
            0xa,
            0xb,
            0xc,
            0xd,
            0x20,
            0x85,
            0xa0,
            0x1680,
            0x2000,
            0x2001,
            0x2002,
            0x2003,
            0x2004,
            0x2005,
            0x2006,
            0x2007,
            0x2008,
            0x2009,
            0x200a,
            0x2028,
            0x2029,
            0x202f,
            0x205f,
            0x3000,
        ].contains(c as int),
{
    let all = seq![
        0x9int,
        0xa,
        0xb,
        0xc,
        0xd,
        0x20,
        0x85,
        0xa0,
        0x1680,
        0x2000,
        0x2001,
        0x2002,
        0x2003,
        0x2004,
        0x2005,
        0x2006,
        0x2007,
        0x2008,
        0x2009,
        0x200a,
        0x2028,
        0x2029,
        0x202f,
        0x205f,
        0x3000,
    ];
    if is_white(c) {
        let n = c as int;
        let i = if n <= 0xd {
            n - 9
        } else if n == 0x20 {
            5
        } else if n == 0x85 {
            6
        } else if n == 0xa0 {
            7
        } else if n == 0x1680 {
            8
        } else if n <= 0x200a {
            n - 0x2000 + 9
        } else if n == 0x2028 {
            20
        } else if n == 0x2029 {
            21
        } else if n == 0x202f {
            22
        } else if n == 0x205f {
            23
        } else {
            24
        };
        assert(all[i] == n);
    }
}

} // verus!
