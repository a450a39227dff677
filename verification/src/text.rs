//! Text: strings as sequences of characters.
//!
//! Every function here works on the characters of a string and states its
//! result over `Seq<char>`, so that the parsers built on top can be specified
//! without speaking of bytes or encodings.

use vstd::prelude::*;
use vstd::string::*;

verus! {

/// The views of a sequence of strings.
pub open spec fn views(v: Seq<String>) -> Seq<Seq<char>> {
    Seq::new(v.len(), |i: int| v[i]@)
}

/// The index of the first `c` in `s`, or the length of `s` where there is none.
pub open spec fn find(s: Seq<char>, c: char) -> int
    decreases s.len(),
{
    if s.len() == 0 {
        0
    } else if s[0] == c {
        0
    } else {
        1 + find(s.skip(1), c)
    }
}

/// The index of the last `c` in `s`, or `-1` where there is none.
pub open spec fn rfind(s: Seq<char>, c: char) -> int
    decreases s.len(),
{
    if s.len() == 0 {
        -1
    } else if s.last() == c {
        s.len() - 1
    } else {
        rfind(s.drop_last(), c)
    }
}

pub proof fn lemma_find(s: Seq<char>, c: char)
    ensures
        0 <= find(s, c) <= s.len(),
        forall|j: int| 0 <= j < find(s, c) ==> s[j] != c,
        find(s, c) < s.len() ==> s[find(s, c)] == c,
    decreases s.len(),
{
    if s.len() > 0 && s[0] != c {
        let t = s.skip(1);
        lemma_find(t, c);
        assert forall|j: int| 0 <= j < find(s, c) implies s[j] != c by {
            if j > 0 {
                assert(s[j] == t[j - 1]);
            }
        }
    }
}

pub proof fn lemma_find_is(s: Seq<char>, c: char, i: int)
    requires
        0 <= i <= s.len(),
        forall|j: int| 0 <= j < i ==> s[j] != c,
        i < s.len() ==> s[i] == c,
    ensures
        find(s, c) == i,
{
    lemma_find(s, c);
}

pub proof fn lemma_rfind(s: Seq<char>, c: char)
    ensures
        -1 <= rfind(s, c) < s.len(),
        forall|j: int| rfind(s, c) < j < s.len() ==> s[j] != c,
        rfind(s, c) >= 0 ==> s[rfind(s, c)] == c,
    decreases s.len(),
{
    if s.len() > 0 && s.last() != c {
        let t = s.drop_last();
        lemma_rfind(t, c);
        assert forall|j: int| rfind(s, c) < j < s.len() implies s[j] != c by {
            if j < s.len() - 1 {
                assert(s[j] == t[j]);
            }
        }
    }
}

pub proof fn lemma_rfind_is(s: Seq<char>, c: char, i: int)
    requires
        -1 <= i < s.len(),
        forall|j: int| i < j < s.len() ==> s[j] != c,
        i >= 0 ==> s[i] == c,
    ensures
        rfind(s, c) == i,
{
    lemma_rfind(s, c);
}

/// What stands before and after the first `c`, where there is one.
pub open spec fn split_once_at(s: Seq<char>, c: char) -> Option<(Seq<char>, Seq<char>)> {
    let i = find(s, c);
    if i < s.len() {
        Some((s.take(i), s.skip(i + 1)))
    } else {
        None
    }
}

/// What stands before and after the last `c`, where there is one.
pub open spec fn rsplit_once_at(s: Seq<char>, c: char) -> Option<(Seq<char>, Seq<char>)> {
    let i = rfind(s, c);
    if i >= 0 {
        Some((s.take(i), s.skip(i + 1)))
    } else {
        None
    }
}

/// Text is parted at the first `c`, and not at a later one. Text without `c` is not
/// parted.
pub proof fn law_text_is_parted_at_the_first(a: Seq<char>, b: Seq<char>, c: char)
    requires
        !a.contains(c),
    ensures
        split_once_at(a + seq![c] + b, c) == Some((a, b)),
        split_once_at(a, c) is None,
{
    let s = a + seq![c] + b;
    assert forall|j: int| 0 <= j < a.len() implies s[j] != c && a[j] != c by {
        assert(s[j] == a[j]);
        assert(a.contains(a[j]));
    }
    lemma_find_is(s, c, a.len() as int);
    lemma_find_is(a, c, a.len() as int);
    assert(s.take(a.len() as int) =~= a);
    assert(s.skip(a.len() as int + 1) =~= b);
}

/// Text is parted at the last `c`, and not at an earlier one. Text without `c` is not
/// parted.
pub proof fn law_text_is_parted_at_the_last(a: Seq<char>, b: Seq<char>, c: char)
    requires
        !b.contains(c),
    ensures
        rsplit_once_at(a + seq![c] + b, c) == Some((a, b)),
        rsplit_once_at(b, c) is None,
{
    let s = a + seq![c] + b;
    assert forall|j: int| a.len() < j < s.len() implies s[j] != c by {
        assert(s[j] == b[j - a.len() - 1]);
        assert(b.contains(b[j - a.len() - 1]));
    }
    assert forall|j: int| 0 <= j < b.len() implies b[j] != c by {
        assert(b.contains(b[j]));
    }
    lemma_rfind_is(s, c, a.len() as int);
    lemma_rfind_is(b, c, -1);
    assert(s.take(a.len() as int) =~= a);
    assert(s.skip(a.len() as int + 1) =~= b);
}

/// Whether `s` ends with `p`.
pub open spec fn has_suffix(s: Seq<char>, p: Seq<char>) -> bool {
    p.len() <= s.len() && s.skip(s.len() - p.len()) == p
}

/// Whether `s` begins with `p`.
pub open spec fn has_prefix(s: Seq<char>, p: Seq<char>) -> bool {
    p.len() <= s.len() && s.take(p.len() as int) == p
}

/// The strings of `parts`, one after the other, with `sep` between them.
pub open spec fn joined(parts: Seq<Seq<char>>, sep: Seq<char>) -> Seq<char>
    decreases parts.len(),
{
    if parts.len() == 0 {
        Seq::empty()
    } else if parts.len() == 1 {
        parts[0]
    } else {
        joined(parts.drop_last(), sep) + sep + parts.last()
    }
}

/// `s` with every `from` replaced by `to`.
pub open spec fn replaced(s: Seq<char>, from: char, to: char) -> Seq<char> {
    Seq::new(s.len(), |i: int| if s[i] == from { to } else { s[i] })
}

/// The characters that carry Unicode's `White_Space` property.
pub open spec fn is_space(c: char) -> bool {
    ||| '\u{9}' <= c <= '\u{d}'
    ||| c == '\u{20}'
    ||| c == '\u{85}'
    ||| c == '\u{a0}'
    ||| c == '\u{1680}'
    ||| '\u{2000}' <= c <= '\u{200a}'
    ||| c == '\u{2028}'
    ||| c == '\u{2029}'
    ||| c == '\u{202f}'
    ||| c == '\u{205f}'
    ||| c == '\u{3000}'
}

pub fn is_space_char(c: char) -> (r: bool)
    ensures
        r == is_space(c),
{
    ('\u{9}' <= c && c <= '\u{d}') || c == '\u{20}' || c == '\u{85}' || c == '\u{a0}' || c
        == '\u{1680}' || ('\u{2000}' <= c && c <= '\u{200a}') || c == '\u{2028}' || c == '\u{2029}'
        || c == '\u{202f}' || c == '\u{205f}' || c == '\u{3000}'
}

/// The characters of a string, in order.
pub fn to_chars(s: &str) -> (v: Vec<char>)
    ensures
        v@ == s@,
{
    let mut v: Vec<char> = Vec::new();
    for c in it: s.chars()
        invariant
            v@ == it.seq().take(it.index() as int),
            it.seq() == s@,
    {
        v.push(c);
        assert(it.seq().take(it.index() + 1) =~= it.seq().take(it.index() as int).push(c));
    }
    assert(s@.take(s@.len() as int) =~= s@);
    v
}

/// A string with the same characters.
pub fn copy(s: &str) -> (r: String)
    ensures
        r@ == s@,
{
    String::from_str(s)
}

/// Whether two strings hold the same characters.
pub fn same(a: &str, b: &str) -> (r: bool)
    ensures
        r == (a@ == b@),
{
    let x: Vec<char> = to_chars(a);
    let y: Vec<char> = to_chars(b);
    if x.len() != y.len() {
        return false;
    }
    let mut i: usize = 0;
    while i < x.len()
        invariant
            i <= x.len(),
            x.len() == y.len(),
            x@ == a@,
            y@ == b@,
            forall|j: int| 0 <= j < i ==> a@[j] == b@[j],
        decreases x.len() - i,
    {
        if x[i] != y[i] {
            return false;
        }
        i += 1;
    }
    assert(a@ =~= b@);
    true
}

/// The characters of `s` from `from` on, up to `to`.
pub fn part(s: &str, from: usize, to: usize) -> (r: String)
    requires
        from <= to <= s@.len(),
    ensures
        r@ == s@.subrange(from as int, to as int),
{
    String::from_str(s.substring_char(from, to))
}

/// Whether `s` begins with `p`.
pub fn starts_with(s: &str, p: &str) -> (r: bool)
    ensures
        r == has_prefix(s@, p@),
{
    let n: usize = s.unicode_len();
    let m: usize = p.unicode_len();
    if m > n {
        return false;
    }
    assert(s@.subrange(0, m as int) =~= s@.take(m as int));
    same(s.substring_char(0, m), p)
}

/// Whether `s` ends with `p`.
pub fn ends_with(s: &str, p: &str) -> (r: bool)
    ensures
        r == has_suffix(s@, p@),
{
    let n: usize = s.unicode_len();
    let m: usize = p.unicode_len();
    if m > n {
        return false;
    }
    assert(s@.subrange(n - m, n as int) =~= s@.skip(n - m));
    same(s.substring_char(n - m, n), p)
}

/// What follows the prefix `p` of `s`, where `s` has it.
pub fn strip_prefix(s: &str, p: &str) -> (r: Option<String>)
    ensures
        match r {
            Some(t) => has_prefix(s@, p@) && t@ == s@.skip(p@.len() as int),
            None => !has_prefix(s@, p@),
        },
{
    if starts_with(s, p) {
        let n: usize = s.unicode_len();
        let m: usize = p.unicode_len();
        assert(s@.subrange(m as int, n as int) =~= s@.skip(m as int));
        Some(part(s, m, n))
    } else {
        None
    }
}

/// What precedes the suffix `p` of `s`, where `s` has it.
pub fn strip_suffix(s: &str, p: &str) -> (r: Option<String>)
    ensures
        match r {
            Some(t) => has_suffix(s@, p@) && t@ == s@.take(s@.len() - p@.len()),
            None => !has_suffix(s@, p@),
        },
{
    if ends_with(s, p) {
        let n: usize = s.unicode_len();
        let m: usize = p.unicode_len();
        assert(s@.subrange(0, n - m) =~= s@.take(n - m));
        Some(part(s, 0, n - m))
    } else {
        None
    }
}

/// The index of the first `c` in `s`.
pub fn find_char(s: &str, c: char) -> (r: usize)
    ensures
        r == find(s@, c),
{
    let v: Vec<char> = to_chars(s);
    let mut i: usize = 0;
    while i < v.len()
        invariant
            i <= v.len(),
            v@ == s@,
            forall|j: int| 0 <= j < i ==> s@[j] != c,
        decreases v.len() - i,
    {
        if v[i] == c {
            proof {
                lemma_find_is(s@, c, i as int);
            }
            return i;
        }
        i += 1;
    }
    proof {
        lemma_find_is(s@, c, i as int);
    }
    i
}

/// The parts of `s` around its first `c`.
pub fn split_once(s: &str, c: char) -> (r: Option<(String, String)>)
    ensures
        match r {
            Some(p) => split_once_at(s@, c) == Some((p.0@, p.1@)),
            None => split_once_at(s@, c) is None,
        },
{
    let n: usize = s.unicode_len();
    let i: usize = find_char(s, c);
    proof {
        lemma_find(s@, c);
    }
    if i < n {
        assert(s@.subrange(0, i as int) =~= s@.take(i as int));
        assert(s@.subrange(i + 1, n as int) =~= s@.skip(i + 1));
        Some((part(s, 0, i), part(s, i + 1, n)))
    } else {
        None
    }
}

/// The parts of `s` around its last `c`.
pub fn rsplit_once(s: &str, c: char) -> (r: Option<(String, String)>)
    ensures
        match r {
            Some(p) => rsplit_once_at(s@, c) == Some((p.0@, p.1@)),
            None => rsplit_once_at(s@, c) is None,
        },
{
    let v: Vec<char> = to_chars(s);
    let n: usize = v.len();
    let mut i: usize = n;
    while i > 0
        invariant
            i <= n,
            n == v.len(),
            v@ == s@,
            forall|j: int| i <= j < n ==> s@[j] != c,
        decreases i,
    {
        if v[i - 1] == c {
            proof {
                lemma_rfind_is(s@, c, i - 1);
                assert(s@.subrange(0, i - 1) =~= s@.take(i - 1));
                assert(s@.subrange(i as int, n as int) =~= s@.skip(i as int));
            }
            return Some((part(s, 0, i - 1), part(s, i, n)));
        }
        i -= 1;
    }
    proof {
        lemma_rfind_is(s@, c, -1);
    }
    None
}

/// `a` followed by `b`.
pub fn concat(a: &str, b: &str) -> (r: String)
    ensures
        r@ == a@ + b@,
{
    let mut r = String::from_str(a);
    r.append(b);
    r
}

/// `a`, then `b`, then `c`.
pub fn concat3(a: &str, b: &str, c: &str) -> (r: String)
    ensures
        r@ == a@ + b@ + c@,
{
    let mut r = String::from_str(a);
    r.append(b);
    r.append(c);
    r
}

/// `a`, `b`, `c` and `d` in a row.
pub fn concat4(a: &str, b: &str, c: &str, d: &str) -> (r: String)
    ensures
        r@ == a@ + b@ + c@ + d@,
{
    let mut r = concat3(a, b, c);
    r.append(d);
    r
}

/// The strings of `parts` with `sep` between them.
pub fn join(parts: &Vec<String>, sep: &str) -> (r: String)
    ensures
        r@ == joined(views(parts@), sep@),
{
    let mut r = String::new();
    let mut i: usize = 0;
    let ghost all = views(parts@);
    while i < parts.len()
        invariant
            i <= parts.len(),
            all == views(parts@),
            r@ == joined(all.take(i as int), sep@),
        decreases parts.len() - i,
    {
        proof {
            let next = all.take(i + 1);
            assert(next.drop_last() =~= all.take(i as int));
            assert(next.last() == parts@[i as int]@);
        }
        if i > 0 {
            r.append(sep);
        }
        r.append(parts[i].as_str());
        proof {
            if i == 0 {
                assert(all.take(1)[0] == parts@[0]@);
                assert(Seq::<char>::empty() + parts@[0]@ =~= parts@[0]@);
            }
        }
        i += 1;
    }
    assert(all.take(parts.len() as int) =~= all);
    r
}

/// `s` with every `from` replaced by `to`, given as a string of one character.
pub fn replace_char(s: &str, from: char, to: &str) -> (r: String)
    requires
        to@.len() == 1,
    ensures
        r@ == replaced(s@, from, to@[0]),
{
    let v: Vec<char> = to_chars(s);
    let n: usize = v.len();
    let mut r = String::new();
    let mut i: usize = 0;
    while i < n
        invariant
            i <= n,
            n == v.len(),
            v@ == s@,
            to@.len() == 1,
            r@ == replaced(s@, from, to@[0]).take(i as int),
        decreases n - i,
    {
        if v[i] == from {
            r.append(to);
        } else {
            r.append(s.substring_char(i, i + 1));
        }
        assert(r@ =~= replaced(s@, from, to@[0]).take(i + 1));
        i += 1;
    }
    assert(r@ =~= replaced(s@, from, to@[0]));
    r
}

/// Whether `list` holds `s`.
pub fn list_contains(list: &Vec<String>, s: &str) -> (r: bool)
    ensures
        r == views(list@).contains(s@),
{
    let mut i: usize = 0;
    while i < list.len()
        invariant
            i <= list.len(),
            forall|j: int| 0 <= j < i ==> list@[j]@ != s@,
        decreases list.len() - i,
    {
        if same(list[i].as_str(), s) {
            assert(views(list@)[i as int] == s@);
            return true;
        }
        i += 1;
    }
    assert forall|j: int| 0 <= j < views(list@).len() implies views(list@)[j] != s@ by {
        assert(list@[j]@ != s@);
    }
    false
}

/// A copy of a list of strings.
pub fn copy_list(list: &Vec<String>) -> (r: Vec<String>)
    ensures
        r@ == list@,
{
    let mut r: Vec<String> = Vec::new();
    let mut i: usize = 0;
    while i < list.len()
        invariant
            i <= list.len(),
            r@ == list@.take(i as int),
        decreases list.len() - i,
    {
        r.push(list[i].clone());
        assert(r@ =~= list@.take(i + 1));
        i += 1;
    }
    assert(r@ =~= list@);
    r
}

/// `s` without one carriage return at its end.
pub open spec fn without_cr(s: Seq<char>) -> Seq<char> {
    if s.len() > 0 && s.last() == '\r' {
        s.drop_last()
    } else {
        s
    }
}

/// The lines of `s`. A line ends with a newline, or with a carriage return and
/// a newline, neither of which belongs to it; the last line need not end so.
pub open spec fn lines_of(s: Seq<char>) -> Seq<Seq<char>>
    decreases s.len(),
{
    proof {
        lemma_find(s, '\n');
    }
    let i = find(s, '\n');
    if s.len() == 0 {
        Seq::empty()
    } else if i >= s.len() {
        seq![s]
    } else {
        seq![without_cr(s.take(i))] + lines_of(s.skip(i + 1))
    }
}

/// The lines of a string.
pub fn lines(s: &str) -> (r: Vec<String>)
    ensures
        views(r@) == lines_of(s@),
{
    let v: Vec<char> = to_chars(s);
    let n: usize = v.len();
    let mut r: Vec<String> = Vec::new();
    let mut start: usize = 0;
    assert(s@.skip(0) =~= s@);
    assert(views(r@) + lines_of(s@) =~= lines_of(s@));
    while start < n
        invariant
            start <= n,
            n == v.len(),
            v@ == s@,
            views(r@) + lines_of(s@.skip(start as int)) == lines_of(s@),
        decreases n - start,
    {
        let ghost rest = s@.skip(start as int);
        let mut i: usize = start;
        while i < n && v[i] != '\n'
            invariant
                start <= i <= n,
                n == v.len(),
                v@ == s@,
                forall|j: int| start <= j < i ==> v@[j] != '\n',
            decreases n - i,
        {
            i += 1;
        }
        let ghost before = views(r@);
        proof {
            assert forall|j: int| 0 <= j < i - start implies rest[j] != '\n' by {
                assert(rest[j] == v@[start + j]);
            }
            if i < n {
                assert(rest[i - start] == v@[i as int]);
            }
            lemma_find_is(rest, '\n', i - start);
        }
        if i == n {
            assert(s@.subrange(start as int, n as int) =~= rest);
            r.push(part(s, start, n));
            proof {
                assert(views(r@) =~= before.push(rest));
                assert(before + seq![rest] =~= before.push(rest));
                assert(lines_of(s@.skip(n as int)) =~= Seq::empty());
                assert(views(r@) + lines_of(s@.skip(n as int)) =~= views(r@));
            }
            start = n;
        } else {
            let ghost line = rest.take(i - start);
            let mut end: usize = i;
            proof {
                assert(s@.subrange(start as int, i as int) =~= line);
            }
            if i > start && v[i - 1] == '\r' {
                end = i - 1;
                proof {
                    assert(line.last() == v@[i - 1]);
                    assert(s@.subrange(start as int, end as int) =~= line.drop_last());
                }
            } else {
                proof {
                    if i > start {
                        assert(line.last() == v@[i - 1]);
                    }
                }
            }
            r.push(part(s, start, end));
            proof {
                assert(views(r@) =~= before.push(without_cr(line)));
                assert(rest.skip(i - start + 1) =~= s@.skip(i + 1));
                assert(before + (seq![without_cr(line)] + lines_of(s@.skip(i + 1)))
                    =~= before.push(without_cr(line)) + lines_of(s@.skip(i + 1)));
            }
            start = i + 1;
        }
    }
    assert(s@.skip(n as int) =~= Seq::empty());
    assert(views(r@) + lines_of(s@.skip(n as int)) =~= views(r@));
    r
}

/// `s` without the white space at its start.
pub open spec fn trimmed_start(s: Seq<char>) -> Seq<char>
    decreases s.len(),
{
    if s.len() > 0 && is_space(s[0]) {
        trimmed_start(s.skip(1))
    } else {
        s
    }
}

/// `s` without the white space at its end.
pub open spec fn trimmed_end(s: Seq<char>) -> Seq<char>
    decreases s.len(),
{
    if s.len() > 0 && is_space(s.last()) {
        trimmed_end(s.drop_last())
    } else {
        s
    }
}

/// `s` without white space at either end.
pub open spec fn trimmed(s: Seq<char>) -> Seq<char> {
    trimmed_end(trimmed_start(s))
}

/// The string without the white space at its start.
pub fn trim_start(s: &str) -> (r: String)
    ensures
        r@ == trimmed_start(s@),
{
    let v: Vec<char> = to_chars(s);
    let n: usize = v.len();
    let mut i: usize = 0;
    assert(s@.skip(0) =~= s@);
    while i < n && is_space_char(v[i])
        invariant
            i <= n,
            n == v.len(),
            v@ == s@,
            trimmed_start(s@) == trimmed_start(s@.skip(i as int)),
        decreases n - i,
    {
        assert(s@.skip(i as int).skip(1) =~= s@.skip(i + 1));
        i += 1;
    }
    assert(s@.subrange(i as int, n as int) =~= s@.skip(i as int));
    part(s, i, n)
}

/// The string without the white space at its end.
pub fn trim_end(s: &str) -> (r: String)
    ensures
        r@ == trimmed_end(s@),
{
    let v: Vec<char> = to_chars(s);
    let n: usize = v.len();
    let mut i: usize = n;
    assert(s@.take(n as int) =~= s@);
    while i > 0 && is_space_char(v[i - 1])
        invariant
            i <= n,
            n == v.len(),
            v@ == s@,
            trimmed_end(s@) == trimmed_end(s@.take(i as int)),
        decreases i,
    {
        assert(s@.take(i as int).drop_last() =~= s@.take(i - 1));
        i -= 1;
    }
    assert(s@.subrange(0, i as int) =~= s@.take(i as int));
    part(s, 0, i)
}

/// The string without white space at either end.
pub fn trim(s: &str) -> (r: String)
    ensures
        r@ == trimmed(s@),
{
    trim_end(trim_start(s).as_str())
}

/// How many characters of `s` come before its first white space.
pub open spec fn word_len(s: Seq<char>) -> nat
    decreases s.len(),
{
    if s.len() == 0 || is_space(s[0]) {
        0
    } else {
        1 + word_len(s.skip(1))
    }
}

pub proof fn lemma_word_len(s: Seq<char>, n: int)
    requires
        0 <= n <= s.len(),
        forall|j: int| 0 <= j < n ==> !is_space(s[j]),
        n < s.len() ==> is_space(s[n]),
    ensures
        word_len(s) == n,
    decreases s.len(),
{
    if n > 0 {
        let t = s.skip(1);
        assert forall|j: int| 0 <= j < n - 1 implies !is_space(t[j]) by {
            assert(t[j] == s[j + 1]);
        }
        if n < s.len() {
            assert(t[n - 1] == s[n]);
        }
        lemma_word_len(t, n - 1);
    }
}

pub proof fn lemma_trimmed_start_len(s: Seq<char>)
    ensures
        trimmed_start(s).len() <= s.len(),
        trimmed_start(s).len() > 0 ==> !is_space(trimmed_start(s)[0]),
    decreases s.len(),
{
    if s.len() > 0 && is_space(s[0]) {
        lemma_trimmed_start_len(s.skip(1));
    }
}

pub proof fn lemma_word_len_bound(s: Seq<char>)
    ensures
        word_len(s) <= s.len(),
        s.len() > 0 && !is_space(s[0]) ==> word_len(s) > 0,
        forall|j: int| 0 <= j < word_len(s) ==> !is_space(#[trigger] s[j]),
        word_len(s) < s.len() ==> is_space(s[word_len(s) as int]),
    decreases s.len(),
{
    if s.len() > 0 && !is_space(s[0]) {
        let t = s.skip(1);
        lemma_word_len_bound(t);
        assert forall|j: int| 0 <= j < word_len(s) implies !is_space(#[trigger] s[j]) by {
            if j > 0 {
                assert(s[j] == t[j - 1]);
            }
        }
    }
}

/// The runs of characters of `s` between white space.
pub open spec fn words_of(s: Seq<char>) -> Seq<Seq<char>>
    decreases s.len(),
{
    proof {
        lemma_trimmed_start_len(s);
        lemma_word_len_bound(trimmed_start(s));
    }
    let t = trimmed_start(s);
    if t.len() == 0 {
        Seq::empty()
    } else {
        seq![t.take(word_len(t) as int)] + words_of(t.skip(word_len(t) as int))
    }
}

/// The words of a string.
pub fn split_whitespace(s: &str) -> (r: Vec<String>)
    ensures
        views(r@) == words_of(s@),
{
    let v: Vec<char> = to_chars(s);
    let n: usize = v.len();
    let mut r: Vec<String> = Vec::new();
    let mut start: usize = 0;
    assert(s@.skip(0) =~= s@);
    assert(views(r@) + words_of(s@) =~= words_of(s@));
    while start < n
        invariant
            start <= n,
            n == v.len(),
            v@ == s@,
            views(r@) + words_of(s@.skip(start as int)) == words_of(s@),
        decreases n - start,
    {
        let ghost rest = s@.skip(start as int);
        let ghost before = views(r@);
        let mut i: usize = start;
        while i < n && is_space_char(v[i])
            invariant
                start <= i <= n,
                n == v.len(),
                v@ == s@,
                rest == s@.skip(start as int),
                trimmed_start(rest) == trimmed_start(s@.skip(i as int)),
            decreases n - i,
        {
            assert(s@.skip(i as int).skip(1) =~= s@.skip(i + 1));
            i += 1;
        }
        let ghost t = s@.skip(i as int);
        assert(trimmed_start(rest) == t);
        if i == n {
            proof {
                assert(words_of(rest) =~= Seq::empty());
                assert(words_of(s@.skip(n as int)) =~= Seq::empty());
            }
            start = n;
        } else {
            let mut e: usize = i;
            while e < n && !is_space_char(v[e])
                invariant
                    i <= e <= n,
                    n == v.len(),
                    v@ == s@,
                    forall|j: int| i <= j < e ==> !is_space(v@[j]),
                decreases n - e,
            {
                e += 1;
            }
            proof {
                assert forall|j: int| 0 <= j < e - i implies !is_space(t[j]) by {
                    assert(t[j] == v@[i + j]);
                }
                if e < n {
                    assert(t[e - i] == v@[e as int]);
                }
                lemma_word_len(t, e - i);
                assert(s@.subrange(i as int, e as int) =~= t.take(e - i));
            }
            assert(e > i);
            r.push(part(s, i, e));
            proof {
                assert(views(r@) =~= before.push(t.take(e - i)));
                assert(t.skip(e - i) =~= s@.skip(e as int));
                assert(before + (seq![t.take(e - i)] + words_of(s@.skip(e as int)))
                    =~= before.push(t.take(e - i)) + words_of(s@.skip(e as int)));
            }
            start = e;
        }
    }
    assert(s@.skip(n as int) =~= Seq::empty());
    assert(words_of(s@.skip(n as int)) =~= Seq::empty());
    assert(views(r@) + words_of(s@.skip(n as int)) =~= views(r@));
    r
}

/// What stands before and after the first occurrence of `p` in `s`.
pub open spec fn split_once_on(s: Seq<char>, p: Seq<char>) -> Option<(Seq<char>, Seq<char>)>
    decreases s.len(),
{
    if has_prefix(s, p) {
        Some((Seq::empty(), s.skip(p.len() as int)))
    } else if s.len() == 0 {
        None
    } else {
        match split_once_on(s.skip(1), p) {
            Some((a, b)) => Some((seq![s[0]] + a, b)),
            None => None,
        }
    }
}

fn matches_at(v: &Vec<char>, i: usize, p: &Vec<char>) -> (r: bool)
    requires
        i <= v.len(),
    ensures
        r == has_prefix(v@.skip(i as int), p@),
{
    if v.len() - i < p.len() {
        return false;
    }
    let mut k: usize = 0;
    while k < p.len()
        invariant
            k <= p.len(),
            i + p.len() <= v.len(),
            forall|j: int| 0 <= j < k ==> v@[i + j] == p@[j],
        decreases p.len() - k,
    {
        if v[i + k] != p[k] {
            assert(v@.skip(i as int).take(p@.len() as int)[k as int] == v@[i + k]);
            return false;
        }
        k += 1;
    }
    assert(v@.skip(i as int).take(p@.len() as int) =~= p@);
    true
}

/// The parts of `s` around the first occurrence of `p`.
pub fn split_once_str(s: &str, p: &str) -> (r: Option<(String, String)>)
    ensures
        match r {
            Some(t) => split_once_on(s@, p@) == Some((t.0@, t.1@)),
            None => split_once_on(s@, p@) is None,
        },
{
    let v: Vec<char> = to_chars(s);
    let q: Vec<char> = to_chars(p);
    let n: usize = v.len();
    let mut i: usize = 0;
    let ghost whole = split_once_on(s@, p@);
    proof {
        assert(s@.skip(0) =~= s@);
        if let Some((a, b)) = whole {
            assert(s@.take(0) + a =~= a);
        }
    }
    while i <= n
        invariant_except_break
            i <= n,
            n == v.len(),
            v@ == s@,
            q@ == p@,
            whole == split_once_on(s@, p@),
            match split_once_on(s@.skip(i as int), p@) {
                Some((a, b)) => whole == Some((s@.take(i as int) + a, b)),
                None => whole is None,
            },
        ensures
            whole is None,
        decreases n - i,
    {
        if matches_at(&v, i, &q) {
            proof {
                assert(s@.take(i as int) + Seq::<char>::empty() =~= s@.take(i as int));
                assert(s@.subrange(0, i as int) =~= s@.take(i as int));
                assert(s@.subrange(i + q.len(), n as int) =~= s@.skip(i as int).skip(
                    p@.len() as int,
                ));
            }
            return Some((part(s, 0, i), part(s, i + q.len(), n)));
        }
        if i == n {
            break;
        }
        proof {
            let t = s@.skip(i as int);
            assert(t.skip(1) =~= s@.skip(i + 1));
            if let Some((a, b)) = split_once_on(t.skip(1), p@) {
                assert(s@.take(i as int) + (seq![t[0]] + a) =~= s@.take(i + 1) + a);
            }
        }
        i += 1;
    }
    None
}

/// Whether `c` is one of `0` to `9`.
pub open spec fn is_digit(c: char) -> bool {
    '0' <= c <= '9'
}

/// The number that a sequence of digits writes down.
pub open spec fn decimal(s: Seq<char>) -> nat
    decreases s.len(),
{
    if s.len() == 0 {
        0
    } else {
        (decimal(s.drop_last()) * 10 + (s.last() as int - '0' as int)) as nat
    }
}

/// What follows one plus sign at the start of `s`, or `s` itself.
pub open spec fn without_plus(s: Seq<char>) -> Seq<char> {
    if s.len() > 0 && s[0] == '+' {
        s.skip(1)
    } else {
        s
    }
}

/// Whether `s` writes down a number that fits 32 bits: digits, at least one,
/// with or without a plus sign in front.
pub open spec fn is_u32(s: Seq<char>) -> bool {
    let d = without_plus(s);
    &&& d.len() > 0
    &&& forall|i: int| 0 <= i < d.len() ==> is_digit(#[trigger] d[i])
    &&& decimal(d) <= u32::MAX
}

proof fn lemma_decimal_mono(s: Seq<char>, i: int)
    requires
        0 <= i <= s.len(),
        forall|j: int| 0 <= j < s.len() ==> is_digit(#[trigger] s[j]),
    ensures
        decimal(s.take(i)) <= decimal(s),
    decreases s.len(),
{
    if i < s.len() {
        let t = s.drop_last();
        assert forall|j: int| 0 <= j < t.len() implies is_digit(#[trigger] t[j]) by {
            assert(t[j] == s[j]);
        }
        lemma_decimal_mono(t, i);
        assert(t.take(i) =~= s.take(i));
        assert(is_digit(s[s.len() - 1]));
    } else {
        assert(s.take(i) =~= s);
    }
}

/// The 32-bit number that a string writes down in decimal.
pub fn parse_u32(s: &str) -> (r: Option<u32>)
    ensures
        match r {
            Some(n) => is_u32(s@) && n == decimal(without_plus(s@)),
            None => !is_u32(s@),
        },
{
    let v: Vec<char> = to_chars(s);
    let start: usize = if v.len() > 0 && v[0] == '+' {
        1
    } else {
        0
    };
    let ghost d = without_plus(s@);
    assert(d =~= s@.skip(start as int));
    if start == v.len() {
        return None;
    }
    let mut n: u32 = 0;
    let mut i: usize = start;
    while i < v.len()
        invariant
            start <= i <= v.len(),
            v@ == s@,
            d == without_plus(s@),
            d == s@.skip(start as int),
            n == decimal(d.take(i - start)),
            forall|j: int| 0 <= j < i - start ==> is_digit(#[trigger] d[j]),
        decreases v.len() - i,
    {
        let c: char = v[i];
        assert(d[i - start] == c);
        if !('0' <= c && c <= '9') {
            return None;
        }
        let digit: u32 = c as u32 - '0' as u32;
        proof {
            assert(d.take(i - start + 1).drop_last() =~= d.take(i - start));
            assert(d.take(i - start + 1).last() == c);
        }
        let next: u64 = n as u64 * 10 + digit as u64;
        if next > u32::MAX as u64 {
            proof {
                if is_u32(s@) {
                    lemma_decimal_mono(d, i - start + 1);
                }
            }
            return None;
        }
        n = next as u32;
        i += 1;
    }
    assert(d.take(v.len() - start) =~= d);
    Some(n)
}

/// Joining from the front.
pub proof fn lemma_joined_cons(first: Seq<char>, rest: Seq<Seq<char>>, sep: Seq<char>)
    ensures
        joined(seq![first] + rest, sep) == (if rest.len() == 0 {
            first
        } else {
            first + sep + joined(rest, sep)
        }),
    decreases rest.len(),
{
    let all = seq![first] + rest;
    if rest.len() == 0 {
        assert(all[0] == first);
    } else {
        let init = rest.drop_last();
        assert(all.drop_last() =~= seq![first] + init);
        assert(all.last() == rest.last());
        lemma_joined_cons(first, init, sep);
        if rest.len() == 1 {
            assert(init.len() == 0);
            assert(rest.last() == rest[0]);
        } else {
            assert((first + sep + joined(init, sep)) + sep + rest.last() =~= first + sep + (joined(
                init,
                sep,
            ) + sep + rest.last()));
        }
    }
}

/// `s` without one newline at its end.
pub open spec fn without_newline(s: Seq<char>) -> Seq<char> {
    if s.len() > 0 && s.last() == '\n' {
        s.drop_last()
    } else {
        s
    }
}

/// Text without carriage returns is what its lines give when they are joined
/// again, up to a newline at its end.
pub proof fn law_lines_join_again(s: Seq<char>)
    requires
        !s.contains('\r'),
    ensures
        joined(lines_of(s), seq!['\n']) == without_newline(s),
    decreases s.len(),
{
    let nl = seq!['\n'];
    lemma_find(s, '\n');
    let i = find(s, '\n');
    if s.len() == 0 {
    } else if i >= s.len() {
        assert(lines_of(s)[0] == s);
        if s.last() == '\n' {
            assert(s[s.len() - 1] != '\n');
        }
    } else {
        let rest = s.skip(i + 1);
        let line = s.take(i);
        assert forall|j: int| 0 <= j < rest.len() implies rest[j] != '\r' by {
            assert(s[j + i + 1] != '\r');
        }
        assert(!rest.contains('\r'));
        law_lines_join_again(rest);
        assert(without_cr(line) == line) by {
            if line.len() > 0 {
                assert(s[i - 1] != '\r');
            }
        }
        lemma_joined_cons(line, lines_of(rest), nl);
        if rest.len() == 0 {
            assert(lines_of(rest).len() == 0);
            assert(s.drop_last() =~= line);
        } else {
            lemma_lines_nonempty(rest);
            assert(rest.last() == s.last());
            assert(s =~= line + nl + rest);
            if s.last() == '\n' {
                assert(s.drop_last() =~= line + nl + rest.drop_last());
            }
        }
    }
}

pub proof fn lemma_lines_nonempty(s: Seq<char>)
    ensures
        s.len() > 0 ==> lines_of(s).len() > 0,
        s.len() == 0 ==> lines_of(s).len() == 0,
{
    lemma_find(s, '\n');
}

/// Lines that are joined with newlines are read back as they were: none of them
/// holds a newline or ends with a carriage return, and the last is not empty.
pub proof fn law_joined_lines_read_back(parts: Seq<Seq<char>>)
    requires
        forall|i: int|
            0 <= i < parts.len() ==> !(#[trigger] parts[i]).contains('\n') && without_cr(parts[i])
                == parts[i],
        parts.len() > 0 ==> parts.last().len() > 0,
    ensures
        lines_of(joined(parts, seq!['\n'])) == parts,
    decreases parts.len(),
{
    let nl = seq!['\n'];
    if parts.len() > 0 {
        let first = parts[0];
        let rest = parts.skip(1);
        assert(parts =~= seq![first] + rest);
        lemma_joined_cons(first, rest, nl);
        assert forall|j: int| 0 <= j < first.len() implies first[j] != '\n' by {
            if first[j] == '\n' {
                assert(first.contains('\n'));
            }
        }
        if rest.len() == 0 {
            lemma_find_is(first, '\n', first.len() as int);
            assert(lines_of(first) =~= parts);
        } else {
            assert forall|i: int| 0 <= i < rest.len() implies !(#[trigger] rest[i]).contains('\n')
                && without_cr(rest[i]) == rest[i] by {
                assert(rest[i] == parts[i + 1]);
            }
            assert(rest.last() == parts.last());
            law_joined_lines_read_back(rest);
            let whole = first + nl + joined(rest, nl);
            let i = first.len() as int;
            assert forall|j: int| 0 <= j < i implies whole[j] != '\n' by {
                assert(whole[j] == first[j]);
            }
            assert(whole[i] == '\n');
            lemma_find_is(whole, '\n', i);
            assert(whole.take(i) =~= first);
            assert(whole.skip(i + 1) =~= joined(rest, nl));
        }
    }
}

/// Words that are joined with spaces are read back as they were.
pub proof fn law_joined_words_read_back(parts: Seq<Seq<char>>)
    requires
        forall|i: int|
            0 <= i < parts.len() ==> (#[trigger] parts[i]).len() > 0 && word_len(parts[i])
                == parts[i].len(),
    ensures
        words_of(joined(parts, seq![' '])) == parts,
    decreases parts.len(),
{
    let sp = seq![' '];
    if parts.len() > 0 {
        let first = parts[0];
        let rest = parts.skip(1);
        assert(parts =~= seq![first] + rest);
        lemma_joined_cons(first, rest, sp);
        lemma_word_len_bound(first);
        assert(!is_space(first[0]));
        if rest.len() == 0 {
            assert(trimmed_start(first) == first);
            assert(first.take(first.len() as int) =~= first);
            assert(first.skip(first.len() as int) =~= Seq::empty());
            assert(words_of(first.skip(first.len() as int)) =~= Seq::empty());
            assert(words_of(first) =~= parts);
        } else {
            assert forall|i: int| 0 <= i < rest.len() implies (#[trigger] rest[i]).len() > 0
                && word_len(rest[i]) == rest[i].len() by {
                assert(rest[i] == parts[i + 1]);
            }
            law_joined_words_read_back(rest);
            let tail = joined(rest, sp);
            let whole = first + sp + tail;
            let i = first.len() as int;
            assert(whole[0] == first[0]);
            assert(trimmed_start(whole) == whole);
            assert forall|j: int| 0 <= j < i implies !is_space(whole[j]) by {
                assert(whole[j] == first[j]);
            }
            assert(whole[i] == ' ');
            lemma_word_len(whole, i);
            assert(whole.take(i) =~= first);
            assert(whole.skip(i) =~= sp + tail);
            assert((sp + tail).skip(1) =~= tail);
            assert(trimmed_start(sp + tail) == trimmed_start(tail));
            lemma_words_of_trimmed(sp + tail, tail);
            assert(words_of(whole) =~= seq![first] + words_of(tail));
        }
    } else {
        assert(words_of(Seq::empty()) =~= Seq::empty());
    }
}

proof fn lemma_words_of_trimmed(a: Seq<char>, b: Seq<char>)
    requires
        trimmed_start(a) == trimmed_start(b),
    ensures
        words_of(a) == words_of(b),
{
}

/// The pieces of `s` between the characters `c`. There is always at least one.
pub open spec fn pieces_of(s: Seq<char>, c: char) -> Seq<Seq<char>>
    decreases s.len(),
{
    proof {
        lemma_find(s, c);
    }
    let i = find(s, c);
    if i >= s.len() {
        seq![s]
    } else {
        seq![s.take(i)] + pieces_of(s.skip(i + 1), c)
    }
}

/// The pieces of a string between the characters `c`.
pub fn split(s: &str, c: char) -> (r: Vec<String>)
    ensures
        views(r@) == pieces_of(s@, c),
        r@.len() > 0,
{
    let v: Vec<char> = to_chars(s);
    let n: usize = v.len();
    let mut r: Vec<String> = Vec::new();
    let mut start: usize = 0;
    assert(s@.skip(0) =~= s@);
    assert(views(r@) + pieces_of(s@, c) =~= pieces_of(s@, c));
    loop
        invariant
            start <= n,
            n == v.len(),
            v@ == s@,
            views(r@) + pieces_of(s@.skip(start as int), c) == pieces_of(s@, c),
        decreases n - start,
    {
        let ghost rest = s@.skip(start as int);
        let ghost before = views(r@);
        let mut i: usize = start;
        while i < n && v[i] != c
            invariant
                start <= i <= n,
                n == v.len(),
                v@ == s@,
                forall|j: int| start <= j < i ==> v@[j] != c,
            decreases n - i,
        {
            i += 1;
        }
        proof {
            assert forall|j: int| 0 <= j < i - start implies rest[j] != c by {
                assert(rest[j] == v@[start + j]);
            }
            if i < n {
                assert(rest[i - start] == v@[i as int]);
            }
            lemma_find_is(rest, c, i - start);
        }
        r.push(part(s, start, i));
        if i == n {
            proof {
                assert(s@.subrange(start as int, n as int) =~= rest);
                assert(views(r@) =~= before + seq![rest]);
            }
            return r;
        }
        proof {
            assert(s@.subrange(start as int, i as int) =~= rest.take(i - start));
            assert(views(r@) =~= before.push(rest.take(i - start)));
            assert(rest.skip(i - start + 1) =~= s@.skip(i + 1));
            assert(before + (seq![rest.take(i - start)] + pieces_of(s@.skip(i + 1), c))
                =~= before.push(rest.take(i - start)) + pieces_of(s@.skip(i + 1), c));
        }
        start = i + 1;
    }
}

/// The digit that writes down a number below ten.
pub open spec fn digit_char(n: int) -> char {
    ('0' as int + n) as char
}

/// The digits that write down a number, without zeros at the front.
pub open spec fn digits_of(n: nat) -> Seq<char>
    decreases n,
{
    if n < 10 {
        seq![digit_char(n as int)]
    } else {
        digits_of(n / 10).push(digit_char(n as int % 10))
    }
}

fn digit_text(n: u32) -> (r: &'static str)
    requires
        n < 10,
    ensures
        r@ == seq![digit_char(n as int)],
{
    proof {
        reveal_strlit("0");
        reveal_strlit("1");
        reveal_strlit("2");
        reveal_strlit("3");
        reveal_strlit("4");
        reveal_strlit("5");
        reveal_strlit("6");
        reveal_strlit("7");
        reveal_strlit("8");
        reveal_strlit("9");
    }
    let r = match n {
        0 => "0",
        1 => "1",
        2 => "2",
        3 => "3",
        4 => "4",
        5 => "5",
        6 => "6",
        7 => "7",
        8 => "8",
        _ => "9",
    };
    assert(r@ =~= seq![digit_char(n as int)]);
    r
}

/// The digits that write down a number.
pub fn decimal_text(n: u32) -> (r: String)
    ensures
        r@ == digits_of(n as nat),
    decreases n,
{
    if n < 10 {
        copy(digit_text(n))
    } else {
        let front = decimal_text(n / 10);
        let r = concat(front.as_str(), digit_text(n % 10));
        assert(r@ =~= digits_of(n as nat));
        r
    }
}

/// A number is read back from its digits.
pub proof fn law_digits_read_back(n: nat)
    ensures
        decimal(digits_of(n)) == n,
    decreases n,
{
    let s = digits_of(n);
    if n < 10 {
        assert(s.drop_last() =~= Seq::empty());
        assert(decimal(s.drop_last()) == 0);
    } else {
        law_digits_read_back(n / 10);
        assert(s.drop_last() =~= digits_of(n / 10));
    }
}

/// Whether `a` comes before `b` in a dictionary, or is the same.
pub open spec fn at_most(a: Seq<char>, b: Seq<char>) -> bool
    decreases a.len(),
{
    if a.len() == 0 {
        true
    } else if b.len() == 0 {
        false
    } else if a[0] != b[0] {
        a[0] < b[0]
    } else {
        at_most(a.skip(1), b.skip(1))
    }
}

/// Texts are in a dictionary one after the other.
pub proof fn lemma_at_most_total(a: Seq<char>, b: Seq<char>)
    ensures
        at_most(a, b) || at_most(b, a),
        at_most(a, b) && at_most(b, a) ==> a == b,
    decreases a.len(),
{
    if a.len() > 0 && b.len() > 0 && a[0] == b[0] {
        lemma_at_most_total(a.skip(1), b.skip(1));
        if at_most(a, b) && at_most(b, a) {
            assert(a =~= seq![a[0]] + a.skip(1));
            assert(b =~= seq![b[0]] + b.skip(1));
        }
    } else if a.len() == 0 && b.len() == 0 {
        assert(a =~= b);
    }
}

/// What comes before what comes before some text comes before that.
pub proof fn lemma_at_most_transitive(a: Seq<char>, b: Seq<char>, c: Seq<char>)
    requires
        at_most(a, b),
        at_most(b, c),
    ensures
        at_most(a, c),
    decreases a.len(),
{
    if a.len() > 0 && a[0] == b[0] && b[0] == c[0] {
        lemma_at_most_transitive(a.skip(1), b.skip(1), c.skip(1));
    }
}

/// Whether `a` comes before `b` in a dictionary, or is the same.
pub fn is_at_most(a: &str, b: &str) -> (r: bool)
    ensures
        r == at_most(a@, b@),
{
    let x: Vec<char> = to_chars(a);
    let y: Vec<char> = to_chars(b);
    let mut i: usize = 0;
    assert(a@.skip(0) =~= a@ && b@.skip(0) =~= b@);
    while i < x.len() && i < y.len() && x[i] == y[i]
        invariant
            i <= x.len(),
            i <= y.len(),
            x@ == a@,
            y@ == b@,
            at_most(a@, b@) == at_most(a@.skip(i as int), b@.skip(i as int)),
        decreases x.len() - i,
    {
        assert(a@.skip(i as int).skip(1) =~= a@.skip(i + 1));
        assert(b@.skip(i as int).skip(1) =~= b@.skip(i + 1));
        i += 1;
    }
    if i >= x.len() {
        true
    } else if i >= y.len() {
        false
    } else {
        x[i] < y[i]
    }
}

/// Texts are in the order of the first character in which they differ, and one that goes
/// on comes after one that ends.
pub proof fn law_dictionary_order(a: Seq<char>, b: Seq<char>, i: int)
    requires
        0 <= i <= a.len(),
        0 <= i <= b.len(),
        forall|j: int| 0 <= j < i ==> #[trigger] a[j] == b[j],
    ensures
        i == a.len() ==> at_most(a, b),
        i == b.len() && i < a.len() ==> !at_most(a, b),
        i < a.len() && i < b.len() && a[i] != b[i] ==> (at_most(a, b) <==> a[i] < b[i]),
    decreases i,
{
    if i > 0 {
        assert(a[0] == b[0]);
        let x = a.skip(1);
        let y = b.skip(1);
        assert forall|j: int| 0 <= j < i - 1 implies #[trigger] x[j] == y[j] by {
            assert(a[j + 1] == b[j + 1]);
        }
        law_dictionary_order(x, y, i - 1);
    }
}

/// The pieces of text, with the character between them, are the text again, and no piece
/// holds the character.
pub proof fn law_pieces_join_again(s: Seq<char>, c: char)
    ensures
        joined(pieces_of(s, c), seq![c]) == s,
        pieces_of(s, c).len() > 0,
        forall|i: int| 0 <= i < pieces_of(s, c).len() ==> !(#[trigger] pieces_of(s, c)[i]).contains(
            c,
        ),
    decreases s.len(),
{
    lemma_find(s, c);
    let i = find(s, c);
    if i >= s.len() {
        lemma_joined_cons(s, Seq::empty(), seq![c]);
        assert(seq![s] + Seq::<Seq<char>>::empty() =~= seq![s]);
    } else {
        let rest = pieces_of(s.skip(i + 1), c);
        law_pieces_join_again(s.skip(i + 1), c);
        lemma_joined_cons(s.take(i), rest, seq![c]);
        assert(s.take(i) + seq![c] + s.skip(i + 1) =~= s);
        assert forall|k: int| 0 <= k < pieces_of(s, c).len() implies !(#[trigger] pieces_of(
            s,
            c,
        )[k]).contains(c) by {
            if k > 0 {
                assert(pieces_of(s, c)[k] == rest[k - 1]);
            }
        }
    }
}

/// Trimming takes away white space at both ends, all of it, and nothing else.
pub proof fn law_trimming_takes_white_space(s: Seq<char>)
    ensures
        exists|i: int, j: int|
            #![trigger s.subrange(i, j)]
            0 <= i <= j <= s.len() && trimmed(s) == s.subrange(i, j) && (forall|k: int|
                0 <= k < i || j <= k < s.len() ==> is_space(#[trigger] s[k])),
        trimmed(s).len() > 0 ==> !is_space(trimmed(s)[0]) && !is_space(trimmed(s).last()),
{
    let i = lemma_trimmed_start(s);
    let t = trimmed_start(s);
    let n = lemma_trimmed_end(t);
    assert(t.take(n) =~= s.subrange(i, i + n));
    assert forall|k: int| 0 <= k < i || i + n <= k < s.len() implies is_space(#[trigger] s[k]) by {
        if k >= i + n {
            assert(s[k] == t[k - i]);
        }
    }
}

proof fn lemma_trimmed_start(s: Seq<char>) -> (i: int)
    ensures
        0 <= i <= s.len(),
        trimmed_start(s) == s.skip(i),
        forall|k: int| 0 <= k < i ==> is_space(#[trigger] s[k]),
        i < s.len() ==> !is_space(s[i]),
    decreases s.len(),
{
    if s.len() > 0 && is_space(s[0]) {
        let j = lemma_trimmed_start(s.skip(1));
        assert(s.skip(1).skip(j) =~= s.skip(j + 1));
        assert forall|k: int| 0 <= k < j + 1 implies is_space(#[trigger] s[k]) by {
            if k > 0 {
                assert(s[k] == s.skip(1)[k - 1]);
            }
        }
        if j + 1 < s.len() {
            assert(s[j + 1] == s.skip(1)[j]);
        }
        j + 1
    } else {
        assert(s.skip(0) =~= s);
        0
    }
}

proof fn lemma_trimmed_end(s: Seq<char>) -> (n: int)
    ensures
        0 <= n <= s.len(),
        trimmed_end(s) == s.take(n),
        forall|k: int| n <= k < s.len() ==> is_space(#[trigger] s[k]),
        n > 0 ==> !is_space(s[n - 1]),
    decreases s.len(),
{
    if s.len() > 0 && is_space(s.last()) {
        let n = lemma_trimmed_end(s.drop_last());
        assert(s.drop_last().take(n) =~= s.take(n));
        assert forall|k: int| n <= k < s.len() implies is_space(#[trigger] s[k]) by {
            if k < s.len() - 1 {
                assert(s[k] == s.drop_last()[k]);
            }
        }
        n
    } else {
        assert(s.take(s.len() as int) =~= s);
        s.len() as int
    }
}

/// Text is parted at the first place where other text stands in it, and is not parted
/// where that stands nowhere in it.
pub proof fn law_first_occurrence_counts(s: Seq<char>, p: Seq<char>)
    ensures
        match split_once_on(s, p) {
            Some((a, b)) => {
                &&& s == a + p + b
                &&& forall|i: int| 0 <= i < a.len() ==> !has_prefix(#[trigger] s.skip(i), p)
            },
            None => forall|i: int| 0 <= i <= s.len() ==> !has_prefix(#[trigger] s.skip(i), p),
        },
    decreases s.len(),
{
    assert(s.skip(0) =~= s);
    if has_prefix(s, p) {
        assert(Seq::<char>::empty() + p + s.skip(p.len() as int) =~= s);
    } else if s.len() > 0 {
        let t = s.skip(1);
        law_first_occurrence_counts(t, p);
        match split_once_on(t, p) {
            Some((a, b)) => {
                assert(seq![s[0]] + a + p + b =~= seq![s[0]] + (a + p + b));
                assert(seq![s[0]] + t =~= s);
                assert forall|i: int| 0 <= i < a.len() + 1 implies !has_prefix(
                    #[trigger] s.skip(i),
                    p,
                ) by {
                    if i > 0 {
                        assert(s.skip(i) =~= t.skip(i - 1));
                    }
                }
            },
            None => {
                assert forall|i: int| 0 <= i <= s.len() implies !has_prefix(
                    #[trigger] s.skip(i),
                    p,
                ) by {
                    if i > 0 {
                        assert(s.skip(i) =~= t.skip(i - 1));
                    }
                }
            },
        }
    } else {
        assert forall|i: int| 0 <= i <= s.len() implies !has_prefix(#[trigger] s.skip(i), p) by {
            assert(s.skip(i) =~= s);
        }
    }
}

/// A line ends at the next newline, and a carriage return before that is no part of it.
/// What is behind the last newline is a line where there is anything.
pub proof fn law_where_lines_end(line: Seq<char>, rest: Seq<char>)
    requires
        !line.contains('\n'),
    ensures
        lines_of(line + seq!['\r', '\n'] + rest) == seq![line] + lines_of(rest),
        line.len() == 0 || line.last() != '\r' ==> lines_of(line + seq!['\n'] + rest) == seq![line]
            + lines_of(rest),
        line.len() > 0 ==> lines_of(line) == seq![line],
        lines_of(Seq::empty()).len() == 0,
{
    assert forall|j: int| 0 <= j < line.len() implies line[j] != '\n' by {
        assert(line.contains(line[j]));
    }
    let s = line + seq!['\n'] + rest;
    assert forall|j: int| 0 <= j < line.len() implies s[j] != '\n' by {
        assert(s[j] == line[j]);
    }
    lemma_find_is(s, '\n', line.len() as int);
    assert(s.take(line.len() as int) =~= line);
    assert(s.skip(line.len() as int + 1) =~= rest);
    let ended = line.push('\r');
    let t = line + seq!['\r', '\n'] + rest;
    assert forall|j: int| 0 <= j < ended.len() implies t[j] != '\n' by {
        if j < line.len() {
            assert(t[j] == line[j]);
        }
    }
    lemma_find_is(t, '\n', ended.len() as int);
    assert(t.take(ended.len() as int) =~= ended);
    assert(t.skip(ended.len() as int + 1) =~= rest);
    assert(ended.drop_last() =~= line);
    lemma_find_is(line, '\n', line.len() as int);
}

/// White space is what Unicode calls so: from the tab to the carriage return, the blanks,
/// and the separators of lines and paragraphs.
pub proof fn law_what_is_white_space(c: char)
    ensures
        is_space(c) <==> {
            let n = c as u32;
            ||| 9 <= n <= 13
            ||| n == 32
            ||| n == 133
            ||| n == 160
            ||| n == 5760
            ||| 8192 <= n <= 8202
            ||| n == 8232
            ||| n == 8233
            ||| n == 8239
            ||| n == 8287
            ||| n == 12288
        },
{
}

/// Words are not empty and hold no white space. White space before the first word makes no
/// difference, and a word ends at the next white space.
pub proof fn law_words_hold_no_white_space(s: Seq<char>)
    ensures
        forall|i: int|
            0 <= i < words_of(s).len() ==> (#[trigger] words_of(s)[i]).len() > 0 && (forall|k: int|
                0 <= k < words_of(s)[i].len() ==> !is_space(#[trigger] words_of(s)[i][k])),
        words_of(trimmed_start(s)) == words_of(s),
        words_of(s).len() == 0 <==> (forall|k: int| 0 <= k < s.len() ==> is_space(#[trigger] s[k])),
    decreases s.len(),
{
    lemma_trimmed_start_len(s);
    let t = trimmed_start(s);
    lemma_word_len_bound(t);
    assert(trimmed_start(t) == t);
    let i0 = lemma_trimmed_start(s);
    if t.len() > 0 {
        let n = word_len(t) as int;
        let rest = words_of(t.skip(n));
        law_words_hold_no_white_space(t.skip(n));
        assert forall|i: int| 0 <= i < words_of(s).len() implies (#[trigger] words_of(s)[i]).len()
            > 0 && (forall|k: int|
            0 <= k < words_of(s)[i].len() ==> !is_space(#[trigger] words_of(s)[i][k])) by {
            if i == 0 {
                assert(words_of(s)[0] == t.take(n));
            } else {
                assert(words_of(s)[i] == rest[i - 1]);
            }
        }
        assert(!is_space(s[i0]));
    }
}

/// A number may have a plus sign before its digits, and only one. Without digits, or with
/// anything else among them, text is no number.
pub proof fn law_what_is_a_number(s: Seq<char>, digits: Seq<char>)
    ensures
        s.len() > 0 && s[0] != '+' ==> without_plus(seq!['+'] + s) == s && without_plus(s) == s,
        is_u32(digits) ==> {
            let d = without_plus(digits);
            &&& d.len() > 0
            &&& forall|i: int| 0 <= i < d.len() ==> '0' <= #[trigger] d[i] <= '9'
            &&& decimal(d) <= 4294967295
        },
        !is_u32(Seq::empty()),
        !is_u32(seq!['+']),
{
    if s.len() > 0 && s[0] != '+' {
        assert((seq!['+'] + s).skip(1) =~= s);
    }
    assert(seq!['+'].skip(1).len() == 0);
    if is_u32(digits) {
        let d = without_plus(digits);
        assert forall|i: int| 0 <= i < d.len() implies '0' <= #[trigger] d[i] <= '9' by {
            assert(is_digit(d[i]));
        }
    }
}

} // verus!
