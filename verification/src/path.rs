//! Paths, told apart by whether they are absolute and by what they name.
//!
//! A path is text. Its components are the pieces between `/` that are neither
//! empty nor `.`; text that differs only in such pieces names the same place.
//! Operations that only pass a path on keep its text as it is.

use vstd::prelude::*;
use vstd::string::*;

use crate::text;

verus! {

/// Whether `p` begins at the root directory.
pub open spec fn is_abs(p: Seq<char>) -> bool {
    p.len() > 0 && p[0] == '/'
}

/// Whether the first piece of `p` is `.`.
pub open spec fn starts_at_dot(p: Seq<char>) -> bool {
    p.len() > 0 && p[0] == '.' && (p.len() == 1 || p[1] == '/')
}

/// Whether the last piece of `p` is `.`.
pub open spec fn ends_at_dot(p: Seq<char>) -> bool {
    p.len() > 0 && p.last() == '.' && (p.len() == 1 || p[p.len() - 2] == '/')
}

/// `p` from its first component on.
pub open spec fn body(p: Seq<char>) -> Seq<char>
    decreases p.len(),
{
    if is_abs(p) || starts_at_dot(p) {
        body(p.skip(1))
    } else {
        p
    }
}

/// `p` up to its last component.
pub open spec fn trunk(p: Seq<char>) -> Seq<char>
    decreases p.len(),
{
    if p.len() > 0 && (p.last() == '/' || ends_at_dot(p)) {
        trunk(p.drop_last())
    } else {
        p
    }
}

/// The first piece of `p`.
pub open spec fn head(p: Seq<char>) -> Seq<char> {
    p.take(text::find(p, '/'))
}

/// What follows the first piece of `p`.
pub open spec fn tail(p: Seq<char>) -> Seq<char> {
    p.skip(text::find(p, '/'))
}

pub proof fn lemma_body(p: Seq<char>)
    ensures
        body(p).len() <= p.len(),
        !is_abs(body(p)),
        !starts_at_dot(body(p)),
        body(body(p)) == body(p),
        body(p) == p.skip(p.len() - body(p).len()),
    decreases p.len(),
{
    if is_abs(p) || starts_at_dot(p) {
        lemma_body(p.skip(1));
        assert(p.skip(1).skip(p.len() - 1 - body(p).len()) =~= p.skip(p.len() - body(p).len()));
    } else {
        assert(p.skip(0) =~= p);
    }
}

pub proof fn lemma_head_tail(p: Seq<char>)
    ensures
        head(p) + tail(p) == p,
        p.len() > 0 && !is_abs(p) ==> head(p).len() > 0,
        tail(p).len() > 0 ==> is_abs(tail(p)),
        tail(p).len() <= p.len(),
        head(p).len() > 0 ==> tail(p).len() < p.len(),
        !head(p).contains('/'),
{
    text::lemma_find(p, '/');
    assert(head(p) + tail(p) =~= p);
}

/// The components of `p`.
pub open spec fn components(p: Seq<char>) -> Seq<Seq<char>>
    decreases p.len(),
{
    proof {
        lemma_body(p);
        lemma_head_tail(body(p));
    }
    let q = body(p);
    if q.len() == 0 {
        Seq::empty()
    } else {
        seq![head(q)] + components(tail(q))
    }
}

/// What is left of `path` after the components of `base`, where `path` begins
/// with them.
pub open spec fn below(base: Seq<char>, path: Seq<char>) -> Option<Seq<char>>
    decreases base.len(),
{
    proof {
        lemma_body(base);
        lemma_head_tail(body(base));
    }
    let b = body(base);
    let q = body(path);
    if b.len() == 0 {
        Some(trunk(q))
    } else if q.len() == 0 || head(b) != head(q) {
        None
    } else {
        below(tail(b), tail(q))
    }
}

/// `rel` inside the directory `base`.
pub open spec fn join(base: Seq<char>, rel: Seq<char>) -> Seq<char> {
    if base.len() == 0 || base.last() == '/' {
        base + rel
    } else {
        base + seq!['/'] + rel
    }
}

/// The name of what `p` names: its last component, unless that is `..`.
pub open spec fn name_of(p: Seq<char>) -> Option<Seq<char>> {
    let c = components(p);
    if c.len() == 0 || c.last() == seq!['.', '.'] {
        None
    } else {
        Some(c.last())
    }
}

/// The directory that holds what the absolute path `p` names.
pub open spec fn parent_of(p: Seq<char>) -> Option<Seq<char>> {
    let t = trunk(p);
    if t.len() == 0 {
        None
    } else {
        let up = trunk(t.take(text::rfind(t, '/')));
        if up.len() == 0 {
            Some(seq!['/'])
        } else {
            Some(up)
        }
    }
}

/// Whether `rel` is relative text that begins and ends with a component, or is
/// empty.
pub open spec fn is_clean(rel: Seq<char>) -> bool {
    body(rel) == rel && trunk(rel) == rel
}

pub proof fn lemma_body_append(p: Seq<char>, s: Seq<char>)
    requires
        s.len() == 0 || s[0] == '/',
    ensures
        body(p).len() > 0 ==> body(p + s) == body(p) + s,
        body(p).len() == 0 ==> body(p + s) == body(s),
    decreases p.len(),
{
    if p.len() == 0 {
        assert(p + s =~= s);
    } else if is_abs(p) || starts_at_dot(p) {
        lemma_body_append(p.skip(1), s);
        assert((p + s).skip(1) =~= p.skip(1) + s);
        if !is_abs(p) {
            assert(starts_at_dot(p + s)) by {
                if p.len() == 1 {
                    if s.len() > 0 {
                        assert((p + s)[1] == s[0]);
                    }
                } else {
                    assert((p + s)[1] == p[1]);
                }
            }
        }
    } else {
        assert((p + s)[0] == p[0]);
        if p[0] == '.' {
            assert((p + s)[1] == p[1]);
        }
    }
}

pub proof fn lemma_head_append(p: Seq<char>, s: Seq<char>)
    requires
        s.len() == 0 || s[0] == '/',
    ensures
        head(p + s) == head(p),
        tail(p + s) == tail(p) + s,
{
    let i = text::find(p, '/');
    text::lemma_find(p, '/');
    if s.len() == 0 {
        assert(p + s =~= p);
        assert(tail(p) + s =~= tail(p));
    } else {
        assert forall|j: int| 0 <= j < i implies (p + s)[j] != '/' by {
            assert((p + s)[j] == p[j]);
        }
        if i < p.len() {
            assert((p + s)[i] == p[i]);
        } else {
            assert((p + s)[i] == s[0]);
        }
        text::lemma_find_is(p + s, '/', i);
        assert((p + s).take(i) =~= p.take(i));
        assert((p + s).skip(i) =~= p.skip(i) + s);
    }
}

/// What lies below a directory is found again below it: the clean path `rel`,
/// put inside `base`, is what is left of it after `base`.
pub proof fn lemma_below_join(base: Seq<char>, rel: Seq<char>)
    requires
        is_clean(rel),
    ensures
        below(base, join(base, rel)) == Some(rel),
{
    if base.len() == 0 {
        assert(join(base, rel) =~= rel);
        assert(base + rel =~= rel);
    } else if base.last() == '/' {
        let t = base.drop_last();
        let s = seq!['/'] + rel;
        assert(base + rel =~= t + s);
        assert(base =~= t.push('/'));
        lemma_below_append(base, t, rel);
    } else {
        let s = seq!['/'] + rel;
        assert(base + seq!['/'] + rel =~= base + s);
        lemma_below_append(base, base, rel);
    }
}

proof fn lemma_body_drop_slash(t: Seq<char>)
    ensures
        body(t).len() > 0 ==> body(t.push('/')) == body(t).push('/'),
        body(t).len() == 0 ==> body(t.push('/')).len() == 0,
{
    lemma_body_append(t, seq!['/']);
    assert(t.push('/') =~= t + seq!['/']);
    assert(body(t).push('/') =~= body(t) + seq!['/']);
    assert(seq!['/'].skip(1) =~= Seq::<char>::empty());
    reveal_with_fuel(body, 3);
}

// `b` is `t`, or `t` with a `/` at its end; both have the same components.
proof fn lemma_below_append(b: Seq<char>, t: Seq<char>, rel: Seq<char>)
    requires
        is_clean(rel),
        b == t || b == t.push('/'),
    ensures
        below(b, t + (seq!['/'] + rel)) == Some(rel),
    decreases b.len(),
{
    let s = seq!['/'] + rel;
    lemma_body(b);
    lemma_body(t);
    lemma_body_append(t, s);
    lemma_body_drop_slash(t);
    lemma_head_tail(body(t));
    lemma_head_tail(body(b));
    if body(t).len() == 0 {
        assert(s.skip(1) =~= rel);
        assert(body(s) == body(rel));
    } else {
        lemma_head_append(body(t), s);
        lemma_head_append(body(t), seq!['/']);
        assert(body(t).push('/') =~= body(t) + seq!['/']);
        assert(tail(body(t)) + seq!['/'] =~= tail(body(t)).push('/'));
        lemma_below_append(tail(body(b)), tail(body(t)), rel);
    }
}

/// Where the body of `v` from `i` on begins.
fn skip_to_body(v: &Vec<char>, i: usize) -> (r: usize)
    requires
        i <= v.len(),
    ensures
        i <= r <= v.len(),
        v@.skip(r as int) == body(v@.skip(i as int)),
{
    let mut k: usize = i;
    while k < v.len() && (v[k] == '/' || (v[k] == '.' && (k + 1 == v.len() || v[k + 1] == '/')))
        invariant
            i <= k <= v.len(),
            body(v@.skip(k as int)) == body(v@.skip(i as int)),
        decreases v.len() - k,
    {
        proof {
            let q = v@.skip(k as int);
            assert(q[0] == v@[k as int]);
            if k + 1 < v.len() {
                assert(q[1] == v@[k + 1]);
            }
            assert(q.skip(1) =~= v@.skip(k + 1));
        }
        k += 1;
    }
    proof {
        let q = v@.skip(k as int);
        if k < v.len() {
            assert(q[0] == v@[k as int]);
            if k + 1 < v.len() {
                assert(q[1] == v@[k + 1]);
            }
        }
    }
    k
}

/// Where the first piece of `v` from `i` on ends.
fn piece_end(v: &Vec<char>, i: usize) -> (r: usize)
    requires
        i <= v.len(),
    ensures
        i <= r <= v.len(),
        r == i + text::find(v@.skip(i as int), '/'),
{
    let mut k: usize = i;
    while k < v.len() && v[k] != '/'
        invariant
            i <= k <= v.len(),
            forall|j: int| i <= j < k ==> v@[j] != '/',
        decreases v.len() - k,
    {
        k += 1;
    }
    proof {
        let q = v@.skip(i as int);
        assert forall|j: int| 0 <= j < k - i implies q[j] != '/' by {
            assert(q[j] == v@[i + j]);
        }
        if k < v.len() {
            assert(q[k - i] == v@[k as int]);
        }
        text::lemma_find_is(q, '/', k - i);
    }
    k
}

/// Where the trunk of the characters of `v` from `i` up to `n` ends.
fn trunk_end(v: &Vec<char>, i: usize, n: usize) -> (r: usize)
    requires
        i <= n <= v.len(),
    ensures
        i <= r <= n,
        v@.subrange(i as int, r as int) == trunk(v@.subrange(i as int, n as int)),
{
    let mut k: usize = n;
    while k > i && (v[k - 1] == '/' || (v[k - 1] == '.' && (k - 1 == i || v[k - 2] == '/')))
        invariant
            i <= k <= n <= v.len(),
            trunk(v@.subrange(i as int, k as int)) == trunk(v@.subrange(i as int, n as int)),
        decreases k,
    {
        proof {
            let q = v@.subrange(i as int, k as int);
            assert(q.last() == v@[k - 1]);
            if k - 1 > i {
                assert(q[q.len() - 2] == v@[k - 2]);
            }
            assert(q.drop_last() =~= v@.subrange(i as int, k - 1));
        }
        k -= 1;
    }
    proof {
        let q = v@.subrange(i as int, k as int);
        if k > i {
            assert(q.last() == v@[k - 1]);
            if k - 1 > i {
                assert(q[q.len() - 2] == v@[k - 2]);
            }
        }
    }
    k
}

fn same_range(a: &Vec<char>, i: usize, ie: usize, b: &Vec<char>, j: usize, je: usize) -> (r: bool)
    requires
        i <= ie <= a.len(),
        j <= je <= b.len(),
    ensures
        r == (a@.subrange(i as int, ie as int) == b@.subrange(j as int, je as int)),
{
    let ghost x = a@.subrange(i as int, ie as int);
    let ghost y = b@.subrange(j as int, je as int);
    if ie - i != je - j {
        assert(x.len() != y.len());
        return false;
    }
    let mut k: usize = 0;
    while k < ie - i
        invariant
            k <= ie - i,
            i <= ie <= a.len(),
            j <= je <= b.len(),
            ie - i == je - j,
            x == a@.subrange(i as int, ie as int),
            y == b@.subrange(j as int, je as int),
            forall|m: int| 0 <= m < k ==> x[m] == y[m],
        decreases ie - i - k,
    {
        if a[i + k] != b[j + k] {
            assert(x[k as int] != y[k as int]);
            return false;
        }
        assert(x[k as int] == y[k as int]);
        k += 1;
    }
    assert(x =~= y);
    true
}

/// What is left of `path` after the components of `base`.
pub fn relative_text(path: &str, base: &str) -> (r: Option<String>)
    ensures
        match r {
            Some(t) => below(base@, path@) == Some(t@),
            None => below(base@, path@) is None,
        },
{
    let b: Vec<char> = text::to_chars(base);
    let p: Vec<char> = text::to_chars(path);
    let mut i: usize = 0;
    let mut j: usize = 0;
    assert(base@.skip(0) =~= base@);
    assert(path@.skip(0) =~= path@);
    loop
        invariant
            b@ == base@,
            p@ == path@,
            i <= p.len(),
            j <= b.len(),
            below(base@, path@) == below(b@.skip(j as int), p@.skip(i as int)),
        decreases b.len() - j,
    {
        let jb: usize = skip_to_body(&b, j);
        let ib: usize = skip_to_body(&p, i);
        let ghost bb = b@.skip(jb as int);
        let ghost pp = p@.skip(ib as int);
        if jb == b.len() {
            let e: usize = trunk_end(&p, ib, p.len());
            assert(p@.subrange(ib as int, p.len() as int) =~= pp);
            return Some(text::part(path, ib, e));
        }
        if ib == p.len() {
            return None;
        }
        let je: usize = piece_end(&b, jb);
        let ie: usize = piece_end(&p, ib);
        proof {
            lemma_body(b@.skip(j as int));
            lemma_head_tail(bb);
            assert(b@.subrange(jb as int, je as int) =~= head(bb));
            assert(p@.subrange(ib as int, ie as int) =~= head(pp));
            assert(tail(bb) =~= b@.skip(je as int));
            assert(tail(pp) =~= p@.skip(ie as int));
        }
        if !same_range(&b, jb, je, &p, ib, ie) {
            return None;
        }
        i = ie;
        j = je;
    }
}

/// The components of a path.
pub fn component_list(path: &str) -> (r: Vec<String>)
    ensures
        text::views(r@) == components(path@),
{
    let p: Vec<char> = text::to_chars(path);
    let mut r: Vec<String> = Vec::new();
    let mut i: usize = 0;
    assert(path@.skip(0) =~= path@);
    assert(text::views(r@) + components(path@) =~= components(path@));
    loop
        invariant
            p@ == path@,
            i <= p.len(),
            text::views(r@) + components(path@.skip(i as int)) == components(path@),
        decreases p.len() - i,
    {
        let ib: usize = skip_to_body(&p, i);
        let ghost q = p@.skip(ib as int);
        let ghost before = text::views(r@);
        if ib == p.len() {
            assert(components(path@.skip(i as int)) =~= Seq::empty());
            assert(before + components(path@.skip(i as int)) =~= before);
            return r;
        }
        let ie: usize = piece_end(&p, ib);
        proof {
            lemma_body(p@.skip(i as int));
            lemma_head_tail(q);
            assert(p@.subrange(ib as int, ie as int) =~= head(q));
            assert(tail(q) =~= p@.skip(ie as int));
        }
        r.push(text::part(path, ib, ie));
        proof {
            assert(text::views(r@) =~= before.push(head(q)));
            assert(before + (seq![head(q)] + components(tail(q))) =~= before.push(head(q))
                + components(tail(q)));
        }
        i = ie;
    }
}

/// The text of `rel` inside `base`.
pub fn join_text(base: &str, rel: &str) -> (r: String)
    ensures
        r@ == join(base@, rel@),
{
    let n: usize = base.unicode_len();
    if n == 0 || base.get_char(n - 1) == '/' {
        text::concat(base, rel)
    } else {
        proof {
            reveal_strlit("/");
            assert("/"@ =~= seq!['/']);
        }
        text::concat3(base, "/", rel)
    }
}

/// Whether a path begins at the root directory.
pub fn is_absolute(p: &str) -> (r: bool)
    ensures
        r == is_abs(p@),
{
    p.unicode_len() > 0 && p.get_char(0) == '/'
}

/// The name of what a path names.
pub fn file_name_text(path: &str) -> (r: Option<String>)
    ensures
        match r {
            Some(t) => name_of(path@) == Some(t@),
            None => name_of(path@) is None,
        },
{
    let mut c: Vec<String> = component_list(path);
    let ghost all = text::views(c@);
    if c.len() == 0 {
        return None;
    }
    let last: String = c.swap_remove(c.len() - 1);
    proof {
        assert(last@ == all.last());
        reveal_strlit("..");
        assert(".."@ =~= seq!['.', '.']);
    }
    if text::same(last.as_str(), "..") {
        None
    } else {
        Some(last)
    }
}

/// The directory that holds what an absolute path names.
pub fn parent_text(path: &str) -> (r: Option<String>)
    requires
        is_abs(path@),
    ensures
        match r {
            Some(t) => parent_of(path@) == Some(t@) && is_abs(t@),
            None => parent_of(path@) is None,
        },
{
    let p: Vec<char> = text::to_chars(path);
    let e: usize = trunk_end(&p, 0, p.len());
    assert(p@.subrange(0, p.len() as int) =~= p@);
    let ghost t = trunk(path@);
    assert(p@.subrange(0, e as int) =~= t);
    if e == 0 {
        return None;
    }
    let mut i: usize = e;
    proof {
        assert(t[0] == path@[0]);
    }
    while p[i - 1] != '/'
        invariant
            0 < i <= e <= p.len(),
            p@ == path@,
            t == p@.subrange(0, e as int),
            t[0] == '/',
            forall|j: int| i <= j < e ==> t[j] != '/',
        decreases i,
    {
        assert(t[i - 1] == p@[i - 1]);
        i -= 1;
    }
    proof {
        assert(t[i - 1] == p@[i - 1]);
        text::lemma_rfind_is(t, '/', i - 1);
    }
    let u: usize = trunk_end(&p, 0, i - 1);
    assert(p@.subrange(0, i - 1) =~= t.take(i - 1));
    if u == 0 {
        proof {
            reveal_strlit("/");
            assert("/"@ =~= seq!['/']);
        }
        Some(text::copy("/"))
    } else {
        let r = text::part(path, 0, u);
        assert(r@[0] == path@[0]);
        Some(r)
    }
}

/// Whether two paths have the same components.
pub fn same_components(a: &str, b: &str) -> (r: bool)
    ensures
        r == (components(a@) == components(b@)),
{
    let x: Vec<String> = component_list(a);
    let y: Vec<String> = component_list(b);
    if x.len() != y.len() {
        assert(text::views(x@).len() != text::views(y@).len());
        return false;
    }
    let mut i: usize = 0;
    while i < x.len()
        invariant
            i <= x.len(),
            x.len() == y.len(),
            text::views(x@) == components(a@),
            text::views(y@) == components(b@),
            forall|j: int| 0 <= j < i ==> x@[j]@ == y@[j]@,
        decreases x.len() - i,
    {
        if !text::same(x[i].as_str(), y[i].as_str()) {
            assert(text::views(x@)[i as int] != text::views(y@)[i as int]);
            return false;
        }
        i += 1;
    }
    assert(text::views(x@) =~= text::views(y@));
    true
}

proof fn lemma_trunk_is_prefix(p: Seq<char>)
    ensures
        trunk(p).len() <= p.len(),
        trunk(p) == p.take(trunk(p).len() as int),
        trunk(trunk(p)) == trunk(p),
    decreases p.len(),
{
    if p.len() > 0 && (p.last() == '/' || ends_at_dot(p)) {
        lemma_trunk_is_prefix(p.drop_last());
        assert(p.drop_last().take(trunk(p).len() as int) =~= p.take(trunk(p).len() as int));
    } else {
        assert(p.take(p.len() as int) =~= p);
    }
}

/// What is left below a directory is clean, and so relative.
pub proof fn lemma_below_is_clean(base: Seq<char>, path: Seq<char>)
    ensures
        below(base, path) matches Some(t) ==> is_clean(t) && !is_abs(t),
    decreases base.len(),
{
    lemma_body(base);
    lemma_head_tail(body(base));
    lemma_body(path);
    let b = body(base);
    let q = body(path);
    if b.len() == 0 {
        lemma_trunk_is_prefix(q);
        let t = trunk(q);
        if t.len() > 0 {
            assert(t[0] == q[0]);
            if t[0] == '.' {
                if t.len() == 1 {
                    // A lone `.` would have been cut off.
                    assert(ends_at_dot(t));
                    assert(trunk(t) == trunk(t.drop_last()));
                    assert(t.drop_last().len() == 0);
                } else {
                    assert(t[1] == q[1]);
                }
            }
        }
    } else if q.len() > 0 && head(b) == head(q) {
        lemma_below_is_clean(tail(b), tail(q));
    }
}

/// Why text was refused as a path of some kind.
#[derive(Debug, Clone, Copy, PartialEq, Eq, Structural)]
pub enum PathError {
    /// An absolute path was wanted.
    NotAbsolute,
    /// A relative path was wanted.
    NotRelative,
}

/// An absolute path to a directory.
#[derive(Debug)]
pub struct AbsDirPath {
    text: String,
}

/// An absolute path to a file.
#[derive(Debug)]
pub struct AbsFilePath {
    text: String,
}

/// A relative path to a directory.
#[derive(Debug)]
pub struct RelDirPath {
    text: String,
}

/// A relative path to a file.
#[derive(Debug)]
pub struct RelFilePath {
    text: String,
}

impl View for AbsDirPath {
    type V = Seq<char>;

    closed spec fn view(&self) -> Seq<char> {
        self.text@
    }
}

impl View for AbsFilePath {
    type V = Seq<char>;

    closed spec fn view(&self) -> Seq<char> {
        self.text@
    }
}

impl View for RelDirPath {
    type V = Seq<char>;

    closed spec fn view(&self) -> Seq<char> {
        self.text@
    }
}

impl View for RelFilePath {
    type V = Seq<char>;

    closed spec fn view(&self) -> Seq<char> {
        self.text@
    }
}

impl Clone for AbsDirPath {
    fn clone(&self) -> (r: Self)
        ensures
            r == *self,
    {
        proof {
            use_type_invariant(self);
        }
        AbsDirPath { text: self.text.clone() }
    }
}

impl Clone for AbsFilePath {
    fn clone(&self) -> (r: Self)
        ensures
            r == *self,
    {
        proof {
            use_type_invariant(self);
        }
        AbsFilePath { text: self.text.clone() }
    }
}

impl Clone for RelDirPath {
    fn clone(&self) -> (r: Self)
        ensures
            r == *self,
    {
        proof {
            use_type_invariant(self);
        }
        RelDirPath { text: self.text.clone() }
    }
}

impl Clone for RelFilePath {
    fn clone(&self) -> (r: Self)
        ensures
            r == *self,
    {
        proof {
            use_type_invariant(self);
        }
        RelFilePath { text: self.text.clone() }
    }
}

impl AbsDirPath {
    #[verifier::type_invariant]
    spec fn inv(self) -> bool {
        is_abs(self.text@)
    }

    /// The absolute directory that a string names.
    pub fn new(p: &str) -> (r: Result<AbsDirPath, PathError>)
        ensures
            match r {
                Ok(d) => is_abs(p@) && d@ == p@,
                Err(e) => !is_abs(p@) && e == PathError::NotAbsolute,
            },
    {
        if is_absolute(p) {
            Ok(AbsDirPath { text: text::copy(p) })
        } else {
            Err(PathError::NotAbsolute)
        }
    }

    /// The text of the path.
    pub fn as_str(&self) -> (r: &str)
        ensures
            r@ == self@,
            is_abs(self@),
    {
        proof {
            use_type_invariant(self);
        }
        self.text.as_str()
    }

    /// A file inside this directory.
    pub fn join_file(&self, rel: &RelFilePath) -> (r: AbsFilePath)
        ensures
            r@ == join(self@, rel@),
    {
        proof {
            use_type_invariant(self);
        }
        let t = join_text(self.text.as_str(), rel.text.as_str());
        assert(t@[0] == self.text@[0]);
        AbsFilePath { text: t }
    }

    /// A directory inside this directory.
    pub fn join_dir(&self, rel: &RelDirPath) -> (r: AbsDirPath)
        ensures
            r@ == join(self@, rel@),
    {
        proof {
            use_type_invariant(self);
        }
        let t = join_text(self.text.as_str(), rel.text.as_str());
        assert(t@[0] == self.text@[0]);
        AbsDirPath { text: t }
    }

    /// The file of the given name inside this directory.
    pub fn try_join_file(&self, name: &str) -> (r: Result<AbsFilePath, PathError>)
        ensures
            match r {
                Ok(f) => !is_abs(name@) && f@ == join(self@, name@),
                Err(e) => is_abs(name@) && e == PathError::NotRelative,
            },
    {
        match RelFilePath::new(name) {
            Ok(rel) => Ok(self.join_file(&rel)),
            Err(e) => Err(e),
        }
    }

    /// The directory of the given name inside this directory.
    pub fn try_join_dir(&self, name: &str) -> (r: Result<AbsDirPath, PathError>)
        ensures
            match r {
                Ok(d) => !is_abs(name@) && d@ == join(self@, name@),
                Err(e) => is_abs(name@) && e == PathError::NotRelative,
            },
    {
        match RelDirPath::new(name) {
            Ok(rel) => Ok(self.join_dir(&rel)),
            Err(e) => Err(e),
        }
    }

    /// This directory as seen from `base`, where it lies inside `base`.
    pub fn relative_to(&self, base: &AbsDirPath) -> (r: Option<RelDirPath>)
        ensures
            match r {
                Some(rel) => below(base@, self@) == Some(rel@),
                None => below(base@, self@) is None,
            },
    {
        proof {
            lemma_below_is_clean(base@, self@);
        }
        match relative_text(self.text.as_str(), base.text.as_str()) {
            Some(t) => Some(RelDirPath { text: t }),
            None => None,
        }
    }

    /// The name of this directory.
    pub fn file_name(&self) -> (r: Option<String>)
        ensures
            match r {
                Some(t) => name_of(self@) == Some(t@),
                None => name_of(self@) is None,
            },
    {
        file_name_text(self.text.as_str())
    }

    /// The directory that holds this one.
    pub fn parent(&self) -> (r: Option<AbsDirPath>)
        ensures
            match r {
                Some(d) => parent_of(self@) == Some(d@),
                None => parent_of(self@) is None,
            },
    {
        proof {
            use_type_invariant(self);
        }
        match parent_text(self.text.as_str()) {
            Some(t) => Some(AbsDirPath { text: t }),
            None => None,
        }
    }
}

impl AbsFilePath {
    #[verifier::type_invariant]
    spec fn inv(self) -> bool {
        is_abs(self.text@)
    }

    /// The absolute file that a string names.
    pub fn new(p: &str) -> (r: Result<AbsFilePath, PathError>)
        ensures
            match r {
                Ok(f) => is_abs(p@) && f@ == p@,
                Err(e) => !is_abs(p@) && e == PathError::NotAbsolute,
            },
    {
        if is_absolute(p) {
            Ok(AbsFilePath { text: text::copy(p) })
        } else {
            Err(PathError::NotAbsolute)
        }
    }

    /// The text of the path.
    pub fn as_str(&self) -> (r: &str)
        ensures
            r@ == self@,
            is_abs(self@),
    {
        proof {
            use_type_invariant(self);
        }
        self.text.as_str()
    }

    /// This file as seen from `base`, where it lies inside `base`.
    pub fn relative_to(&self, base: &AbsDirPath) -> (r: Option<RelFilePath>)
        ensures
            match r {
                Some(rel) => below(base@, self@) == Some(rel@),
                None => below(base@, self@) is None,
            },
    {
        proof {
            lemma_below_is_clean(base@, self@);
        }
        match relative_text(self.text.as_str(), base.text.as_str()) {
            Some(t) => Some(RelFilePath { text: t }),
            None => None,
        }
    }

    /// The name of this file.
    pub fn file_name(&self) -> (r: Option<String>)
        ensures
            match r {
                Some(t) => name_of(self@) == Some(t@),
                None => name_of(self@) is None,
            },
    {
        file_name_text(self.text.as_str())
    }

    /// The directory that holds this file.
    pub fn parent(&self) -> (r: Option<AbsDirPath>)
        ensures
            match r {
                Some(d) => parent_of(self@) == Some(d@),
                None => parent_of(self@) is None,
            },
    {
        proof {
            use_type_invariant(self);
        }
        match parent_text(self.text.as_str()) {
            Some(t) => Some(AbsDirPath { text: t }),
            None => None,
        }
    }
}

impl RelDirPath {
    #[verifier::type_invariant]
    spec fn inv(self) -> bool {
        !is_abs(self.text@)
    }

    /// The relative directory of a name that does not begin with `/`.
    pub(crate) fn known(name: &str) -> (r: RelDirPath)
        requires
            !is_abs(name@),
        ensures
            r@ == name@,
    {
        RelDirPath { text: text::copy(name) }
    }

    /// The relative directory that a string names.
    pub fn new(p: &str) -> (r: Result<RelDirPath, PathError>)
        ensures
            match r {
                Ok(d) => !is_abs(p@) && d@ == p@,
                Err(e) => is_abs(p@) && e == PathError::NotRelative,
            },
    {
        if is_absolute(p) {
            Err(PathError::NotRelative)
        } else {
            Ok(RelDirPath { text: text::copy(p) })
        }
    }

    /// The text of the path.
    pub fn as_str(&self) -> (r: &str)
        ensures
            r@ == self@,
            !is_abs(self@),
    {
        proof {
            use_type_invariant(self);
        }
        self.text.as_str()
    }

    /// The file of the given name inside this directory.
    pub fn try_join_file(&self, name: &str) -> (r: Result<RelFilePath, PathError>)
        ensures
            match r {
                Ok(f) => !is_abs(name@) && f@ == join(self@, name@),
                Err(e) => is_abs(name@) && e == PathError::NotRelative,
            },
    {
        proof {
            use_type_invariant(self);
        }
        if is_absolute(name) {
            Err(PathError::NotRelative)
        } else {
            Ok(RelFilePath { text: join_text(self.text.as_str(), name) })
        }
    }

    /// The directory of the given name inside this directory.
    pub fn try_join_dir(&self, name: &str) -> (r: Result<RelDirPath, PathError>)
        ensures
            match r {
                Ok(d) => !is_abs(name@) && d@ == join(self@, name@),
                Err(e) => is_abs(name@) && e == PathError::NotRelative,
            },
    {
        proof {
            use_type_invariant(self);
        }
        if is_absolute(name) {
            Err(PathError::NotRelative)
        } else {
            Ok(RelDirPath { text: join_text(self.text.as_str(), name) })
        }
    }
}

impl RelFilePath {
    #[verifier::type_invariant]
    spec fn inv(self) -> bool {
        !is_abs(self.text@)
    }

    /// The relative file of a name that does not begin with `/`.
    pub(crate) fn known(name: &str) -> (r: RelFilePath)
        requires
            !is_abs(name@),
        ensures
            r@ == name@,
    {
        RelFilePath { text: text::copy(name) }
    }

    /// The relative file that a string names.
    pub fn new(p: &str) -> (r: Result<RelFilePath, PathError>)
        ensures
            match r {
                Ok(f) => !is_abs(p@) && f@ == p@,
                Err(e) => is_abs(p@) && e == PathError::NotRelative,
            },
    {
        if is_absolute(p) {
            Err(PathError::NotRelative)
        } else {
            Ok(RelFilePath { text: text::copy(p) })
        }
    }

    /// The text of the path.
    pub fn as_str(&self) -> (r: &str)
        ensures
            r@ == self@,
            !is_abs(self@),
    {
        proof {
            use_type_invariant(self);
        }
        self.text.as_str()
    }
}

proof fn lemma_components_append(p: Seq<char>, s: Seq<char>)
    requires
        s.len() == 0 || s[0] == '/',
    ensures
        components(p + s) == components(p) + components(s),
    decreases p.len(),
{
    lemma_body(p);
    lemma_body_append(p, s);
    let q = body(p);
    lemma_head_tail(q);
    if q.len() == 0 {
        assert(components(p) + components(s) =~= components(s));
        assert(components(p + s) == components(s));
    } else {
        lemma_head_append(q, s);
        lemma_components_append(tail(q), s);
        assert(seq![head(q)] + (components(tail(q)) + components(s)) =~= seq![head(q)]
            + components(tail(q)) + components(s));
    }
}

proof fn lemma_components_of_slashes()
    ensures
        components(seq!['/']) == Seq::<Seq<char>>::empty(),
        components(seq!['/', '.']) == Seq::<Seq<char>>::empty(),
        components(seq!['.']) == Seq::<Seq<char>>::empty(),
        components(Seq::empty()) == Seq::<Seq<char>>::empty(),
{
    reveal_with_fuel(body, 3);
    assert(seq!['/'].skip(1) =~= Seq::<char>::empty());
    assert(seq!['.'].skip(1) =~= Seq::<char>::empty());
    assert(seq!['/', '.'].skip(1) =~= seq!['.']);
}

proof fn lemma_components_of_trunk(p: Seq<char>)
    ensures
        components(trunk(p)) == components(p),
    decreases p.len(),
{
    lemma_components_of_slashes();
    if p.len() > 0 && p.last() == '/' {
        let t = p.drop_last();
        lemma_components_of_trunk(t);
        assert(p =~= t + seq!['/']);
        lemma_components_append(t, seq!['/']);
        assert(components(t) + Seq::<Seq<char>>::empty() =~= components(t));
    } else if ends_at_dot(p) {
        let t = p.drop_last();
        lemma_components_of_trunk(t);
        if p.len() == 1 {
            assert(p =~= seq!['.']);
            assert(t =~= Seq::empty());
        } else {
            let u = t.drop_last();
            assert(t =~= u + seq!['/']);
            assert(p =~= u + seq!['/', '.']);
            lemma_components_append(u, seq!['/']);
            lemma_components_append(u, seq!['/', '.']);
        }
    }
}

/// The components of what lies inside a directory are those of the directory, and then
/// its own.
pub proof fn law_joining_adds_components(base: Seq<char>, rel: Seq<char>)
    ensures
        components(join(base, rel)) == components(base) + components(rel),
{
    lemma_components_of_slashes();
    let s = seq!['/'] + rel;
    assert(s.skip(1) =~= rel);
    assert(body(s) == body(rel));
    assert(components(s) == components(rel));
    if base.len() == 0 {
        assert(base =~= Seq::empty());
        assert(base + rel =~= rel);
        assert(components(base) + components(rel) =~= components(rel));
    } else if base.last() == '/' {
        let t = base.drop_last();
        assert(base =~= t + seq!['/']);
        assert(base + rel =~= t + s);
        lemma_components_append(t, s);
        lemma_components_append(t, seq!['/']);
        assert(components(t) + Seq::<Seq<char>>::empty() =~= components(t));
    } else {
        assert(base + seq!['/'] + rel =~= base + s);
        lemma_components_append(base, s);
    }
}

/// A path lies below a directory exactly where its components begin with those of the
/// directory, and what is left of it has the others.
pub proof fn law_what_is_below_a_directory(base: Seq<char>, path: Seq<char>)
    ensures
        match below(base, path) {
            Some(rel) => components(path) == components(base) + components(rel),
            None => !(components(base).len() <= components(path).len() && components(path).take(
                components(base).len() as int,
            ) == components(base)),
        },
    decreases base.len(),
{
    lemma_body(base);
    lemma_head_tail(body(base));
    lemma_body(path);
    lemma_head_tail(body(path));
    let b = body(base);
    let q = body(path);
    if b.len() == 0 {
        lemma_components_of_trunk(q);
        lemma_body_is_a_body(path);
        assert(components(base) + components(trunk(q)) =~= components(path));
    } else if q.len() == 0 {
        assert(components(path).len() == 0);
        assert(components(base).len() > 0);
    } else if head(b) != head(q) {
        assert(components(path)[0] == head(q));
        assert(components(base)[0] == head(b));
        if components(base).len() <= components(path).len() && components(path).take(
            components(base).len() as int,
        ) == components(base) {
            assert(components(path).take(components(base).len() as int)[0] == components(path)[0]);
        }
    } else {
        law_what_is_below_a_directory(tail(b), tail(q));
        let x = components(tail(b));
        let y = components(tail(q));
        assert(components(base) == seq![head(b)] + x);
        assert(components(path) == seq![head(q)] + y);
        match below(tail(b), tail(q)) {
            Some(rel) => {
                assert(seq![head(b)] + (x + components(rel)) =~= seq![head(b)] + x + components(
                    rel,
                ));
            },
            None => {
                let n = components(base).len() as int;
                if n <= components(path).len() && components(path).take(n) == components(base) {
                    assert(components(path).take(n).skip(1) =~= y.take(n - 1));
                    assert(components(base).skip(1) =~= x);
                }
            },
        }
    }
}

proof fn lemma_body_is_a_body(p: Seq<char>)
    ensures
        body(body(p)) == body(p),
        components(body(p)) == components(p),
    decreases p.len(),
{
    if is_abs(p) || starts_at_dot(p) {
        lemma_body_is_a_body(p.skip(1));
    }
}

/// A file of some name inside a directory has that name, and lies in that directory.
pub proof fn law_file_in_a_directory(base: Seq<char>, name: Seq<char>)
    requires
        base.len() > 0,
        name.len() > 0,
        !name.contains('/'),
        name != seq!['.'],
        name != seq!['.', '.'],
    ensures
        name_of(join(base, name)) == Some(name),
        parent_of(join(base, name)) matches Some(dir) && components(dir) == components(base),
        join(base, name)[0] == base[0],
{
    lemma_components_of_slashes();
    law_joining_adds_components(base, name);
    assert forall|i: int| 0 <= i < name.len() implies name[i] != '/' by {
        assert(name.contains(name[i]));
    }
    if starts_at_dot(name) {
        assert(name =~= seq!['.']);
    }
    assert(body(name) == name);
    text::lemma_find_is(name, '/', name.len() as int);
    assert(head(name) =~= name);
    assert(tail(name) =~= Seq::empty());
    assert(components(name) =~= seq![name]);
    let p = join(base, name);
    let cut = p.len() - name.len() - 1;
    assert(p.last() == name.last());
    if ends_at_dot(p) {
        if name.len() == 1 {
            assert(name =~= seq!['.']);
        } else {
            assert(p[p.len() - 2] == name[name.len() - 2]);
        }
    }
    assert(trunk(p) == p);
    assert forall|j: int| cut < j < p.len() implies p[j] != '/' by {
        assert(p[j] == name[j - cut - 1]);
    }
    text::lemma_rfind_is(p, '/', cut);
    let up = p.take(cut);
    if base.last() == '/' {
        assert(up =~= base.drop_last());
        assert(trunk(base) == trunk(up));
    } else {
        assert(up =~= base);
    }
    lemma_components_of_trunk(base);
}

/// What ends with the parent directory has no name of its own, and neither has what has no
/// components.
pub proof fn law_what_has_no_name(base: Seq<char>, p: Seq<char>)
    ensures
        name_of(join(base, seq!['.', '.'])) is None,
        components(p).len() == 0 ==> name_of(p) is None,
        components(p).len() > 0 && components(p).last() != seq!['.', '.'] ==> name_of(p) == Some(
            components(p).last(),
        ),
{
    lemma_components_of_slashes();
    law_joining_adds_components(base, seq!['.', '.']);
    let up = seq!['.', '.'];
    assert(body(up) == up);
    text::lemma_find_is(up, '/', 2);
    assert(head(up) =~= up);
    assert(tail(up) =~= Seq::empty());
    assert(components(up) =~= seq![up]);
}

} // verus!
