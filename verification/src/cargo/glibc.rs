//! Versions of glibc.

use vstd::prelude::*;
use vstd::string::*;

use crate::text;

verus! {

/// A version of glibc.
#[derive(Debug, Clone, Copy, PartialEq, Eq, PartialOrd, Ord, Hash, Structural)]
pub struct GLIBCVersion {
    pub major: u32,
    pub minor: u32,
    pub patch: u32,
}

/// Why text is no version of glibc.
#[derive(Debug, Clone, Copy, PartialEq, Eq, Structural)]
pub enum GLIBCVersionError {
    /// There are fewer than two or more than three parts.
    InvalidVersion,
    /// A part is no number.
    InvalidNumber,
}

/// The version that text writes down: two or three numbers with dots between them.
/// Without a third number, it is zero.
pub open spec fn version_of(s: Seq<char>) -> Result<GLIBCVersion, GLIBCVersionError> {
    let parts = text::pieces_of(s, '.');
    if !text::is_u32(parts[0]) {
        Err(GLIBCVersionError::InvalidNumber)
    } else if parts.len() < 2 {
        Err(GLIBCVersionError::InvalidVersion)
    } else if !text::is_u32(parts[1]) {
        Err(GLIBCVersionError::InvalidNumber)
    } else if parts.len() > 2 && !text::is_u32(parts[2]) {
        Err(GLIBCVersionError::InvalidNumber)
    } else if parts.len() > 3 {
        Err(GLIBCVersionError::InvalidVersion)
    } else {
        Ok(
            GLIBCVersion {
                major: text::decimal(text::without_plus(parts[0])) as u32,
                minor: text::decimal(text::without_plus(parts[1])) as u32,
                patch: if parts.len() > 2 {
                    text::decimal(text::without_plus(parts[2])) as u32
                } else {
                    0
                },
            },
        )
    }
}

/// Whether a version comes before another: by the first of its numbers that
/// differs.
pub open spec fn is_older(a: GLIBCVersion, b: GLIBCVersion) -> bool {
    ||| a.major < b.major
    ||| a.major == b.major && a.minor < b.minor
    ||| a.major == b.major && a.minor == b.minor && a.patch < b.patch
}

impl GLIBCVersion {
    /// The version that a string writes down.
    pub fn parse(s: &str) -> (r: Result<GLIBCVersion, GLIBCVersionError>)
        ensures
            r == version_of(s@),
    {
        let parts: Vec<String> = text::split(s, '.');
        let ghost want = text::pieces_of(s@, '.');
        assert(want.len() == parts@.len());
        assert(want[0] == parts@[0]@);
        let major: u32 = match text::parse_u32(parts[0].as_str()) {
            Some(n) => n,
            None => {
                return Err(GLIBCVersionError::InvalidNumber);
            },
        };
        if parts.len() < 2 {
            return Err(GLIBCVersionError::InvalidVersion);
        }
        assert(want[1] == parts@[1]@);
        let minor: u32 = match text::parse_u32(parts[1].as_str()) {
            Some(n) => n,
            None => {
                return Err(GLIBCVersionError::InvalidNumber);
            },
        };
        let mut patch: u32 = 0;
        if parts.len() > 2 {
            assert(want[2] == parts@[2]@);
            patch = match text::parse_u32(parts[2].as_str()) {
                Some(n) => n,
                None => {
                    return Err(GLIBCVersionError::InvalidNumber);
                },
            };
        }
        if parts.len() > 3 {
            return Err(GLIBCVersionError::InvalidVersion);
        }
        Ok(GLIBCVersion { major, minor, patch })
    }

    /// Whether this version comes before another.
    pub fn older_than(&self, other: &GLIBCVersion) -> (r: bool)
        ensures
            r == is_older(*self, *other),
    {
        self.major < other.major || (self.major == other.major && (self.minor < other.minor || (
        self.minor == other.minor && self.patch < other.patch)))
    }
}

/// Of two versions, exactly one is older than the other, or they are the same.
pub proof fn law_versions_are_ordered(a: GLIBCVersion, b: GLIBCVersion)
    ensures
        is_older(a, b) || is_older(b, a) || a == b,
        !(is_older(a, b) && is_older(b, a)),
        !is_older(a, a),
{
}

/// What is older than an older version is older.
pub proof fn law_older_is_transitive(a: GLIBCVersion, b: GLIBCVersion, c: GLIBCVersion)
    requires
        is_older(a, b),
        is_older(b, c),
    ensures
        is_older(a, c),
{
}

/// What can be restored of a unit that was built against some glibc, on a host
/// with some glibc: a unit that was built against a newer one cannot. Where either
/// is not known, nothing is held against the unit.
pub open spec fn is_compatible(unit: Option<GLIBCVersion>, host: Option<GLIBCVersion>) -> bool {
    match (unit, host) {
        (Some(u), Some(h)) => !is_older(h, u),
        _ => true,
    }
}

/// Whether a unit can be restored on a host.
pub fn compatible(unit: &Option<GLIBCVersion>, host: &Option<GLIBCVersion>) -> (r: bool)
    ensures
        r == is_compatible(*unit, *host),
{
    match (unit, host) {
        (Some(u), Some(h)) => !h.older_than(u),
        _ => true,
    }
}

/// A host that is newer can restore whatever an older one can.
pub proof fn law_newer_hosts_restore_more(
    unit: Option<GLIBCVersion>,
    old_host: GLIBCVersion,
    new_host: GLIBCVersion,
)
    requires
        is_compatible(unit, Some(old_host)),
        !is_older(new_host, old_host),
    ensures
        is_compatible(unit, Some(new_host)),
{
}

/// Versions are in the order of the first of their numbers in which they differ: the major
/// one, then the minor one, then the patch.
pub proof fn law_major_numbers_count_first(a: GLIBCVersion, b: GLIBCVersion)
    ensures
        a.major != b.major ==> (is_older(a, b) <==> a.major < b.major),
        a.major == b.major && a.minor != b.minor ==> (is_older(a, b) <==> a.minor < b.minor),
        a.major == b.major && a.minor == b.minor ==> (is_older(a, b) <==> a.patch < b.patch),
{
}

/// A unit can be restored wherever its glibc or that of the host is not known, and else
/// exactly where the host has the same glibc or a newer one.
pub proof fn law_units_run_on_the_same_or_newer_glibc(
    unit: Option<GLIBCVersion>,
    host: Option<GLIBCVersion>,
)
    ensures
        unit is None || host is None ==> is_compatible(unit, host),
        unit is Some && host is Some ==> (is_compatible(unit, host) <==> unit == host || is_older(
            unit->0,
            host->0,
        )),
{
    if unit is Some && host is Some {
        law_versions_are_ordered(unit->0, host->0);
    }
}

proof fn lemma_pieces(a: Seq<char>, rest: Seq<char>)
    requires
        !a.contains('.'),
    ensures
        text::pieces_of(a + seq!['.'] + rest, '.') == seq![a] + text::pieces_of(rest, '.'),
        text::pieces_of(a, '.') == seq![a],
{
    let s = a + seq!['.'] + rest;
    assert forall|j: int| 0 <= j < a.len() implies s[j] != '.' && a[j] != '.' by {
        assert(s[j] == a[j]);
        assert(a.contains(a[j]));
    }
    text::lemma_find_is(s, '.', a.len() as int);
    text::lemma_find_is(a, '.', a.len() as int);
    assert(s.take(a.len() as int) =~= a);
    assert(s.skip(a.len() as int + 1) =~= rest);
}

proof fn lemma_digits(n: nat)
    ensures
        text::digits_of(n).len() > 0,
        forall|i: int|
            0 <= i < text::digits_of(n).len() ==> text::is_digit(#[trigger] text::digits_of(n)[i]),
    decreases n,
{
    if n >= 10 {
        lemma_digits(n / 10);
        let s = text::digits_of(n);
        let t = text::digits_of(n / 10);
        assert forall|i: int| 0 <= i < s.len() implies text::is_digit(#[trigger] s[i]) by {
            if i < t.len() {
                assert(s[i] == t[i]);
            }
        }
    }
}

proof fn lemma_number(n: u32)
    ensures
        ({
            let s = text::digits_of(n as nat);
            &&& text::is_u32(s)
            &&& text::decimal(text::without_plus(s)) == n
            &&& !s.contains('.')
        }),
{
    let s = text::digits_of(n as nat);
    lemma_digits(n as nat);
    text::law_digits_read_back(n as nat);
    assert(text::is_digit(s[0]));
    assert(text::without_plus(s) == s);
    if s.contains('.') {
        let i = choose|i: int| 0 <= i < s.len() && s[i] == '.';
        assert(text::is_digit(s[i]));
    }
}

/// A version is read from its numbers, written with dots between them. One without a
/// third number is the one whose third number is zero. More than three numbers, or a
/// single one, are no version.
pub proof fn law_versions_are_read_back(major: u32, minor: u32, patch: u32, more: Seq<char>)
    ensures
        ({
            let x = text::digits_of(major as nat);
            let y = text::digits_of(minor as nat);
            let z = text::digits_of(patch as nat);
            let two = x + seq!['.'] + y;
            let three = x + seq!['.'] + (y + seq!['.'] + z);
            let four = x + seq!['.'] + (y + seq!['.'] + (z + seq!['.'] + more));
            &&& version_of(three) == Ok::<GLIBCVersion, GLIBCVersionError>(
                GLIBCVersion { major, minor, patch },
            )
            &&& version_of(two) == Ok::<GLIBCVersion, GLIBCVersionError>(
                GLIBCVersion { major, minor, patch: 0 },
            )
            &&& version_of(x) == Err::<GLIBCVersion, GLIBCVersionError>(
                GLIBCVersionError::InvalidVersion,
            )
            &&& version_of(four) == Err::<GLIBCVersion, GLIBCVersionError>(
                GLIBCVersionError::InvalidVersion,
            )
        }),
{
    let x = text::digits_of(major as nat);
    let y = text::digits_of(minor as nat);
    let z = text::digits_of(patch as nat);
    lemma_number(major);
    lemma_number(minor);
    lemma_number(patch);
    lemma_pieces(x, y);
    lemma_pieces(y, z);
    lemma_pieces(z, more);
    lemma_pieces(x, y + seq!['.'] + z);
    lemma_pieces(y, z + seq!['.'] + more);
    lemma_pieces(x, y + seq!['.'] + (z + seq!['.'] + more));
    text::law_pieces_join_again(more, '.');
    let two = text::pieces_of(x + seq!['.'] + y, '.');
    let three = text::pieces_of(x + seq!['.'] + (y + seq!['.'] + z), '.');
    let four = text::pieces_of(x + seq!['.'] + (y + seq!['.'] + (z + seq!['.'] + more)), '.');
    assert(two.len() == 2 && two[0] == x && two[1] == y);
    assert(three.len() == 3 && three[0] == x && three[1] == y && three[2] == z);
    assert(four.len() > 3 && four[0] == x && four[1] == y && four[2] == z);
}

/// A version of which a number is none that fits 32 bits is no version.
pub proof fn law_versions_are_made_of_numbers(s: Seq<char>, i: int)
    requires
        0 <= i < text::pieces_of(s, '.').len(),
        i < 3,
        !text::is_u32(text::pieces_of(s, '.')[i]),
    ensures
        version_of(s) is Err,
        text::pieces_of(s, '.').len() == 3 ==> version_of(s) == Err::<
            GLIBCVersion,
            GLIBCVersionError,
        >(GLIBCVersionError::InvalidNumber),
{
}

} // verus!
