//! The version of a build of this program.
//!
//! It is what `git describe` says. Where files were changed since, a hash of what they
//! hold is put behind it.

use std::hash::{DefaultHasher, Hasher};
use vstd::prelude::*;
use vstd::std_specs::hash::DefaultHasherAdditionalSpecFns;
use vstd::string::*;

use crate::hash;
use crate::sort;
use crate::sort::Sortable;
use crate::text;

verus! {

/// What `git status` says of a file.
#[derive(Debug, Clone, Copy, PartialEq, Eq, Structural)]
pub enum GitFileStatus {
    Unmodified,
    Modified,
    Added,
    Deleted,
    Renamed,
    Copied,
    Unmerged,
    Untracked,
    Ignored,
}

/// The status that a letter stands for.
pub open spec fn status_of(c: char) -> Option<GitFileStatus> {
    match c {
        ' ' => Some(GitFileStatus::Unmodified),
        'M' => Some(GitFileStatus::Modified),
        'A' => Some(GitFileStatus::Added),
        'D' => Some(GitFileStatus::Deleted),
        'R' => Some(GitFileStatus::Renamed),
        'C' => Some(GitFileStatus::Copied),
        'U' => Some(GitFileStatus::Unmerged),
        '?' => Some(GitFileStatus::Untracked),
        '!' => Some(GitFileStatus::Ignored),
        _ => None,
    }
}

/// The place of a status in the order of all.
pub open spec fn rank_of(status: GitFileStatus) -> int {
    match status {
        GitFileStatus::Unmodified => 0,
        GitFileStatus::Modified => 1,
        GitFileStatus::Added => 2,
        GitFileStatus::Deleted => 3,
        GitFileStatus::Renamed => 4,
        GitFileStatus::Copied => 5,
        GitFileStatus::Unmerged => 6,
        GitFileStatus::Untracked => 7,
        GitFileStatus::Ignored => 8,
    }
}

impl GitFileStatus {
    /// The status that a letter stands for.
    pub fn parse(c: char) -> (r: Option<GitFileStatus>)
        ensures
            r == status_of(c),
    {
        match c {
            ' ' => Some(GitFileStatus::Unmodified),
            'M' => Some(GitFileStatus::Modified),
            'A' => Some(GitFileStatus::Added),
            'D' => Some(GitFileStatus::Deleted),
            'R' => Some(GitFileStatus::Renamed),
            'C' => Some(GitFileStatus::Copied),
            'U' => Some(GitFileStatus::Unmerged),
            '?' => Some(GitFileStatus::Untracked),
            '!' => Some(GitFileStatus::Ignored),
            _ => None,
        }
    }

    fn rank(self) -> (r: u8)
        ensures
            r == rank_of(self),
    {
        match self {
            GitFileStatus::Unmodified => 0,
            GitFileStatus::Modified => 1,
            GitFileStatus::Added => 2,
            GitFileStatus::Deleted => 3,
            GitFileStatus::Renamed => 4,
            GitFileStatus::Copied => 5,
            GitFileStatus::Unmerged => 6,
            GitFileStatus::Untracked => 7,
            GitFileStatus::Ignored => 8,
        }
    }
}

/// A file that was changed.
#[derive(Debug)]
pub struct StatusEntry {
    pub index: GitFileStatus,
    pub worktree: GitFileStatus,
    pub path: String,
    /// What the file was called before, where it was renamed or copied.
    pub orig_path: Option<String>,
}

/// A [`StatusEntry`] in terms of characters.
pub struct StatusEntryView {
    pub index: GitFileStatus,
    pub worktree: GitFileStatus,
    pub path: Seq<char>,
    pub orig_path: Option<Seq<char>>,
}

impl View for StatusEntry {
    type V = StatusEntryView;

    open spec fn view(&self) -> StatusEntryView {
        StatusEntryView {
            index: self.index,
            worktree: self.worktree,
            path: self.path@,
            orig_path: match self.orig_path {
                Some(p) => Some(p@),
                None => None,
            },
        }
    }
}

/// The views of a sequence of entries.
pub open spec fn entry_views(v: Seq<StatusEntry>) -> Seq<StatusEntryView> {
    Seq::new(v.len(), |i: int| v[i]@)
}

/// Why a line of `git status` cannot be read.
#[derive(Debug, Clone, Copy, PartialEq, Eq, Structural)]
pub enum StatusError {
    TooShort,
    /// There is no space behind the two letters.
    NoSpace,
    /// The first letter stands for no status.
    Index(char),
    /// The second letter stands for no status.
    Worktree(char),
}

/// The first character that takes two bytes as UTF-8.
pub const TWO_BYTES: char = '\u{80}';

/// The first character that takes three bytes as UTF-8.
pub const THREE_BYTES: char = '\u{800}';

/// The first character that takes four bytes as UTF-8.
pub const FOUR_BYTES: char = '\u{10000}';

/// How many bytes a character takes as UTF-8.
pub open spec fn char_bytes(c: char) -> nat {
    if c < TWO_BYTES {
        1
    } else if c < THREE_BYTES {
        2
    } else if c < FOUR_BYTES {
        3
    } else {
        4
    }
}

/// How many bytes text takes as UTF-8.
pub open spec fn byte_len(s: Seq<char>) -> nat
    decreases s.len(),
{
    if s.len() == 0 {
        0
    } else {
        byte_len(s.drop_last()) + char_bytes(s.last())
    }
}

proof fn lemma_byte_len_grows(s: Seq<char>, i: int)
    requires
        0 <= i <= s.len(),
    ensures
        byte_len(s.take(i)) <= byte_len(s),
    decreases s.len() - i,
{
    if i == s.len() {
        assert(s.take(i) =~= s);
    } else {
        assert(s.take(i + 1).drop_last() =~= s.take(i));
        lemma_byte_len_grows(s, i + 1);
    }
}

/// The fewest bytes that a line of `git status` takes: two letters, a space and a name.
pub const LEAST_LINE: u32 = 4;

fn is_long_enough(s: &str) -> (r: bool)
    ensures
        r == (byte_len(s@) >= LEAST_LINE),
{
    let v: Vec<char> = text::to_chars(s);
    let mut i: usize = 0;
    let mut n: u32 = 0;
    while i < v.len() && n < LEAST_LINE
        invariant
            i <= v.len(),
            v@ == s@,
            n == byte_len(s@.take(i as int)),
            n < LEAST_LINE + 4,
        decreases v.len() - i,
    {
        assert(s@.take(i + 1).drop_last() =~= s@.take(i as int));
        let c: char = v[i];
        let width: u32 = if c < TWO_BYTES {
            1
        } else if c < THREE_BYTES {
            2
        } else if c < FOUR_BYTES {
            3
        } else {
            4
        };
        n = n + width;
        i += 1;
    }
    proof {
        lemma_byte_len_grows(s@, i as int);
        assert(s@.take(s@.len() as int) =~= s@);
    }
    n >= LEAST_LINE
}

/// What a line of `git status` says: two letters, a space and a path. A file that was
/// renamed or copied has its old path, an arrow and its new path there.
pub open spec fn entry_of(line: Seq<char>) -> Result<StatusEntryView, StatusError> {
    if byte_len(line) < LEAST_LINE {
        Err(StatusError::TooShort)
    } else if line[2] != ' ' {
        Err(StatusError::NoSpace)
    } else {
        match (status_of(line[0]), status_of(line[1])) {
            (None, _) => Err(StatusError::Index(line[0])),
            (_, None) => Err(StatusError::Worktree(line[1])),
            (Some(index), Some(worktree)) => {
                let rest = line.skip(3);
                let moved = index is Renamed || index is Copied;
                match text::split_once_on(rest, " -> "@) {
                    Some((from, to)) if moved => Ok(
                        StatusEntryView { index, worktree, path: to, orig_path: Some(from) },
                    ),
                    _ => Ok(StatusEntryView { index, worktree, path: rest, orig_path: None }),
                }
            },
        }
    }
}

/// Whether a line has the characters that are read of one that is long enough.
pub open spec fn is_readable(line: Seq<char>) -> bool {
    byte_len(line) >= LEAST_LINE ==> line.len() >= 3
}

impl StatusEntry {
    /// Reads a line of `git status`.
    pub fn from_str(line: &str) -> (r: Result<StatusEntry, StatusError>)
        requires
            is_readable(line@),
        ensures
            match r {
                Ok(e) => entry_of(line@) == Ok::<StatusEntryView, StatusError>(e@),
                Err(e) => entry_of(line@) == Err::<StatusEntryView, StatusError>(e),
            },
    {
        if !is_long_enough(line) {
            return Err(StatusError::TooShort);
        }
        let first: char = line.get_char(0);
        let second: char = line.get_char(1);
        if line.get_char(2) != ' ' {
            return Err(StatusError::NoSpace);
        }
        let index = match GitFileStatus::parse(first) {
            Some(s) => s,
            None => {
                return Err(StatusError::Index(first));
            },
        };
        let worktree = match GitFileStatus::parse(second) {
            Some(s) => s,
            None => {
                return Err(StatusError::Worktree(second));
            },
        };
        let n: usize = line.unicode_len();
        let rest = text::part(line, 3, n);
        assert(line@.subrange(3, n as int) =~= line@.skip(3));
        let moved = match index {
            GitFileStatus::Renamed => true,
            GitFileStatus::Copied => true,
            _ => false,
        };
        if moved {
            if let Some((from, to)) = text::split_once_str(rest.as_str(), " -> ") {
                return Ok(StatusEntry { index, worktree, path: to, orig_path: Some(from) });
            }
        }
        Ok(StatusEntry { index, worktree, path: rest, orig_path: None })
    }
}

/// What lines of `git status` say, or the error of the first that cannot be read.
pub open spec fn entries_of(lines: Seq<Seq<char>>) -> Result<Seq<StatusEntryView>, StatusError>
    decreases lines.len(),
{
    if lines.len() == 0 {
        Ok(Seq::empty())
    } else {
        match entries_of(lines.drop_last()) {
            Err(e) => Err(e),
            Ok(before) => match entry_of(lines.last()) {
                Ok(entry) => Ok(before.push(entry)),
                Err(e) => Err(e),
            },
        }
    }
}

proof fn lemma_error_stays(lines: Seq<Seq<char>>, i: int)
    requires
        0 <= i <= lines.len(),
        entries_of(lines.take(i)) is Err,
    ensures
        entries_of(lines) == entries_of(lines.take(i)),
    decreases lines.len(),
{
    if i == lines.len() {
        assert(lines.take(i) =~= lines);
    } else {
        assert(lines.drop_last().take(i) =~= lines.take(i));
        lemma_error_stays(lines.drop_last(), i);
    }
}

/// The files that `git status` says were changed.
pub fn changed_files(output: &str) -> (r: Result<Vec<StatusEntry>, StatusError>)
    requires
        forall|i: int|
            0 <= i < text::lines_of(output@).len() ==> is_readable(
                #[trigger] text::lines_of(output@)[i],
            ),
    ensures
        match r {
            Ok(entries) => entries_of(text::lines_of(output@)) == Ok::<
                Seq<StatusEntryView>,
                StatusError,
            >(entry_views(entries@)),
            Err(e) => entries_of(text::lines_of(output@)) == Err::<
                Seq<StatusEntryView>,
                StatusError,
            >(e),
        },
{
    let lines: Vec<String> = text::lines(output);
    let ghost all = text::lines_of(output@);
    let mut entries: Vec<StatusEntry> = Vec::new();
    let mut i: usize = 0;
    assert(entry_views(entries@) =~= Seq::empty());
    assert(all.len() == lines@.len());
    while i < lines.len()
        invariant
            i <= lines.len(),
            all == text::lines_of(output@),
            all == text::views(lines@),
            all.len() == lines@.len(),
            forall|j: int|
                0 <= j < text::lines_of(output@).len() ==> is_readable(
                    #[trigger] text::lines_of(output@)[j],
                ),
            entries_of(all.take(i as int)) == Ok::<Seq<StatusEntryView>, StatusError>(
                entry_views(entries@),
            ),
        decreases lines.len() - i,
    {
        let ghost before = entry_views(entries@);
        proof {
            assert(all.take(i + 1).drop_last() =~= all.take(i as int));
            assert(all.take(i + 1).last() == lines@[i as int]@);
            assert(text::lines_of(output@)[i as int] == lines@[i as int]@);
        }
        match StatusEntry::from_str(lines[i].as_str()) {
            Ok(entry) => {
                entries.push(entry);
                assert(entry_views(entries@) =~= before.push(entry@));
            },
            Err(e) => {
                proof {
                    lemma_error_stays(all, i + 1);
                }
                return Err(e);
            },
        }
        i += 1;
    }
    assert(all.take(lines.len() as int) =~= all);
    Ok(entries)
}

/// Whether an old path may stand before another. No path comes first.
pub open spec fn old_path_at_most(a: Option<Seq<char>>, b: Option<Seq<char>>) -> bool {
    match (a, b) {
        (None, _) => true,
        (Some(_), None) => false,
        (Some(x), Some(y)) => text::at_most(x, y),
    }
}

/// Whether an entry may stand before another: by its first letter, its second letter,
/// its path and its old path.
pub open spec fn entry_at_most(a: StatusEntryView, b: StatusEntryView) -> bool {
    if a.index != b.index {
        rank_of(a.index) < rank_of(b.index)
    } else if a.worktree != b.worktree {
        rank_of(a.worktree) < rank_of(b.worktree)
    } else if a.path != b.path {
        text::at_most(a.path, b.path)
    } else {
        old_path_at_most(a.orig_path, b.orig_path)
    }
}

impl Sortable for StatusEntry {
    open spec fn may_precede(self, other: Self) -> bool {
        entry_at_most(self@, other@)
    }

    proof fn one_may_precede(a: Self, b: Self) {
        text::lemma_at_most_total(a@.path, b@.path);
        if let (Some(x), Some(y)) = (a@.orig_path, b@.orig_path) {
            text::lemma_at_most_total(x, y);
        }
    }

    proof fn precedence_carries_over(a: Self, b: Self, c: Self) {
        text::lemma_at_most_total(a@.path, b@.path);
        text::lemma_at_most_total(b@.path, c@.path);
        text::lemma_at_most_total(a@.path, c@.path);
        if text::at_most(a@.path, b@.path) && text::at_most(b@.path, c@.path) {
            text::lemma_at_most_transitive(a@.path, b@.path, c@.path);
        }
        if let (Some(x), Some(y), Some(z)) = (a@.orig_path, b@.orig_path, c@.orig_path) {
            if text::at_most(x, y) && text::at_most(y, z) {
                text::lemma_at_most_transitive(x, y, z);
            }
        }
    }

    fn precedes(&self, other: &Self) -> (r: bool) {
        if self.index.rank() != other.index.rank() {
            return self.index.rank() < other.index.rank();
        }
        if self.worktree.rank() != other.worktree.rank() {
            return self.worktree.rank() < other.worktree.rank();
        }
        if !text::same(self.path.as_str(), other.path.as_str()) {
            return text::is_at_most(self.path.as_str(), other.path.as_str());
        }
        match (&self.orig_path, &other.orig_path) {
            (None, _) => true,
            (Some(_), None) => false,
            (Some(x), Some(y)) => text::is_at_most(x.as_str(), y.as_str()),
        }
    }
}

proof fn lemma_entries_differ(a: StatusEntryView, b: StatusEntryView)
    requires
        entry_at_most(a, b),
        entry_at_most(b, a),
    ensures
        a == b,
{
    text::lemma_at_most_total(a.path, b.path);
    if let (Some(x), Some(y)) = (a.orig_path, b.orig_path) {
        text::lemma_at_most_total(x, y);
    }
}

/// Whether no two entries are the same.
pub open spec fn are_distinct(s: Seq<StatusEntryView>) -> bool {
    forall|i: int, j: int| #![trigger s[i], s[j]] 0 <= i < j < s.len() ==> s[i] != s[j]
}

fn same_entry(a: &StatusEntry, b: &StatusEntry) -> (r: bool)
    ensures
        r == (a@ == b@),
{
    let old_same = match (&a.orig_path, &b.orig_path) {
        (None, None) => true,
        (Some(x), Some(y)) => text::same(x.as_str(), y.as_str()),
        _ => false,
    };
    a.index.rank() == b.index.rank() && a.worktree.rank() == b.worktree.rank() && text::same(
        a.path.as_str(),
        b.path.as_str(),
    ) && old_same
}

/// The changed files in the order in which they are read, each once.
pub fn sort_entries(entries: Vec<StatusEntry>) -> (r: Vec<StatusEntry>)
    ensures
        sort::is_sorted(r@),
        are_distinct(entry_views(r@)),
        forall|e: StatusEntryView| #[trigger]
            entry_views(r@).contains(e) <==> entry_views(entries@).contains(e),
{
    let sorted = sort::sorted(entries);
    let ghost list = sorted@;
    let mut rest: Vec<StatusEntry> = sorted;
    let mut r: Vec<StatusEntry> = Vec::new();
    let ghost mut n: int = 0;
    while rest.len() > 0
        invariant
            0 <= n <= list.len(),
            rest@ == list.skip(n),
            sort::is_sorted(list),
            sort::is_sorted(r@),
            are_distinct(entry_views(r@)),
            forall|e: StatusEntryView| #[trigger]
                entry_views(r@).contains(e) <==> entry_views(list.take(n)).contains(e),
        decreases rest.len(),
    {
        let entry = rest.remove(0);
        let ghost before = r@;
        let ghost seen = entry_views(before);
        let ghost front = entry_views(list.take(n));
        let ghost more = entry_views(list.take(n + 1));
        assert(entry == list[n]);
        assert(more =~= front.push(entry@));
        let fresh = r.len() == 0 || !same_entry(&r[r.len() - 1], &entry);
        proof {
            assert forall|k: int| 0 <= k < before.len() implies entry_at_most(
                #[trigger] before[k]@,
                entry@,
            ) by {
                assert(seen[k] == before[k]@);
                assert(seen.contains(before[k]@));
                let m = choose|m: int| 0 <= m < front.len() && front[m] == before[k]@;
                assert(list[m].may_precede(list[n]));
            }
            if fresh {
                assert forall|k: int| 0 <= k < before.len() implies #[trigger] before[k]@
                    != entry@ by {
                    if before[k]@ == entry@ && k < before.len() - 1 {
                        assert(before[k].may_precede(before[before.len() - 1]));
                        lemma_entries_differ(before[before.len() - 1]@, entry@);
                    }
                }
            }
        }
        if fresh {
            r.push(entry);
        }
        proof {
            let now = entry_views(r@);
            assert forall|a: int, b: int|
                #![trigger r@[a], r@[b]]
                0 <= a < b < r@.len() implies r@[a].may_precede(r@[b]) by {
                assert(r@[a] == before[a]);
                if b < before.len() {
                    assert(before[a].may_precede(before[b]));
                }
            }
            assert forall|a: int, b: int|
                #![trigger now[a], now[b]]
                0 <= a < b < now.len() implies now[a] != now[b] by {
                assert(now[a] == before[a]@);
                if b < before.len() {
                    assert(seen[a] != seen[b]);
                }
            }
            assert forall|e: StatusEntryView| #[trigger]
                now.contains(e) <==> more.contains(e) by {
                if now.contains(e) {
                    let k = choose|k: int| 0 <= k < now.len() && now[k] == e;
                    if k < before.len() {
                        assert(seen[k] == e);
                        assert(seen.contains(e));
                        let m = choose|m: int| 0 <= m < front.len() && front[m] == e;
                        assert(more[m] == e);
                    } else {
                        assert(more[n] == e);
                    }
                }
                if more.contains(e) {
                    let k = choose|k: int| 0 <= k < more.len() && more[k] == e;
                    if k < n {
                        assert(front[k] == e);
                        assert(seen.contains(e));
                        let m = choose|m: int| 0 <= m < seen.len() && seen[m] == e;
                        assert(now[m] == e);
                    } else if fresh {
                        assert(now[before.len() as int] == e);
                    } else {
                        assert(now[before.len() - 1] == e);
                    }
                }
            }
            assert(rest@ =~= list.skip(n + 1));
            n = n + 1;
        }
    }
    proof {
        assert(list.take(n) =~= list);
        let given = entry_views(entries@);
        let kept = entry_views(list);
        assert forall|e: StatusEntryView| #[trigger]
            entry_views(r@).contains(e) <==> given.contains(e) by {
            if kept.contains(e) {
                let k = choose|k: int| 0 <= k < kept.len() && kept[k] == e;
                sort::law_sorting_keeps_all(entries@, list, list[k]);
                assert(list.contains(list[k]));
                let m = choose|m: int| 0 <= m < entries@.len() && entries@[m] == list[k];
                assert(given[m] == e);
            }
            if given.contains(e) {
                let k = choose|k: int| 0 <= k < given.len() && given[k] == e;
                sort::law_sorting_keeps_all(entries@, list, entries@[k]);
                assert(entries@.contains(entries@[k]));
                let m = choose|m: int| 0 <= m < list.len() && list[m] == entries@[k];
                assert(kept[m] == e);
            }
        }
    }
    r
}

impl Sortable for u64 {
    open spec fn may_precede(self, other: Self) -> bool {
        self <= other
    }

    proof fn one_may_precede(a: Self, b: Self) {
    }

    proof fn precedence_carries_over(a: Self, b: Self, c: Self) {
    }

    fn precedes(&self, other: &Self) -> (r: bool) {
        *self <= *other
    }
}

/// Whether each number is more than the one before it.
pub open spec fn is_increasing(s: Seq<u64>) -> bool {
    forall|i: int, j: int| #![trigger s[i], s[j]] 0 <= i < j < s.len() ==> s[i] < s[j]
}

/// The hashes of the changed files in the order in which they are combined: from the
/// least to the greatest, each once.
pub fn combined_hashes(hashes: Vec<u64>) -> (r: Vec<u64>)
    ensures
        is_increasing(r@),
        forall|h: u64| #[trigger] r@.contains(h) <==> hashes@.contains(h),
{
    let list = sort::sorted(hashes);
    let mut r: Vec<u64> = Vec::new();
    let mut i: usize = 0;
    while i < list.len()
        invariant
            i <= list.len(),
            sort::is_sorted(list@),
            is_increasing(r@),
            forall|h: u64| #[trigger] r@.contains(h) <==> list@.take(i as int).contains(h),
        decreases list.len() - i,
    {
        let h: u64 = list[i];
        let ghost before = r@;
        let ghost front = list@.take(i as int);
        let ghost more = list@.take(i + 1);
        assert(more =~= front.push(h));
        let fresh = r.len() == 0 || r[r.len() - 1] != h;
        proof {
            if before.len() > 0 {
                let last = before.last();
                assert(before.contains(last)) by {
                    assert(before[before.len() - 1] == last);
                }
                let k = choose|k: int| 0 <= k < front.len() && front[k] == last;
                assert(list@[k].may_precede(list@[i as int]));
                assert(last <= h);
            }
        }
        if fresh {
            r.push(h);
            proof {
                assert forall|a: int, b: int|
                    #![trigger r@[a], r@[b]]
                    0 <= a < b < r@.len() implies r@[a] < r@[b] by {
                    if b == before.len() {
                        assert(before[a] <= before.last());
                    }
                }
            }
        }
        proof {
            assert forall|x: u64| #[trigger] r@.contains(x) <==> more.contains(x) by {
                if r@.contains(x) {
                    let k = choose|k: int| 0 <= k < r@.len() && r@[k] == x;
                    if k < before.len() {
                        assert(before[k] == x);
                        assert(before.contains(x));
                        let m = choose|m: int| 0 <= m < front.len() && front[m] == x;
                        assert(more[m] == x);
                    } else {
                        assert(more[i as int] == x);
                    }
                }
                if more.contains(x) {
                    let k = choose|k: int| 0 <= k < more.len() && more[k] == x;
                    if k < i {
                        assert(front[k] == x);
                        assert(before.contains(x));
                        let m = choose|m: int| 0 <= m < before.len() && before[m] == x;
                        assert(r@[m] == x);
                    } else if fresh {
                        assert(r@[before.len() as int] == x);
                    } else {
                        assert(r@[before.len() - 1] == x);
                    }
                }
            }
        }
        i += 1;
    }
    proof {
        assert(list@.take(list.len() as int) =~= list@);
        assert forall|h: u64| #[trigger] r@.contains(h) <==> hashes@.contains(h) by {
            sort::law_sorting_keeps_all(hashes@, list@, h);
        }
    }
    r
}

/// Numbers that increase are told by which they are. So the order in which changed files
/// are listed, and listing one twice, do not matter to the version.
pub proof fn law_order_of_files_does_not_matter(a: Seq<u64>, b: Seq<u64>)
    requires
        is_increasing(a),
        is_increasing(b),
        forall|h: u64| #[trigger] a.contains(h) <==> b.contains(h),
    ensures
        a == b,
    decreases a.len(),
{
    if a.len() == 0 {
        if b.len() > 0 {
            assert(b.contains(b[0]));
            assert(a.contains(b[0]));
        }
        assert(a =~= b);
    } else {
        let x = a.last();
        assert(a[a.len() - 1] == x);
        assert(a.contains(x));
        assert(b.contains(x));
        let k = choose|k: int| 0 <= k < b.len() && b[k] == x;
        let y = b.last();
        assert(b[b.len() - 1] == y);
        assert(b.contains(y));
        assert(a.contains(y));
        let m = choose|m: int| 0 <= m < a.len() && a[m] == y;
        assert(a[m] <= a[a.len() - 1]);
        assert(b[k] <= b[b.len() - 1]);
        assert(x == y);
        let c = a.drop_last();
        let d = b.drop_last();
        assert forall|h: u64| #[trigger] c.contains(h) <==> d.contains(h) by {
            if c.contains(h) {
                let i = choose|i: int| 0 <= i < c.len() && c[i] == h;
                assert(a[i] == h && a[i] < a[a.len() - 1]);
                assert(a.contains(h));
                let j = choose|j: int| 0 <= j < b.len() && b[j] == h;
                assert(d[j] == h);
            }
            if d.contains(h) {
                let i = choose|i: int| 0 <= i < d.len() && d[i] == h;
                assert(b[i] == h && b[i] < b[b.len() - 1]);
                assert(b.contains(h));
                assert(a.contains(h));
                let j = choose|j: int| 0 <= j < a.len() && a[j] == h;
                assert(c[j] == h);
            }
        }
        law_order_of_files_does_not_matter(c, d);
        assert(a =~= c.push(x));
        assert(b =~= d.push(x));
    }
}

/// The hash of a file: that of its path, and what it holds.
pub fn file_hash(path: &Vec<u8>, content: &Vec<u8>) -> (r: u64)
    ensures
        r == DefaultHasher::spec_finish(seq![path@, content@]),
{
    let mut hasher = DefaultHasher::new();
    hasher.write(path.as_slice());
    hasher.write(content.as_slice());
    assert(hasher@ =~= seq![path@, content@]);
    hasher.finish()
}

/// Each of some numbers as eight bytes, the lowest first.
pub open spec fn number_bytes(numbers: Seq<u64>) -> Seq<Seq<u8>> {
    Seq::new(numbers.len(), |i: int| vstd::bytes::spec_u64_to_le_bytes(numbers[i]))
}

/// Whether a list holds some numbers from the least to the greatest, each once.
pub open spec fn combines(list: Seq<u64>, numbers: Seq<u64>) -> bool {
    is_increasing(list) && forall|h: u64| #[trigger] list.contains(h) <==> numbers.contains(h)
}

/// The hash of what changed files hold, given the hashes of those that can be read.
pub fn content_hash(hashes: Vec<u64>) -> (r: u64)
    ensures
        exists|list: Seq<u64>| #[trigger]
            combines(list, hashes@) && r == DefaultHasher::spec_finish(number_bytes(list)),
{
    let list: Vec<u64> = combined_hashes(hashes);
    let ghost all = list@;
    let mut hasher = DefaultHasher::new();
    let mut i: usize = 0;
    assert(hasher@ =~= number_bytes(all.take(0)));
    while i < list.len()
        invariant
            i <= list.len(),
            all == list@,
            hasher@ == number_bytes(all.take(i as int)),
        decreases list.len() - i,
    {
        let ghost before = hasher@;
        let bytes: Vec<u8> = vstd::bytes::u64_to_le_bytes(list[i]);
        hasher.write(bytes.as_slice());
        assert(before.push(bytes@) =~= number_bytes(all.take(i + 1)));
        i += 1;
    }
    assert(all.take(list.len() as int) =~= all);
    assert(combines(all, hashes@));
    hasher.finish()
}

/// The hash of what changed files hold is fixed: there is one list that holds their
/// hashes from the least to the greatest, each once, however often and in which order
/// the files are listed.
pub proof fn law_content_hash_is_fixed(
    a: Seq<u64>,
    b: Seq<u64>,
    hashes: Seq<u64>,
    others: Seq<u64>,
)
    requires
        combines(a, hashes),
        combines(b, others),
        forall|h: u64| #[trigger] hashes.contains(h) <==> others.contains(h),
    ensures
        DefaultHasher::spec_finish(number_bytes(a)) == DefaultHasher::spec_finish(number_bytes(b)),
{
    assert forall|h: u64| #[trigger] a.contains(h) <==> b.contains(h) by {
        assert(hashes.contains(h) <==> others.contains(h));
    }
    law_order_of_files_does_not_matter(a, b);
}

/// The hexadecimal digits that write down a number, without zeros at the front.
pub open spec fn hex_of(n: nat) -> Seq<char>
    decreases n,
{
    if n < 16 {
        seq![hash::hex_digit(n as int)]
    } else {
        hex_of(n / 16).push(hash::hex_digit(n as int % 16))
    }
}

fn hex_digit_text(n: u64) -> (r: &'static str)
    requires
        n < 16,
    ensures
        r@ == seq![hash::hex_digit(n as int)],
{
    proof {
        reveal_strlit("0");
        reveal_strlit("1");
        reveal_strlit("2");
        reveal_strlit("3");
        reveal_strlit("4");
        reveal_strlit("5");
        reveal_strlit("6");
        reveal_strlit("7");
        reveal_strlit("8");
        reveal_strlit("9");
        reveal_strlit("a");
        reveal_strlit("b");
        reveal_strlit("c");
        reveal_strlit("d");
        reveal_strlit("e");
        reveal_strlit("f");
    }
    let r = match n {
        0 => "0",
        1 => "1",
        2 => "2",
        3 => "3",
        4 => "4",
        5 => "5",
        6 => "6",
        7 => "7",
        8 => "8",
        9 => "9",
        10 => "a",
        11 => "b",
        12 => "c",
        13 => "d",
        14 => "e",
        _ => "f",
    };
    assert(r@ =~= seq![hash::hex_digit(n as int)]);
    r
}

/// The hexadecimal digits that write down a number.
pub fn hex_number(n: u64) -> (r: String)
    ensures
        r@ == hex_of(n as nat),
    decreases n,
{
    if n < 16 {
        text::copy(hex_digit_text(n))
    } else {
        let front = hex_number(n / 16);
        let r = text::concat(front.as_str(), hex_digit_text(n % 16));
        assert(r@ =~= hex_of(n as nat));
        r
    }
}

/// How many digits of a hash are shown.
pub const SHORT_HASH: usize = 7;

/// The version, given what `git describe` says, and the hash of what changed files hold,
/// where there are any.
pub open spec fn version_text(base: Seq<char>, changed: Option<u64>) -> Seq<char> {
    match changed {
        None => base,
        Some(h) => {
            let hex = hex_of(h as nat);
            base + "-"@ + (if hex.len() > SHORT_HASH {
                hex.take(SHORT_HASH as int)
            } else {
                hex
            })
        },
    }
}

/// The version: what `git describe` says, and where files were changed, the first digits
/// of the hash of what they hold behind a dash.
pub fn compute_version(base: &str, changed: Option<u64>) -> (r: String)
    ensures
        r@ == version_text(base@, changed),
        r@ == (match changed {
            None => base@,
            Some(h) => {
                let hex = hex_of(h as nat);
                base@ + "-"@ + (if hex.len() > SHORT_HASH {
                    hex.take(SHORT_HASH as int)
                } else {
                    hex
                })
            },
        }),
{
    match changed {
        None => text::copy(base),
        Some(h) => {
            let hex = hex_number(h);
            let n: usize = hex.as_str().unicode_len();
            let end: usize = if n > SHORT_HASH {
                SHORT_HASH
            } else {
                n
            };
            let short = text::part(hex.as_str(), 0, end);
            assert(hex@.subrange(0, end as int) =~= hex@.take(end as int));
            assert(hex@.take(n as int) =~= hex@);
            text::concat3(base, "-", short.as_str())
        },
    }
}

/// Each status has its letter, and no other letter stands for one.
pub proof fn law_letters_of_statuses(c: char)
    ensures
        status_of(c) == Some(GitFileStatus::Unmodified) <==> c == ' ',
        status_of(c) == Some(GitFileStatus::Modified) <==> c == 'M',
        status_of(c) == Some(GitFileStatus::Added) <==> c == 'A',
        status_of(c) == Some(GitFileStatus::Deleted) <==> c == 'D',
        status_of(c) == Some(GitFileStatus::Renamed) <==> c == 'R',
        status_of(c) == Some(GitFileStatus::Copied) <==> c == 'C',
        status_of(c) == Some(GitFileStatus::Unmerged) <==> c == 'U',
        status_of(c) == Some(GitFileStatus::Untracked) <==> c == '?',
        status_of(c) == Some(GitFileStatus::Ignored) <==> c == '!',
{
}

proof fn lemma_byte_len_of_more(s: Seq<char>, c: char)
    ensures
        byte_len(s.push(c)) == byte_len(s) + char_bytes(c),
        1 <= char_bytes(c) <= 4,
{
    assert(s.push(c).drop_last() =~= s);
}

/// A line that two letters, a blank and a path make up is read as the two statuses and the
/// path. The first letter of a file that was renamed or copied tells that its old path
/// stands before an arrow, and the new one behind it.
pub proof fn law_lines_of_git_status(first: char, second: char, rest: Seq<char>)
    requires
        status_of(first) is Some,
        status_of(second) is Some,
        rest.len() > 0,
    ensures
        ({
            let line = seq![first, second, ' '] + rest;
            let moved = first == 'R' || first == 'C';
            entry_of(line) matches Ok(entry) && {
                &&& Some(entry.index) == status_of(first)
                &&& Some(entry.worktree) == status_of(second)
                &&& match text::split_once_on(rest, " -> "@) {
                    Some((from, to)) if moved => entry.path == to && entry.orig_path == Some(from),
                    _ => entry.path == rest && entry.orig_path is None,
                }
            }
        }),
{
    let line = seq![first, second, ' '] + rest;
    let four = line.take(4);
    lemma_byte_len_grows(line, 4);
    assert(four =~= Seq::empty().push(first).push(second).push(' ').push(rest[0]));
    lemma_byte_len_of_more(Seq::empty(), first);
    lemma_byte_len_of_more(Seq::empty().push(first), second);
    lemma_byte_len_of_more(Seq::empty().push(first).push(second), ' ');
    lemma_byte_len_of_more(Seq::empty().push(first).push(second).push(' '), rest[0]);
    assert(line[0] == first && line[1] == second && line[2] == ' ');
    assert(line.skip(3) =~= rest);
}

/// A line that is long enough is refused where there is no blank behind its two letters,
/// and else for the first letter that stands for no status.
pub proof fn law_other_lines_are_refused(line: Seq<char>)
    requires
        byte_len(line) >= 4,
    ensures
        entry_of(line) == Err::<StatusEntryView, StatusError>(StatusError::NoSpace) <==> line[2]
            != ' ',
        line[2] == ' ' && status_of(line[0]) is None ==> entry_of(line) == Err::<
            StatusEntryView,
            StatusError,
        >(StatusError::Index(line[0])),
        line[2] == ' ' && status_of(line[0]) is Some && status_of(line[1]) is None ==> entry_of(
            line,
        ) == Err::<StatusEntryView, StatusError>(StatusError::Worktree(line[1])),
{
}

/// Text that is shorter than four bytes is no line of `git status`. A character takes as
/// many bytes as UTF-8 gives it.
pub proof fn law_short_lines_are_refused(line: Seq<char>, c: char)
    ensures
        entry_of(line) == Err::<StatusEntryView, StatusError>(StatusError::TooShort) <==> byte_len(
            line,
        ) < 4,
        byte_len(Seq::empty()) == 0,
        byte_len(line.push(c)) == byte_len(line) + (if (c as u32) < 0x80 {
            1nat
        } else if (c as u32) < 0x800 {
            2
        } else if (c as u32) < 0x10000 {
            3
        } else {
            4
        }),
{
    lemma_byte_len_of_more(line, c);
}

/// Entries are in the order of their first statuses, then of their second ones, then of
/// their paths, then of their old paths, where one without an old path comes first.
/// Statuses are in the order in which they are listed.
pub proof fn law_order_of_entries(a: StatusEntryView, b: StatusEntryView)
    ensures
        a.index != b.index ==> (entry_at_most(a, b) <==> rank_of(a.index) < rank_of(b.index)),
        a.index == b.index && a.worktree != b.worktree ==> (entry_at_most(a, b) <==> rank_of(
            a.worktree,
        ) < rank_of(b.worktree)),
        a.index == b.index && a.worktree == b.worktree && a.path != b.path ==> (entry_at_most(a, b)
            <==> text::at_most(a.path, b.path)),
        a.index == b.index && a.worktree == b.worktree && a.path == b.path && a.orig_path is None
            ==> entry_at_most(a, b),
        a.index == b.index && a.worktree == b.worktree && a.path == b.path && a.orig_path is Some
            && b.orig_path is None ==> !entry_at_most(a, b),
        rank_of(GitFileStatus::Unmodified) < rank_of(GitFileStatus::Modified),
        rank_of(GitFileStatus::Modified) < rank_of(GitFileStatus::Added),
        rank_of(GitFileStatus::Added) < rank_of(GitFileStatus::Deleted),
        rank_of(GitFileStatus::Deleted) < rank_of(GitFileStatus::Renamed),
        rank_of(GitFileStatus::Renamed) < rank_of(GitFileStatus::Copied),
        rank_of(GitFileStatus::Copied) < rank_of(GitFileStatus::Unmerged),
        rank_of(GitFileStatus::Unmerged) < rank_of(GitFileStatus::Untracked),
        rank_of(GitFileStatus::Untracked) < rank_of(GitFileStatus::Ignored),
{
}

/// The changed files are read line by line, and what is refused is the first line that is.
pub proof fn law_status_is_read_by_lines(lines: Seq<Seq<char>>, i: int)
    requires
        0 <= i < lines.len(),
    ensures
        entries_of(lines) matches Ok(entries) ==> entries.len() == lines.len() && entry_of(lines[i])
            == Ok::<StatusEntryView, StatusError>(entries[i]),
        entries_of(lines.take(i)) is Ok ==> (entry_of(lines[i]) matches Err(e) ==> entries_of(lines)
            == Err::<Seq<StatusEntryView>, StatusError>(e)),
    decreases lines.len(),
{
    let front = lines.drop_last();
    if i < front.len() {
        law_status_is_read_by_lines(front, i);
        assert(front[i] == lines[i]);
        assert(front.take(i) =~= lines.take(i));
    } else {
        assert(lines.take(i) =~= front);
        if front.len() > 0 {
            law_status_is_read_by_lines(front, 0);
        }
    }
}

/// The number that hexadecimal digits write down.
pub open spec fn hex_number_in(s: Seq<char>) -> nat
    decreases s.len(),
{
    if s.len() == 0 {
        0
    } else {
        match hash::hex_value(s.last()) {
            Some(d) => (16 * hex_number_in(s.drop_last()) + d) as nat,
            None => 0,
        }
    }
}

/// A number is read back from its hexadecimal digits, of which the first is no zero unless
/// it is the only one.
pub proof fn law_hex_digits_read_back(n: nat)
    ensures
        hex_number_in(hex_of(n)) == n,
        hex_of(n).len() > 0,
        n > 0 ==> hex_of(n)[0] != '0',
    decreases n,
{
    let s = hex_of(n);
    if n < 16 {
        assert(s.drop_last() =~= Seq::empty());
        assert(hex_number_in(s.drop_last()) == 0);
    } else {
        law_hex_digits_read_back(n / 16);
        assert(s.drop_last() =~= hex_of(n / 16));
        assert(s[0] == hex_of(n / 16)[0]);
    }
}

/// Without changed files the version is what `git describe` says. With some it goes on
/// with a dash and the first seven digits of the hash, or all where there are fewer.
pub proof fn law_versions_tell_of_changes(base: Seq<char>, h: u64)
    ensures
        version_text(base, None) == base,
        ({
            let v = version_text(base, Some(h));
            let digits = v.skip(base.len() as int + 1);
            &&& v.take(base.len() as int) == base
            &&& v[base.len() as int] == '-'
            &&& digits.len() <= 7
            &&& digits == hex_of(h as nat).take(digits.len() as int)
            &&& digits.len() < 7 ==> digits == hex_of(h as nat)
        }),
{
    reveal_strlit("-");
    let hex = hex_of(h as nat);
    let v = version_text(base, Some(h));
    assert(v.take(base.len() as int) =~= base);
    if hex.len() > 7 {
        assert(v.skip(base.len() as int + 1) =~= hex.take(7));
    } else {
        assert(v.skip(base.len() as int + 1) =~= hex);
        assert(hex.take(hex.len() as int) =~= hex);
    }
}

} // verus!
