//! Dep-info files: which outputs `rustc` made of which inputs.
//!
//! A dep-info file follows a format like that of a makefile, `output: input1
//! input2 ...`, with comments and blank lines. On disk its paths are absolute;
//! here they are qualified, so that the file can be written for another machine.

use vstd::prelude::*;
use vstd::string::*;

use crate::cargo::path;
use crate::cargo::path::{Existing, QualifiedPath};
use crate::cargo::rustc::RustcTarget;
use crate::cargo::workspace::Workspace;
use crate::path::AbsDirPath;
use crate::text;

verus! {

/// A line of a dep-info file.
#[derive(Debug)]
pub enum DepInfoLine {
    /// An empty line.
    Space,
    /// A comment: what follows the `#`.
    Comment(String),
    /// An output and its inputs. Every input is also an output, without inputs.
    Build(QualifiedPath, Vec<QualifiedPath>),
}

/// A [`DepInfoLine`] in terms of characters.
pub enum DepInfoLineView {
    Space,
    Comment(Seq<char>),
    Build(path::QualifiedPathView, Seq<path::QualifiedPathView>),
}

/// The views of a sequence of qualified paths.
pub open spec fn path_views(v: Seq<QualifiedPath>) -> Seq<path::QualifiedPathView> {
    Seq::new(v.len(), |i: int| v[i]@)
}

impl View for DepInfoLine {
    type V = DepInfoLineView;

    open spec fn view(&self) -> DepInfoLineView {
        match self {
            DepInfoLine::Space => DepInfoLineView::Space,
            DepInfoLine::Comment(c) => DepInfoLineView::Comment(c@),
            DepInfoLine::Build(o, i) => DepInfoLineView::Build(o@, path_views(i@)),
        }
    }
}

/// Each of some paths qualified.
pub open spec fn qualify_all(
    roots: path::Roots,
    existing: Set<Seq<char>>,
    ps: Seq<Seq<char>>,
) -> Seq<path::QualifiedPathView> {
    Seq::new(ps.len(), |i: int| path::qualify(roots, existing, ps[i]))
}

/// The output and the inputs that a line names, where it is neither empty nor a
/// comment.
pub open spec fn named_paths(line: Seq<char>) -> Option<(Seq<char>, Seq<Seq<char>>)> {
    if text::has_suffix(line, ":"@) {
        Some((line.take(line.len() - 1), Seq::empty()))
    } else {
        match text::split_once_on(line, ": "@) {
            Some((output, inputs)) => Some((output, text::words_of(inputs))),
            None => None,
        }
    }
}

/// What a line says, unless it names an output and inputs without a separator.
pub open spec fn parsed_line(
    roots: path::Roots,
    existing: Set<Seq<char>>,
    line: Seq<char>,
) -> Option<DepInfoLineView> {
    if line.len() == 0 {
        Some(DepInfoLineView::Space)
    } else if text::has_prefix(line, "#"@) {
        Some(DepInfoLineView::Comment(line.skip(1)))
    } else {
        match named_paths(line) {
            Some((output, inputs)) => Some(
                DepInfoLineView::Build(
                    path::qualify(roots, existing, output),
                    qualify_all(roots, existing, inputs),
                ),
            ),
            None => None,
        }
    }
}

/// The text of each of some qualified paths.
pub open spec fn placed_all(
    roots: path::Roots,
    qs: Seq<path::QualifiedPathView>,
) -> Seq<Seq<char>> {
    Seq::new(qs.len(), |i: int| path::placed(roots, qs[i]))
}

/// A line as text, with its paths written down for the given roots.
pub open spec fn line_text(roots: path::Roots, line: DepInfoLineView) -> Seq<char> {
    match line {
        DepInfoLineView::Space => Seq::empty(),
        DepInfoLineView::Comment(c) => "#"@ + c,
        DepInfoLineView::Build(output, inputs) => path::placed(roots, output) + ": "@
            + text::joined(placed_all(roots, inputs), " "@),
    }
}

/// A line that names an output and inputs without a separator.
#[derive(Debug, Clone, Copy, PartialEq, Eq, Structural)]
pub struct NoSeparator;

impl DepInfoLine {
    fn parse_paths(
        ws: &Workspace,
        target: &RustcTarget,
        existing: &Existing,
        texts: &Vec<String>,
    ) -> (r: Vec<QualifiedPath>)
        ensures
            path_views(r@) == qualify_all(ws.roots(target@), existing@, text::views(texts@)),
    {
        let mut r: Vec<QualifiedPath> = Vec::new();
        let mut i: usize = 0;
        while i < texts.len()
            invariant
                i <= texts.len(),
                i == r.len(),
                forall|j: int|
                    0 <= j < i ==> #[trigger] r@[j]@ == path::qualify(
                        ws.roots(target@),
                        existing@,
                        texts@[j]@,
                    ),
            decreases texts.len() - i,
        {
            r.push(QualifiedPath::parse(ws, target, existing, texts[i].as_str()));
            i += 1;
        }
        assert(path_views(r@) =~= qualify_all(ws.roots(target@), existing@, text::views(texts@)));
        r
    }

    /// The paths that a line names, as they are written there: its output and then
    /// its inputs.
    pub fn path_texts(line: &str) -> (r: Vec<String>)
        ensures
            text::views(r@) == line_paths(line@),
    {
        proof {
            reveal_strlit("#");
            reveal_strlit(":");
        }
        let mut r: Vec<String> = Vec::new();
        if line.unicode_len() == 0 || text::starts_with(line, "#") {
            assert(text::views(r@) =~= Seq::empty());
            return r;
        }
        if let Some(output) = text::strip_suffix(line, ":") {
            r.push(output);
            assert(text::views(r@) =~= seq![output@] + Seq::empty());
            return r;
        }
        match text::split_once_str(line, ": ") {
            Some((output, inputs)) => {
                let mut words: Vec<String> = text::split_whitespace(inputs.as_str());
                let ghost all = text::views(words@);
                r.push(output);
                r.append(&mut words);
                assert(text::views(r@) =~= seq![output@] + all);
                r
            },
            None => {
                assert(text::views(r@) =~= Seq::empty());
                r
            },
        }
    }

    /// Parses a line of a dep-info file.
    pub fn parse(
        ws: &Workspace,
        target: &RustcTarget,
        existing: &Existing,
        line: &str,
    ) -> (r: Result<Self, NoSeparator>)
        ensures
            match r {
                Ok(l) => parsed_line(ws.roots(target@), existing@, line@) == Some(l@),
                Err(_) => parsed_line(ws.roots(target@), existing@, line@) is None,
            },
    {
        proof {
            reveal_strlit("#");
            reveal_strlit(":");
        }
        if line.unicode_len() == 0 {
            return Ok(DepInfoLine::Space);
        }
        if let Some(comment) = text::strip_prefix(line, "#") {
            return Ok(DepInfoLine::Comment(comment));
        }
        if let Some(output) = text::strip_suffix(line, ":") {
            let output = QualifiedPath::parse(ws, target, existing, output.as_str());
            let r = DepInfoLine::Build(output, Vec::new());
            proof {
                let none = qualify_all(ws.roots(target@), existing@, Seq::empty());
                assert(path_views(Seq::<QualifiedPath>::empty()) =~= none);
            }
            return Ok(r);
        }
        match text::split_once_str(line, ": ") {
            None => Err(NoSeparator),
            Some((output, inputs)) => {
                let output = QualifiedPath::parse(ws, target, existing, output.as_str());
                let words: Vec<String> = text::split_whitespace(inputs.as_str());
                let inputs = Self::parse_paths(ws, target, existing, &words);
                Ok(DepInfoLine::Build(output, inputs))
            },
        }
    }

    /// The line as text, with its paths written down for this machine.
    pub fn reconstruct(&self, ws: &Workspace, target: &RustcTarget) -> (r: String)
        ensures
            r@ == line_text(ws.roots(target@), self@),
    {
        self.reconstruct_raw(&ws.arch_profile_dir(target), &ws.cargo_home)
    }

    /// The line as text, with its paths written down for the given roots.
    pub fn reconstruct_raw(&self, profile_root: &AbsDirPath, cargo_home: &AbsDirPath) -> (r: String)
        ensures
            r@ == line_text(
                path::Roots { profile: profile_root@, cargo_home: cargo_home@ },
                self@,
            ),
    {
        let ghost roots = path::Roots { profile: profile_root@, cargo_home: cargo_home@ };
        match self {
            DepInfoLine::Space => String::new(),
            DepInfoLine::Comment(comment) => text::concat("#", comment.as_str()),
            DepInfoLine::Build(output, inputs) => {
                let output = output.reconstruct_inner(profile_root, cargo_home);
                let mut texts: Vec<String> = Vec::new();
                let mut i: usize = 0;
                while i < inputs.len()
                    invariant
                        i <= inputs.len(),
                        i == texts.len(),
                        roots == (path::Roots {
                            profile: profile_root@,
                            cargo_home: cargo_home@,
                        }),
                        forall|j: int|
                            0 <= j < i ==> #[trigger] texts@[j]@ == path::placed(
                                roots,
                                inputs@[j]@,
                            ),
                    decreases inputs.len() - i,
                {
                    texts.push(inputs[i].reconstruct_inner(profile_root, cargo_home));
                    i += 1;
                }
                assert(text::views(texts@) =~= placed_all(roots, path_views(inputs@)));
                text::concat3(output.as_str(), ": ", text::join(&texts, " ").as_str())
            },
        }
    }
}

/// The paths that a line names: its output and then its inputs.
pub open spec fn line_paths(line: Seq<char>) -> Seq<Seq<char>> {
    if line.len() == 0 || text::has_prefix(line, "#"@) {
        Seq::empty()
    } else {
        match named_paths(line) {
            Some((output, inputs)) => seq![output] + inputs,
            None => Seq::empty(),
        }
    }
}

/// A dep-info file.
#[derive(Debug)]
pub struct DepInfo {
    pub lines: Vec<DepInfoLine>,
}

/// The views of a sequence of lines.
pub open spec fn line_views(v: Seq<DepInfoLine>) -> Seq<DepInfoLineView> {
    Seq::new(v.len(), |i: int| v[i]@)
}

impl View for DepInfo {
    type V = Seq<DepInfoLineView>;

    open spec fn view(&self) -> Seq<DepInfoLineView> {
        line_views(self.lines@)
    }
}

/// The text of each line.
pub open spec fn line_texts(roots: path::Roots, lines: Seq<DepInfoLineView>) -> Seq<Seq<char>> {
    Seq::new(lines.len(), |i: int| line_text(roots, lines[i]))
}

/// The lines as text, with newlines between them.
pub open spec fn file_text(roots: path::Roots, lines: Seq<DepInfoLineView>) -> Seq<char> {
    text::joined(line_texts(roots, lines), "\n"@)
}

/// The outputs of the lines that have one, each with its inputs.
pub open spec fn builds_of(lines: Seq<DepInfoLineView>) -> Seq<
    (path::QualifiedPathView, Seq<path::QualifiedPathView>),
>
    decreases lines.len(),
{
    if lines.len() == 0 {
        Seq::empty()
    } else {
        let before = builds_of(lines.drop_last());
        match lines.last() {
            DepInfoLineView::Build(output, inputs) => before.push((output, inputs)),
            _ => before,
        }
    }
}

/// What a dep-info file says, or the number of its first line that names an output
/// and inputs without a separator.
pub open spec fn parsed_file(
    roots: path::Roots,
    existing: Set<Seq<char>>,
    content: Seq<char>,
) -> Result<Seq<DepInfoLineView>, int> {
    parsed_lines(roots, existing, text::lines_of(content))
}

/// What lines say, or the number of the first that names an output and inputs
/// without a separator.
pub open spec fn parsed_lines(
    roots: path::Roots,
    existing: Set<Seq<char>>,
    lines: Seq<Seq<char>>,
) -> Result<Seq<DepInfoLineView>, int>
    decreases lines.len(),
{
    if lines.len() == 0 {
        Ok(Seq::empty())
    } else {
        match parsed_lines(roots, existing, lines.drop_last()) {
            Err(i) => Err(i),
            Ok(before) => match parsed_line(roots, existing, lines.last()) {
                Some(line) => Ok(before.push(line)),
                None => Err(lines.len() - 1),
            },
        }
    }
}

proof fn lemma_error_stays(
    roots: path::Roots,
    existing: Set<Seq<char>>,
    lines: Seq<Seq<char>>,
    i: int,
)
    requires
        0 <= i <= lines.len(),
        parsed_lines(roots, existing, lines.take(i)) is Err,
    ensures
        parsed_lines(roots, existing, lines) == parsed_lines(roots, existing, lines.take(i)),
    decreases lines.len(),
{
    if i == lines.len() {
        assert(lines.take(i) =~= lines);
    } else {
        assert(lines.drop_last().take(i) =~= lines.take(i));
        lemma_error_stays(roots, existing, lines.drop_last(), i);
    }
}

/// A file is parsed line by line.
pub proof fn law_file_is_parsed_by_lines(
    roots: path::Roots,
    existing: Set<Seq<char>>,
    lines: Seq<Seq<char>>,
)
    ensures
        match parsed_lines(roots, existing, lines) {
            Ok(parsed) => {
                &&& parsed.len() == lines.len()
                &&& forall|i: int|
                    0 <= i < lines.len() ==> parsed_line(roots, existing, #[trigger] lines[i])
                        == Some(parsed[i])
            },
            Err(n) => {
                &&& 0 <= n < lines.len()
                &&& parsed_line(roots, existing, lines[n]) is None
                &&& forall|i: int|
                    0 <= i < n ==> parsed_line(roots, existing, #[trigger] lines[i]) is Some
            },
        },
    decreases lines.len(),
{
    if lines.len() > 0 {
        let front = lines.drop_last();
        law_file_is_parsed_by_lines(roots, existing, front);
        match parsed_lines(roots, existing, front) {
            Ok(before) => {
                assert forall|i: int| 0 <= i < front.len() implies parsed_line(
                    roots,
                    existing,
                    #[trigger] lines[i],
                ) == Some(before[i]) by {
                    assert(front[i] == lines[i]);
                }
            },
            Err(n) => {
                assert forall|i: int| 0 <= i < n implies parsed_line(
                    roots,
                    existing,
                    #[trigger] lines[i],
                ) is Some by {
                    assert(front[i] == lines[i]);
                }
            },
        }
    }
}

/// Which line of a dep-info file, counted from zero, names an output and inputs
/// without a separator.
#[derive(Debug, Clone, Copy, PartialEq, Eq, Structural)]
pub struct DepInfoError {
    pub line: usize,
}

impl DepInfo {
    /// Parses a dep-info file.
    pub fn parse(
        ws: &Workspace,
        target: &RustcTarget,
        existing: &Existing,
        content: &str,
    ) -> (r: Result<Self, DepInfoError>)
        ensures
            match r {
                Ok(d) => parsed_file(ws.roots(target@), existing@, content@) == Ok::<
                    Seq<DepInfoLineView>,
                    int,
                >(d@),
                Err(e) => parsed_file(ws.roots(target@), existing@, content@) == Err::<
                    Seq<DepInfoLineView>,
                    int,
                >(e.line as int),
            },
    {
        let texts: Vec<String> = text::lines(content);
        let ghost all = text::lines_of(content@);
        let ghost roots = ws.roots(target@);
        let mut lines: Vec<DepInfoLine> = Vec::new();
        let mut i: usize = 0;
        assert(line_views(lines@) =~= Seq::empty());
        while i < texts.len()
            invariant
                i <= texts.len(),
                all == text::lines_of(content@),
                all == text::views(texts@),
                roots == ws.roots(target@),
                parsed_lines(roots, existing@, all.take(i as int)) == Ok::<
                    Seq<DepInfoLineView>,
                    int,
                >(line_views(lines@)),
            decreases texts.len() - i,
        {
            let ghost before = line_views(lines@);
            proof {
                assert(all.take(i + 1).drop_last() =~= all.take(i as int));
                assert(all.take(i + 1).last() == texts@[i as int]@);
            }
            match DepInfoLine::parse(ws, target, existing, texts[i].as_str()) {
                Ok(line) => {
                    lines.push(line);
                    assert(line_views(lines@) =~= before.push(line@));
                },
                Err(_) => {
                    proof {
                        lemma_error_stays(roots, existing@, all, i + 1);
                    }
                    return Err(DepInfoError { line: i });
                },
            }
            i += 1;
        }
        assert(all.take(texts.len() as int) =~= all);
        Ok(DepInfo { lines })
    }

    /// The file as text, with its paths written down for this machine.
    pub fn reconstruct(&self, ws: &Workspace, target: &RustcTarget) -> (r: String)
        ensures
            r@ == file_text(ws.roots(target@), self@),
    {
        self.reconstruct_raw(&ws.arch_profile_dir(target), &ws.cargo_home)
    }

    /// The file as text, with its paths written down for the given roots.
    pub fn reconstruct_raw(&self, profile_root: &AbsDirPath, cargo_home: &AbsDirPath) -> (r: String)
        ensures
            r@ == file_text(
                path::Roots { profile: profile_root@, cargo_home: cargo_home@ },
                self@,
            ),
    {
        let ghost roots = path::Roots { profile: profile_root@, cargo_home: cargo_home@ };
        let mut texts: Vec<String> = Vec::new();
        let mut i: usize = 0;
        while i < self.lines.len()
            invariant
                i <= self.lines.len(),
                i == texts.len(),
                roots == (path::Roots { profile: profile_root@, cargo_home: cargo_home@ }),
                forall|j: int|
                    0 <= j < i ==> #[trigger] texts@[j]@ == line_text(roots, self.lines@[j]@),
            decreases self.lines.len() - i,
        {
            texts.push(self.lines[i].reconstruct_raw(profile_root, cargo_home));
            i += 1;
        }
        assert(text::views(texts@) =~= line_texts(roots, self@));
        text::join(&texts, "\n")
    }

    /// The lines of the file.
    pub fn lines(&self) -> (r: &Vec<DepInfoLine>)
        ensures
            line_views(r@) == self@,
    {
        &self.lines
    }

    /// The outputs of the file, each with its inputs.
    pub fn builds(&self) -> (r: Vec<(&QualifiedPath, &Vec<QualifiedPath>)>)
        ensures
            r@.len() == builds_of(self@).len(),
            forall|i: int|
                #![trigger r@[i]]
                0 <= i < r@.len() ==> (r@[i].0@, path_views(r@[i].1@)) == builds_of(self@)[i],
    {
        let mut r: Vec<(&QualifiedPath, &Vec<QualifiedPath>)> = Vec::new();
        let ghost all = self@;
        let mut i: usize = 0;
        while i < self.lines.len()
            invariant
                i <= self.lines.len(),
                all == self@,
                r@.len() == builds_of(all.take(i as int)).len(),
                forall|j: int|
                    #![trigger r@[j]]
                    0 <= j < r@.len() ==> (r@[j].0@, path_views(r@[j].1@)) == builds_of(
                        all.take(i as int),
                    )[j],
            decreases self.lines.len() - i,
        {
            proof {
                assert(all.take(i + 1).drop_last() =~= all.take(i as int));
                assert(all.take(i + 1).last() == self.lines@[i as int]@);
            }
            if let DepInfoLine::Build(output, inputs) = &self.lines[i] {
                r.push((output, inputs));
            }
            i += 1;
        }
        assert(all.take(self.lines.len() as int) =~= all);
        r
    }

    /// The outputs of the file.
    pub fn build_outputs(&self) -> (r: Vec<&QualifiedPath>)
        ensures
            r@.len() == builds_of(self@).len(),
            forall|i: int|
                #![trigger r@[i]]
                0 <= i < r@.len() ==> r@[i]@ == builds_of(self@)[i].0,
    {
        let builds: Vec<(&QualifiedPath, &Vec<QualifiedPath>)> = self.builds();
        let mut r: Vec<&QualifiedPath> = Vec::new();
        let mut i: usize = 0;
        while i < builds.len()
            invariant
                i <= builds.len(),
                i == r.len(),
                builds@.len() == builds_of(self@).len(),
                forall|j: int|
                    #![trigger builds@[j]]
                    0 <= j < builds@.len() ==> builds@[j].0@ == builds_of(self@)[j].0,
                forall|j: int| #![trigger r@[j]] 0 <= j < i ==> r@[j]@ == builds_of(self@)[j].0,
            decreases builds.len() - i,
        {
            r.push(builds[i].0);
            i += 1;
        }
        r
    }
}

/// Whether a qualified path, written down for the given roots, can stand in a
/// line, and is read back from it as it was.
pub open spec fn path_survives(
    roots: path::Roots,
    existing: Set<Seq<char>>,
    q: path::QualifiedPathView,
) -> bool {
    let t = path::placed(roots, q);
    &&& path::qualify(roots, existing, t) == q
    &&& t.len() > 0
    &&& text::word_len(t) == t.len()
}

/// Whether the paths of a line can stand in a line and are read back from it.
pub open spec fn line_survives(
    roots: path::Roots,
    existing: Set<Seq<char>>,
    line: DepInfoLineView,
) -> bool {
    match line {
        DepInfoLineView::Space => true,
        DepInfoLineView::Comment(c) => true,
        DepInfoLineView::Build(output, inputs) => {
            &&& path_survives(roots, existing, output)
            &&& path::placed(roots, output)[0] != '#'
            &&& forall|i: int|
                0 <= i < inputs.len() ==> path_survives(roots, existing, #[trigger] inputs[i])
            &&& inputs.len() > 0 ==> path::placed(roots, inputs.last()).last() != ':'
        },
    }
}

proof fn lemma_split_at_separator(o: Seq<char>, rest: Seq<char>)
    requires
        !o.contains(' '),
    ensures
        text::split_once_on(o + ": "@ + rest, ": "@) == Some((o, rest)),
    decreases o.len(),
{
    reveal_strlit(": ");
    let sep = ": "@;
    let line = o + sep + rest;
    if o.len() == 0 {
        assert(line.take(2) =~= sep);
        assert(line.skip(2) =~= rest);
        assert(o =~= Seq::empty());
    } else {
        assert(!text::has_prefix(line, sep)) by {
            if text::has_prefix(line, sep) {
                assert(line.take(2)[0] == line[0] && line.take(2)[1] == line[1]);
                assert(line[1] == ' ');
                if o.len() > 1 {
                    assert(line[1] == o[1]);
                } else {
                    assert(line[1] == sep[0]);
                }
            }
        }
        let t = o.skip(1);
        assert forall|i: int| 0 <= i < t.len() implies t[i] != ' ' by {
            assert(t[i] == o[i + 1]);
        }
        lemma_split_at_separator(t, rest);
        assert(line.skip(1) =~= t + sep + rest);
        assert(seq![line[0]] + t =~= o);
    }
}

/// Whether a text can stand in a line as a path: it is a word.
pub open spec fn is_word(t: Seq<char>) -> bool {
    t.len() > 0 && text::word_len(t) == t.len()
}

proof fn lemma_named_paths(o: Seq<char>, words: Seq<Seq<char>>)
    requires
        is_word(o),
        o[0] != '#',
        forall|i: int| 0 <= i < words.len() ==> is_word(#[trigger] words[i]),
        words.len() > 0 ==> words.last().last() != ':',
    ensures
        ({
            let t = o + ": "@ + text::joined(words, " "@);
            &&& t.len() > 0
            &&& !text::has_prefix(t, "#"@)
            &&& named_paths(t) == Some((o, words))
        }),
{
    reveal_strlit("#");
    reveal_strlit(":");
    reveal_strlit(": ");
    reveal_strlit(" ");
    let rest = text::joined(words, " "@);
    let t = o + ": "@ + rest;
    assert(" "@ =~= seq![' ']);
    assert(t[0] == o[0]);
    assert(!text::has_prefix(t, "#"@)) by {
        if text::has_prefix(t, "#"@) {
            assert(t.take(1)[0] == t[0]);
        }
    }
    text::lemma_word_len_bound(o);
    assert(!o.contains(' ')) by {
        if o.contains(' ') {
            let j = choose|j: int| 0 <= j < o.len() && o[j] == ' ';
            assert(!text::is_space(o[j]));
        }
    }
    lemma_split_at_separator(o, rest);
    assert forall|i: int| 0 <= i < words.len() implies (#[trigger] words[i]).len() > 0
        && text::word_len(words[i]) == words[i].len() by {
        assert(is_word(words[i]));
    }
    text::law_joined_words_read_back(words);
    assert(!text::has_suffix(t, ":"@)) by {
        if text::has_suffix(t, ":"@) {
            assert(t.skip(t.len() - 1)[0] == t.last());
            assert(t.last() == ':');
            if words.len() == 0 {
                assert(rest.len() == 0);
                assert(t.last() == ": "@[1]);
            } else {
                assert(is_word(words[words.len() - 1]));
                assert(rest.last() == words.last().last()) by {
                    if words.len() == 1 {
                        assert(words[0] == words.last());
                    }
                }
                assert(t.last() == rest.last());
            }
        }
    }
}

/// A line that is written down for some roots is read back with them as it was.
/// So a dep-info file that moves to another machine says there what it said
/// before, about the roots of that machine.
pub proof fn law_line_is_read_back(
    roots: path::Roots,
    existing: Set<Seq<char>>,
    line: DepInfoLineView,
)
    requires
        line_survives(roots, existing, line),
    ensures
        parsed_line(roots, existing, line_text(roots, line)) == Some(line),
{
    reveal_strlit("#");
    let t = line_text(roots, line);
    match line {
        DepInfoLineView::Space => {},
        DepInfoLineView::Comment(c) => {
            assert(t.take(1) =~= "#"@);
            assert(t.skip(1) =~= c);
        },
        DepInfoLineView::Build(output, inputs) => {
            let words = placed_all(roots, inputs);
            assert forall|i: int| 0 <= i < words.len() implies is_word(#[trigger] words[i]) by {
                assert(path_survives(roots, existing, inputs[i]));
            }
            lemma_named_paths(path::placed(roots, output), words);
            assert(qualify_all(roots, existing, words) =~= inputs) by {
                assert forall|i: int| 0 <= i < inputs.len() implies path::qualify(
                    roots,
                    existing,
                    words[i],
                ) == inputs[i] by {
                    assert(path_survives(roots, existing, inputs[i]));
                }
            }
        },
    }
}

/// A line of a dep-info file as it stands on disk.
pub enum WrittenLine {
    Blank,
    /// A comment: what follows the `#`.
    Comment(Seq<char>),
    /// An output, and nothing after its colon.
    Output(Seq<char>),
    /// An output and its inputs, with single blanks between them.
    Build(Seq<char>, Seq<Seq<char>>),
}

/// The text of a line on disk.
pub open spec fn written_text(line: WrittenLine) -> Seq<char> {
    match line {
        WrittenLine::Blank => Seq::empty(),
        WrittenLine::Comment(c) => "#"@ + c,
        WrittenLine::Output(o) => o + ":"@,
        WrittenLine::Build(o, inputs) => o + ": "@ + text::joined(inputs, " "@),
    }
}

/// The texts of some lines on disk.
pub open spec fn written_texts(lines: Seq<WrittenLine>) -> Seq<Seq<char>> {
    Seq::new(lines.len(), |i: int| written_text(lines[i]))
}

/// Whether a path is absolute and free of whitespace.
pub open spec fn is_plain_path(p: Seq<char>) -> bool {
    crate::path::is_abs(p) && is_word(p)
}

/// Whether all paths of a line are absolute and free of whitespace, and the line does
/// not end like one without inputs where it has some.
pub open spec fn is_plain_line(line: WrittenLine) -> bool {
    match line {
        WrittenLine::Blank => true,
        WrittenLine::Comment(c) => true,
        WrittenLine::Output(o) => is_plain_path(o),
        WrittenLine::Build(o, inputs) => {
            &&& is_plain_path(o)
            &&& forall|i: int| 0 <= i < inputs.len() ==> is_plain_path(#[trigger] inputs[i])
            &&& inputs.len() > 0 ==> inputs.last().last() != ':'
        },
    }
}

/// An absolute path with the root that it lies under on one machine replaced by that
/// of another. A path that lies under no root stays as it is.
pub open spec fn moved_path(here: path::Roots, there: path::Roots, p: Seq<char>) -> Seq<char> {
    match (crate::path::below(here.profile, p), crate::path::below(here.cargo_home, p)) {
        (Some(rel), _) => crate::path::join(there.profile, rel),
        (None, Some(rel)) => crate::path::join(there.cargo_home, rel),
        (None, None) => p,
    }
}

/// Some paths with their roots replaced.
pub open spec fn moved_paths(here: path::Roots, there: path::Roots, ps: Seq<Seq<char>>) -> Seq<
    Seq<char>,
> {
    Seq::new(ps.len(), |i: int| moved_path(here, there, ps[i]))
}

/// The text of a line with the roots of its paths replaced. An output without inputs
/// gets a blank after its colon.
pub open spec fn moved_text(here: path::Roots, there: path::Roots, line: WrittenLine) -> Seq<
    char,
> {
    match line {
        WrittenLine::Blank => Seq::empty(),
        WrittenLine::Comment(c) => "#"@ + c,
        WrittenLine::Output(o) => moved_path(here, there, o) + ": "@,
        WrittenLine::Build(o, inputs) => moved_path(here, there, o) + ": "@ + text::joined(
            moved_paths(here, there, inputs),
            " "@,
        ),
    }
}

/// The texts of some lines with the roots of their paths replaced.
pub open spec fn moved_texts(
    here: path::Roots,
    there: path::Roots,
    lines: Seq<WrittenLine>,
) -> Seq<Seq<char>> {
    Seq::new(lines.len(), |i: int| moved_text(here, there, lines[i]))
}

/// A line that is read on one machine and written on another is the same line, with
/// the roots of its paths replaced.
pub proof fn law_line_moves(
    here: path::Roots,
    there: path::Roots,
    existing: Set<Seq<char>>,
    line: WrittenLine,
)
    requires
        is_plain_line(line),
    ensures
        parsed_line(here, existing, written_text(line)) matches Some(read) && line_text(there, read)
            == moved_text(here, there, line),
{
    reveal_strlit("#");
    reveal_strlit(":");
    let t = written_text(line);
    match line {
        WrittenLine::Blank => {},
        WrittenLine::Comment(c) => {
            assert(t.take(1) =~= "#"@);
            assert(t.skip(1) =~= c);
        },
        WrittenLine::Output(o) => {
            assert(t[0] == o[0]);
            assert(!text::has_prefix(t, "#"@)) by {
                if text::has_prefix(t, "#"@) {
                    assert(t.take(1)[0] == t[0]);
                }
            }
            assert(t.skip(t.len() - 1) =~= ":"@);
            assert(t.take(t.len() - 1) =~= o);
            let none = placed_all(there, qualify_all(here, existing, Seq::empty()));
            assert(none.len() == 0);
            assert(text::joined(none, " "@) =~= Seq::empty());
            assert(moved_path(here, there, o) + ": "@ + Seq::<char>::empty() =~= moved_path(
                here,
                there,
                o,
            ) + ": "@);
        },
        WrittenLine::Build(o, inputs) => {
            assert forall|i: int| 0 <= i < inputs.len() implies is_word(#[trigger] inputs[i]) by {
                assert(is_plain_path(inputs[i]));
            }
            lemma_named_paths(o, inputs);
            assert(placed_all(there, qualify_all(here, existing, inputs)) =~= moved_paths(
                here,
                there,
                inputs,
            )) by {
                assert forall|i: int| 0 <= i < inputs.len() implies path::placed(
                    there,
                    path::qualify(here, existing, inputs[i]),
                ) == moved_path(here, there, inputs[i]) by {
                    assert(is_plain_path(inputs[i]));
                }
            }
        },
    }
}

/// Whether all paths of a line are written down again as they were.
pub open spec fn is_stable_line(
    roots: path::Roots,
    existing: Set<Seq<char>>,
    line: WrittenLine,
) -> bool {
    match line {
        WrittenLine::Blank => true,
        WrittenLine::Comment(c) => true,
        WrittenLine::Output(o) => path::is_stable(roots, existing, o),
        WrittenLine::Build(o, inputs) => {
            &&& path::is_stable(roots, existing, o)
            &&& forall|i: int|
                0 <= i < inputs.len() ==> path::is_stable(roots, existing, #[trigger] inputs[i])
        },
    }
}

/// A line that is read and then written for the same roots is its own text. Only an
/// output without a blank after its colon gets one.
pub proof fn law_line_is_written_as_it_was(
    roots: path::Roots,
    existing: Set<Seq<char>>,
    line: WrittenLine,
)
    requires
        is_plain_line(line),
        is_stable_line(roots, existing, line),
    ensures
        parsed_line(roots, existing, written_text(line)) matches Some(read) && line_text(
            roots,
            read,
        ) == (match line {
            WrittenLine::Output(o) => o + ": "@,
            _ => written_text(line),
        }),
{
    law_line_moves(roots, roots, existing, line);
    if let WrittenLine::Build(o, inputs) = line {
        assert(moved_paths(roots, roots, inputs) =~= inputs) by {
            assert forall|i: int| 0 <= i < inputs.len() implies moved_path(roots, roots, inputs[i])
                == inputs[i] by {
                assert(is_plain_path(inputs[i]));
                assert(path::is_stable(roots, existing, inputs[i]));
            }
        }
    }
}

/// A dep-info file that is read on one machine and written on another is the same
/// file, with the roots of its paths replaced: its lines come in the same order, blank
/// lines and comments stay, and newlines stand between them.
pub proof fn law_file_moves(
    here: path::Roots,
    there: path::Roots,
    existing: Set<Seq<char>>,
    content: Seq<char>,
    lines: Seq<WrittenLine>,
)
    requires
        text::lines_of(content) == written_texts(lines),
        forall|i: int| 0 <= i < lines.len() ==> is_plain_line(#[trigger] lines[i]),
    ensures
        parsed_file(here, existing, content) matches Ok(read) && file_text(there, read)
            == text::joined(moved_texts(here, there, lines), "\n"@),
{
    let texts = written_texts(lines);
    law_file_is_parsed_by_lines(here, existing, texts);
    assert forall|i: int| 0 <= i < lines.len() implies {
        &&& parsed_line(here, existing, #[trigger] texts[i]) is Some
        &&& line_text(there, parsed_line(here, existing, texts[i])->0) == moved_text(
            here,
            there,
            lines[i],
        )
    } by {
        assert(is_plain_line(lines[i]));
        law_line_moves(here, there, existing, lines[i]);
    }
    let read = parsed_lines(here, existing, texts)->Ok_0;
    assert(line_texts(there, read) =~= moved_texts(here, there, lines)) by {
        assert forall|i: int| 0 <= i < lines.len() implies line_text(there, read[i]) == moved_text(
            here,
            there,
            lines[i],
        ) by {
            assert(parsed_line(here, existing, texts[i]) == Some(read[i]));
        }
    }
}

/// A dep-info file that is written down for some roots is read back with them as
/// it was, line by line, if it does not end with an empty line and its comments
/// hold no line breaks.
pub proof fn law_file_is_read_back(
    roots: path::Roots,
    existing: Set<Seq<char>>,
    lines: Seq<DepInfoLineView>,
)
    requires
        forall|i: int|
            0 <= i < lines.len() ==> line_survives(roots, existing, #[trigger] lines[i]),
        forall|i: int|
            0 <= i < lines.len() ==> !line_text(roots, #[trigger] lines[i]).contains('\n')
                && text::without_cr(line_text(roots, lines[i])) == line_text(roots, lines[i]),
        lines.len() > 0 ==> !(lines.last() is Space),
    ensures
        ({
            let read = text::lines_of(file_text(roots, lines));
            &&& read.len() == lines.len()
            &&& forall|i: int|
                0 <= i < lines.len() ==> parsed_line(roots, existing, #[trigger] read[i]) == Some(
                    lines[i],
                )
        }),
{
    reveal_strlit("\n");
    assert("\n"@ =~= seq!['\n']);
    let texts = line_texts(roots, lines);
    assert forall|i: int| 0 <= i < texts.len() implies !(#[trigger] texts[i]).contains('\n')
        && text::without_cr(texts[i]) == texts[i] by {
        assert(texts[i] == line_text(roots, lines[i]));
    }
    if lines.len() > 0 {
        reveal_strlit("#");
        assert(texts.last() == line_text(roots, lines.last()));
        assert(line_survives(roots, existing, lines[lines.len() - 1]));
    }
    text::law_joined_lines_read_back(texts);
    assert forall|i: int| 0 <= i < lines.len() implies parsed_line(
        roots,
        existing,
        #[trigger] texts[i],
    ) == Some(lines[i]) by {
        assert(line_survives(roots, existing, lines[i]));
        law_line_is_read_back(roots, existing, lines[i]);
    }
}

proof fn lemma_builds_are_filtered(
    lines: Seq<DepInfoLineView>,
    build: spec_fn(DepInfoLineView) -> Option<
        (path::QualifiedPathView, Seq<path::QualifiedPathView>),
    >,
)
    requires
        forall|l: DepInfoLineView| #[trigger]
            build(l) == (match l {
                DepInfoLineView::Build(output, inputs) => Some((output, inputs)),
                _ => None,
            }),
    ensures
        builds_of(lines) == lines.filter_map(build),
    decreases lines.len(),
{
    if lines.len() > 0 {
        let front = lines.drop_last();
        lemma_builds_are_filtered(front, build);
        if let Some(b) = build(lines.last()) {
            assert(front.filter_map(build) + seq![b] =~= front.filter_map(build).push(b));
        }
    }
}

/// What is built is told by the lines that name an output, in their order.
pub proof fn law_builds_come_in_order(lines: Seq<DepInfoLineView>)
    ensures
        builds_of(lines) == lines.filter_map(
            |l: DepInfoLineView|
                match l {
                    DepInfoLineView::Build(output, inputs) => Some((output, inputs)),
                    _ => None,
                },
        ),
{
    lemma_builds_are_filtered(
        lines,
        |l: DepInfoLineView|
            match l {
                DepInfoLineView::Build(output, inputs) => Some((output, inputs)),
                _ => None,
            },
    );
}

/// A line on disk names its output and its inputs, as they are written, in order.
pub proof fn law_lines_name_their_paths(line: WrittenLine)
    requires
        is_plain_line(line),
    ensures
        line_paths(written_text(line)) == (match line {
            WrittenLine::Blank => Seq::empty(),
            WrittenLine::Comment(_) => Seq::empty(),
            WrittenLine::Output(o) => seq![o],
            WrittenLine::Build(o, inputs) => seq![o] + inputs,
        }),
{
    reveal_strlit("#");
    reveal_strlit(":");
    let t = written_text(line);
    match line {
        WrittenLine::Blank => {},
        WrittenLine::Comment(c) => {
            assert(t.take(1) =~= "#"@);
        },
        WrittenLine::Output(o) => {
            assert(t[0] == o[0]);
            assert(!text::has_prefix(t, "#"@)) by {
                if text::has_prefix(t, "#"@) {
                    assert(t.take(1)[0] == t[0]);
                }
            }
            assert(t.skip(t.len() - 1) =~= ":"@);
            assert(t.take(t.len() - 1) =~= o);
            assert(seq![o] + Seq::<Seq<char>>::empty() =~= seq![o]);
        },
        WrittenLine::Build(o, inputs) => {
            assert forall|i: int| 0 <= i < inputs.len() implies is_word(#[trigger] inputs[i]) by {
                assert(is_plain_path(inputs[i]));
            }
            lemma_named_paths(o, inputs);
        },
    }
}

} // verus!
