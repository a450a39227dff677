//! The strict reading of the files that Cargo writes: every absolute path in them
//! has to lie below a known root.

use vstd::prelude::*;
use vstd::string::*;

use crate::cargo::build_script::BuildScriptOutputLineStyle;
use crate::cargo::dep_info;
use crate::cargo::path as qualified;
use crate::cargo::path::Existing;
use crate::cargo::rustc::RustcTarget;
use crate::cargo::workspace::Workspace;
use crate::path;
use crate::path::RelFilePath;
use crate::text;

verus! {

/// What the compiler says of the platform that it compiles for.
#[derive(Debug)]
pub struct RustcMetadata {
    /// The LLVM target triple.
    pub llvm_target: String,
}

/// A path inside a Cargo project that does not depend on the machine.
#[derive(Debug)]
pub enum QualifiedPath {
    /// A path that was written as relative, and is kept as it is.
    Rootless(RelFilePath),
    /// A path relative to the profile directory.
    RelativeTargetProfile(RelFilePath),
    /// A path relative to `$CARGO_HOME`.
    RelativeCargoHome(RelFilePath),
}

impl View for QualifiedPath {
    type V = qualified::QualifiedPathView;

    open spec fn view(&self) -> qualified::QualifiedPathView {
        match self {
            QualifiedPath::Rootless(p) => qualified::QualifiedPathView::Rootless(p@),
            QualifiedPath::RelativeTargetProfile(p) => {
                qualified::QualifiedPathView::RelativeTargetProfile(p@)
            },
            QualifiedPath::RelativeCargoHome(p) => {
                qualified::QualifiedPathView::RelativeCargoHome(p@)
            },
        }
    }
}

/// An absolute path that lies below no known root.
#[derive(Debug, Clone, Copy, PartialEq, Eq, Structural)]
pub struct UnknownRoot;

impl QualifiedPath {
    fn from_qualified(q: qualified::QualifiedPath) -> (r: Result<QualifiedPath, UnknownRoot>)
        ensures
            match r {
                Ok(p) => p@ == q@,
                Err(_) => q@ is Absolute,
            },
    {
        match q {
            qualified::QualifiedPath::Rootless(p) => Ok(QualifiedPath::Rootless(p)),
            qualified::QualifiedPath::RelativeTargetProfile(p) => Ok(
                QualifiedPath::RelativeTargetProfile(p),
            ),
            qualified::QualifiedPath::RelativeCargoHome(p) => Ok(
                QualifiedPath::RelativeCargoHome(p),
            ),
            qualified::QualifiedPath::Absolute(_) => Err(UnknownRoot),
        }
    }

    fn to_qualified(&self) -> (r: qualified::QualifiedPath)
        ensures
            r@ == self@,
    {
        match self {
            QualifiedPath::Rootless(p) => qualified::QualifiedPath::Rootless(p.clone()),
            QualifiedPath::RelativeTargetProfile(p) => {
                qualified::QualifiedPath::RelativeTargetProfile(p.clone())
            },
            QualifiedPath::RelativeCargoHome(p) => {
                qualified::QualifiedPath::RelativeCargoHome(p.clone())
            },
        }
    }

    /// Qualifies a path. An absolute path has to lie below the profile directory or
    /// `$CARGO_HOME`.
    pub fn parse(ws: &Workspace, target: &RustcTarget, existing: &Existing, p: &str) -> (r: Result<
        QualifiedPath,
        UnknownRoot,
    >)
        ensures
            match r {
                Ok(q) => q@ == qualified::qualify(ws.roots(target@), existing@, p@),
                Err(_) => {
                    &&& path::is_abs(p@)
                    &&& path::below(ws.roots(target@).profile, p@) is None
                    &&& path::below(ws.roots(target@).cargo_home, p@) is None
                },
            },
    {
        Self::from_qualified(qualified::QualifiedPath::parse(ws, target, existing, p))
    }

    /// The text of the path on this machine.
    pub fn reconstruct(&self, ws: &Workspace, target: &RustcTarget) -> (r: String)
        ensures
            r@ == qualified::placed(ws.roots(target@), self@),
    {
        self.to_qualified().reconstruct_string(ws, target)
    }
}

/// A line of a dep-info file.
#[derive(Debug)]
pub enum DepInfoLine {
    /// An empty line.
    Space,
    /// A comment: what follows the `#`.
    Comment(String),
    /// An output and its inputs.
    Build(QualifiedPath, Vec<QualifiedPath>),
}

/// The views of a sequence of paths.
pub open spec fn path_views(v: Seq<QualifiedPath>) -> Seq<qualified::QualifiedPathView> {
    Seq::new(v.len(), |i: int| v[i]@)
}

impl View for DepInfoLine {
    type V = dep_info::DepInfoLineView;

    open spec fn view(&self) -> dep_info::DepInfoLineView {
        match self {
            DepInfoLine::Space => dep_info::DepInfoLineView::Space,
            DepInfoLine::Comment(c) => dep_info::DepInfoLineView::Comment(c@),
            DepInfoLine::Build(o, i) => dep_info::DepInfoLineView::Build(o@, path_views(i@)),
        }
    }
}

/// Why a line of a dep-info file cannot be read.
#[derive(Debug, Clone, Copy, PartialEq, Eq, Structural)]
pub enum LineError {
    /// It names an output and inputs without a separator.
    NoSeparator,
    /// A path in it lies below no known root.
    UnknownRoot,
}

/// Whether all paths of a line have a root.
pub open spec fn has_roots(line: dep_info::DepInfoLineView) -> bool {
    match line {
        dep_info::DepInfoLineView::Build(output, inputs) => {
            &&& !(output is Absolute)
            &&& forall|i: int| 0 <= i < inputs.len() ==> !((#[trigger] inputs[i]) is Absolute)
        },
        _ => true,
    }
}

/// What a line of a dep-info file says.
pub open spec fn parsed_line(
    roots: qualified::Roots,
    existing: Set<Seq<char>>,
    line: Seq<char>,
) -> Result<dep_info::DepInfoLineView, LineError> {
    match dep_info::parsed_line(roots, existing, line) {
        None => Err(LineError::NoSeparator),
        Some(parsed) => if has_roots(parsed) {
            Ok(parsed)
        } else {
            Err(LineError::UnknownRoot)
        },
    }
}

impl DepInfoLine {
    fn from_paths(paths: Vec<qualified::QualifiedPath>) -> (r: Result<
        Vec<QualifiedPath>,
        UnknownRoot,
    >)
        ensures
            match r {
                Ok(ps) => path_views(ps@) == dep_info::path_views(paths@),
                Err(_) => exists|i: int| 0 <= i < paths@.len() && (#[trigger] paths@[i]@) is Absolute,
            },
    {
        let ghost all = paths@;
        let mut rest: Vec<qualified::QualifiedPath> = paths;
        let mut r: Vec<QualifiedPath> = Vec::new();
        while rest.len() > 0
            invariant
                all == paths@,
                r.len() + rest.len() == all.len(),
                rest@ == all.skip(r.len() as int),
                forall|j: int| 0 <= j < r.len() ==> #[trigger] r@[j]@ == all[j]@,
            decreases rest.len(),
        {
            let ghost n = r.len() as int;
            let first = rest.remove(0);
            assert(first == all[n]);
            match QualifiedPath::from_qualified(first) {
                Ok(p) => r.push(p),
                Err(e) => {
                    assert(paths@[n]@ is Absolute);
                    return Err(e);
                },
            }
            assert(rest@ =~= all.skip(n + 1));
        }
        assert(path_views(r@) =~= dep_info::path_views(paths@));
        Ok(r)
    }

    /// Parses a line of a dep-info file.
    pub fn parse(
        ws: &Workspace,
        target: &RustcTarget,
        existing: &Existing,
        line: &str,
    ) -> (r: Result<DepInfoLine, LineError>)
        ensures
            match r {
                Ok(l) => parsed_line(ws.roots(target@), existing@, line@) == Ok::<
                    dep_info::DepInfoLineView,
                    LineError,
                >(l@),
                Err(e) => parsed_line(ws.roots(target@), existing@, line@) == Err::<
                    dep_info::DepInfoLineView,
                    LineError,
                >(e),
            },
    {
        match dep_info::DepInfoLine::parse(ws, target, existing, line) {
            Err(_) => Err(LineError::NoSeparator),
            Ok(dep_info::DepInfoLine::Space) => Ok(DepInfoLine::Space),
            Ok(dep_info::DepInfoLine::Comment(c)) => Ok(DepInfoLine::Comment(c)),
            Ok(dep_info::DepInfoLine::Build(output, inputs)) => {
                let ghost want = dep_info::path_views(inputs@);
                let output = match QualifiedPath::from_qualified(output) {
                    Ok(p) => p,
                    Err(_) => {
                        return Err(LineError::UnknownRoot);
                    },
                };
                match Self::from_paths(inputs) {
                    Ok(inputs) => {
                        assert forall|i: int| 0 <= i < want.len() implies !((
                        #[trigger] want[i]) is Absolute) by {
                            assert(want[i] == path_views(inputs@)[i]);
                        }
                        Ok(DepInfoLine::Build(output, inputs))
                    },
                    Err(_) => {
                        proof {
                            let i = choose|i: int|
                                0 <= i < inputs@.len() && (#[trigger] inputs@[i]@) is Absolute;
                            assert(want[i] is Absolute);
                        }
                        Err(LineError::UnknownRoot)
                    },
                }
            },
        }
    }

    /// The line as text, with its paths written down for this machine.
    pub fn reconstruct(&self, ws: &Workspace, target: &RustcTarget) -> (r: String)
        ensures
            r@ == dep_info::line_text(ws.roots(target@), self@),
    {
        let line = match self {
            DepInfoLine::Space => dep_info::DepInfoLine::Space,
            DepInfoLine::Comment(c) => dep_info::DepInfoLine::Comment(c.clone()),
            DepInfoLine::Build(output, inputs) => {
                let mut paths: Vec<qualified::QualifiedPath> = Vec::new();
                let mut i: usize = 0;
                while i < inputs.len()
                    invariant
                        i <= inputs.len(),
                        i == paths.len(),
                        forall|j: int| 0 <= j < i ==> #[trigger] paths@[j]@ == inputs@[j]@,
                    decreases inputs.len() - i,
                {
                    paths.push(inputs[i].to_qualified());
                    i += 1;
                }
                assert(dep_info::path_views(paths@) =~= path_views(inputs@));
                dep_info::DepInfoLine::Build(output.to_qualified(), paths)
            },
        };
        line.reconstruct(ws, target)
    }
}

/// A dep-info file.
#[derive(Debug)]
pub struct DepInfo {
    pub lines: Vec<DepInfoLine>,
}

/// The views of a sequence of lines.
pub open spec fn line_views(v: Seq<DepInfoLine>) -> Seq<dep_info::DepInfoLineView> {
    Seq::new(v.len(), |i: int| v[i]@)
}

impl View for DepInfo {
    type V = Seq<dep_info::DepInfoLineView>;

    open spec fn view(&self) -> Seq<dep_info::DepInfoLineView> {
        line_views(self.lines@)
    }
}

/// Which line of a file cannot be read, counted from zero, and why.
#[derive(Debug, Clone, Copy, PartialEq, Eq, Structural)]
pub struct FileError {
    pub line: usize,
    pub error: LineError,
}

/// What lines say, or the number of the first that cannot be read and why.
pub open spec fn parsed_lines(
    roots: qualified::Roots,
    existing: Set<Seq<char>>,
    lines: Seq<Seq<char>>,
) -> Result<Seq<dep_info::DepInfoLineView>, (int, LineError)>
    decreases lines.len(),
{
    if lines.len() == 0 {
        Ok(Seq::empty())
    } else {
        match parsed_lines(roots, existing, lines.drop_last()) {
            Err(e) => Err(e),
            Ok(before) => match parsed_line(roots, existing, lines.last()) {
                Ok(line) => Ok(before.push(line)),
                Err(e) => Err((lines.len() - 1, e)),
            },
        }
    }
}

proof fn lemma_error_stays(
    roots: qualified::Roots,
    existing: Set<Seq<char>>,
    lines: Seq<Seq<char>>,
    i: int,
)
    requires
        0 <= i <= lines.len(),
        parsed_lines(roots, existing, lines.take(i)) is Err,
    ensures
        parsed_lines(roots, existing, lines) == parsed_lines(roots, existing, lines.take(i)),
    decreases lines.len(),
{
    if i == lines.len() {
        assert(lines.take(i) =~= lines);
    } else {
        assert(lines.drop_last().take(i) =~= lines.take(i));
        lemma_error_stays(roots, existing, lines.drop_last(), i);
    }
}

impl DepInfo {
    /// Parses a dep-info file.
    pub fn parse(
        ws: &Workspace,
        target: &RustcTarget,
        existing: &Existing,
        content: &str,
    ) -> (r: Result<DepInfo, FileError>)
        ensures
            match r {
                Ok(d) => parsed_lines(ws.roots(target@), existing@, text::lines_of(content@))
                    == Ok::<Seq<dep_info::DepInfoLineView>, (int, LineError)>(d@),
                Err(e) => parsed_lines(ws.roots(target@), existing@, text::lines_of(content@))
                    == Err::<Seq<dep_info::DepInfoLineView>, (int, LineError)>(
                    (e.line as int, e.error),
                ),
            },
    {
        let texts: Vec<String> = text::lines(content);
        let ghost all = text::lines_of(content@);
        let ghost roots = ws.roots(target@);
        let mut lines: Vec<DepInfoLine> = Vec::new();
        let mut i: usize = 0;
        assert(line_views(lines@) =~= Seq::empty());
        while i < texts.len()
            invariant
                i <= texts.len(),
                all == text::lines_of(content@),
                all == text::views(texts@),
                roots == ws.roots(target@),
                parsed_lines(roots, existing@, all.take(i as int)) == Ok::<
                    Seq<dep_info::DepInfoLineView>,
                    (int, LineError),
                >(line_views(lines@)),
            decreases texts.len() - i,
        {
            let ghost before = line_views(lines@);
            proof {
                assert(all.take(i + 1).drop_last() =~= all.take(i as int));
                assert(all.take(i + 1).last() == texts@[i as int]@);
            }
            match DepInfoLine::parse(ws, target, existing, texts[i].as_str()) {
                Ok(line) => {
                    lines.push(line);
                    assert(line_views(lines@) =~= before.push(line@));
                },
                Err(error) => {
                    proof {
                        lemma_error_stays(roots, existing@, all, i + 1);
                    }
                    return Err(FileError { line: i, error });
                },
            }
            i += 1;
        }
        assert(all.take(texts.len() as int) =~= all);
        Ok(DepInfo { lines })
    }

    /// The file as text, with its paths written down for this machine.
    pub fn reconstruct(&self, ws: &Workspace, target: &RustcTarget) -> (r: String)
        ensures
            r@ == dep_info::file_text(ws.roots(target@), self@),
    {
        let mut texts: Vec<String> = Vec::new();
        let mut i: usize = 0;
        while i < self.lines.len()
            invariant
                i <= self.lines.len(),
                i == texts.len(),
                forall|j: int|
                    0 <= j < i ==> #[trigger] texts@[j]@ == dep_info::line_text(
                        ws.roots(target@),
                        self.lines@[j]@,
                    ),
            decreases self.lines.len() - i,
        {
            texts.push(self.lines[i].reconstruct(ws, target));
            i += 1;
        }
        assert(text::views(texts@) =~= dep_info::line_texts(ws.roots(target@), self@));
        text::join(&texts, "\n")
    }

    /// The lines of the file.
    pub fn lines(&self) -> (r: &Vec<DepInfoLine>)
        ensures
            line_views(r@) == self@,
    {
        &self.lines
    }

    /// The outputs of the file, each with its inputs.
    pub fn builds(&self) -> (r: Vec<(&QualifiedPath, &Vec<QualifiedPath>)>)
        ensures
            r@.len() == dep_info::builds_of(self@).len(),
            forall|i: int|
                #![trigger r@[i]]
                0 <= i < r@.len() ==> (r@[i].0@, path_views(r@[i].1@)) == dep_info::builds_of(
                    self@,
                )[i],
    {
        let mut r: Vec<(&QualifiedPath, &Vec<QualifiedPath>)> = Vec::new();
        let ghost all = self@;
        let mut i: usize = 0;
        while i < self.lines.len()
            invariant
                i <= self.lines.len(),
                all == self@,
                r@.len() == dep_info::builds_of(all.take(i as int)).len(),
                forall|j: int|
                    #![trigger r@[j]]
                    0 <= j < r@.len() ==> (r@[j].0@, path_views(r@[j].1@)) == dep_info::builds_of(
                        all.take(i as int),
                    )[j],
            decreases self.lines.len() - i,
        {
            proof {
                assert(all.take(i + 1).drop_last() =~= all.take(i as int));
                assert(all.take(i + 1).last() == self.lines@[i as int]@);
            }
            if let DepInfoLine::Build(output, inputs) = &self.lines[i] {
                r.push((output, inputs));
            }
            i += 1;
        }
        assert(all.take(self.lines.len() as int) =~= all);
        r
    }

    /// The outputs of the file.
    pub fn build_outputs(&self) -> (r: Vec<&QualifiedPath>)
        ensures
            r@.len() == dep_info::builds_of(self@).len(),
            forall|i: int|
                #![trigger r@[i]]
                0 <= i < r@.len() ==> r@[i]@ == dep_info::builds_of(self@)[i].0,
    {
        let builds: Vec<(&QualifiedPath, &Vec<QualifiedPath>)> = self.builds();
        let mut r: Vec<&QualifiedPath> = Vec::new();
        let mut i: usize = 0;
        while i < builds.len()
            invariant
                i <= builds.len(),
                i == r.len(),
                builds@.len() == dep_info::builds_of(self@).len(),
                forall|j: int|
                    #![trigger builds@[j]]
                    0 <= j < builds@.len() ==> builds@[j].0@ == dep_info::builds_of(self@)[j].0,
                forall|j: int|
                    #![trigger r@[j]]
                    0 <= j < i ==> r@[j]@ == dep_info::builds_of(self@)[j].0,
            decreases builds.len() - i,
        {
            r.push(builds[i].0);
            i += 1;
        }
        r
    }
}

/// The file in which Cargo records a build script's output directory.
#[derive(Debug)]
pub struct RootOutput {
    pub path: QualifiedPath,
}

/// Why a root output file cannot be read.
#[derive(Debug, Clone, Copy, PartialEq, Eq, Structural)]
pub enum RootOutputError {
    /// It does not hold exactly one line.
    NotOneLine,
    /// Its path lies below no known root.
    UnknownRoot,
}

impl RootOutput {
    /// Parses a root output file.
    pub fn parse(
        ws: &Workspace,
        target: &RustcTarget,
        existing: &Existing,
        content: &str,
    ) -> (r: Result<RootOutput, RootOutputError>)
        ensures
            ({
                let lines = text::lines_of(content@);
                let q = qualified::qualify(ws.roots(target@), existing@, lines[0]);
                match r {
                    Ok(root) => lines.len() == 1 && !(q is Absolute) && root.path@ == q,
                    Err(RootOutputError::NotOneLine) => lines.len() != 1,
                    Err(RootOutputError::UnknownRoot) => lines.len() == 1 && q is Absolute,
                }
            }),
    {
        let lines: Vec<String> = text::lines(content);
        assert(text::views(lines@).len() == lines@.len());
        if lines.len() != 1 {
            return Err(RootOutputError::NotOneLine);
        }
        assert(text::views(lines@)[0] == lines@[0]@);
        match QualifiedPath::parse(ws, target, existing, lines[0].as_str()) {
            Ok(path) => Ok(RootOutput { path }),
            Err(_) => Err(RootOutputError::UnknownRoot),
        }
    }

    /// The file's text for this machine.
    pub fn reconstruct(&self, ws: &Workspace, target: &RustcTarget) -> (r: String)
        ensures
            r@ == qualified::placed(ws.roots(target@), self.path@),
    {
        self.path.reconstruct(ws, target)
    }
}

/// A line of a build script's output.
#[derive(Debug)]
pub enum BuildScriptOutputLine {
    /// `cargo::rerun-if-changed=PATH`, or `cargo:rerun-if-changed=PATH`.
    RerunIfChanged(BuildScriptOutputLineStyle, QualifiedPath),
    /// Any other line, which is kept as it is.
    Other(String),
}

/// A [`BuildScriptOutputLine`] in terms of characters.
pub enum BuildScriptOutputLineView {
    RerunIfChanged(BuildScriptOutputLineStyle, qualified::QualifiedPathView),
    Other(Seq<char>),
}

impl View for BuildScriptOutputLine {
    type V = BuildScriptOutputLineView;

    open spec fn view(&self) -> BuildScriptOutputLineView {
        match self {
            BuildScriptOutputLine::RerunIfChanged(style, p) => {
                BuildScriptOutputLineView::RerunIfChanged(*style, p@)
            },
            BuildScriptOutputLine::Other(s) => BuildScriptOutputLineView::Other(s@),
        }
    }
}

/// What stands before the path, in either style.
pub open spec fn rerun_key(style: BuildScriptOutputLineStyle) -> Seq<char> {
    match style {
        BuildScriptOutputLineStyle::Old => "cargo:rerun-if-changed"@,
        BuildScriptOutputLineStyle::Current => "cargo::rerun-if-changed"@,
    }
}

/// The path that a line of a build script's output names, if it names one, and the
/// style in which it does.
pub open spec fn rerun_path(line: Seq<char>) -> Option<(BuildScriptOutputLineStyle, Seq<char>)> {
    match text::split_once_at(line, '=') {
        Some((key, value)) => if key == rerun_key(BuildScriptOutputLineStyle::Old) {
            Some((BuildScriptOutputLineStyle::Old, value))
        } else if key == rerun_key(BuildScriptOutputLineStyle::Current) {
            Some((BuildScriptOutputLineStyle::Current, value))
        } else {
            None
        },
        None => None,
    }
}

/// What a line of a build script's output says, unless its path lies below no known
/// root.
pub open spec fn parsed_output_line(
    roots: qualified::Roots,
    existing: Set<Seq<char>>,
    line: Seq<char>,
) -> Option<BuildScriptOutputLineView> {
    match rerun_path(line) {
        None => Some(BuildScriptOutputLineView::Other(line)),
        Some((style, p)) => {
            let q = qualified::qualify(roots, existing, p);
            if q is Absolute {
                None
            } else {
                Some(BuildScriptOutputLineView::RerunIfChanged(style, q))
            }
        },
    }
}

/// A line of a build script's output as text.
pub open spec fn output_line_text(
    roots: qualified::Roots,
    line: BuildScriptOutputLineView,
) -> Seq<char> {
    match line {
        BuildScriptOutputLineView::RerunIfChanged(style, q) => rerun_key(style) + "="@
            + qualified::placed(roots, q),
        BuildScriptOutputLineView::Other(s) => s,
    }
}

impl BuildScriptOutputLine {
    /// Parses a line of a build script's output.
    pub fn parse(
        ws: &Workspace,
        target: &RustcTarget,
        existing: &Existing,
        line: &str,
    ) -> (r: Result<BuildScriptOutputLine, UnknownRoot>)
        ensures
            match r {
                Ok(l) => parsed_output_line(ws.roots(target@), existing@, line@) == Some(l@),
                Err(_) => parsed_output_line(ws.roots(target@), existing@, line@) is None,
            },
    {
        if let Some((key, value)) = text::split_once(line, '=') {
            let style: Option<BuildScriptOutputLineStyle> = if text::same(
                key.as_str(),
                "cargo:rerun-if-changed",
            ) {
                Some(BuildScriptOutputLineStyle::Old)
            } else if text::same(key.as_str(), "cargo::rerun-if-changed") {
                Some(BuildScriptOutputLineStyle::Current)
            } else {
                None
            };
            if let Some(style) = style {
                return match QualifiedPath::parse(ws, target, existing, value.as_str()) {
                    Ok(path) => Ok(BuildScriptOutputLine::RerunIfChanged(style, path)),
                    Err(e) => Err(e),
                };
            }
        }
        Ok(BuildScriptOutputLine::Other(text::copy(line)))
    }

    /// The line as text, with its path written down for this machine.
    pub fn reconstruct(&self, ws: &Workspace, target: &RustcTarget) -> (r: String)
        ensures
            r@ == output_line_text(ws.roots(target@), self@),
    {
        match self {
            BuildScriptOutputLine::RerunIfChanged(style, path) => {
                let key: &str = match style {
                    BuildScriptOutputLineStyle::Old => "cargo:rerun-if-changed",
                    BuildScriptOutputLineStyle::Current => "cargo::rerun-if-changed",
                };
                text::concat3(key, "=", path.reconstruct(ws, target).as_str())
            },
            BuildScriptOutputLine::Other(s) => s.clone(),
        }
    }
}

/// The output of a build script.
#[derive(Debug)]
pub struct BuildScriptOutput {
    pub lines: Vec<BuildScriptOutputLine>,
}

impl View for BuildScriptOutput {
    type V = Seq<BuildScriptOutputLineView>;

    open spec fn view(&self) -> Seq<BuildScriptOutputLineView> {
        Seq::new(self.lines@.len(), |i: int| self.lines@[i]@)
    }
}

/// The text of each line.
pub open spec fn output_line_texts(
    roots: qualified::Roots,
    lines: Seq<BuildScriptOutputLineView>,
) -> Seq<Seq<char>> {
    Seq::new(lines.len(), |i: int| output_line_text(roots, lines[i]))
}

impl BuildScriptOutput {
    /// Parses the output of a build script. The error is the number of the first
    /// line, counted from zero, whose path lies below no known root.
    pub fn parse(
        ws: &Workspace,
        target: &RustcTarget,
        existing: &Existing,
        content: &str,
    ) -> (r: Result<BuildScriptOutput, usize>)
        ensures
            ({
                let lines = text::lines_of(content@);
                let roots = ws.roots(target@);
                match r {
                    Ok(output) => {
                        &&& output@.len() == lines.len()
                        &&& forall|i: int|
                            0 <= i < lines.len() ==> parsed_output_line(
                                roots,
                                existing@,
                                #[trigger] lines[i],
                            ) == Some(output@[i])
                    },
                    Err(n) => {
                        &&& n < lines.len()
                        &&& parsed_output_line(roots, existing@, lines[n as int]) is None
                        &&& forall|i: int|
                            0 <= i < n ==> parsed_output_line(
                                roots,
                                existing@,
                                #[trigger] lines[i],
                            ) is Some
                    },
                }
            }),
    {
        let texts: Vec<String> = text::lines(content);
        let ghost all = text::lines_of(content@);
        let mut lines: Vec<BuildScriptOutputLine> = Vec::new();
        let mut i: usize = 0;
        assert(all.len() == texts@.len());
        while i < texts.len()
            invariant
                i <= texts.len(),
                i == lines.len(),
                all == text::lines_of(content@),
                all == text::views(texts@),
                all.len() == texts@.len(),
                forall|j: int|
                    0 <= j < i ==> parsed_output_line(
                        ws.roots(target@),
                        existing@,
                        #[trigger] all[j],
                    ) == Some(lines@[j]@),
            decreases texts.len() - i,
        {
            assert(all[i as int] == texts@[i as int]@);
            match BuildScriptOutputLine::parse(ws, target, existing, texts[i].as_str()) {
                Ok(line) => lines.push(line),
                Err(_) => {
                    return Err(i);
                },
            }
            i += 1;
        }
        Ok(BuildScriptOutput { lines })
    }

    /// The output as text, with its paths written down for this machine.
    pub fn reconstruct(&self, ws: &Workspace, target: &RustcTarget) -> (r: String)
        ensures
            r@ == text::joined(output_line_texts(ws.roots(target@), self@), "\n"@),
    {
        let mut texts: Vec<String> = Vec::new();
        let mut i: usize = 0;
        while i < self.lines.len()
            invariant
                i <= self.lines.len(),
                i == texts.len(),
                forall|j: int|
                    0 <= j < i ==> #[trigger] texts@[j]@ == output_line_text(
                        ws.roots(target@),
                        self.lines@[j]@,
                    ),
            decreases self.lines.len() - i,
        {
            texts.push(self.lines[i].reconstruct(ws, target));
            i += 1;
        }
        assert(text::views(texts@) =~= output_line_texts(ws.roots(target@), self@));
        text::join(&texts, "\n")
    }
}

/// A line of a build script's output is written down as it was read, on the machine
/// where it was read, if the path in it is stable.
pub proof fn law_output_line_round_trips(
    roots: qualified::Roots,
    existing: Set<Seq<char>>,
    line: Seq<char>,
)
    requires
        rerun_path(line) matches Some((_, p)) ==> qualified::is_stable(roots, existing, p),
        parsed_output_line(roots, existing, line) is Some,
    ensures
        output_line_text(roots, parsed_output_line(roots, existing, line)->0) == line,
{
    text::lemma_find(line, '=');
    if let Some((key, value)) = text::split_once_at(line, '=') {
        reveal_strlit("=");
        assert("="@ =~= seq!['=']);
        assert(line =~= key + seq!['='] + value);
    }
}

/// What the strict reading takes, it takes as the lenient one does.
pub proof fn law_strict_reading_agrees(
    roots: qualified::Roots,
    existing: Set<Seq<char>>,
    lines: Seq<Seq<char>>,
)
    ensures
        parsed_lines(roots, existing, lines) matches Ok(parsed) ==> dep_info::parsed_lines(
            roots,
            existing,
            lines,
        ) == Ok::<Seq<dep_info::DepInfoLineView>, int>(parsed),
    decreases lines.len(),
{
    if lines.len() > 0 {
        law_strict_reading_agrees(roots, existing, lines.drop_last());
    }
}

/// A line that tells a build script to run again when a file changes, read strictly on one
/// machine and written on another, is the same line with the root of its path replaced, in
/// both styles. A line whose path is absolute and lies below neither root is refused, and
/// no other line is.
pub proof fn law_strict_lines_move(
    here: qualified::Roots,
    there: qualified::Roots,
    existing: Set<Seq<char>>,
    prefix: Seq<char>,
    p: Seq<char>,
)
    requires
        prefix == "cargo:rerun-if-changed"@ || prefix == "cargo::rerun-if-changed"@,
    ensures
        ({
            let absolute = p.len() > 0 && p[0] == '/';
            let moved = if absolute {
                match (path::below(here.profile, p), path::below(here.cargo_home, p)) {
                    (Some(rel), _) => path::join(there.profile, rel),
                    (None, Some(rel)) => path::join(there.cargo_home, rel),
                    (None, None) => p,
                }
            } else if existing.contains(path::join(here.profile, p)) {
                path::join(there.profile, p)
            } else if existing.contains(path::join(here.cargo_home, p)) {
                path::join(there.cargo_home, p)
            } else {
                p
            };
            let refused = absolute && path::below(here.profile, p) is None && path::below(
                here.cargo_home,
                p,
            ) is None;
            match parsed_output_line(here, existing, prefix + "="@ + p) {
                None => refused,
                Some(line) => !refused && output_line_text(there, line) == prefix + "="@ + moved,
            }
        }),
{
    reveal_strlit("=");
    assert("="@ =~= seq!['=']);
    assert(!prefix.contains('=')) by {
        reveal_strlit("cargo:rerun-if-changed");
        reveal_strlit("cargo::rerun-if-changed");
    }
    assert("cargo:rerun-if-changed"@ != "cargo::rerun-if-changed"@) by {
        reveal_strlit("cargo:rerun-if-changed");
        reveal_strlit("cargo::rerun-if-changed");
    }
    text::law_text_is_parted_at_the_first(prefix, p, '=');
    qualified::law_paths_have_their_roots_replaced(here, there, existing, p);
}

/// A line that begins neither with `cargo:rerun-if-changed=` nor with
/// `cargo::rerun-if-changed=` is kept as it is.
pub proof fn law_other_strict_lines_stay(
    here: qualified::Roots,
    there: qualified::Roots,
    existing: Set<Seq<char>>,
    line: Seq<char>,
)
    requires
        !text::has_prefix(line, "cargo:rerun-if-changed="@),
        !text::has_prefix(line, "cargo::rerun-if-changed="@),
    ensures
        parsed_output_line(here, existing, line) matches Some(read) && output_line_text(
            there,
            read,
        ) == line,
{
    text::lemma_find(line, '=');
    if let Some((key, value)) = text::split_once_at(line, '=') {
        reveal_strlit("cargo:rerun-if-changed");
        reveal_strlit("cargo::rerun-if-changed");
        reveal_strlit("cargo:rerun-if-changed=");
        reveal_strlit("cargo::rerun-if-changed=");
        if key == "cargo:rerun-if-changed"@ {
            assert(line.take(key.len() as int + 1) =~= key.push('='));
            assert(key.push('=') =~= "cargo:rerun-if-changed="@);
        }
        if key == "cargo::rerun-if-changed"@ {
            assert(line.take(key.len() as int + 1) =~= key.push('='));
            assert(key.push('=') =~= "cargo::rerun-if-changed="@);
        }
    }
}

/// A line of a dep-info file is refused by the strict reading exactly where it names a path
/// that is absolute and lies below neither root, or cannot be read at all.
pub proof fn law_strict_reading_needs_roots(
    roots: qualified::Roots,
    existing: Set<Seq<char>>,
    line: Seq<char>,
)
    ensures
        parsed_line(roots, existing, line) == Err::<dep_info::DepInfoLineView, LineError>(
            LineError::NoSeparator,
        ) <==> dep_info::parsed_line(roots, existing, line) is None,
        dep_info::parsed_line(roots, existing, line) is Some ==> (parsed_line(
            roots,
            existing,
            line,
        ) == Err::<dep_info::DepInfoLineView, LineError>(LineError::UnknownRoot) <==> exists|i: int|
            0 <= i < dep_info::line_paths(line).len() && ({
                let p = #[trigger] dep_info::line_paths(line)[i];
                &&& p.len() > 0 && p[0] == '/'
                &&& path::below(roots.profile, p) is None
                &&& path::below(roots.cargo_home, p) is None
            })),
{
    let paths = dep_info::line_paths(line);
    if let Some(dep_info::DepInfoLineView::Build(output, inputs)) = dep_info::parsed_line(
        roots,
        existing,
        line,
    ) {
        let (o, words) = dep_info::named_paths(line)->0;
        assert(paths[0] == o);
        assert forall|i: int| 0 <= i < words.len() implies paths[i + 1] == #[trigger] words[i] by {
        }
        if parsed_line(roots, existing, line) is Err {
            if output is Absolute {
                assert(paths[0] == o);
            } else {
                let i = choose|i: int| 0 <= i < inputs.len() && (#[trigger] inputs[i]) is Absolute;
                assert(paths[i + 1] == words[i]);
            }
        } else {
            assert forall|i: int| 0 <= i < paths.len() implies !({
                let p = #[trigger] paths[i];
                &&& p.len() > 0 && p[0] == '/'
                &&& path::below(roots.profile, p) is None
                &&& path::below(roots.cargo_home, p) is None
            }) by {
                if i > 0 {
                    assert(paths[i] == words[i - 1]);
                    assert(!(inputs[i - 1] is Absolute));
                }
            }
        }
    }
}

/// What is refused of a file is its first line that is, for the reason of that line.
pub proof fn law_first_refused_line_counts(
    roots: qualified::Roots,
    existing: Set<Seq<char>>,
    lines: Seq<Seq<char>>,
)
    ensures
        match parsed_lines(roots, existing, lines) {
            Ok(parsed) => {
                &&& parsed.len() == lines.len()
                &&& forall|i: int|
                    0 <= i < lines.len() ==> parsed_line(roots, existing, #[trigger] lines[i])
                        == Ok::<dep_info::DepInfoLineView, LineError>(parsed[i])
            },
            Err((n, e)) => {
                &&& 0 <= n < lines.len()
                &&& parsed_line(roots, existing, lines[n]) == Err::<
                    dep_info::DepInfoLineView,
                    LineError,
                >(e)
                &&& forall|i: int|
                    0 <= i < n ==> parsed_line(roots, existing, #[trigger] lines[i]) is Ok
            },
        },
    decreases lines.len(),
{
    if lines.len() > 0 {
        let front = lines.drop_last();
        law_first_refused_line_counts(roots, existing, front);
        assert forall|i: int| 0 <= i < front.len() implies lines[i] == #[trigger] front[i] by {
        }
        match parsed_lines(roots, existing, front) {
            Ok(before) => {
                assert forall|i: int| 0 <= i < front.len() implies parsed_line(
                    roots,
                    existing,
                    #[trigger] lines[i],
                ) == Ok::<dep_info::DepInfoLineView, LineError>(before[i]) by {
                    assert(front[i] == lines[i]);
                }
            },
            Err((n, e)) => {
                assert forall|i: int| 0 <= i < n implies parsed_line(
                    roots,
                    existing,
                    #[trigger] lines[i],
                ) is Ok by {
                    assert(front[i] == lines[i]);
                }
            },
        }
    }
}

} // verus!
