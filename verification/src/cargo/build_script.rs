//! What build scripts print, and how it is moved to another machine.
//!
//! A build script talks to Cargo in lines of its output. Lines that hold paths
//! are parsed, so that the paths can be written down for another machine; every
//! other line is kept as it is.

use vstd::prelude::*;
use vstd::string::*;

use crate::cargo::path;
use crate::cargo::path::{Existing, QualifiedPath};
use crate::cargo::rustc::RustcTarget;
use crate::cargo::workspace::Workspace;
use crate::text;

verus! {

/// The two ways to write a directive. A build script may mix them.
#[derive(Debug, Clone, Copy, PartialEq, Eq, PartialOrd, Ord, Hash, Structural)]
pub enum BuildScriptOutputLineStyle {
    /// `cargo:directive=value`.
    Old,
    /// `cargo::directive=value`.
    Current,
}

/// The prefix of a style.
pub open spec fn style_text(style: BuildScriptOutputLineStyle) -> Seq<char> {
    match style {
        BuildScriptOutputLineStyle::Old => "cargo:"@,
        BuildScriptOutputLineStyle::Current => "cargo::"@,
    }
}

/// The style of a line, and what follows its prefix.
pub open spec fn styled(line: Seq<char>) -> Option<(BuildScriptOutputLineStyle, Seq<char>)> {
    if text::has_prefix(line, "cargo::"@) {
        Some((BuildScriptOutputLineStyle::Current, line.skip("cargo::"@.len() as int)))
    } else if text::has_prefix(line, "cargo:"@) {
        Some((BuildScriptOutputLineStyle::Old, line.skip("cargo:"@.len() as int)))
    } else {
        None
    }
}

/// Text that begins with no known prefix, or is none.
#[derive(Debug, Clone, Copy, PartialEq, Eq, Structural)]
pub struct UnknownStyle;

impl BuildScriptOutputLineStyle {
    /// The prefix of the style.
    pub fn as_str(&self) -> (r: &'static str)
        ensures
            r@ == style_text(*self),
    {
        match self {
            BuildScriptOutputLineStyle::Old => "cargo:",
            BuildScriptOutputLineStyle::Current => "cargo::",
        }
    }

    /// The style of a line, and what follows its prefix.
    pub fn parse_line(line: &str) -> (r: Result<(Self, String), UnknownStyle>)
        ensures
            match r {
                Ok(p) => styled(line@) == Some((p.0, p.1@)),
                Err(_) => styled(line@) is None,
            },
    {
        if let Some(rest) = text::strip_prefix(line, "cargo::") {
            Ok((BuildScriptOutputLineStyle::Current, rest))
        } else if let Some(rest) = text::strip_prefix(line, "cargo:") {
            Ok((BuildScriptOutputLineStyle::Old, rest))
        } else {
            Err(UnknownStyle)
        }
    }

    /// The style that has exactly the given prefix.
    pub fn from_str(s: &str) -> (r: Result<Self, UnknownStyle>)
        ensures
            match r {
                Ok(style) => s@ == style_text(style),
                Err(_) => s@ != "cargo:"@ && s@ != "cargo::"@,
            },
    {
        if text::same(s, "cargo:") {
            Ok(BuildScriptOutputLineStyle::Old)
        } else if text::same(s, "cargo::") {
            Ok(BuildScriptOutputLineStyle::Current)
        } else {
            Err(UnknownStyle)
        }
    }
}

/// A line that a build script printed.
#[derive(Debug)]
pub enum BuildScriptOutputLine {
    /// `cargo::rerun-if-changed=PATH`
    RerunIfChanged(BuildScriptOutputLineStyle, QualifiedPath),
    /// `cargo::rerun-if-env-changed=VAR`
    RerunIfEnvChanged(BuildScriptOutputLineStyle, String),
    /// `cargo::rustc-link-arg=FLAG`
    RustcLinkArg(BuildScriptOutputLineStyle, String),
    /// `cargo::rustc-link-lib=LIB`
    RustcLinkLib(BuildScriptOutputLineStyle, String),
    /// `cargo::rustc-link-search=[KIND=]PATH`
    RustcLinkSearch { style: BuildScriptOutputLineStyle, kind: Option<String>, path: QualifiedPath },
    /// `cargo::rustc-flags=FLAGS`
    RustcFlags(BuildScriptOutputLineStyle, String),
    /// `cargo::rustc-cfg=KEY[="VALUE"]`
    RustcCfg { style: BuildScriptOutputLineStyle, key: String, value: Option<String> },
    /// `cargo::rustc-check-cfg=CHECK_CFG`
    RustcCheckCfg(BuildScriptOutputLineStyle, String),
    /// `cargo::rustc-env=VAR=VALUE`
    RustcEnv { style: BuildScriptOutputLineStyle, var: String, value: String },
    /// `cargo::error=MESSAGE`
    Error(BuildScriptOutputLineStyle, String),
    /// `cargo::warning=MESSAGE`
    Warning(BuildScriptOutputLineStyle, String),
    /// `cargo::metadata=KEY=VALUE`
    Metadata { style: BuildScriptOutputLineStyle, key: String, value: String },
    /// Any other line, kept as it is.
    Other(String),
}

/// A [`BuildScriptOutputLine`] in terms of characters.
pub enum BuildScriptOutputLineView {
    RerunIfChanged(BuildScriptOutputLineStyle, path::QualifiedPathView),
    RerunIfEnvChanged(BuildScriptOutputLineStyle, Seq<char>),
    RustcLinkArg(BuildScriptOutputLineStyle, Seq<char>),
    RustcLinkLib(BuildScriptOutputLineStyle, Seq<char>),
    RustcLinkSearch {
        style: BuildScriptOutputLineStyle,
        kind: Option<Seq<char>>,
        path: path::QualifiedPathView,
    },
    RustcFlags(BuildScriptOutputLineStyle, Seq<char>),
    RustcCfg { style: BuildScriptOutputLineStyle, key: Seq<char>, value: Option<Seq<char>> },
    RustcCheckCfg(BuildScriptOutputLineStyle, Seq<char>),
    RustcEnv { style: BuildScriptOutputLineStyle, var: Seq<char>, value: Seq<char> },
    Error(BuildScriptOutputLineStyle, Seq<char>),
    Warning(BuildScriptOutputLineStyle, Seq<char>),
    Metadata { style: BuildScriptOutputLineStyle, key: Seq<char>, value: Seq<char> },
    Other(Seq<char>),
}

impl View for BuildScriptOutputLine {
    type V = BuildScriptOutputLineView;

    open spec fn view(&self) -> BuildScriptOutputLineView {
        match self {
            BuildScriptOutputLine::RerunIfChanged(s, p) => {
                BuildScriptOutputLineView::RerunIfChanged(*s, p@)
            },
            BuildScriptOutputLine::RerunIfEnvChanged(s, v) => {
                BuildScriptOutputLineView::RerunIfEnvChanged(*s, v@)
            },
            BuildScriptOutputLine::RustcLinkArg(s, v) => {
                BuildScriptOutputLineView::RustcLinkArg(*s, v@)
            },
            BuildScriptOutputLine::RustcLinkLib(s, v) => {
                BuildScriptOutputLineView::RustcLinkLib(*s, v@)
            },
            BuildScriptOutputLine::RustcLinkSearch { style, kind, path } => {
                BuildScriptOutputLineView::RustcLinkSearch {
                    style: *style,
                    kind: match kind {
                        Some(k) => Some(k@),
                        None => None,
                    },
                    path: path@,
                }
            },
            BuildScriptOutputLine::RustcFlags(s, v) => BuildScriptOutputLineView::RustcFlags(
                *s,
                v@,
            ),
            BuildScriptOutputLine::RustcCfg { style, key, value } => {
                BuildScriptOutputLineView::RustcCfg {
                    style: *style,
                    key: key@,
                    value: match value {
                        Some(v) => Some(v@),
                        None => None,
                    },
                }
            },
            BuildScriptOutputLine::RustcCheckCfg(s, v) => {
                BuildScriptOutputLineView::RustcCheckCfg(*s, v@)
            },
            BuildScriptOutputLine::RustcEnv { style, var, value } => {
                BuildScriptOutputLineView::RustcEnv { style: *style, var: var@, value: value@ }
            },
            BuildScriptOutputLine::Error(s, v) => BuildScriptOutputLineView::Error(*s, v@),
            BuildScriptOutputLine::Warning(s, v) => BuildScriptOutputLineView::Warning(*s, v@),
            BuildScriptOutputLine::Metadata { style, key, value } => {
                BuildScriptOutputLineView::Metadata { style: *style, key: key@, value: value@ }
            },
            BuildScriptOutputLine::Other(v) => BuildScriptOutputLineView::Other(v@),
        }
    }
}

/// The style, the key and the value of a directive.
pub open spec fn directive(line: Seq<char>) -> Option<
    (BuildScriptOutputLineStyle, Seq<char>, Seq<char>),
> {
    match styled(line) {
        Some((style, rest)) => match text::split_once_at(rest, '=') {
            Some((key, value)) => Some((style, key, value)),
            None => None,
        },
        None => None,
    }
}

/// What a line says.
pub open spec fn parsed_line(
    roots: path::Roots,
    existing: Set<Seq<char>>,
    line: Seq<char>,
) -> BuildScriptOutputLineView {
    match directive(line) {
        None => BuildScriptOutputLineView::Other(line),
        Some((style, key, value)) => {
            if key == "rerun-if-changed"@ {
                BuildScriptOutputLineView::RerunIfChanged(
                    style,
                    path::qualify(roots, existing, value),
                )
            } else if key == "rerun-if-env-changed"@ {
                BuildScriptOutputLineView::RerunIfEnvChanged(style, value)
            } else if key == "rustc-link-arg"@ {
                BuildScriptOutputLineView::RustcLinkArg(style, value)
            } else if key == "rustc-link-lib"@ {
                BuildScriptOutputLineView::RustcLinkLib(style, value)
            } else if key == "rustc-link-search"@ {
                match text::split_once_at(value, '=') {
                    Some((kind, p)) => BuildScriptOutputLineView::RustcLinkSearch {
                        style,
                        kind: Some(kind),
                        path: path::qualify(roots, existing, p),
                    },
                    None => BuildScriptOutputLineView::RustcLinkSearch {
                        style,
                        kind: None,
                        path: path::qualify(roots, existing, value),
                    },
                }
            } else if key == "rustc-flags"@ {
                BuildScriptOutputLineView::RustcFlags(style, value)
            } else if key == "rustc-cfg"@ {
                match text::split_once_at(value, '=') {
                    Some((k, v)) => BuildScriptOutputLineView::RustcCfg {
                        style,
                        key: k,
                        value: Some(v),
                    },
                    None => BuildScriptOutputLineView::RustcCfg { style, key: value, value: None },
                }
            } else if key == "rustc-check-cfg"@ {
                BuildScriptOutputLineView::RustcCheckCfg(style, value)
            } else if key == "rustc-env"@ {
                match text::split_once_at(value, '=') {
                    Some((var, v)) => BuildScriptOutputLineView::RustcEnv { style, var, value: v },
                    None => BuildScriptOutputLineView::Other(line),
                }
            } else if key == "error"@ {
                BuildScriptOutputLineView::Error(style, value)
            } else if key == "warning"@ {
                BuildScriptOutputLineView::Warning(style, value)
            } else if key == "metadata"@ {
                match text::split_once_at(value, '=') {
                    Some((k, v)) => BuildScriptOutputLineView::Metadata { style, key: k, value: v },
                    None => BuildScriptOutputLineView::Other(line),
                }
            } else {
                BuildScriptOutputLineView::Other(line)
            }
        },
    }
}

/// A directive as text.
pub open spec fn directive_text(
    style: BuildScriptOutputLineStyle,
    key: Seq<char>,
    value: Seq<char>,
) -> Seq<char> {
    style_text(style) + key + "="@ + value
}

/// A line as text, with its paths written down for the given roots.
pub open spec fn line_text(roots: path::Roots, line: BuildScriptOutputLineView) -> Seq<char> {
    match line {
        BuildScriptOutputLineView::RerunIfChanged(style, p) => directive_text(
            style,
            "rerun-if-changed"@,
            path::placed(roots, p),
        ),
        BuildScriptOutputLineView::RerunIfEnvChanged(style, v) => directive_text(
            style,
            "rerun-if-env-changed"@,
            v,
        ),
        BuildScriptOutputLineView::RustcLinkArg(style, v) => directive_text(
            style,
            "rustc-link-arg"@,
            v,
        ),
        BuildScriptOutputLineView::RustcLinkLib(style, v) => directive_text(
            style,
            "rustc-link-lib"@,
            v,
        ),
        BuildScriptOutputLineView::RustcLinkSearch { style, kind: Some(k), path: p } => {
            directive_text(style, "rustc-link-search"@, k + "="@ + path::placed(roots, p))
        },
        BuildScriptOutputLineView::RustcLinkSearch { style, kind: None, path: p } => {
            directive_text(style, "rustc-link-search"@, path::placed(roots, p))
        },
        BuildScriptOutputLineView::RustcFlags(style, v) => directive_text(
            style,
            "rustc-flags"@,
            v,
        ),
        BuildScriptOutputLineView::RustcCfg { style, key, value: Some(v) } => directive_text(
            style,
            "rustc-cfg"@,
            key + "="@ + v,
        ),
        BuildScriptOutputLineView::RustcCfg { style, key, value: None } => directive_text(
            style,
            "rustc-cfg"@,
            key,
        ),
        BuildScriptOutputLineView::RustcCheckCfg(style, v) => directive_text(
            style,
            "rustc-check-cfg"@,
            v,
        ),
        BuildScriptOutputLineView::RustcEnv { style, var, value } => directive_text(
            style,
            "rustc-env"@,
            var + "="@ + value,
        ),
        BuildScriptOutputLineView::Error(style, v) => directive_text(style, "error"@, v),
        BuildScriptOutputLineView::Warning(style, v) => directive_text(style, "warning"@, v),
        BuildScriptOutputLineView::Metadata { style, key, value } => directive_text(
            style,
            "metadata"@,
            key + "="@ + value,
        ),
        BuildScriptOutputLineView::Other(v) => v,
    }
}

fn directive_string(style: BuildScriptOutputLineStyle, key: &str, value: &str) -> (r: String)
    ensures
        r@ == directive_text(style, key@, value@),
{
    text::concat4(style.as_str(), key, "=", value)
}

fn pair_string(key: &str, value: &str) -> (r: String)
    ensures
        r@ == key@ + "="@ + value@,
{
    text::concat3(key, "=", value)
}

impl BuildScriptOutputLine {
    /// Parses a line. Whatever is no directive that is known, and complete, is kept
    /// as it is.
    pub fn parse(ws: &Workspace, target: &RustcTarget, existing: &Existing, line: &str) -> (r: Self)
        ensures
            r@ == parsed_line(ws.roots(target@), existing@, line@),
    {
        match Self::parse_inner(ws, target, existing, line) {
            Some(parsed) => parsed,
            None => BuildScriptOutputLine::Other(text::copy(line)),
        }
    }

    fn parse_inner(
        ws: &Workspace,
        target: &RustcTarget,
        existing: &Existing,
        line: &str,
    ) -> (r: Option<Self>)
        ensures
            match r {
                Some(l) => l@ == parsed_line(ws.roots(target@), existing@, line@),
                None => parsed_line(ws.roots(target@), existing@, line@)
                    == BuildScriptOutputLineView::Other(line@),
            },
    {
        let (style, rest) = match BuildScriptOutputLineStyle::parse_line(line) {
            Ok(p) => p,
            Err(_) => {
                return None;
            },
        };
        let (key, value) = match text::split_once(rest.as_str(), '=') {
            Some(p) => p,
            None => {
                return None;
            },
        };
        let k: &str = key.as_str();
        if text::same(k, "rerun-if-changed") {
            let p = QualifiedPath::parse(ws, target, existing, value.as_str());
            Some(BuildScriptOutputLine::RerunIfChanged(style, p))
        } else if text::same(k, "rerun-if-env-changed") {
            Some(BuildScriptOutputLine::RerunIfEnvChanged(style, value))
        } else if text::same(k, "rustc-link-arg") {
            Some(BuildScriptOutputLine::RustcLinkArg(style, value))
        } else if text::same(k, "rustc-link-lib") {
            Some(BuildScriptOutputLine::RustcLinkLib(style, value))
        } else if text::same(k, "rustc-link-search") {
            match text::split_once(value.as_str(), '=') {
                Some((kind, p)) => Some(
                    BuildScriptOutputLine::RustcLinkSearch {
                        style,
                        kind: Some(kind),
                        path: QualifiedPath::parse(ws, target, existing, p.as_str()),
                    },
                ),
                None => Some(
                    BuildScriptOutputLine::RustcLinkSearch {
                        style,
                        kind: None,
                        path: QualifiedPath::parse(ws, target, existing, value.as_str()),
                    },
                ),
            }
        } else if text::same(k, "rustc-flags") {
            Some(BuildScriptOutputLine::RustcFlags(style, value))
        } else if text::same(k, "rustc-cfg") {
            match text::split_once(value.as_str(), '=') {
                Some((key, v)) => Some(
                    BuildScriptOutputLine::RustcCfg { style, key, value: Some(v) },
                ),
                None => Some(BuildScriptOutputLine::RustcCfg { style, key: value, value: None }),
            }
        } else if text::same(k, "rustc-check-cfg") {
            Some(BuildScriptOutputLine::RustcCheckCfg(style, value))
        } else if text::same(k, "rustc-env") {
            match text::split_once(value.as_str(), '=') {
                Some((var, v)) => Some(BuildScriptOutputLine::RustcEnv { style, var, value: v }),
                None => None,
            }
        } else if text::same(k, "error") {
            Some(BuildScriptOutputLine::Error(style, value))
        } else if text::same(k, "warning") {
            Some(BuildScriptOutputLine::Warning(style, value))
        } else if text::same(k, "metadata") {
            match text::split_once(value.as_str(), '=') {
                Some((key, v)) => Some(BuildScriptOutputLine::Metadata { style, key, value: v }),
                None => None,
            }
        } else {
            None
        }
    }

    /// The line as text, with its paths written down for this machine.
    pub fn reconstruct(&self, ws: &Workspace, target: &RustcTarget) -> (r: String)
        ensures
            r@ == line_text(ws.roots(target@), self@),
    {
        match self {
            BuildScriptOutputLine::RerunIfChanged(style, p) => {
                let place = p.reconstruct_string(ws, target);
                directive_string(*style, "rerun-if-changed", place.as_str())
            },
            BuildScriptOutputLine::RerunIfEnvChanged(style, var) => {
                directive_string(*style, "rerun-if-env-changed", var.as_str())
            },
            BuildScriptOutputLine::RustcLinkArg(style, flag) => {
                directive_string(*style, "rustc-link-arg", flag.as_str())
            },
            BuildScriptOutputLine::RustcLinkLib(style, lib) => {
                directive_string(*style, "rustc-link-lib", lib.as_str())
            },
            BuildScriptOutputLine::RustcLinkSearch { style, kind, path } => {
                let place = path.reconstruct_string(ws, target);
                match kind {
                    Some(kind) => {
                        let value = pair_string(kind.as_str(), place.as_str());
                        directive_string(*style, "rustc-link-search", value.as_str())
                    },
                    None => directive_string(*style, "rustc-link-search", place.as_str()),
                }
            },
            BuildScriptOutputLine::RustcFlags(style, flags) => {
                directive_string(*style, "rustc-flags", flags.as_str())
            },
            BuildScriptOutputLine::RustcCfg { style, key, value } => match value {
                None => directive_string(*style, "rustc-cfg", key.as_str()),
                Some(value) => {
                    let value = pair_string(key.as_str(), value.as_str());
                    directive_string(*style, "rustc-cfg", value.as_str())
                },
            },
            BuildScriptOutputLine::RustcCheckCfg(style, check_cfg) => {
                directive_string(*style, "rustc-check-cfg", check_cfg.as_str())
            },
            BuildScriptOutputLine::RustcEnv { style, var, value } => {
                let value = pair_string(var.as_str(), value.as_str());
                directive_string(*style, "rustc-env", value.as_str())
            },
            BuildScriptOutputLine::Error(style, msg) => {
                directive_string(*style, "error", msg.as_str())
            },
            BuildScriptOutputLine::Warning(style, msg) => {
                directive_string(*style, "warning", msg.as_str())
            },
            BuildScriptOutputLine::Metadata { style, key, value } => {
                let value = pair_string(key.as_str(), value.as_str());
                directive_string(*style, "metadata", value.as_str())
            },
            BuildScriptOutputLine::Other(s) => text::copy(s.as_str()),
        }
    }

    /// The path in a line that has one, as it is written there.
    pub fn path_text(line: &str) -> (r: Option<String>)
        ensures
            match r {
                Some(p) => line_path(line@) == Some(p@),
                None => line_path(line@) is None,
            },
    {
        let (_, rest) = match BuildScriptOutputLineStyle::parse_line(line) {
            Ok(p) => p,
            Err(_) => {
                return None;
            },
        };
        match text::split_once(rest.as_str(), '=') {
            None => None,
            Some((key, value)) => {
                if text::same(key.as_str(), "rerun-if-changed") {
                    Some(value)
                } else if text::same(key.as_str(), "rustc-link-search") {
                    match text::split_once(value.as_str(), '=') {
                        Some((_, p)) => Some(p),
                        None => Some(value),
                    }
                } else {
                    None
                }
            },
        }
    }
}

/// The path in a line that has one.
pub open spec fn line_path(line: Seq<char>) -> Option<Seq<char>> {
    match directive(line) {
        None => None,
        Some((style, key, value)) => {
            if key == "rerun-if-changed"@ {
                Some(value)
            } else if key == "rustc-link-search"@ {
                match text::split_once_at(value, '=') {
                    Some((kind, p)) => Some(p),
                    None => Some(value),
                }
            } else {
                None
            }
        },
    }
}

/// Whether the path in a line, where it has one, is stable.
pub open spec fn line_is_stable(
    roots: path::Roots,
    existing: Set<Seq<char>>,
    line: Seq<char>,
) -> bool {
    line_path(line) matches Some(p) ==> path::is_stable(roots, existing, p)
}

proof fn lemma_split_once(s: Seq<char>, c: char)
    ensures
        text::split_once_at(s, c) matches Some((a, b)) ==> s == a + seq![c] + b,
{
    text::lemma_find(s, c);
    if let Some((a, b)) = text::split_once_at(s, c) {
        assert(s =~= a + seq![c] + b);
    }
}

proof fn lemma_directive(line: Seq<char>)
    ensures
        directive(line) matches Some((style, key, value)) ==> line == directive_text(
            style,
            key,
            value,
        ),
{
    reveal_strlit("=");
    assert("="@ =~= seq!['=']);
    if let Some((style, rest)) = styled(line) {
        assert(line =~= style_text(style) + rest) by {
            let n = style_text(style).len();
            assert(line.take(n as int) + line.skip(n as int) =~= line);
        }
        lemma_split_once(rest, '=');
        if let Some((key, value)) = text::split_once_at(rest, '=') {
            assert(style_text(style) + (key + seq!['='] + value) =~= style_text(style) + key
                + seq!['='] + value);
        }
    }
}

/// A line is written down as it was read, on the machine where it was read, if
/// the path in it is stable. A line without a path always is.
pub proof fn law_line_round_trips(roots: path::Roots, existing: Set<Seq<char>>, line: Seq<char>)
    requires
        line_is_stable(roots, existing, line),
    ensures
        line_text(roots, parsed_line(roots, existing, line)) == line,
{
    lemma_directive(line);
    reveal_strlit("=");
    assert("="@ =~= seq!['=']);
    if let Some((style, key, value)) = directive(line) {
        lemma_split_once(value, '=');
    }
}

/// A line that names no path is the same on every machine.
pub proof fn law_line_without_path_stays(
    here: path::Roots,
    there: path::Roots,
    existing: Set<Seq<char>>,
    line: Seq<char>,
)
    requires
        line_path(line) is None,
    ensures
        line_text(there, parsed_line(here, existing, line)) == line,
{
    lemma_directive(line);
    reveal_strlit("=");
    assert("="@ =~= seq!['=']);
    if let Some((style, key, value)) = directive(line) {
        lemma_split_once(value, '=');
    }
}

/// Each style is found by its own prefix, and by no other.
pub proof fn law_style_prefixes(style: BuildScriptOutputLineStyle, rest: Seq<char>)
    requires
        style is Old ==> (rest.len() == 0 || rest[0] != ':'),
    ensures
        styled(style_text(style) + rest) == Some((style, rest)),
{
    reveal_strlit("cargo:");
    reveal_strlit("cargo::");
    let line = style_text(style) + rest;
    let n = style_text(style).len() as int;
    assert(line.take(n) =~= style_text(style));
    assert(line.skip(n) =~= rest);
    if style is Old && text::has_prefix(line, "cargo::"@) {
        assert(line.take("cargo::"@.len() as int)[6] == line[6]);
        assert(line[6] == rest[0]);
    }
}

/// A directive that is written with one of the two prefixes is found again.
proof fn lemma_written_directive(style: BuildScriptOutputLineStyle, key: Seq<char>, value: Seq<char>)
    requires
        !key.contains('='),
        key.len() > 0,
        key[0] != ':',
    ensures
        directive(style_text(style) + key + "="@ + value) == Some((style, key, value)),
{
    reveal_strlit("=");
    let rest = key + "="@ + value;
    assert(style_text(style) + key + "="@ + value =~= style_text(style) + rest);
    assert(rest[0] == key[0]);
    law_style_prefixes(style, rest);
    assert forall|j: int| 0 <= j < key.len() implies rest[j] != '=' by {
        assert(rest[j] == key[j]);
        assert(key.contains(key[j]));
    }
    text::lemma_find_is(rest, '=', key.len() as int);
    assert(rest.take(key.len() as int) =~= key);
    assert(rest.skip(key.len() as int + 1) =~= value);
}

/// Text with `=` in it is parted at the first one, and text without it is not parted.
proof fn lemma_written_pair(a: Seq<char>, b: Seq<char>)
    requires
        !a.contains('='),
    ensures
        text::split_once_at(a + "="@ + b, '=') == Some((a, b)),
        text::split_once_at(a, '=') is None,
{
    reveal_strlit("=");
    let s = a + "="@ + b;
    assert forall|j: int| 0 <= j < a.len() implies s[j] != '=' && a[j] != '=' by {
        assert(s[j] == a[j]);
        assert(a.contains(a[j]));
    }
    text::lemma_find_is(s, '=', a.len() as int);
    text::lemma_find_is(a, '=', a.len() as int);
    assert(s.take(a.len() as int) =~= a);
    assert(s.skip(a.len() as int + 1) =~= b);
}

proof fn lemma_changed_path_line(
    roots: path::Roots,
    existing: Set<Seq<char>>,
    style: BuildScriptOutputLineStyle,
    p: Seq<char>,
)
    ensures
        ({
            let line = style_text(style) + "rerun-if-changed"@ + "="@ + p;
            &&& parsed_line(roots, existing, line) == BuildScriptOutputLineView::RerunIfChanged(
                style,
                path::qualify(roots, existing, p),
            )
            &&& line_path(line) == Some(p)
        }),
{
    assert(!"rerun-if-changed"@.contains('=') && "rerun-if-changed"@.len() > 0
        && "rerun-if-changed"@[0] != ':') by {
        reveal_strlit("rerun-if-changed");
    }
    lemma_written_directive(style, "rerun-if-changed"@, p);
}

proof fn lemma_searched_path_line(
    roots: path::Roots,
    existing: Set<Seq<char>>,
    style: BuildScriptOutputLineStyle,
    value: Seq<char>,
)
    ensures
        ({
            let line = style_text(style) + "rustc-link-search"@ + "="@ + value;
            match text::split_once_at(value, '=') {
                Some((kind, p)) => {
                    &&& parsed_line(roots, existing, line) == (
                    BuildScriptOutputLineView::RustcLinkSearch {
                        style,
                        kind: Some(kind),
                        path: path::qualify(roots, existing, p),
                    })
                    &&& line_path(line) == Some(p)
                },
                None => {
                    &&& parsed_line(roots, existing, line) == (
                    BuildScriptOutputLineView::RustcLinkSearch {
                        style,
                        kind: None,
                        path: path::qualify(roots, existing, value),
                    })
                    &&& line_path(line) == Some(value)
                },
            }
        }),
{
    let key = "rustc-link-search"@;
    assert(!key.contains('=') && key[0] != ':' && key.len() == 17) by {
        reveal_strlit("rustc-link-search");
    }
    assert(key != "rerun-if-changed"@ && key != "rerun-if-env-changed"@ && key != "rustc-link-arg"@
        && key != "rustc-link-lib"@) by {
        reveal_strlit("rerun-if-changed");
        reveal_strlit("rerun-if-env-changed");
        reveal_strlit("rustc-link-arg");
        reveal_strlit("rustc-link-lib");
    }
    lemma_written_directive(style, key, value);
}

/// A line that names a path, read on one machine and written on another, is the same line
/// with the root of its path replaced: an absolute path below the profile directory of
/// the one machine lies below that of the other, and likewise for `$CARGO_HOME`. So does a
/// relative path that is found below one of the two. Any other path stays. This holds for
/// `rerun-if-changed`, and for `rustc-link-search` with and without a kind, in both
/// styles.
pub proof fn law_lines_with_paths_move(
    here: path::Roots,
    there: path::Roots,
    existing: Set<Seq<char>>,
    prefix: Seq<char>,
    kind: Seq<char>,
    p: Seq<char>,
)
    requires
        prefix == "cargo:"@ || prefix == "cargo::"@,
        !kind.contains('='),
    ensures
        ({
            let moved = if p.len() > 0 && p[0] == '/' {
                match (
                    crate::path::below(here.profile, p),
                    crate::path::below(here.cargo_home, p),
                ) {
                    (Some(rel), _) => crate::path::join(there.profile, rel),
                    (None, Some(rel)) => crate::path::join(there.cargo_home, rel),
                    (None, None) => p,
                }
            } else if existing.contains(crate::path::join(here.profile, p)) {
                crate::path::join(there.profile, p)
            } else if existing.contains(crate::path::join(here.cargo_home, p)) {
                crate::path::join(there.cargo_home, p)
            } else {
                p
            };
            &&& line_text(
                there,
                parsed_line(here, existing, prefix + "rerun-if-changed"@ + "="@ + p),
            ) == prefix + "rerun-if-changed"@ + "="@ + moved
            &&& !p.contains('=') ==> line_text(
                there,
                parsed_line(here, existing, prefix + "rustc-link-search"@ + "="@ + p),
            ) == prefix + "rustc-link-search"@ + "="@ + moved
            &&& line_text(
                there,
                parsed_line(
                    here,
                    existing,
                    prefix + "rustc-link-search"@ + "="@ + (kind + "="@ + p),
                ),
            ) == prefix + "rustc-link-search"@ + "="@ + (kind + "="@ + moved)
            &&& line_path(prefix + "rerun-if-changed"@ + "="@ + p) == Some(p)
            &&& !p.contains('=') ==> line_path(prefix + "rustc-link-search"@ + "="@ + p) == Some(p)
            &&& line_path(prefix + "rustc-link-search"@ + "="@ + (kind + "="@ + p)) == Some(p)
        }),
{
    let style = if prefix == "cargo:"@ {
        BuildScriptOutputLineStyle::Old
    } else {
        BuildScriptOutputLineStyle::Current
    };
    path::law_paths_have_their_roots_replaced(here, there, existing, p);
    lemma_changed_path_line(here, existing, style, p);
    lemma_searched_path_line(here, existing, style, p);
    lemma_searched_path_line(here, existing, style, kind + "="@ + p);
    lemma_written_pair(kind, p);
    if !p.contains('=') {
        lemma_written_pair(p, p);
    }
}

/// Each directive is told by its name, in both styles, and keeps its value: one that takes
/// two values is parted at the first `=`.
pub proof fn law_directives_are_told_by_their_names(
    roots: path::Roots,
    existing: Set<Seq<char>>,
    prefix: Seq<char>,
    name: Seq<char>,
    first: Seq<char>,
    second: Seq<char>,
)
    requires
        prefix == "cargo:"@ || prefix == "cargo::"@,
        !first.contains('='),
    ensures
        ({
            let style = if prefix == "cargo:"@ {
                BuildScriptOutputLineStyle::Old
            } else {
                BuildScriptOutputLineStyle::Current
            };
            let one = parsed_line(roots, existing, prefix + name + "="@ + first);
            let both = first + "="@ + second;
            let two = parsed_line(roots, existing, prefix + name + "="@ + both);
            &&& name == "rerun-if-env-changed"@ ==> one
                == BuildScriptOutputLineView::RerunIfEnvChanged(style, first) && two
                == BuildScriptOutputLineView::RerunIfEnvChanged(style, both)
            &&& name == "rustc-link-arg"@ ==> one == BuildScriptOutputLineView::RustcLinkArg(
                style,
                first,
            ) && two == BuildScriptOutputLineView::RustcLinkArg(style, both)
            &&& name == "rustc-link-lib"@ ==> one == BuildScriptOutputLineView::RustcLinkLib(
                style,
                first,
            ) && two == BuildScriptOutputLineView::RustcLinkLib(style, both)
            &&& name == "rustc-flags"@ ==> one == BuildScriptOutputLineView::RustcFlags(
                style,
                first,
            ) && two == BuildScriptOutputLineView::RustcFlags(style, both)
            &&& name == "rustc-cfg"@ ==> one == (BuildScriptOutputLineView::RustcCfg {
                style,
                key: first,
                value: None,
            }) && two == (BuildScriptOutputLineView::RustcCfg {
                style,
                key: first,
                value: Some(second),
            })
            &&& name == "rustc-check-cfg"@ ==> one == BuildScriptOutputLineView::RustcCheckCfg(
                style,
                first,
            ) && two == BuildScriptOutputLineView::RustcCheckCfg(style, both)
            &&& name == "rustc-env"@ ==> one is Other && two == (
            BuildScriptOutputLineView::RustcEnv { style, var: first, value: second })
            &&& name == "error"@ ==> one == BuildScriptOutputLineView::Error(style, first) && two
                == BuildScriptOutputLineView::Error(style, both)
            &&& name == "warning"@ ==> one == BuildScriptOutputLineView::Warning(style, first)
                && two == BuildScriptOutputLineView::Warning(style, both)
            &&& name == "metadata"@ ==> one is Other && two == (
            BuildScriptOutputLineView::Metadata { style, key: first, value: second })
            &&& name == "rerun-if-changed"@ ==> one is RerunIfChanged && two is RerunIfChanged
            &&& name == "rustc-link-search"@ ==> {
                &&& one matches BuildScriptOutputLineView::RustcLinkSearch { kind: None, .. }
                &&& two matches BuildScriptOutputLineView::RustcLinkSearch { kind: Some(k), .. }
                    && k == first
            }
        }),
{
    reveal_strlit("rerun-if-changed");
    reveal_strlit("rerun-if-env-changed");
    reveal_strlit("rustc-link-arg");
    reveal_strlit("rustc-link-lib");
    reveal_strlit("rustc-link-search");
    reveal_strlit("rustc-flags");
    reveal_strlit("rustc-cfg");
    reveal_strlit("rustc-check-cfg");
    reveal_strlit("rustc-env");
    reveal_strlit("error");
    reveal_strlit("warning");
    reveal_strlit("metadata");
    assert("rustc-link-arg"@[11] != "rustc-link-lib"@[11]);
    assert("rustc-cfg"@[6] != "rustc-env"@[6]);
    assert("rustc-check-cfg"@[6] != "rustc-link-search"@[6]);
    let style = if prefix == "cargo:"@ {
        BuildScriptOutputLineStyle::Old
    } else {
        BuildScriptOutputLineStyle::Current
    };
    let both = first + "="@ + second;
    if name == "rerun-if-env-changed"@ || name == "rustc-link-arg"@ || name == "rustc-link-lib"@
        || name == "rustc-flags"@ || name == "rustc-cfg"@ || name == "rustc-check-cfg"@ || name
        == "rustc-env"@ || name == "error"@ || name == "warning"@ || name == "metadata"@ || name
        == "rerun-if-changed"@ || name == "rustc-link-search"@ {
        assert(!name.contains('=') && name.len() > 0 && name[0] != ':');
        lemma_written_directive(style, name, first);
        lemma_written_directive(style, name, both);
        lemma_written_pair(first, second);
    }
}

/// The output of a build script.
#[derive(Debug)]
pub struct BuildScriptOutput {
    pub lines: Vec<BuildScriptOutputLine>,
}

/// The views of a sequence of lines.
pub open spec fn line_views(v: Seq<BuildScriptOutputLine>) -> Seq<BuildScriptOutputLineView> {
    Seq::new(v.len(), |i: int| v[i]@)
}

impl View for BuildScriptOutput {
    type V = Seq<BuildScriptOutputLineView>;

    open spec fn view(&self) -> Seq<BuildScriptOutputLineView> {
        line_views(self.lines@)
    }
}

/// What each line of some output says.
pub open spec fn parsed_output(
    roots: path::Roots,
    existing: Set<Seq<char>>,
    content: Seq<char>,
) -> Seq<BuildScriptOutputLineView> {
    let lines = text::lines_of(content);
    Seq::new(lines.len(), |i: int| parsed_line(roots, existing, lines[i]))
}

/// The text of each line.
pub open spec fn line_texts(
    roots: path::Roots,
    lines: Seq<BuildScriptOutputLineView>,
) -> Seq<Seq<char>> {
    Seq::new(lines.len(), |i: int| line_text(roots, lines[i]))
}

/// The lines as text, with newlines between them.
pub open spec fn output_text(
    roots: path::Roots,
    lines: Seq<BuildScriptOutputLineView>,
) -> Seq<char> {
    text::joined(line_texts(roots, lines), seq!['\n'])
}

impl BuildScriptOutput {
    /// Parses the output of a build script.
    pub fn parse(
        ws: &Workspace,
        target: &RustcTarget,
        existing: &Existing,
        content: &str,
    ) -> (r: Self)
        ensures
            r@ == parsed_output(ws.roots(target@), existing@, content@),
    {
        let texts: Vec<String> = text::lines(content);
        let ghost all = text::lines_of(content@);
        let mut lines: Vec<BuildScriptOutputLine> = Vec::new();
        let mut i: usize = 0;
        while i < texts.len()
            invariant
                i <= texts.len(),
                i == lines.len(),
                all == text::views(texts@),
                forall|j: int|
                    0 <= j < i ==> #[trigger] lines@[j]@ == parsed_line(
                        ws.roots(target@),
                        existing@,
                        all[j],
                    ),
            decreases texts.len() - i,
        {
            lines.push(BuildScriptOutputLine::parse(ws, target, existing, texts[i].as_str()));
            i += 1;
        }
        let r = BuildScriptOutput { lines };
        assert(r@ =~= parsed_output(ws.roots(target@), existing@, content@));
        r
    }

    /// The output as text, with its paths written down for this machine.
    pub fn reconstruct(&self, ws: &Workspace, target: &RustcTarget) -> (r: String)
        ensures
            r@ == output_text(ws.roots(target@), self@),
    {
        let mut texts: Vec<String> = Vec::new();
        let mut i: usize = 0;
        while i < self.lines.len()
            invariant
                i <= self.lines.len(),
                i == texts.len(),
                forall|j: int|
                    0 <= j < i ==> #[trigger] texts@[j]@ == line_text(
                        ws.roots(target@),
                        self.lines@[j]@,
                    ),
            decreases self.lines.len() - i,
        {
            texts.push(self.lines[i].reconstruct(ws, target));
            i += 1;
        }
        proof {
            reveal_strlit("\n");
            assert("\n"@ =~= seq!['\n']);
            assert(text::views(texts@) =~= line_texts(ws.roots(target@), self@));
        }
        text::join(&texts, "\n")
    }
}

/// The output of a build script is written down as it was read, line by line, on
/// the machine where it was read, if the paths in it are stable.
pub proof fn law_output_round_trips(
    roots: path::Roots,
    existing: Set<Seq<char>>,
    content: Seq<char>,
)
    requires
        forall|i: int|
            0 <= i < text::lines_of(content).len() ==> line_is_stable(
                roots,
                existing,
                #[trigger] text::lines_of(content)[i],
            ),
    ensures
        output_text(roots, parsed_output(roots, existing, content)) == text::joined(
            text::lines_of(content),
            seq!['\n'],
        ),
        !content.contains('\r') ==> output_text(roots, parsed_output(roots, existing, content))
            == text::without_newline(content),
{
    let lines = text::lines_of(content);
    let parsed = parsed_output(roots, existing, content);
    assert forall|i: int| 0 <= i < lines.len() implies line_texts(roots, parsed)[i] == lines[i] by {
        law_line_round_trips(roots, existing, lines[i]);
    }
    assert(line_texts(roots, parsed) =~= lines);
    if !content.contains('\r') {
        text::law_lines_join_again(content);
    }
}

/// The output of a build script that is read on one machine and written on another has
/// the same lines in the same order, each moved on its own, with newlines between them.
pub proof fn law_output_moves_by_lines(
    here: path::Roots,
    there: path::Roots,
    existing: Set<Seq<char>>,
    content: Seq<char>,
)
    ensures
        output_text(there, parsed_output(here, existing, content)) == text::joined(
            Seq::new(
                text::lines_of(content).len(),
                |i: int|
                    line_text(there, parsed_line(here, existing, text::lines_of(content)[i])),
            ),
            "\n"@,
        ),
{
    reveal_strlit("\n");
    assert("\n"@ =~= seq!['\n']);
    assert(line_texts(there, parsed_output(here, existing, content)) =~= Seq::new(
        text::lines_of(content).len(),
        |i: int| line_text(there, parsed_line(here, existing, text::lines_of(content)[i])),
    ));
}

/// The file in which Cargo records a build script's output directory.
#[derive(Debug)]
pub struct RootOutput {
    pub path: QualifiedPath,
}

/// A root output file that does not hold exactly one line.
#[derive(Debug, Clone, Copy, PartialEq, Eq, Structural)]
pub struct NotOneLine;

impl RootOutput {
    /// Parses a root output file.
    pub fn parse(
        ws: &Workspace,
        target: &RustcTarget,
        existing: &Existing,
        content: &str,
    ) -> (r: Result<Self, NotOneLine>)
        ensures
            match r {
                Ok(root) => {
                    &&& text::lines_of(content@).len() == 1
                    &&& root.path@ == path::qualify(
                        ws.roots(target@),
                        existing@,
                        text::lines_of(content@)[0],
                    )
                },
                Err(_) => text::lines_of(content@).len() != 1,
            },
    {
        let lines: Vec<String> = text::lines(content);
        assert(text::views(lines@).len() == lines@.len());
        if lines.len() != 1 {
            return Err(NotOneLine);
        }
        assert(text::views(lines@)[0] == lines@[0]@);
        Ok(RootOutput { path: QualifiedPath::parse(ws, target, existing, lines[0].as_str()) })
    }

    /// The file's text for this machine.
    pub fn reconstruct(&self, ws: &Workspace, target: &RustcTarget) -> (r: String)
        ensures
            r@ == path::placed(ws.roots(target@), self.path@),
    {
        self.path.reconstruct_string(ws, target)
    }
}

} // verus!
