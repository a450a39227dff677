//! The commands for finding faults.

use vstd::prelude::*;
use vstd::string::*;

use crate::path;
use crate::path::{AbsDirPath, AbsFilePath};
use crate::sort;
use crate::sort::Sortable;
use crate::text;

verus! {

/// A command for finding faults.
#[derive(Debug)]
pub enum Command {
    /// Whether what was restored is fresh.
    Check(Vec<String>),
    /// The metadata of all files of a directory.
    Metadata(String),
    /// A directory is copied.
    Copy(String, String),
    /// Whether the daemon is running.
    Daemon,
}

/// The arguments with which Cargo tells what is fresh.
pub open spec fn check_argv_of(argv: Seq<Seq<char>>) -> Seq<Seq<char>> {
    let with_format = if argv.contains("--message-format=json"@) {
        argv
    } else {
        argv.push("--message-format=json"@)
    };
    if with_format.contains("--verbose"@) {
        with_format
    } else {
        with_format.push("--verbose"@)
    }
}

/// The arguments with which Cargo tells what is fresh: those that were given, and two
/// more where they are not among them.
pub fn check_argv(argv: &Vec<String>) -> (r: Vec<String>)
    ensures
        text::views(r@) == check_argv_of(text::views(argv@)),
{
    let mut r = text::copy_list(argv);
    let ghost given = text::views(argv@);
    if !text::list_contains(&r, "--message-format=json") {
        r.push(text::copy("--message-format=json"));
        assert(text::views(r@) =~= given.push("--message-format=json"@));
    }
    let ghost formatted = text::views(r@);
    if !text::list_contains(&r, "--verbose") {
        r.push(text::copy("--verbose"));
        assert(text::views(r@) =~= formatted.push("--verbose"@));
    }
    r
}

/// What Cargo says of a unit that it compiled or found.
#[derive(Debug)]
pub struct UnitFreshness {
    pub package_id: String,
    pub fresh: bool,
}

impl View for UnitFreshness {
    type V = (Seq<char>, bool);

    open spec fn view(&self) -> (Seq<char>, bool) {
        (self.package_id@, self.fresh)
    }
}

/// The views of a sequence of units.
pub open spec fn unit_views(units: Seq<UnitFreshness>) -> Seq<(Seq<char>, bool)> {
    Seq::new(units.len(), |i: int| units[i]@)
}

/// Messages of Cargo, of which only those on units count.
pub open spec fn message_views(messages: Seq<Option<UnitFreshness>>) -> Seq<
    Option<(Seq<char>, bool)>,
> {
    Seq::new(
        messages.len(),
        |i: int|
            match messages[i] {
                Some(unit) => Some(unit@),
                None => None,
            },
    )
}

/// How far JSON text is nested at some point of it.
pub struct Nesting {
    /// How many brackets and braces are open.
    pub depth: nat,
    /// How many were open at once, on any line.
    pub deepest: nat,
    /// Whether the point lies in a string.
    pub quoted: bool,
    /// Whether the next character of a string is taken as it is.
    pub escaped: bool,
}

/// The nesting after another byte. Brackets and braces in strings do not count, and each
/// line is counted anew.
pub open spec fn nested_further(n: Nesting, byte: u8) -> Nesting {
    if byte == 10 {
        Nesting { depth: 0, deepest: n.deepest, quoted: false, escaped: false }
    } else if n.quoted {
        Nesting {
            quoted: n.escaped || byte != 34,
            escaped: !n.escaped && byte == 92,
            ..n
        }
    } else if byte == 34 {
        Nesting { quoted: true, ..n }
    } else if byte == 91 || byte == 123 {
        let depth = n.depth + 1;
        Nesting {
            depth,
            deepest: if depth > n.deepest {
                depth
            } else {
                n.deepest
            },
            ..n
        }
    } else if (byte == 93 || byte == 125) && n.depth > 0 {
        Nesting { depth: (n.depth - 1) as nat, ..n }
    } else {
        n
    }
}

/// The nesting after some bytes.
pub open spec fn nested(stdout: Seq<u8>) -> Nesting
    decreases stdout.len(),
{
    if stdout.len() == 0 {
        Nesting { depth: 0, deepest: 0, quoted: false, escaped: false }
    } else {
        nested_further(nested(stdout.drop_last()), stdout.last())
    }
}

/// How far the JSON text of a line is nested, at most.
pub open spec fn nesting(stdout: Seq<u8>) -> nat {
    nested(stdout).deepest
}

/// How far the JSON text of a line is nested, at most.
pub fn nesting_of(stdout: &Vec<u8>) -> (r: usize)
    ensures
        r == nesting(stdout@),
{
    let mut depth: usize = 0;
    let mut deepest: usize = 0;
    let mut quoted: bool = false;
    let mut escaped: bool = false;
    let mut i: usize = 0;
    while i < stdout.len()
        invariant
            i <= stdout.len(),
            depth <= i,
            deepest <= i,
            nested(stdout@.take(i as int)) == (Nesting {
                depth: depth as nat,
                deepest: deepest as nat,
                quoted,
                escaped,
            }),
        decreases stdout.len() - i,
    {
        let byte: u8 = stdout[i];
        assert(stdout@.take(i + 1).drop_last() =~= stdout@.take(i as int));
        if byte == 10 {
            depth = 0;
            quoted = false;
            escaped = false;
        } else if quoted {
            quoted = escaped || byte != 34;
            escaped = !escaped && byte == 92;
        } else if byte == 34 {
            quoted = true;
        } else if byte == 91 || byte == 123 {
            depth = depth + 1;
            if depth > deepest {
                deepest = depth;
            }
        } else if (byte == 93 || byte == 125) && depth > 0 {
            depth = depth - 1;
        }
        i += 1;
    }
    assert(stdout@.take(stdout.len() as int) =~= stdout@);
    deepest
}

/// How far a message of Cargo may be nested. Macros that expand to each other as far as
/// the compiler lets them by default stay well below.
pub const MAX_NESTING: usize = 512;

/// The messages that Cargo printed, one for each line, or `None` where a line is no text.
/// Of a message on a unit it holds the package and whether the unit is fresh.
pub uninterp spec fn cargo_messages(stdout: Seq<u8>) -> Option<Seq<Option<(Seq<char>, bool)>>>;

/// `cargo_metadata::Message::parse_stream`, run over a buffer to its end or to the first
/// line that cannot be read: what comes out depends on the bytes alone. Of an artifact
/// the package and its freshness are kept, and of other messages only that they are
/// there. It goes into nested text without a limit of its own, so that text that is
/// nested too far is left out.
#[verifier::external_body]
pub(crate) fn parse_stream(stdout: &Vec<u8>) -> (r: Option<Vec<Option<UnitFreshness>>>)
    requires
        nesting(stdout@) <= MAX_NESTING,
    ensures
        match r {
            Some(messages) => cargo_messages(stdout@) == Some(message_views(messages@)),
            None => cargo_messages(stdout@) is None,
        },
{
    let mut messages = Vec::new();
    for message in cargo_metadata::Message::parse_stream(stdout.as_slice()) {
        messages.push(match message.ok()? {
            cargo_metadata::Message::CompilerArtifact(artifact) => Some(
                UnitFreshness { package_id: artifact.package_id.repr, fresh: artifact.fresh },
            ),
            _ => None,
        });
    }
    Some(messages)
}

/// The units that messages are on, in order.
pub open spec fn artifacts_of(messages: Seq<Option<(Seq<char>, bool)>>) -> Seq<(Seq<char>, bool)>
    decreases messages.len(),
{
    if messages.len() == 0 {
        Seq::empty()
    } else {
        let before = artifacts_of(messages.drop_last());
        match messages.last() {
            Some(unit) => before.push(unit),
            None => before,
        }
    }
}

/// The units that messages are on, in order.
pub fn artifacts(messages: Vec<Option<UnitFreshness>>) -> (r: Vec<UnitFreshness>)
    ensures
        unit_views(r@) == artifacts_of(message_views(messages@)),
{
    let ghost all = messages@;
    let ghost views = message_views(all);
    let n: usize = messages.len();
    let mut rest: Vec<Option<UnitFreshness>> = messages;
    let mut r: Vec<UnitFreshness> = Vec::new();
    let mut i: usize = 0;
    assert(all.skip(0) =~= all);
    assert(unit_views(r@) =~= artifacts_of(views.take(0)));
    while i < n
        invariant
            i <= n,
            n == all.len(),
            views == message_views(all),
            rest@ == all.skip(i as int),
            unit_views(r@) == artifacts_of(views.take(i as int)),
        decreases n - i,
    {
        let ghost before = unit_views(r@);
        let message: Option<UnitFreshness> = rest.remove(0);
        proof {
            assert(message == all[i as int]);
            assert(rest@ =~= all.skip(i + 1));
            assert(views.take(i + 1).drop_last() =~= views.take(i as int));
            assert(views.take(i + 1).last() == views[i as int]);
        }
        if let Some(unit) = message {
            r.push(unit);
            assert(unit_views(r@) =~= before.push(unit@));
        }
        i += 1;
    }
    assert(views.take(n as int) =~= views);
    r
}

/// The start of the identifiers of packages that come from the registry.
pub const REGISTRY: &'static str = "registry+https://github.com/rust-lang/crates.io-index#";

/// Whether a unit of the registry is not fresh.
pub open spec fn is_stale(unit: (Seq<char>, bool)) -> bool {
    !unit.1 && text::has_prefix(unit.0, REGISTRY@)
}

/// The units of the registry that are not fresh, in order.
pub open spec fn stale_of(units: Seq<(Seq<char>, bool)>) -> Seq<(Seq<char>, bool)>
    decreases units.len(),
{
    if units.len() == 0 {
        Seq::empty()
    } else {
        let before = stale_of(units.drop_last());
        if is_stale(units.last()) {
            before.push(units.last())
        } else {
            before
        }
    }
}

/// The units of the registry that are not fresh, in order. Without any, what was
/// restored is sound.
pub fn stale_units(units: Vec<UnitFreshness>) -> (r: Vec<UnitFreshness>)
    ensures
        unit_views(r@) == stale_of(unit_views(units@)),
{
    let ghost all = units@;
    let ghost views = unit_views(all);
    let n: usize = units.len();
    let mut rest: Vec<UnitFreshness> = units;
    let mut r: Vec<UnitFreshness> = Vec::new();
    let mut i: usize = 0;
    assert(all.skip(0) =~= all);
    assert(unit_views(r@) =~= stale_of(views.take(0)));
    while i < n
        invariant
            i <= n,
            n == all.len(),
            views == unit_views(all),
            rest@ == all.skip(i as int),
            unit_views(r@) == stale_of(views.take(i as int)),
        decreases n - i,
    {
        let ghost before = unit_views(r@);
        let unit: UnitFreshness = rest.remove(0);
        proof {
            assert(unit == all[i as int]);
            assert(rest@ =~= all.skip(i + 1));
            assert(views.take(i + 1).drop_last() =~= views.take(i as int));
            assert(views.take(i + 1).last() == unit@);
        }
        if !unit.fresh && text::starts_with(unit.package_id.as_str(), REGISTRY) {
            r.push(unit);
            assert(unit_views(r@) =~= before.push(unit@));
        }
        i += 1;
    }
    assert(views.take(n as int) =~= views);
    r
}

/// Why what Cargo printed cannot be checked.
#[derive(Debug, Clone, Copy, PartialEq, Eq, Structural)]
pub enum CheckError {
    /// A message is nested too far.
    TooDeep,
    /// A line is no text.
    Unreadable,
}

/// The units of the registry that are not fresh, as Cargo printed it.
pub fn check_output(stdout: &Vec<u8>) -> (r: Result<Vec<UnitFreshness>, CheckError>)
    ensures
        match r {
            Ok(stale) => {
                &&& nesting(stdout@) <= MAX_NESTING
                &&& cargo_messages(stdout@) matches Some(messages)
                &&& unit_views(stale@) == stale_of(artifacts_of(messages))
            },
            Err(CheckError::TooDeep) => nesting(stdout@) > MAX_NESTING,
            Err(CheckError::Unreadable) => nesting(stdout@) <= MAX_NESTING && cargo_messages(
                stdout@,
            ) is None,
        },
{
    if nesting_of(stdout) > MAX_NESTING {
        return Err(CheckError::TooDeep);
    }
    match parse_stream(stdout) {
        Some(messages) => Ok(stale_units(artifacts(messages))),
        None => Err(CheckError::Unreadable),
    }
}

/// What was restored is sound exactly when every unit of the registry that Cargo names
/// is fresh.
pub proof fn law_no_unit_is_stale_when_all_are_fresh(messages: Seq<Option<(Seq<char>, bool)>>)
    ensures
        stale_of(artifacts_of(messages)).len() == 0 <==> (forall|i: int|
            0 <= i < messages.len() ==> ((#[trigger] messages[i]) matches Some(unit) ==> !is_stale(
                unit,
            ))),
    decreases messages.len(),
{
    if messages.len() > 0 {
        let front = messages.drop_last();
        law_no_unit_is_stale_when_all_are_fresh(front);
        if messages.last() is Some {
            let units = artifacts_of(messages);
            assert(units.drop_last() =~= artifacts_of(front));
        }
        assert(messages[messages.len() - 1] == messages.last());
        assert forall|i: int| 0 <= i < front.len() implies front[i] == messages[i] by {
        }
    }
}

/// Whether a component of a path may stand before another: the parent directory comes
/// first.
pub open spec fn component_at_most(a: Seq<char>, b: Seq<char>) -> bool {
    if a == seq!['.', '.'] {
        true
    } else if b == seq!['.', '.'] {
        false
    } else {
        text::at_most(a, b)
    }
}

/// Whether a path may stand before another, by its components.
pub open spec fn components_at_most(a: Seq<Seq<char>>, b: Seq<Seq<char>>) -> bool
    decreases a.len(),
{
    if a.len() == 0 {
        true
    } else if b.len() == 0 {
        false
    } else if a[0] != b[0] {
        component_at_most(a[0], b[0])
    } else {
        components_at_most(a.skip(1), b.skip(1))
    }
}

proof fn lemma_component_total(a: Seq<char>, b: Seq<char>)
    ensures
        component_at_most(a, b) || component_at_most(b, a),
        component_at_most(a, b) && component_at_most(b, a) ==> a == b,
{
    text::lemma_at_most_total(a, b);
}

proof fn lemma_component_transitive(a: Seq<char>, b: Seq<char>, c: Seq<char>)
    requires
        component_at_most(a, b),
        component_at_most(b, c),
    ensures
        component_at_most(a, c),
{
    let up = seq!['.', '.'];
    if a != up && b != up && c != up {
        text::lemma_at_most_transitive(a, b, c);
    }
}

proof fn lemma_components_total(a: Seq<Seq<char>>, b: Seq<Seq<char>>)
    ensures
        components_at_most(a, b) || components_at_most(b, a),
    decreases a.len(),
{
    if a.len() > 0 && b.len() > 0 {
        if a[0] == b[0] {
            lemma_components_total(a.skip(1), b.skip(1));
        } else {
            lemma_component_total(a[0], b[0]);
        }
    }
}

proof fn lemma_components_transitive(a: Seq<Seq<char>>, b: Seq<Seq<char>>, c: Seq<Seq<char>>)
    requires
        components_at_most(a, b),
        components_at_most(b, c),
    ensures
        components_at_most(a, c),
    decreases a.len(),
{
    if a.len() > 0 && b.len() > 0 && c.len() > 0 {
        if a[0] == b[0] && b[0] == c[0] {
            lemma_components_transitive(a.skip(1), b.skip(1), c.skip(1));
        } else {
            lemma_component_total(a[0], b[0]);
            lemma_component_total(b[0], c[0]);
            lemma_component_total(a[0], c[0]);
            if a[0] != b[0] && b[0] != c[0] {
                lemma_component_transitive(a[0], b[0], c[0]);
            }
            if a[0] == c[0] {
                assert(component_at_most(a[0], b[0]) && component_at_most(b[0], a[0]));
            }
        }
    }
}

fn is_component_at_most(a: &str, b: &str) -> (r: bool)
    ensures
        r == component_at_most(a@, b@),
{
    proof {
        reveal_strlit("..");
        assert(".."@ =~= seq!['.', '.']);
    }
    if text::same(a, "..") {
        true
    } else if text::same(b, "..") {
        false
    } else {
        text::is_at_most(a, b)
    }
}

impl Sortable for AbsFilePath {
    open spec fn may_precede(self, other: Self) -> bool {
        components_at_most(path::components(self@), path::components(other@))
    }

    proof fn one_may_precede(a: Self, b: Self) {
        lemma_components_total(path::components(a@), path::components(b@));
    }

    proof fn precedence_carries_over(a: Self, b: Self, c: Self) {
        lemma_components_transitive(
            path::components(a@),
            path::components(b@),
            path::components(c@),
        );
    }

    fn precedes(&self, other: &Self) -> (r: bool) {
        let x: Vec<String> = path::component_list(self.as_str());
        let y: Vec<String> = path::component_list(other.as_str());
        let ghost a = path::components(self@);
        let ghost b = path::components(other@);
        let mut i: usize = 0;
        assert(a.skip(0) =~= a && b.skip(0) =~= b);
        assert(a.len() == x@.len() && b.len() == y@.len());
        while i < x.len() && i < y.len() && text::same(x[i].as_str(), y[i].as_str())
            invariant
                i <= x.len(),
                i <= y.len(),
                a == text::views(x@),
                b == text::views(y@),
                components_at_most(a, b) == components_at_most(a.skip(i as int), b.skip(i as int)),
            decreases x.len() - i,
        {
            assert(a.skip(i as int)[0] == x@[i as int]@);
            assert(b.skip(i as int)[0] == y@[i as int]@);
            assert(a.skip(i as int).skip(1) =~= a.skip(i + 1));
            assert(b.skip(i as int).skip(1) =~= b.skip(i + 1));
            i += 1;
        }
        if i >= x.len() {
            true
        } else if i >= y.len() {
            false
        } else {
            assert(a.skip(i as int)[0] == x@[i as int]@);
            assert(b.skip(i as int)[0] == y@[i as int]@);
            is_component_at_most(x[i].as_str(), y[i].as_str())
        }
    }
}

/// The files in the order in which they are shown, so that what is shown of two
/// directories can be compared.
pub fn sort_files(files: Vec<AbsFilePath>) -> (r: Vec<AbsFilePath>)
    ensures
        sort::is_sorted(r@),
        r@.to_multiset() == files@.to_multiset(),
{
    sort::sorted(files)
}

/// A file that does not lie in the directory that is shown, or has no name.
#[derive(Debug, Clone, Copy, PartialEq, Eq, Structural)]
pub enum ListingError {
    OutsideRoot,
    NoName,
}

/// How far the name of a file is indented: two spaces for each directory between it and
/// the directory that is shown.
pub open spec fn indent_of(rel: Seq<char>) -> Seq<char> {
    let n = path::components(rel).len();
    Seq::new(
        if n == 0 {
            0
        } else {
            (2 * (n - 1)) as nat
        },
        |i: int| ' ',
    )
}

/// How a file is shown: how far its name is indented, and the name.
pub fn listing(root: &AbsDirPath, file: &AbsFilePath) -> (r: Result<(String, String), ListingError>)
    ensures
        match r {
            Ok(p) => {
                &&& path::below(root@, file@) matches Some(rel)
                &&& p.0@ == indent_of(rel)
                &&& path::name_of(file@) == Some(p.1@)
            },
            Err(ListingError::OutsideRoot) => path::below(root@, file@) is None,
            Err(ListingError::NoName) => path::below(root@, file@) is Some && path::name_of(
                file@,
            ) is None,
        },
{
    let rel = match file.relative_to(root) {
        Some(rel) => rel,
        None => {
            return Err(ListingError::OutsideRoot);
        },
    };
    let name = match file.file_name() {
        Some(name) => name,
        None => {
            return Err(ListingError::NoName);
        },
    };
    let parts: Vec<String> = path::component_list(rel.as_str());
    let mut indent = String::new();
    let mut i: usize = 1;
    proof {
        reveal_strlit("  ");
        assert(text::views(parts@).len() == parts@.len());
        assert(indent@ =~= Seq::empty());
    }
    while i < parts.len()
        invariant
            1 <= i,
            parts.len() > 0 ==> i <= parts.len(),
            parts.len() == 0 ==> i == 1,
            indent@ == Seq::new((2 * (i - 1)) as nat, |k: int| ' '),
            "  "@.len() == 2,
            "  "@[0] == ' ',
            "  "@[1] == ' ',
        decreases parts.len() - i,
    {
        let ghost before = indent@;
        indent.append("  ");
        assert(before + "  "@ =~= Seq::new((2 * i) as nat, |k: int| ' '));
        i += 1;
    }
    assert(indent@ =~= indent_of(rel@));
    Ok((indent, name))
}

/// What Cargo is asked is what was asked for, and two more arguments behind it where they
/// are not among it: it prints messages as JSON, and is verbose.
pub proof fn law_check_asks_for_messages(argv: Seq<Seq<char>>)
    ensures
        ({
            let asked = check_argv_of(argv);
            let json = argv.contains("--message-format=json"@);
            let verbose = argv.contains("--verbose"@);
            &&& json && verbose ==> asked == argv
            &&& json && !verbose ==> asked == argv + seq!["--verbose"@]
            &&& !json && verbose ==> asked == argv + seq!["--message-format=json"@]
            &&& !json && !verbose ==> asked == argv + seq![
                "--message-format=json"@,
                "--verbose"@,
            ]
        }),
{
    reveal_strlit("--message-format=json");
    reveal_strlit("--verbose");
    assert("--message-format=json"@.len() == 21);
    assert("--verbose"@.len() == 9);
    let with_format = argv.push("--message-format=json"@);
    if argv.contains("--verbose"@) {
        let i = choose|i: int| 0 <= i < argv.len() && argv[i] == "--verbose"@;
        assert(with_format[i] == "--verbose"@);
    }
    if with_format.contains("--verbose"@) {
        let i = choose|i: int| 0 <= i < with_format.len() && with_format[i] == "--verbose"@;
        assert(argv[i] == "--verbose"@);
    }
    assert(argv.push("--verbose"@) =~= argv + seq!["--verbose"@]);
    assert(with_format =~= argv + seq!["--message-format=json"@]);
    assert(with_format.push("--verbose"@) =~= argv + seq![
        "--message-format=json"@,
        "--verbose"@,
    ]);
}

proof fn lemma_artifacts_are_filtered(
    messages: Seq<Option<(Seq<char>, bool)>>,
    unit: spec_fn(Option<(Seq<char>, bool)>) -> Option<(Seq<char>, bool)>,
)
    requires
        forall|m: Option<(Seq<char>, bool)>| #[trigger] unit(m) == m,
    ensures
        artifacts_of(messages) == messages.filter_map(unit),
    decreases messages.len(),
{
    if messages.len() > 0 {
        let front = messages.drop_last();
        lemma_artifacts_are_filtered(front, unit);
        assert(unit(messages.last()) == messages.last());
        if let Some(u) = messages.last() {
            assert(front.filter_map(unit) + seq![u] =~= front.filter_map(unit).push(u));
        }
    }
}

proof fn lemma_stale_is_filtered(
    units: Seq<(Seq<char>, bool)>,
    keep: spec_fn((Seq<char>, bool)) -> bool,
)
    requires
        forall|u: (Seq<char>, bool)| #[trigger] keep(u) == is_stale(u),
    ensures
        stale_of(units) == units.filter(keep),
    decreases units.len(),
{
    reveal(Seq::filter);
    if units.len() > 0 {
        lemma_stale_is_filtered(units.drop_last(), keep);
        assert(keep(units.last()) == is_stale(units.last()));
    }
}

/// The units that messages are on come in the order of the messages. Of these the ones
/// that are not fresh and whose packages are from the registry are stale, in their order.
pub proof fn law_stale_units_are_those_of_the_registry(
    messages: Seq<Option<(Seq<char>, bool)>>,
    units: Seq<(Seq<char>, bool)>,
)
    ensures
        artifacts_of(messages) == messages.filter_map(|m: Option<(Seq<char>, bool)>| m),
        stale_of(units) == units.filter(
            |u: (Seq<char>, bool)|
                !u.1 && text::has_prefix(
                    u.0,
                    "registry+https://github.com/rust-lang/crates.io-index#"@,
                ),
        ),
{
    lemma_artifacts_are_filtered(messages, |m: Option<(Seq<char>, bool)>| m);
    lemma_stale_is_filtered(
        units,
        |u: (Seq<char>, bool)|
            !u.1 && text::has_prefix(
                u.0,
                "registry+https://github.com/rust-lang/crates.io-index#"@,
            ),
    );
}

/// Components are in the order of a dictionary, but the parent directory comes before all
/// others.
pub proof fn law_order_of_components(a: Seq<char>, b: Seq<char>)
    ensures
        component_at_most(seq!['.', '.'], b),
        a != seq!['.', '.'] ==> !component_at_most(a, seq!['.', '.']),
        a != seq!['.', '.'] && b != seq!['.', '.'] ==> (component_at_most(a, b) <==> text::at_most(
            a,
            b,
        )),
{
}

/// Paths are in the order of the first component in which they differ, and a path comes
/// before what lies below it.
pub proof fn law_order_of_paths(a: Seq<Seq<char>>, b: Seq<Seq<char>>, i: int)
    requires
        0 <= i <= a.len(),
        0 <= i <= b.len(),
        forall|j: int| 0 <= j < i ==> #[trigger] a[j] == b[j],
    ensures
        i == a.len() ==> components_at_most(a, b),
        i == b.len() && i < a.len() ==> !components_at_most(a, b),
        i < a.len() && i < b.len() && a[i] != b[i] ==> (components_at_most(a, b)
            <==> component_at_most(a[i], b[i])),
    decreases i,
{
    if i > 0 {
        assert(a[0] == b[0]);
        let x = a.skip(1);
        let y = b.skip(1);
        assert forall|j: int| 0 <= j < i - 1 implies #[trigger] x[j] == y[j] by {
            assert(a[j + 1] == b[j + 1]);
        }
        law_order_of_paths(x, y, i - 1);
    }
}

/// A name is indented by two blanks for each directory that it lies in below the root.
pub proof fn law_names_are_indented_by_their_depth(rel: Seq<char>)
    ensures
        path::components(rel).len() > 0 ==> indent_of(rel).len() == 2 * (path::components(rel).len()
            - 1),
        path::components(rel).len() == 0 ==> indent_of(rel).len() == 0,
        forall|i: int| 0 <= i < indent_of(rel).len() ==> #[trigger] indent_of(rel)[i] == ' ',
{
}

proof fn lemma_deepest_is_deepest(stdout: Seq<u8>)
    ensures
        nested(stdout).depth <= nested(stdout).deepest,
    decreases stdout.len(),
{
    if stdout.len() > 0 {
        lemma_deepest_is_deepest(stdout.drop_last());
    }
}

/// Only brackets and braces outside of strings nest text: one that opens goes one further,
/// one that closes goes back, and a line begins at nothing. What was reached stays reached.
/// A string ends at the next quotation mark without a backslash before it that counts.
pub proof fn law_brackets_nest_text(stdout: Seq<u8>, byte: u8)
    ensures
        ({
            let n = nested(stdout);
            let m = nested(stdout.push(byte));
            let opens = byte == '[' as u8 || byte == '{' as u8;
            let closes = byte == ']' as u8 || byte == '}' as u8;
            &&& nested(Seq::empty()).depth == 0 && nested(Seq::empty()).deepest == 0
            &&& !nested(Seq::empty()).quoted
            &&& m.deepest == (if m.depth > n.deepest {
                m.depth
            } else {
                n.deepest
            })
            &&& byte == '\n' as u8 ==> m.depth == 0 && !m.quoted && m.deepest == n.deepest
            &&& byte != '\n' as u8 && n.quoted ==> {
                &&& m.depth == n.depth && m.deepest == n.deepest
                &&& m.quoted <==> n.escaped || byte != '"' as u8
                &&& m.escaped <==> !n.escaped && byte == '\\' as u8
            }
            &&& !n.quoted && opens ==> m.depth == n.depth + 1 && m.deepest >= m.depth && !m.quoted
            &&& !n.quoted && closes && n.depth > 0 ==> m.depth == n.depth - 1 && m.deepest
                == n.deepest
            &&& !n.quoted && byte == '"' as u8 ==> m.quoted && m.depth == n.depth
            &&& !n.quoted && !opens && !closes && byte != '"' as u8 && byte != '\n' as u8 ==> m.depth
                == n.depth && m.deepest == n.deepest && !m.quoted
        }),
{
    lemma_deepest_is_deepest(stdout);
    assert(stdout.push(byte).drop_last() =~= stdout);
}

} // verus!
