//! The messages that Cargo prints with `--message-format=json`, one a line.

use vstd::prelude::*;
use vstd::string::*;

use crate::cargo::build_plan;
use crate::cargo::workspace;
use crate::cargo::workspace::UnitHash;
use crate::text;

verus! {

/// A message that Cargo prints while it compiles.
#[derive(Debug)]
pub enum CargoMessage {
    /// Something was compiled.
    CompilerArtifact(CompilerArtifact),
    /// The compiler said something.
    CompilerMessage(CompilerMessage),
    /// A build script was run.
    BuildScriptExecuted(BuildScriptExecuted),
    /// The build is over.
    BuildFinished(BuildFinished),
    /// A message of a kind that is not known.
    Unknown,
}

/// The kinds of messages.
#[derive(Debug, Clone, Copy, PartialEq, Eq, Structural)]
pub enum MessageKind {
    CompilerArtifact,
    CompilerMessage,
    BuildScriptExecuted,
    BuildFinished,
    Unknown,
}

/// The kind of a message with the given reason.
pub open spec fn kind_of_reason(reason: Seq<char>) -> MessageKind {
    if reason == "compiler-artifact"@ {
        MessageKind::CompilerArtifact
    } else if reason == "compiler-message"@ {
        MessageKind::CompilerMessage
    } else if reason == "build-script-executed"@ {
        MessageKind::BuildScriptExecuted
    } else if reason == "build-finished"@ {
        MessageKind::BuildFinished
    } else {
        MessageKind::Unknown
    }
}

impl MessageKind {
    /// The kind of a message with the given reason. Reasons that are not known do
    /// not fail: later versions of Cargo may have more.
    pub fn from_reason(reason: &str) -> (r: MessageKind)
        ensures
            r == kind_of_reason(reason@),
    {
        if text::same(reason, "compiler-artifact") {
            MessageKind::CompilerArtifact
        } else if text::same(reason, "compiler-message") {
            MessageKind::CompilerMessage
        } else if text::same(reason, "build-script-executed") {
            MessageKind::BuildScriptExecuted
        } else if text::same(reason, "build-finished") {
            MessageKind::BuildFinished
        } else {
            MessageKind::Unknown
        }
    }
}

/// What was compiled.
#[derive(Debug)]
pub struct CompilerArtifact {
    /// The package that was compiled.
    pub package_id: String,
    /// The target of the package.
    pub target: ArtifactTarget,
    /// The settings that were used.
    pub profile: ArtifactProfile,
    /// The files that were written, with the unit hash in their names.
    pub filenames: Vec<String>,
    /// Whether the files were there before.
    pub fresh: bool,
    /// The manifest of the package.
    pub manifest_path: String,
}

/// The target of a package.
#[derive(Debug)]
pub struct ArtifactTarget {
    /// The kinds of the target, such as `lib`.
    pub kind: Vec<String>,
    /// The crate types that the target makes.
    pub crate_types: Vec<String>,
    pub name: String,
    /// The main source file.
    pub src_path: String,
}

/// The settings of a compilation.
#[derive(Debug)]
pub struct ArtifactProfile {
    pub opt_level: String,
    pub debuginfo: Option<u32>,
    pub debug_assertions: bool,
    pub overflow_checks: bool,
    pub test: bool,
}

/// What the compiler said.
#[derive(Debug)]
pub struct CompilerMessage {
    pub package_id: String,
    pub target: ArtifactTarget,
    /// The diagnostic, as JSON.
    pub message: String,
}

/// What running a build script came to.
#[derive(Debug)]
pub struct BuildScriptExecuted {
    pub package_id: String,
    /// The variables that the build script set.
    pub env: Vec<(String, String)>,
    pub out_dir: Option<String>,
}

/// How a build ended.
#[derive(Debug)]
pub struct BuildFinished {
    pub success: bool,
}

/// The first file that holds no debugging information.
pub open spec fn first_artifact(files: Seq<Seq<char>>) -> Option<Seq<char>>
    decreases files.len(),
{
    if files.len() == 0 {
        None
    } else if !build_plan::is_debug_file(files[0]) {
        Some(files[0])
    } else {
        first_artifact(files.skip(1))
    }
}

/// The part of a path after its last slash.
pub open spec fn after_slash(path: Seq<char>) -> Seq<char> {
    match text::rsplit_once_at(path, '/') {
        Some((_, name)) => name,
        None => path,
    }
}

/// The part of a name before its first dot.
pub open spec fn before_dot(name: Seq<char>) -> Seq<char> {
    match text::split_once_at(name, '.') {
        Some((stem, _)) => stem,
        None => name,
    }
}

/// The unit hash in the name of an artifact: what stands between the last dash of
/// its stem and its extension.
pub open spec fn hash_in(files: Seq<Seq<char>>) -> Option<Seq<char>> {
    match first_artifact(files) {
        None => None,
        Some(path) => build_plan::after_dash(before_dot(after_slash(path))),
    }
}

/// Whether a target is of the given kind.
pub open spec fn has_kind(target: ArtifactTarget, kind: Seq<char>) -> bool {
    text::views(target.kind@).contains(kind)
}

/// Whether a target is something that other crates link.
pub open spec fn is_linked(target: ArtifactTarget) -> bool {
    ||| has_kind(target, "lib"@)
    ||| has_kind(target, "rlib"@)
    ||| has_kind(target, "cdylib"@)
    ||| has_kind(target, "proc-macro"@)
}

impl CompilerArtifact {
    /// The hash of the unit that was compiled. There is none where no file has been
    /// written, or its name has no dash.
    ///
    /// The program of a build script has its hash in the name of its directory. What
    /// is returned for one is the last word of its own name.
    pub fn unit_hash(&self) -> (r: Option<UnitHash>)
        ensures
            match r {
                Some(h) => hash_in(text::views(self.filenames@)) == Some(h@),
                None => hash_in(text::views(self.filenames@)) is None,
            },
    {
        let ghost all = text::views(self.filenames@);
        let mut i: usize = 0;
        assert(all.skip(0) =~= all);
        while i < self.filenames.len()
            invariant
                i <= self.filenames.len(),
                all == text::views(self.filenames@),
                first_artifact(all) == first_artifact(all.skip(i as int)),
            decreases self.filenames.len() - i,
        {
            let path: &str = self.filenames[i].as_str();
            assert(all.skip(i as int)[0] == path@);
            if !text::ends_with(path, ".dwp") && !text::ends_with(path, ".dSYM") {
                let name = match text::rsplit_once(path, '/') {
                    Some((_, name)) => name,
                    None => text::copy(path),
                };
                let stem = match text::split_once(name.as_str(), '.') {
                    Some((stem, _)) => stem,
                    None => name,
                };
                return match text::rsplit_once(stem.as_str(), '-') {
                    Some((_, hash)) => Some(UnitHash { text: hash }),
                    None => None,
                };
            }
            assert(all.skip(i as int).skip(1) =~= all.skip(i + 1));
            i += 1;
        }
        None
    }

    /// Whether this is something that other crates link.
    pub fn is_library(&self) -> (r: bool)
        ensures
            r == is_linked(self.target),
            r == (has_kind(self.target, "lib"@) || has_kind(self.target, "rlib"@) || has_kind(
                self.target,
                "cdylib"@,
            ) || has_kind(self.target, "proc-macro"@)),
    {
        let kind: &Vec<String> = &self.target.kind;
        text::list_contains(kind, "lib") || text::list_contains(kind, "rlib")
            || text::list_contains(kind, "cdylib") || text::list_contains(kind, "proc-macro")
    }

    /// Whether this is a build script.
    pub fn is_build_script(&self) -> (r: bool)
        ensures
            r == has_kind(self.target, "custom-build"@),
    {
        text::list_contains(&self.target.kind, "custom-build")
    }

    /// Whether this is a program.
    pub fn is_binary(&self) -> (r: bool)
        ensures
            r == has_kind(self.target, "bin"@),
    {
        text::list_contains(&self.target.kind, "bin")
    }

    /// Whether this is a test.
    pub fn is_test(&self) -> (r: bool)
        ensures
            r == has_kind(self.target, "test"@),
    {
        text::list_contains(&self.target.kind, "test")
    }

    /// Whether this is a benchmark.
    pub fn is_bench(&self) -> (r: bool)
        ensures
            r == has_kind(self.target, "bench"@),
    {
        text::list_contains(&self.target.kind, "bench")
    }

    /// Whether this is an example.
    pub fn is_example(&self) -> (r: bool)
        ensures
            r == has_kind(self.target, "example"@),
    {
        text::list_contains(&self.target.kind, "example")
    }
}

/// The JSON of a line of Cargo's output: the line without the white space around
/// it. A blank line has none.
pub fn message_text(line: &str) -> (r: Option<String>)
    ensures
        match r {
            Some(json) => json@ == text::trimmed(line@) && json@.len() > 0,
            None => text::trimmed(line@).len() == 0,
        },
{
    let json = text::trim(line);
    if json.as_str().unicode_len() == 0 {
        None
    } else {
        Some(json)
    }
}

/// The JSON of lines, in order, without the blank ones.
pub open spec fn messages_in(lines: Seq<Seq<char>>) -> Seq<Seq<char>>
    decreases lines.len(),
{
    if lines.len() == 0 {
        Seq::empty()
    } else {
        let before = messages_in(lines.drop_last());
        let json = text::trimmed(lines.last());
        if json.len() == 0 {
            before
        } else {
            before.push(json)
        }
    }
}

/// The JSON of all messages in Cargo's output, in order.
pub fn message_texts(output: &str) -> (r: Vec<String>)
    ensures
        text::views(r@) == messages_in(text::lines_of(output@)),
{
    let lines: Vec<String> = text::lines(output);
    let ghost all = text::views(lines@);
    let mut r: Vec<String> = Vec::new();
    let mut i: usize = 0;
    assert(text::views(r@) =~= messages_in(all.take(0)));
    while i < lines.len()
        invariant
            i <= lines.len(),
            all == text::views(lines@),
            text::views(r@) == messages_in(all.take(i as int)),
        decreases lines.len() - i,
    {
        let ghost before = text::views(r@);
        proof {
            assert(all.take(i + 1).drop_last() =~= all.take(i as int));
            assert(all.take(i + 1).last() == lines@[i as int]@);
        }
        if let Some(json) = message_text(lines[i].as_str()) {
            r.push(json);
            assert(text::views(r@) =~= before.push(text::trimmed(lines@[i as int]@)));
        }
        i += 1;
    }
    assert(all.take(lines.len() as int) =~= all);
    r
}

/// The position of the first JSON text that is no message, or their number.
pub open spec fn first_failure(parsed: Seq<Option<CargoMessage>>) -> int
    decreases parsed.len(),
{
    if parsed.len() == 0 || parsed[0] is None {
        0
    } else {
        1 + first_failure(parsed.skip(1))
    }
}

/// All messages, or the position of the first JSON text that is none.
pub fn collect_messages(parsed: Vec<Option<CargoMessage>>) -> (r: Result<Vec<CargoMessage>, usize>)
    ensures
        match r {
            Ok(messages) => {
                &&& messages@.len() == parsed@.len()
                &&& forall|i: int|
                    0 <= i < parsed@.len() ==> parsed@[i] == Some(#[trigger] messages@[i])
            },
            Err(i) => i == first_failure(parsed@) && i < parsed@.len(),
        },
        r is Ok <==> first_failure(parsed@) == parsed@.len(),
{
    let ghost all = parsed@;
    let mut rest: Vec<Option<CargoMessage>> = parsed;
    let mut r: Vec<CargoMessage> = Vec::new();
    let mut i: usize = 0;
    assert(all.skip(0) =~= all);
    while rest.len() > 0
        invariant
            i == r.len(),
            i + rest.len() == all.len(),
            all == parsed@,
            rest@ == all.skip(i as int),
            first_failure(all) == i + first_failure(rest@),
            forall|j: int| 0 <= j < i ==> all[j] == Some(#[trigger] r@[j]),
        decreases rest.len(),
    {
        let ghost before = rest@;
        let first = rest.remove(0);
        assert(first == all[i as int]);
        assert(rest@ =~= before.skip(1));
        assert(rest@ =~= all.skip(i + 1));
        match first {
            None => {
                return Err(i);
            },
            Some(m) => {
                r.push(m);
            },
        }
        i = r.len();
    }
    Ok(r)
}

/// The unit hashes of all that was compiled, in order.
pub open spec fn artifact_hashes(messages: Seq<CargoMessage>) -> Seq<Seq<char>>
    decreases messages.len(),
{
    if messages.len() == 0 {
        Seq::empty()
    } else {
        let before = artifact_hashes(messages.drop_last());
        match messages.last() {
            CargoMessage::CompilerArtifact(artifact) => match hash_in(
                text::views(artifact.filenames@),
            ) {
                Some(h) => before.push(h),
                None => before,
            },
            _ => before,
        }
    }
}

/// The unit hashes of all that was compiled, in order.
pub fn extract_artifact_hashes(messages: &Vec<CargoMessage>) -> (r: Vec<UnitHash>)
    ensures
        workspace::hash_views(r@) == artifact_hashes(messages@),
{
    let ghost all = messages@;
    let mut r: Vec<UnitHash> = Vec::new();
    let mut i: usize = 0;
    assert(workspace::hash_views(r@) =~= artifact_hashes(all.take(0)));
    while i < messages.len()
        invariant
            i <= messages.len(),
            all == messages@,
            workspace::hash_views(r@) == artifact_hashes(all.take(i as int)),
        decreases messages.len() - i,
    {
        let ghost before = workspace::hash_views(r@);
        proof {
            assert(all.take(i + 1).drop_last() =~= all.take(i as int));
            assert(all.take(i + 1).last() == all[i as int]);
        }
        if let CargoMessage::CompilerArtifact(artifact) = &messages[i] {
            if let Some(h) = artifact.unit_hash() {
                r.push(h);
                assert(workspace::hash_views(r@) =~= before.push(h@));
            }
        }
        i += 1;
    }
    assert(all.take(messages.len() as int) =~= all);
    r
}

/// Every unit hash comes from something that was compiled, and whatever was
/// compiled with a hash in its name has its hash among them.
pub proof fn law_hashes_are_those_of_artifacts(messages: Seq<CargoMessage>, h: Seq<char>)
    ensures
        artifact_hashes(messages).contains(h) <==> exists|i: int|
            0 <= i < messages.len() && (#[trigger] messages[i] matches CargoMessage::CompilerArtifact(
                artifact,
            ) && hash_in(text::views(artifact.filenames@)) == Some(h)),
    decreases messages.len(),
{
    if messages.len() > 0 {
        let rest = messages.drop_last();
        law_hashes_are_those_of_artifacts(rest, h);
        let before = artifact_hashes(rest);
        let all = artifact_hashes(messages);
        assert forall|i: int| 0 <= i < rest.len() implies messages[i] == #[trigger] rest[i] by {}
        if all.contains(h) {
            let k = choose|k: int| 0 <= k < all.len() && all[k] == h;
            if k < before.len() {
                assert(before[k] == h);
                let i = choose|i: int|
                    0 <= i < rest.len() && (#[trigger] rest[i] matches CargoMessage::CompilerArtifact(
                        artifact,
                    ) && hash_in(text::views(artifact.filenames@)) == Some(h));
                assert(messages[i] == rest[i]);
            } else {
                assert(messages[messages.len() - 1] == messages.last());
            }
        }
        if exists|i: int|
            0 <= i < messages.len() && (#[trigger] messages[i] matches CargoMessage::CompilerArtifact(
                artifact,
            ) && hash_in(text::views(artifact.filenames@)) == Some(h)) {
            let i = choose|i: int|
                0 <= i < messages.len() && (
                #[trigger] messages[i] matches CargoMessage::CompilerArtifact(artifact) && hash_in(
                    text::views(artifact.filenames@),
                ) == Some(h));
            if i < rest.len() {
                assert(rest[i] == messages[i]);
                assert(before.contains(h));
                let k = choose|k: int| 0 <= k < before.len() && before[k] == h;
                assert(all[k] == h);
            } else {
                assert(all.last() == h);
            }
        }
    }
}

/// Each kind of message is told by its own reason, and any other reason is not known.
pub proof fn law_reasons_of_messages(reason: Seq<char>)
    ensures
        kind_of_reason(reason) is CompilerArtifact <==> reason == "compiler-artifact"@,
        kind_of_reason(reason) is CompilerMessage <==> reason == "compiler-message"@,
        kind_of_reason(reason) is BuildScriptExecuted <==> reason == "build-script-executed"@,
        kind_of_reason(reason) is BuildFinished <==> reason == "build-finished"@,
{
    reveal_strlit("compiler-artifact");
    reveal_strlit("compiler-message");
    reveal_strlit("build-script-executed");
    reveal_strlit("build-finished");
    assert("compiler-artifact"@.len() == 17);
    assert("compiler-message"@.len() == 16);
    assert("build-script-executed"@.len() == 21);
    assert("build-finished"@.len() == 14);
}

/// The artifact that counts is the first file that does not end with `.dwp` or `.dSYM`.
pub proof fn law_first_artifact_counts(files: Seq<Seq<char>>, i: int)
    requires
        0 <= i <= files.len(),
        forall|j: int|
            0 <= j < i ==> text::has_suffix(#[trigger] files[j], ".dwp"@) || text::has_suffix(
                files[j],
                ".dSYM"@,
            ),
        i < files.len() ==> !text::has_suffix(files[i], ".dwp"@) && !text::has_suffix(
            files[i],
            ".dSYM"@,
        ),
    ensures
        i < files.len() ==> first_artifact(files) == Some(files[i]),
        i == files.len() ==> first_artifact(files) is None && hash_in(files) is None,
    decreases files.len(),
{
    if i > 0 {
        assert(build_plan::is_debug_file(files[0]));
        let rest = files.skip(1);
        assert forall|j: int| 0 <= j < i - 1 implies text::has_suffix(#[trigger] rest[j], ".dwp"@)
            || text::has_suffix(rest[j], ".dSYM"@) by {
            assert(rest[j] == files[j + 1]);
        }
        law_first_artifact_counts(rest, i - 1);
    }
}

/// The hash of a unit stands in the name of its first artifact, behind the last dash, up
/// to the first dot.
pub proof fn law_hash_stands_in_the_name(
    files: Seq<Seq<char>>,
    i: int,
    dir: Seq<char>,
    stem: Seq<char>,
    hash: Seq<char>,
    extension: Seq<char>,
)
    requires
        0 <= i < files.len(),
        forall|j: int|
            0 <= j < i ==> text::has_suffix(#[trigger] files[j], ".dwp"@) || text::has_suffix(
                files[j],
                ".dSYM"@,
            ),
        !text::has_suffix(files[i], ".dwp"@) && !text::has_suffix(files[i], ".dSYM"@),
        files[i] == dir + seq!['/'] + (stem + seq!['-'] + hash + seq!['.'] + extension),
        !stem.contains('/') && !hash.contains('/') && !extension.contains('/'),
        !stem.contains('.') && !hash.contains('.') && !hash.contains('-'),
    ensures
        hash_in(files) == Some(hash),
{
    law_first_artifact_counts(files, i);
    let first = stem + seq!['-'] + hash;
    let name = first + seq!['.'] + extension;
    assert(!name.contains('/')) by {
        assert forall|j: int| 0 <= j < name.len() implies name[j] != '/' by {
            if j < stem.len() {
                assert(name[j] == stem[j]);
                assert(stem.contains(stem[j]));
            } else if stem.len() < j < first.len() {
                let k = j - stem.len() - 1;
                assert(name[j] == hash[k]);
                assert(hash.contains(hash[k]));
            } else if j > first.len() {
                let k = j - first.len() - 1;
                assert(name[j] == extension[k]);
                assert(extension.contains(extension[k]));
            }
        }
    }
    assert(!first.contains('.')) by {
        assert forall|j: int| 0 <= j < first.len() implies first[j] != '.' by {
            if j < stem.len() {
                assert(first[j] == stem[j]);
                assert(stem.contains(stem[j]));
            } else if j > stem.len() {
                let k = j - stem.len() - 1;
                assert(first[j] == hash[k]);
                assert(hash.contains(hash[k]));
            }
        }
    }
    text::law_text_is_parted_at_the_last(dir, name, '/');
    text::law_text_is_parted_at_the_first(first, extension, '.');
    text::law_text_is_parted_at_the_last(stem, hash, '-');
}

proof fn lemma_messages_are_filtered(
    lines: Seq<Seq<char>>,
    trim: spec_fn(Seq<char>) -> Seq<char>,
    keep: spec_fn(Seq<char>) -> bool,
)
    requires
        forall|l: Seq<char>| #[trigger] trim(l) == text::trimmed(l),
        forall|l: Seq<char>| #[trigger] keep(l) == (l.len() > 0),
    ensures
        messages_in(lines) == lines.map_values(trim).filter(keep),
    decreases lines.len(),
{
    reveal(Seq::filter);
    if lines.len() > 0 {
        let front = lines.drop_last();
        lemma_messages_are_filtered(front, trim, keep);
        assert(lines.map_values(trim).drop_last() =~= front.map_values(trim));
        assert(lines.map_values(trim).last() == trim(lines.last()));
        assert(keep(trim(lines.last())) == (text::trimmed(lines.last()).len() > 0));
    } else {
        assert(lines.map_values(trim).len() == 0);
    }
}

/// The messages are what the lines hold without the white space around it, in order,
/// where there is anything.
pub proof fn law_messages_are_the_lines_that_hold_anything(lines: Seq<Seq<char>>)
    ensures
        messages_in(lines) == lines.map_values(|l: Seq<char>| text::trimmed(l)).filter(
            |l: Seq<char>| l.len() > 0,
        ),
{
    lemma_messages_are_filtered(
        lines,
        |l: Seq<char>| text::trimmed(l),
        |l: Seq<char>| l.len() > 0,
    );
}

/// The text that fails is the first that is no message.
pub proof fn law_first_failure_counts(parsed: Seq<Option<CargoMessage>>, i: int)
    requires
        0 <= i <= parsed.len(),
        forall|j: int| 0 <= j < i ==> (#[trigger] parsed[j]) is Some,
        i < parsed.len() ==> parsed[i] is None,
    ensures
        first_failure(parsed) == i,
    decreases parsed.len(),
{
    if i > 0 {
        assert(parsed[0] is Some);
        let rest = parsed.skip(1);
        assert forall|j: int| 0 <= j < i - 1 implies (#[trigger] rest[j]) is Some by {
            assert(rest[j] == parsed[j + 1]);
        }
        law_first_failure_counts(rest, i - 1);
    }
}

proof fn lemma_hashes_in_order(
    messages: Seq<CargoMessage>,
    hash: spec_fn(CargoMessage) -> Option<Seq<char>>,
)
    requires
        forall|m: CargoMessage| #[trigger]
            hash(m) == (match m {
                CargoMessage::CompilerArtifact(artifact) => hash_in(
                    text::views(artifact.filenames@),
                ),
                _ => None,
            }),
    ensures
        artifact_hashes(messages) == messages.filter_map(hash),
    decreases messages.len(),
{
    if messages.len() > 0 {
        let front = messages.drop_last();
        lemma_hashes_in_order(front, hash);
        if let Some(h) = hash(messages.last()) {
            assert(front.filter_map(hash) + seq![h] =~= front.filter_map(hash).push(h));
        }
    }
}

/// The hashes of what was compiled come in the order of the messages, and messages of
/// other kinds have none.
pub proof fn law_hashes_come_in_order(messages: Seq<CargoMessage>)
    ensures
        artifact_hashes(messages) == messages.filter_map(
            |m: CargoMessage|
                match m {
                    CargoMessage::CompilerArtifact(artifact) => hash_in(
                        text::views(artifact.filenames@),
                    ),
                    _ => None,
                },
        ),
{
    lemma_hashes_in_order(
        messages,
        |m: CargoMessage|
            match m {
                CargoMessage::CompilerArtifact(artifact) => hash_in(
                    text::views(artifact.filenames@),
                ),
                _ => None,
            },
    );
}

/// Other crates link a target exactly where one of its kinds is `lib`, `rlib`, `cdylib` or
/// `proc-macro`.
pub proof fn law_what_other_crates_link(target: ArtifactTarget)
    ensures
        is_linked(target) <==> exists|i: int|
            0 <= i < target.kind@.len() && ({
                let kind = (#[trigger] target.kind@[i])@;
                ||| kind == "lib"@
                ||| kind == "rlib"@
                ||| kind == "cdylib"@
                ||| kind == "proc-macro"@
            }),
{
    let kinds = text::views(target.kind@);
    assert forall|i: int| 0 <= i < kinds.len() implies kinds[i] == (#[trigger] target.kind@[i])@ by {
    }
    if is_linked(target) {
        let name = if kinds.contains("lib"@) {
            "lib"@
        } else if kinds.contains("rlib"@) {
            "rlib"@
        } else if kinds.contains("cdylib"@) {
            "cdylib"@
        } else {
            "proc-macro"@
        };
        let i = choose|i: int| 0 <= i < kinds.len() && kinds[i] == name;
        assert(target.kind@[i]@ == name);
    }
}

} // verus!
