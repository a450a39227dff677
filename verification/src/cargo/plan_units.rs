//! Which invocations of a build plan are units, and which units they are.

use vstd::prelude::*;
use vstd::string::*;

use crate::cargo::build_plan;
use crate::cargo::build_plan::{BuildPlanInvocation, PlanError};
use crate::cargo::rustc;
use crate::cargo::unit_graph::CargoCompileMode;
use crate::cargo::units::build_script_compilation;
use crate::cargo::units::build_script_execution;
use crate::cargo::units::library_crate;
use crate::cargo::units::UnitFileError;
use crate::cargo::workspace;
use crate::cargo::workspace::{UnitPlanInfoView, UnitPlanView, Workspace};
use crate::path;
use crate::text;
use crate::vars;

verus! {

proof fn lemma_filtered_files(files: Seq<Seq<char>>, keep: spec_fn(Seq<char>) -> bool)
    requires
        forall|f: Seq<char>| #[trigger]
            keep(f) == !(text::has_suffix(f, ".dwp"@) || text::has_suffix(f, ".dSYM"@)),
    ensures
        build_plan::without_debug_files(files) == files.filter(keep),
    decreases files.len(),
{
    reveal(Seq::filter);
    if files.len() > 0 {
        lemma_filtered_files(files.drop_last(), keep);
        assert(keep(files.last()) == !build_plan::is_debug_file(files.last()));
    }
}

/// Of the files that an invocation writes, those that end with `.dwp` or `.dSYM` are left
/// out, and the others stay in their order.
pub proof fn law_debug_files_are_left_out(files: Seq<Seq<char>>)
    ensures
        build_plan::without_debug_files(files) == files.filter(
            |f: Seq<char>| !text::has_suffix(f, ".dwp"@) && !text::has_suffix(f, ".dSYM"@),
        ),
{
    lemma_filtered_files(
        files,
        |f: Seq<char>| !text::has_suffix(f, ".dwp"@) && !text::has_suffix(f, ".dSYM"@),
    );
}

proof fn lemma_filtered_deps(
    deps: Seq<usize>,
    hashes: Seq<Option<Seq<char>>>,
    keep: spec_fn(usize) -> bool,
    hash: spec_fn(usize) -> Seq<char>,
)
    requires
        forall|d: usize| #[trigger]
            keep(d) == (d < hashes.len() && hashes[d as int] is Some),
        forall|d: usize| #[trigger] hash(d) == hashes[d as int]->0,
    ensures
        build_plan::dep_hashes_of(deps, hashes) == deps.filter(keep).map_values(hash),
    decreases deps.len(),
{
    reveal(Seq::filter);
    if deps.len() > 0 {
        let front = deps.drop_last();
        lemma_filtered_deps(front, hashes, keep, hash);
        let d = deps.last();
        if keep(d) {
            assert(front.filter(keep).push(d).map_values(hash) =~= front.filter(keep).map_values(
                hash,
            ).push(hash(d)));
        }
    }
    assert(build_plan::dep_hashes_of(deps, hashes) =~= deps.filter(keep).map_values(hash));
}

/// The dependencies of a unit are the hashes of those invocations that it needs and that
/// are units, in their order.
pub proof fn law_dependencies_are_those_that_are_units(
    deps: Seq<usize>,
    hashes: Seq<Option<Seq<char>>>,
)
    ensures
        build_plan::dep_hashes_of(deps, hashes) == deps.filter(
            |d: usize| d < hashes.len() && hashes[d as int] is Some,
        ).map_values(|d: usize| hashes[d as int]->0),
{
    lemma_filtered_deps(
        deps,
        hashes,
        |d: usize| d < hashes.len() && hashes[d as int] is Some,
        |d: usize| hashes[d as int]->0,
    );
}

/// An invocation is left out where it is part of what the user asked to build, where it
/// runs outside of `$CARGO_HOME`, or where it builds nothing but a binary, and nowhere
/// else.
pub proof fn law_what_is_left_out(
    ws: Workspace,
    inv: BuildPlanInvocation,
    hashes: Seq<Option<Seq<char>>>,
)
    ensures
        ({
            let primary = vars::value_of(inv.env@, "CARGO_PRIMARY_PACKAGE"@) == Some("1"@);
            let absolute = inv.cwd@.len() > 0 && inv.cwd@[0] == '/';
            let inside = path::below(ws.cargo_home@, inv.cwd@) is Some;
            let kinds = inv.target_kind@;
            let unit = build_plan::unit_of(ws, inv, hashes);
            &&& unit == Ok::<Option<UnitPlanView>, PlanError>(None) <==> primary || absolute && (
            !inside || kinds.len() == 1 && kinds[0] is Bin)
            &&& unit == Err::<Option<UnitPlanView>, PlanError>(PlanError::CwdNotAbsolute)
                <==> !primary && !absolute
        }),
{
}

/// A dependency below `$CARGO_HOME` is a unit of the kind that its targets and its mode
/// tell: a lone build script is compiled or run, and whatever has a target of the kinds
/// `lib`, `rlib`, `cdylib` and `proc-macro` is a library crate. The kind of target is not
/// supported only where there is none of these, and neither a lone build script nor a
/// lone binary.
pub proof fn law_kinds_of_units(
    ws: Workspace,
    inv: BuildPlanInvocation,
    hashes: Seq<Option<Seq<char>>>,
)
    ensures
        ({
            let primary = vars::value_of(inv.env@, "CARGO_PRIMARY_PACKAGE"@) == Some("1"@);
            let absolute = inv.cwd@.len() > 0 && inv.cwd@[0] == '/';
            let inside = path::below(ws.cargo_home@, inv.cwd@) is Some;
            let kinds = inv.target_kind@;
            let script = kinds.len() == 1 && kinds[0] is CustomBuild;
            let binary = kinds.len() == 1 && kinds[0] is Bin;
            let library = exists|i: int|
                0 <= i < kinds.len() && (match #[trigger] kinds[i] {
                    build_plan::TargetKind::Lib => true,
                    build_plan::TargetKind::RLib => true,
                    build_plan::TargetKind::CDyLib => true,
                    build_plan::TargetKind::ProcMacro => true,
                    _ => false,
                });
            let unit = build_plan::unit_of(ws, inv, hashes);
            &&& unit == Err::<Option<UnitPlanView>, PlanError>(PlanError::TargetKind) <==> !primary
                && absolute && inside && !script && !binary && !library
            &&& unit == Err::<Option<UnitPlanView>, PlanError>(PlanError::BuildScriptMode) <==> (
            !primary && absolute && inside && script && inv.compile_mode != CargoCompileMode::Build
                && inv.compile_mode != CargoCompileMode::RunCustomBuild)
            &&& unit == Err::<Option<UnitPlanView>, PlanError>(PlanError::DependencyMode)
                <==> !primary && absolute && inside && !binary && library && inv.compile_mode
                != CargoCompileMode::Build
            &&& unit matches Ok(Some(u)) ==> {
                &&& !primary && absolute && inside
                &&& u is BuildScriptCompilation <==> script && inv.compile_mode
                    == CargoCompileMode::Build
                &&& u is BuildScriptExecution <==> script && inv.compile_mode
                    == CargoCompileMode::RunCustomBuild
                &&& u is LibraryCrate <==> library
            }
        }),
{
    let kinds = inv.target_kind@;
    assert(build_plan::links_as_library(kinds) == (exists|i: int|
        0 <= i < kinds.len() && (match #[trigger] kinds[i] {
            build_plan::TargetKind::Lib => true,
            build_plan::TargetKind::RLib => true,
            build_plan::TargetKind::CDyLib => true,
            build_plan::TargetKind::ProcMacro => true,
            _ => false,
        }))) by {
        if build_plan::links_as_library(kinds) {
            let i = choose|i: int|
                0 <= i < kinds.len() && ((#[trigger] kinds[i]) is Lib || kinds[i] is RLib
                    || kinds[i] is CDyLib || kinds[i] is ProcMacro);
            assert(match kinds[i] {
                build_plan::TargetKind::Lib => true,
                build_plan::TargetKind::RLib => true,
                build_plan::TargetKind::CDyLib => true,
                build_plan::TargetKind::ProcMacro => true,
                _ => false,
            });
        }
    }
    if kinds.len() == 1 && kinds[0] is CustomBuild {
        assert(!build_plan::links_as_library(kinds));
    }
}

/// What a unit has of its invocation: the package, its version, the platform and the
/// dependencies.
pub open spec fn is_info_of(
    info: UnitPlanInfoView,
    inv: BuildPlanInvocation,
    hashes: Seq<Option<Seq<char>>>,
) -> bool {
    &&& info.package_name == inv.package_name@
    &&& info.package_version == inv.package_version@
    &&& info.target_arch == inv.target_arch@
    &&& info.deps.len() == inv.deps@.len()
    &&& forall|i: int| 0 <= i < inv.deps@.len() ==> info.deps[i] == #[trigger] inv.deps@[i] as u32
    &&& info.dep_hashes == inv.deps@.filter(
        |d: usize| d < hashes.len() && hashes[d as int] is Some,
    ).map_values(|d: usize| hashes[d as int]->0)
}

proof fn lemma_info(
    inv: BuildPlanInvocation,
    unit_hash: Seq<char>,
    crate_name: Seq<char>,
    hashes: Seq<Option<Seq<char>>>,
)
    ensures
        ({
            let info = build_plan::info_of(inv, unit_hash, crate_name, hashes);
            &&& info.unit_hash == unit_hash
            &&& info.crate_name == crate_name
            &&& is_info_of(info, inv, hashes)
        }),
{
    law_dependencies_are_those_that_are_units(inv.deps@, hashes);
}

proof fn lemma_after_dash(stem: Seq<char>, hash: Seq<char>)
    requires
        !hash.contains('-'),
    ensures
        build_plan::after_dash(stem + "-"@ + hash) == Some(hash),
        build_plan::after_dash(hash) is None,
{
    reveal_strlit("-");
    assert("-"@ =~= seq!['-']);
    text::law_text_is_parted_at_the_last(stem, hash, '-');
}

/// A dependency below `$CARGO_HOME` whose targets have any of the kinds `lib`, `rlib`,
/// `cdylib` and `proc-macro`, and that is compiled to absolute files, is a library crate.
/// Its hash is what stands behind the last dash of the first file's name, up to the first
/// dot. It has the name behind the first `--crate-name`, and its source is the first
/// argument that is a Rust file, where that is absolute.
pub proof fn law_libraries_are_units(
    ws: Workspace,
    inv: BuildPlanInvocation,
    hashes: Seq<Option<Seq<char>>>,
    kind: int,
    stem: Seq<char>,
    hash: Seq<char>,
    extension: Seq<char>,
    flag: int,
    source: int,
)
    requires
        vars::value_of(inv.env@, "CARGO_PRIMARY_PACKAGE"@) != Some("1"@),
        inv.cwd@.len() > 0 && inv.cwd@[0] == '/',
        path::below(ws.cargo_home@, inv.cwd@) is Some,
        0 <= kind < inv.target_kind@.len(),
        match inv.target_kind@[kind] {
            build_plan::TargetKind::Lib => true,
            build_plan::TargetKind::RLib => true,
            build_plan::TargetKind::CDyLib => true,
            build_plan::TargetKind::ProcMacro => true,
            _ => false,
        },
        inv.compile_mode == CargoCompileMode::Build,
        ({
            let outputs = text::views(inv.outputs@).filter(
                |f: Seq<char>| !text::has_suffix(f, ".dwp"@) && !text::has_suffix(f, ".dSYM"@),
            );
            &&& outputs.len() > 0
            &&& forall|i: int|
                0 <= i < outputs.len() ==> (#[trigger] outputs[i]).len() > 0 && outputs[i][0]
                    == '/'
            &&& path::name_of(outputs[0]) == Some(stem + "-"@ + hash + "."@ + extension)
        }),
        !stem.contains('.') && !hash.contains('.') && !hash.contains('-'),
        ({
            let argv = text::views(inv.args.argv@);
            &&& 0 <= flag < argv.len() - 1
            &&& argv[flag] == "--crate-name"@
            &&& forall|j: int| 0 <= j < flag ==> #[trigger] argv[j] != "--crate-name"@
            &&& 0 <= source < argv.len()
            &&& text::has_suffix(argv[source], ".rs"@)
            &&& argv[source][0] == '/'
            &&& forall|j: int|
                0 <= j < source ==> !text::has_suffix(#[trigger] argv[j], ".rs"@)
                    || argv[j].len() > 0 && argv[j][0] == '-'
        }),
    ensures
        build_plan::unit_of(ws, inv, hashes) matches Ok(Some(UnitPlanView::LibraryCrate(plan)))
            && {
            &&& plan.info.unit_hash == hash
            &&& plan.info.crate_name == inv.args.argv@[flag + 1]@
            &&& is_info_of(plan.info, inv, hashes)
            &&& plan.src_path == inv.args.argv@[source]@
            &&& plan.outputs == text::views(inv.outputs@).filter(
                |f: Seq<char>| !text::has_suffix(f, ".dwp"@) && !text::has_suffix(f, ".dSYM"@),
            )
        },
{
    let argv = text::views(inv.args.argv@);
    law_debug_files_are_left_out(text::views(inv.outputs@));
    rustc::law_first_flag_counts(argv, "--crate-name"@, flag);
    reveal_strlit(".rs");
    rustc::law_first_rust_file_is_the_source(argv, source);
    let kinds = inv.target_kind@;
    assert(build_plan::links_as_library(kinds)) by {
        let k = kinds[kind];
        assert(k is Lib || k is RLib || k is CDyLib || k is ProcMacro);
    }
    reveal_strlit("-");
    reveal_strlit(".");
    assert("."@ =~= seq!['.']);
    let first = stem + "-"@ + hash;
    assert(!first.contains('.')) by {
        assert forall|j: int| 0 <= j < first.len() implies first[j] != '.' by {
            if j < stem.len() {
                assert(first[j] == stem[j]);
                assert(stem.contains(stem[j]));
            } else if j > stem.len() {
                assert(first[j] == hash[j - stem.len() - 1]);
                assert(hash.contains(hash[j - stem.len() - 1]));
            }
        }
    }
    text::law_text_is_parted_at_the_first(first, extension, '.');
    lemma_after_dash(stem, hash);
    lemma_info(inv, hash, argv[flag + 1], hashes);
}

/// What keeps a dependency that is a library from being a unit, in order: its mode, an
/// output that is not absolute, a crate name or a source file that is missing, a source
/// file that is not absolute, no outputs, and a first output whose name has no extension
/// or no hash.
pub proof fn law_libraries_that_are_no_units(
    ws: Workspace,
    inv: BuildPlanInvocation,
    hashes: Seq<Option<Seq<char>>>,
    kind: int,
)
    requires
        vars::value_of(inv.env@, "CARGO_PRIMARY_PACKAGE"@) != Some("1"@),
        inv.cwd@.len() > 0 && inv.cwd@[0] == '/',
        path::below(ws.cargo_home@, inv.cwd@) is Some,
        0 <= kind < inv.target_kind@.len(),
        match inv.target_kind@[kind] {
            build_plan::TargetKind::Lib => true,
            build_plan::TargetKind::RLib => true,
            build_plan::TargetKind::CDyLib => true,
            build_plan::TargetKind::ProcMacro => true,
            _ => false,
        },
    ensures
        ({
            let outputs = text::views(inv.outputs@).filter(
                |f: Seq<char>| !text::has_suffix(f, ".dwp"@) && !text::has_suffix(f, ".dSYM"@),
            );
            let argv = text::views(inv.args.argv@);
            let relative = exists|i: int|
                0 <= i < outputs.len() && ((#[trigger] outputs[i]).len() == 0 || outputs[i][0]
                    != '/');
            let name = rustc::flag_value(argv, "--crate-name"@);
            let source = rustc::source_argument(argv);
            let built = inv.compile_mode == CargoCompileMode::Build;
            let unit = build_plan::unit_of(ws, inv, hashes);
            &&& !built <==> unit == Err::<Option<UnitPlanView>, PlanError>(
                PlanError::DependencyMode,
            )
            &&& built && relative <==> unit == Err::<Option<UnitPlanView>, PlanError>(
                PlanError::OutputNotAbsolute,
            )
            &&& built && !relative && name is None <==> unit == Err::<
                Option<UnitPlanView>,
                PlanError,
            >(PlanError::NoCrateName)
            &&& built && !relative && name is Some && source is None <==> unit == Err::<
                Option<UnitPlanView>,
                PlanError,
            >(PlanError::NoSourceFile)
            &&& built && !relative && name is Some && source is Some && (source->0.len() == 0
                || source->0[0] != '/') <==> unit == Err::<Option<UnitPlanView>, PlanError>(
                PlanError::SourceNotAbsolute,
            )
            &&& built && !relative && name is Some && source is Some && source->0.len() > 0
                && source->0[0] == '/' ==> {
                &&& outputs.len() == 0 <==> unit == Err::<Option<UnitPlanView>, PlanError>(
                    PlanError::NoOutputs,
                )
                &&& outputs.len() > 0 && path::name_of(outputs[0]) is None <==> unit == Err::<
                    Option<UnitPlanView>,
                    PlanError,
                >(PlanError::OutputNoName)
                &&& outputs.len() > 0 && path::name_of(outputs[0]) is Some ==> {
                    let file = path::name_of(outputs[0])->0;
                    &&& !file.contains('.') <==> unit == Err::<Option<UnitPlanView>, PlanError>(
                        PlanError::OutputNoExtension,
                    )
                    &&& file.contains('.') && !file.take(text::find(file, '.')).contains('-')
                        <==> unit == Err::<Option<UnitPlanView>, PlanError>(
                        PlanError::OutputNoHash,
                    )
                }
            }
        }),
{
    let argv = text::views(inv.args.argv@);
    law_debug_files_are_left_out(text::views(inv.outputs@));
    let kinds = inv.target_kind@;
    assert(build_plan::links_as_library(kinds)) by {
        let k = kinds[kind];
        assert(k is Lib || k is RLib || k is CDyLib || k is ProcMacro);
    }
    let outputs = build_plan::without_debug_files(text::views(inv.outputs@));
    if outputs.len() > 0 {
        if let Some(file) = path::name_of(outputs[0]) {
            text::lemma_find(file, '.');
            let stem = file.take(text::find(file, '.'));
            text::lemma_rfind(stem, '-');
            if file.contains('.') {
                let j = choose|j: int| 0 <= j < file.len() && file[j] == '.';
                assert(text::find(file, '.') < file.len());
            } else if text::find(file, '.') < file.len() {
                assert(file.contains(file[text::find(file, '.')]));
            }
            if stem.contains('-') {
                let j = choose|j: int| 0 <= j < stem.len() && stem[j] == '-';
                assert(text::rfind(stem, '-') >= 0);
            } else if text::rfind(stem, '-') >= 0 {
                assert(stem.contains(stem[text::rfind(stem, '-')]));
            }
        }
    }
}

/// A lone build script of a dependency that is compiled, for the host, to one program
/// with one hard link, each where Cargo puts it, is a unit that compiles a build script.
/// Its hash is what stands behind the last dash of the program's name.
pub proof fn law_compiled_scripts_are_units(
    ws: Workspace,
    inv: BuildPlanInvocation,
    hashes: Seq<Option<Seq<char>>>,
    stem: Seq<char>,
    hash: Seq<char>,
    entry: Seq<char>,
    flag: int,
    source: int,
    program: Seq<char>,
    link: Seq<char>,
)
    requires
        vars::value_of(inv.env@, "CARGO_PRIMARY_PACKAGE"@) != Some("1"@),
        inv.cwd@.len() > 0 && inv.cwd@[0] == '/',
        path::below(ws.cargo_home@, inv.cwd@) is Some,
        inv.target_kind@.len() == 1 && inv.target_kind@[0] is CustomBuild,
        inv.compile_mode == CargoCompileMode::Build,
        inv.target_arch@ is None,
        inv.package_name@.len() == 0 || inv.package_name@[0] != '/',
        text::views(inv.outputs@).filter(
            |f: Seq<char>| !text::has_suffix(f, ".dwp"@) && !text::has_suffix(f, ".dSYM"@),
        ) == seq![program],
        Seq::new(inv.links@.len(), |i: int| inv.links@[i].0@).filter(
            |f: Seq<char>| !text::has_suffix(f, ".dwp"@) && !text::has_suffix(f, ".dSYM"@),
        ) == seq![link],
        program.len() > 0 && program[0] == '/',
        link.len() > 0 && link[0] == '/',
        path::name_of(program) == Some(stem + "-"@ + hash),
        !hash.contains('-'),
        ({
            let argv = text::views(inv.args.argv@);
            &&& 0 <= flag < argv.len() - 1
            &&& argv[flag] == "--crate-name"@
            &&& forall|j: int| 0 <= j < flag ==> #[trigger] argv[j] != "--crate-name"@
            &&& 0 <= source < argv.len()
            &&& text::has_suffix(argv[source], ".rs"@)
            &&& argv[source][0] == '/'
            &&& forall|j: int|
                0 <= j < source ==> !text::has_suffix(#[trigger] argv[j], ".rs"@)
                    || argv[j].len() > 0 && argv[j][0] == '-'
            &&& path::name_of(argv[source]) == Some(entry + ".rs"@)
        }),
        ({
            let profile = path::join(ws.build_dir@, ws.profile@);
            let build = "build/"@ + (inv.package_name@ + "-"@ + hash);
            let module = Seq::new(
                entry.len(),
                |i: int|
                    if entry[i] == '-' {
                        '_'
                    } else {
                        entry[i]
                    },
            );
            &&& path::below(profile, program) matches Some(rel) && path::components(rel)
                == path::components(path::join(build, "build_script_"@ + module + "-"@ + hash))
            &&& path::below(profile, link) matches Some(rel) && path::components(rel)
                == path::components(path::join(build, "build-script-"@ + entry))
        }),
    ensures
        build_plan::unit_of(ws, inv, hashes) matches Ok(
            Some(UnitPlanView::BuildScriptCompilation(plan)),
        ) && {
            &&& plan.info.unit_hash == hash
            &&& plan.info.crate_name == inv.args.argv@[flag + 1]@
            &&& is_info_of(plan.info, inv, hashes)
            &&& plan.src_path == inv.args.argv@[source]@
        },
{
    let argv = text::views(inv.args.argv@);
    law_debug_files_are_left_out(text::views(inv.outputs@));
    law_debug_files_are_left_out(build_plan::keys_of(inv.links@));
    assert(build_plan::keys_of(inv.links@) =~= Seq::new(
        inv.links@.len(),
        |i: int| inv.links@[i].0@,
    ));
    rustc::law_first_flag_counts(argv, "--crate-name"@, flag);
    reveal_strlit(".rs");
    rustc::law_first_rust_file_is_the_source(argv, source);
    lemma_after_dash(stem, hash);
    lemma_info(inv, hash, argv[flag + 1], hashes);
    let unit = build_script_compilation::BuildScriptCompilationUnitPlanView {
        info: build_plan::info_of(inv, hash, argv[flag + 1], hashes),
        src_path: argv[source],
    };
    build_script_compilation::law_files_have_the_names_of_cargo(unit, entry);
}

/// A compiled build script is no unit where the invocation does not write exactly one
/// program, or does not have exactly one link to it, besides debugging files; where
/// either is not where Cargo puts it; or where it is compiled for a platform that was
/// asked for, because it runs on the host.
pub proof fn law_compiled_scripts_that_are_no_units(
    ws: Workspace,
    inv: BuildPlanInvocation,
    hashes: Seq<Option<Seq<char>>>,
)
    requires
        vars::value_of(inv.env@, "CARGO_PRIMARY_PACKAGE"@) != Some("1"@),
        inv.cwd@.len() > 0 && inv.cwd@[0] == '/',
        path::below(ws.cargo_home@, inv.cwd@) is Some,
        inv.target_kind@.len() == 1 && inv.target_kind@[0] is CustomBuild,
        inv.compile_mode == CargoCompileMode::Build,
    ensures
        ({
            let outputs = text::views(inv.outputs@).filter(
                |f: Seq<char>| !text::has_suffix(f, ".dwp"@) && !text::has_suffix(f, ".dSYM"@),
            );
            let links = Seq::new(inv.links@.len(), |i: int| inv.links@[i].0@).filter(
                |f: Seq<char>| !text::has_suffix(f, ".dwp"@) && !text::has_suffix(f, ".dSYM"@),
            );
            let profile = path::join(ws.build_dir@, ws.profile@);
            let unit = build_plan::unit_of(ws, inv, hashes);
            &&& outputs.len() != 1 <==> unit == Err::<Option<UnitPlanView>, PlanError>(
                PlanError::OutputCount,
            )
            &&& outputs.len() == 1 && !(outputs[0].len() > 0 && outputs[0][0] == '/') <==> unit
                == Err::<Option<UnitPlanView>, PlanError>(PlanError::OutputNotAbsolute)
            &&& outputs.len() == 1 && outputs[0].len() > 0 && outputs[0][0] == '/' ==> {
                &&& links.len() != 1 <==> unit == Err::<Option<UnitPlanView>, PlanError>(
                    PlanError::LinkCount,
                )
                &&& links.len() == 1 && !(links[0].len() > 0 && links[0][0] == '/') <==> unit
                    == Err::<Option<UnitPlanView>, PlanError>(PlanError::LinkNotAbsolute)
            }
            &&& inv.target_arch@ is Some ==> unit is Err
            &&& unit is Ok ==> {
                &&& outputs.len() == 1 && links.len() == 1
                &&& path::below(profile, outputs[0]) is Some
                &&& path::below(profile, links[0]) is Some
                &&& inv.target_arch@ is None
                &&& unit matches Ok(Some(UnitPlanView::BuildScriptCompilation(plan))) && {
                    &&& plan.program_file() is Ok && plan.linked_program_file() is Ok
                    &&& path::components(path::below(profile, outputs[0])->0) == path::components(
                        plan.program_file()->Ok_0,
                    )
                    &&& path::components(path::below(profile, links[0])->0) == path::components(
                        plan.linked_program_file()->Ok_0,
                    )
                }
            }
        }),
{
    law_debug_files_are_left_out(text::views(inv.outputs@));
    law_debug_files_are_left_out(build_plan::keys_of(inv.links@));
    assert(build_plan::keys_of(inv.links@) =~= Seq::new(
        inv.links@.len(),
        |i: int| inv.links@[i].0@,
    ));
}

/// A lone build script of a dependency that is run, with an output directory where Cargo
/// puts it, is a unit that runs a build script. Its hash is what stands behind the last
/// dash of the name of the directory that holds the output directory. It has the name of
/// the program, and as a crate that name with underscores for dashes.
pub proof fn law_script_runs_are_units(
    ws: Workspace,
    inv: BuildPlanInvocation,
    hashes: Seq<Option<Seq<char>>>,
    var: int,
    unit_dir: Seq<char>,
    stem: Seq<char>,
    hash: Seq<char>,
    program: Seq<char>,
)
    requires
        vars::value_of(inv.env@, "CARGO_PRIMARY_PACKAGE"@) != Some("1"@),
        inv.cwd@.len() > 0 && inv.cwd@[0] == '/',
        path::below(ws.cargo_home@, inv.cwd@) is Some,
        inv.target_kind@.len() == 1 && inv.target_kind@[0] is CustomBuild,
        inv.compile_mode == CargoCompileMode::RunCustomBuild,
        inv.package_name@.len() == 0 || inv.package_name@[0] != '/',
        inv.program@.len() > 0 && inv.program@[0] == '/',
        path::name_of(inv.program@) == Some(program),
        0 <= var < inv.env@.len(),
        inv.env@[var].0@ == "OUT_DIR"@,
        forall|j: int| 0 <= j < var ==> (#[trigger] inv.env@[j]).0@ != "OUT_DIR"@,
        ({
            let out_dir = inv.env@[var].1@;
            let profile = match inv.target_arch@ {
                None => path::join(ws.build_dir@, ws.profile@),
                Some(triple) => path::join(path::join(ws.build_dir@, triple), ws.profile@),
            };
            let build = "build/"@ + (inv.package_name@ + "-"@ + hash);
            &&& out_dir.len() > 0 && out_dir[0] == '/'
            &&& path::parent_of(out_dir) == Some(unit_dir)
            &&& path::below(profile, out_dir) matches Some(rel) && path::components(rel)
                == path::components(path::join(build, "out"@))
        }),
        path::name_of(unit_dir) == Some(stem + "-"@ + hash),
        !hash.contains('-'),
    ensures
        build_plan::unit_of(ws, inv, hashes) matches Ok(
            Some(UnitPlanView::BuildScriptExecution(plan)),
        ) && {
            &&& plan.info.unit_hash == hash
            &&& plan.info.crate_name == Seq::new(
                program.len(),
                |i: int|
                    if program[i] == '-' {
                        '_'
                    } else {
                        program[i]
                    },
            )
            &&& is_info_of(plan.info, inv, hashes)
            &&& plan.build_script_program_name == program
        },
{
    vars::law_first_entry_counts(inv.env@, "OUT_DIR"@, var);
    lemma_after_dash(stem, hash);
    let crate_name = text::replaced(program, '-', '_');
    assert(crate_name =~= Seq::new(
        program.len(),
        |i: int|
            if program[i] == '-' {
                '_'
            } else {
                program[i]
            },
    ));
    lemma_info(inv, hash, crate_name, hashes);
    let unit = build_script_execution::BuildScriptExecutionUnitPlanView {
        info: build_plan::info_of(inv, hash, crate_name, hashes),
        build_script_program_name: program,
    };
    build_script_execution::law_files_have_the_names_of_cargo(unit);
}

/// What keeps a build script that is run from being a unit: a program that is not
/// absolute, an output directory that is not given or not absolute, and one that is not
/// where Cargo puts it.
pub proof fn law_script_runs_that_are_no_units(
    ws: Workspace,
    inv: BuildPlanInvocation,
    hashes: Seq<Option<Seq<char>>>,
)
    requires
        vars::value_of(inv.env@, "CARGO_PRIMARY_PACKAGE"@) != Some("1"@),
        inv.cwd@.len() > 0 && inv.cwd@[0] == '/',
        path::below(ws.cargo_home@, inv.cwd@) is Some,
        inv.target_kind@.len() == 1 && inv.target_kind@[0] is CustomBuild,
        inv.compile_mode == CargoCompileMode::RunCustomBuild,
    ensures
        ({
            let out_dir = vars::value_of(inv.env@, "OUT_DIR"@);
            let profile = match inv.target_arch@ {
                None => path::join(ws.build_dir@, ws.profile@),
                Some(triple) => path::join(path::join(ws.build_dir@, triple), ws.profile@),
            };
            let absolute = inv.program@.len() > 0 && inv.program@[0] == '/';
            let unit = build_plan::unit_of(ws, inv, hashes);
            &&& !absolute <==> unit == Err::<Option<UnitPlanView>, PlanError>(
                PlanError::ProgramNotAbsolute,
            )
            &&& absolute && out_dir is None <==> unit == Err::<Option<UnitPlanView>, PlanError>(
                PlanError::NoOutDir,
            )
            &&& absolute && out_dir is Some && !(out_dir->0.len() > 0 && out_dir->0[0] == '/')
                <==> unit == Err::<Option<UnitPlanView>, PlanError>(PlanError::OutDirNotAbsolute)
            &&& unit is Ok ==> {
                &&& path::below(profile, out_dir->0) is Some
                &&& unit matches Ok(Some(UnitPlanView::BuildScriptExecution(plan))) && {
                    &&& plan.out_dir() is Ok
                    &&& path::components(path::below(profile, out_dir->0)->0) == path::components(
                        plan.out_dir()->Ok_0,
                    )
                }
            }
        }),
{
}

/// The units of a build plan follow its invocations: each invocation that is a unit, with
/// the hashes of those before it, gives the unit that has as many units before it as the
/// invocation. An invocation is known by the hash of its unit, and one that is left out
/// is not.
pub proof fn law_units_follow_the_plan(ws: Workspace, invs: Seq<BuildPlanInvocation>, i: int)
    requires
        build_plan::units_of(ws, invs) is Ok,
        0 <= i < invs.len(),
    ensures
        ({
            let (units, hashes) = build_plan::units_of(ws, invs)->Ok_0;
            let is_unit = |h: Option<Seq<char>>| h is Some;
            let before = hashes.take(i).filter(is_unit).len() as int;
            &&& hashes.len() == invs.len()
            &&& units.len() == hashes.filter(is_unit).len()
            &&& match build_plan::unit_of(ws, invs[i], hashes.take(i)) {
                Err(_) => false,
                Ok(None) => hashes[i] is None,
                Ok(Some(u)) => {
                    &&& before < units.len()
                    &&& units[before] == u
                    &&& hashes[i] == Some(u.info().unit_hash)
                },
            }
        }),
{
    lemma_units_follow_the_plan(ws, invs, i, |h: Option<Seq<char>>| h is Some);
}

#[verifier::spinoff_prover]
#[verifier::rlimit(60)]
proof fn lemma_units_follow_the_plan(
    ws: Workspace,
    invs: Seq<BuildPlanInvocation>,
    i: int,
    is_unit: spec_fn(Option<Seq<char>>) -> bool,
)
    requires
        build_plan::units_of(ws, invs) is Ok,
        0 <= i <= invs.len(),
        forall|h: Option<Seq<char>>| #[trigger] is_unit(h) == h is Some,
    ensures
        ({
            let (units, hashes) = build_plan::units_of(ws, invs)->Ok_0;
            let before = hashes.take(i).filter(is_unit).len() as int;
            &&& hashes.len() == invs.len()
            &&& units.len() == hashes.filter(is_unit).len()
            &&& i < invs.len() ==> match build_plan::unit_of(ws, invs[i], hashes.take(i)) {
                Err(_) => false,
                Ok(None) => hashes[i] is None,
                Ok(Some(u)) => {
                    &&& before < units.len()
                    &&& units[before] == u
                    &&& hashes[i] == Some(u.info().unit_hash)
                },
            }
        }),
    decreases invs.len(),
{
    reveal(Seq::filter);
    if invs.len() > 0 {
        let (units, hashes) = build_plan::units_of(ws, invs)->Ok_0;
        let (units0, hashes0) = build_plan::units_of(ws, invs.drop_last())->Ok_0;
        if i < invs.len() - 1 {
            lemma_units_follow_the_plan(ws, invs.drop_last(), i, is_unit);
            assert(invs.drop_last()[i] == invs[i]);
            assert(hashes.take(i) =~= hashes0.take(i));
        } else {
            lemma_units_follow_the_plan(
                ws,
                invs.drop_last(),
                invs.drop_last().len() as int,
                is_unit,
            );
            assert(hashes.take(invs.len() - 1) =~= hashes0);
        }
        assert(hashes.drop_last() =~= hashes0);
    } else {
        assert(build_plan::units_of(ws, invs)->Ok_0.1.filter(is_unit).len() == 0);
    }
}

/// A build plan has no units where one of its invocations has an error, and the error is
/// that of the first such invocation.
pub proof fn law_first_error_counts(ws: Workspace, invs: Seq<BuildPlanInvocation>, i: int)
    requires
        0 <= i < invs.len(),
        build_plan::units_of(ws, invs.take(i)) is Ok,
    ensures
        build_plan::unit_of(ws, invs[i], build_plan::units_of(ws, invs.take(i))->Ok_0.1)
            matches Err(e) ==> build_plan::units_of(ws, invs) == Err::<
            (Seq<UnitPlanView>, Seq<Option<Seq<char>>>),
            PlanError,
        >(e),
    decreases invs.len(),
{
    if i == invs.len() - 1 {
        assert(invs.take(i) =~= invs.drop_last());
    } else {
        assert(invs.drop_last().take(i) =~= invs.take(i));
        law_first_error_counts(ws, invs.drop_last(), i);
    }
}

/// A kind of target is written down by its own name, and found again by it.
pub proof fn law_names_of_kinds(kind: build_plan::TargetKind)
    ensures
        kind is Bench ==> build_plan::kind_name(kind) == "bench"@,
        kind is Bin ==> build_plan::kind_name(kind) == "bin"@,
        kind is CustomBuild ==> build_plan::kind_name(kind) == "custom-build"@,
        kind is CDyLib ==> build_plan::kind_name(kind) == "cdylib"@,
        kind is DyLib ==> build_plan::kind_name(kind) == "dylib"@,
        kind is Example ==> build_plan::kind_name(kind) == "example"@,
        kind is Lib ==> build_plan::kind_name(kind) == "lib"@,
        kind is ProcMacro ==> build_plan::kind_name(kind) == "proc-macro"@,
        kind is RLib ==> build_plan::kind_name(kind) == "rlib"@,
        kind is StaticLib ==> build_plan::kind_name(kind) == "staticlib"@,
        kind is Test ==> build_plan::kind_name(kind) == "test"@,
        !(kind is Unknown) ==> build_plan::is_kind_name(build_plan::kind_name(kind)),
{
}

/// What Cargo writes has to lie below the directory of the profile, in the place of its file.
/// A file without a place is told first, then one outside that directory, and then one
/// elsewhere in it.
pub proof fn law_outputs_lie_in_their_places(
    profile_dir: Seq<char>,
    actual: Seq<char>,
    file: Seq<char>,
    error: UnitFileError,
    mismatch: PlanError,
)
    ensures
        build_plan::check_place(profile_dir, actual, Err(error), mismatch) == Some(
            PlanError::UnitFile(error),
        ),
        path::below(profile_dir, actual) is None ==> build_plan::check_place(
            profile_dir,
            actual,
            Ok(file),
            mismatch,
        ) == Some(PlanError::OutsideProfileDir),
        path::below(profile_dir, actual) matches Some(rel) ==> {
            let same = path::components(file) == path::components(rel);
            &&& same ==> build_plan::check_place(profile_dir, actual, Ok(file), mismatch) is None
            &&& !same ==> build_plan::check_place(profile_dir, actual, Ok(file), mismatch) == Some(
                mismatch,
            )
        },
{
}

/// A name has a part after its last dash exactly where it has a dash.
proof fn lemma_has_dash(name: Seq<char>)
    ensures
        build_plan::after_dash(name) is Some <==> name.contains('-'),
{
    text::lemma_rfind(name, '-');
    if name.contains('-') {
        let j = choose|j: int| 0 <= j < name.len() && name[j] == '-';
        assert(text::rfind(name, '-') >= 0);
    } else if text::rfind(name, '-') >= 0 {
        assert(name.contains(name[text::rfind(name, '-')]));
    }
}

/// Which error comes where the names of a build script that is run do not tell its unit: the
/// output directory must have a parent, the parent a name, that name a dash, and the program
/// a name. The first of these that is missing is told.
pub proof fn law_names_that_tell_no_script_run(
    ws: Workspace,
    inv: BuildPlanInvocation,
    hashes: Seq<Option<Seq<char>>>,
    out_dir: Seq<char>,
)
    requires
        vars::value_of(inv.env@, "CARGO_PRIMARY_PACKAGE"@) != Some("1"@),
        inv.cwd@.len() > 0 && inv.cwd@[0] == '/',
        path::below(ws.cargo_home@, inv.cwd@) is Some,
        inv.target_kind@.len() == 1 && inv.target_kind@[0] is CustomBuild,
        inv.compile_mode == CargoCompileMode::RunCustomBuild,
        inv.program@.len() > 0 && inv.program@[0] == '/',
        vars::value_of(inv.env@, "OUT_DIR"@) == Some(out_dir),
        out_dir.len() > 0 && out_dir[0] == '/',
    ensures
        ({
            let unit = build_plan::unit_of(ws, inv, hashes);
            let parent = path::parent_of(out_dir);
            &&& parent is None <==> unit == Err::<Option<UnitPlanView>, PlanError>(
                PlanError::OutDirNoParent,
            )
            &&& parent is Some && path::name_of(parent->0) is None <==> unit == Err::<
                Option<UnitPlanView>,
                PlanError,
            >(PlanError::UnitDirNoName)
            &&& parent is Some && path::name_of(parent->0) is Some ==> {
                let name = path::name_of(parent->0)->0;
                &&& !name.contains('-') <==> unit == Err::<Option<UnitPlanView>, PlanError>(
                    PlanError::UnitDirNoHash,
                )
                &&& name.contains('-') && path::name_of(inv.program@) is None <==> unit == Err::<
                    Option<UnitPlanView>,
                    PlanError,
                >(PlanError::ProgramNoName)
            }
        }),
{
    if let Some(unit_dir) = path::parent_of(out_dir) {
        if let Some(name) = path::name_of(unit_dir) {
            lemma_has_dash(name);
        }
    }
}

/// Which error comes where a build script is run elsewhere than Cargo runs it: one for an
/// output directory outside of the directory of the profile, and another for one inside it.
pub proof fn law_script_runs_in_wrong_places(
    ws: Workspace,
    inv: BuildPlanInvocation,
    hashes: Seq<Option<Seq<char>>>,
    out_dir: Seq<char>,
    unit_dir: Seq<char>,
    stem: Seq<char>,
    hash: Seq<char>,
    program: Seq<char>,
)
    requires
        vars::value_of(inv.env@, "CARGO_PRIMARY_PACKAGE"@) != Some("1"@),
        inv.cwd@.len() > 0 && inv.cwd@[0] == '/',
        path::below(ws.cargo_home@, inv.cwd@) is Some,
        inv.target_kind@.len() == 1 && inv.target_kind@[0] is CustomBuild,
        inv.compile_mode == CargoCompileMode::RunCustomBuild,
        inv.package_name@.len() == 0 || inv.package_name@[0] != '/',
        inv.program@.len() > 0 && inv.program@[0] == '/',
        path::name_of(inv.program@) == Some(program),
        vars::value_of(inv.env@, "OUT_DIR"@) == Some(out_dir),
        out_dir.len() > 0 && out_dir[0] == '/',
        path::parent_of(out_dir) == Some(unit_dir),
        path::name_of(unit_dir) == Some(stem + "-"@ + hash),
        !hash.contains('-'),
    ensures
        ({
            let profile = match inv.target_arch@ {
                None => path::join(ws.build_dir@, ws.profile@),
                Some(triple) => path::join(path::join(ws.build_dir@, triple), ws.profile@),
            };
            let build = "build/"@ + (inv.package_name@ + "-"@ + hash);
            let unit = build_plan::unit_of(ws, inv, hashes);
            &&& path::below(profile, out_dir) is None <==> unit == Err::<
                Option<UnitPlanView>,
                PlanError,
            >(PlanError::OutsideProfileDir)
            &&& (path::below(profile, out_dir) matches Some(rel) && path::components(rel)
                != path::components(path::join(build, "out"@))) <==> unit == Err::<
                Option<UnitPlanView>,
                PlanError,
            >(PlanError::OutDirMismatch)
        }),
{
    lemma_after_dash(stem, hash);
    let unit = build_script_execution::BuildScriptExecutionUnitPlanView {
        info: build_plan::info_of(inv, hash, text::replaced(program, '-', '_'), hashes),
        build_script_program_name: program,
    };
    build_script_execution::law_files_have_the_names_of_cargo(unit);
}

/// Which error comes where a build script that is compiled does not tell its unit: its program
/// must have a name, the name a dash, the arguments a crate name and an absolute source file,
/// and no platform may be asked for. The first of these that is not so is told.
pub proof fn law_names_that_tell_no_compiled_script(
    ws: Workspace,
    inv: BuildPlanInvocation,
    hashes: Seq<Option<Seq<char>>>,
    program: Seq<char>,
    link: Seq<char>,
)
    requires
        vars::value_of(inv.env@, "CARGO_PRIMARY_PACKAGE"@) != Some("1"@),
        inv.cwd@.len() > 0 && inv.cwd@[0] == '/',
        path::below(ws.cargo_home@, inv.cwd@) is Some,
        inv.target_kind@.len() == 1 && inv.target_kind@[0] is CustomBuild,
        inv.compile_mode == CargoCompileMode::Build,
        text::views(inv.outputs@).filter(
            |f: Seq<char>| !text::has_suffix(f, ".dwp"@) && !text::has_suffix(f, ".dSYM"@),
        ) == seq![program],
        Seq::new(inv.links@.len(), |i: int| inv.links@[i].0@).filter(
            |f: Seq<char>| !text::has_suffix(f, ".dwp"@) && !text::has_suffix(f, ".dSYM"@),
        ) == seq![link],
        program.len() > 0 && program[0] == '/',
        link.len() > 0 && link[0] == '/',
    ensures
        ({
            let argv = text::views(inv.args.argv@);
            let named = path::name_of(program);
            let known = named is Some && named->0.contains('-');
            let name = rustc::flag_value(argv, "--crate-name"@);
            let source = rustc::source_argument(argv);
            let unit = build_plan::unit_of(ws, inv, hashes);
            &&& named is None <==> unit == Err::<Option<UnitPlanView>, PlanError>(
                PlanError::ProgramNoName,
            )
            &&& named is Some && !known <==> unit == Err::<Option<UnitPlanView>, PlanError>(
                PlanError::ProgramNoHash,
            )
            &&& known && name is None <==> unit == Err::<Option<UnitPlanView>, PlanError>(
                PlanError::NoCrateName,
            )
            &&& known && name is Some && source is None <==> unit == Err::<
                Option<UnitPlanView>,
                PlanError,
            >(PlanError::NoSourceFile)
            &&& known && name is Some && source is Some && (source->0.len() == 0 || source->0[0]
                != '/') <==> unit == Err::<Option<UnitPlanView>, PlanError>(
                PlanError::SourceNotAbsolute,
            )
            &&& known && name is Some && source is Some && source->0.len() > 0 && source->0[0]
                == '/' && inv.target_arch@ is Some <==> unit == Err::<
                Option<UnitPlanView>,
                PlanError,
            >(PlanError::SpecifiedTarget)
        }),
{
    law_debug_files_are_left_out(text::views(inv.outputs@));
    law_debug_files_are_left_out(build_plan::keys_of(inv.links@));
    assert(build_plan::keys_of(inv.links@) =~= Seq::new(
        inv.links@.len(),
        |i: int| inv.links@[i].0@,
    ));
    if let Some(name) = path::name_of(program) {
        lemma_has_dash(name);
    }
}

/// Which error comes where a compiled build script, or the link to it, is elsewhere than Cargo
/// puts it. The program is looked at first.
pub proof fn law_compiled_scripts_in_wrong_places(
    ws: Workspace,
    inv: BuildPlanInvocation,
    hashes: Seq<Option<Seq<char>>>,
    stem: Seq<char>,
    hash: Seq<char>,
    entry: Seq<char>,
    source: Seq<char>,
    program: Seq<char>,
    link: Seq<char>,
)
    requires
        vars::value_of(inv.env@, "CARGO_PRIMARY_PACKAGE"@) != Some("1"@),
        inv.cwd@.len() > 0 && inv.cwd@[0] == '/',
        path::below(ws.cargo_home@, inv.cwd@) is Some,
        inv.target_kind@.len() == 1 && inv.target_kind@[0] is CustomBuild,
        inv.compile_mode == CargoCompileMode::Build,
        inv.target_arch@ is None,
        inv.package_name@.len() == 0 || inv.package_name@[0] != '/',
        text::views(inv.outputs@).filter(
            |f: Seq<char>| !text::has_suffix(f, ".dwp"@) && !text::has_suffix(f, ".dSYM"@),
        ) == seq![program],
        Seq::new(inv.links@.len(), |i: int| inv.links@[i].0@).filter(
            |f: Seq<char>| !text::has_suffix(f, ".dwp"@) && !text::has_suffix(f, ".dSYM"@),
        ) == seq![link],
        program.len() > 0 && program[0] == '/',
        link.len() > 0 && link[0] == '/',
        path::name_of(program) == Some(stem + "-"@ + hash),
        !hash.contains('-'),
        rustc::flag_value(text::views(inv.args.argv@), "--crate-name"@) is Some,
        rustc::source_argument(text::views(inv.args.argv@)) == Some(source),
        source.len() > 0 && source[0] == '/',
        path::name_of(source) == Some(entry + ".rs"@),
    ensures
        ({
            let profile = path::join(ws.build_dir@, ws.profile@);
            let build = "build/"@ + (inv.package_name@ + "-"@ + hash);
            let module = Seq::new(
                entry.len(),
                |i: int|
                    if entry[i] == '-' {
                        '_'
                    } else {
                        entry[i]
                    },
            );
            let there = path::below(profile, program);
            let linked = path::below(profile, link);
            let in_place = there is Some && path::components(there->0) == path::components(
                path::join(build, "build_script_"@ + module + "-"@ + hash),
            );
            let link_in_place = linked is Some && path::components(linked->0) == path::components(
                path::join(build, "build-script-"@ + entry),
            );
            let unit = build_plan::unit_of(ws, inv, hashes);
            &&& there is None ==> unit == Err::<Option<UnitPlanView>, PlanError>(
                PlanError::OutsideProfileDir,
            )
            &&& there is Some && !in_place <==> unit == Err::<Option<UnitPlanView>, PlanError>(
                PlanError::ProgramMismatch,
            )
            &&& in_place && linked is None ==> unit == Err::<Option<UnitPlanView>, PlanError>(
                PlanError::OutsideProfileDir,
            )
            &&& in_place && linked is Some && !link_in_place <==> unit == Err::<
                Option<UnitPlanView>,
                PlanError,
            >(PlanError::LinkMismatch)
        }),
{
    let argv = text::views(inv.args.argv@);
    law_debug_files_are_left_out(text::views(inv.outputs@));
    law_debug_files_are_left_out(build_plan::keys_of(inv.links@));
    assert(build_plan::keys_of(inv.links@) =~= Seq::new(
        inv.links@.len(),
        |i: int| inv.links@[i].0@,
    ));
    lemma_after_dash(stem, hash);
    let unit = build_script_compilation::BuildScriptCompilationUnitPlanView {
        info: build_plan::info_of(
            inv,
            hash,
            rustc::flag_value(argv, "--crate-name"@)->0,
            hashes,
        ),
        src_path: source,
    };
    build_script_compilation::law_files_have_the_names_of_cargo(unit, entry);
}

} // verus!
