//! Building, checking and testing with the cache.

use vstd::prelude::*;
use vstd::string::*;

use crate::ci;
use crate::cmd::dispatch;
use crate::cmd::dispatch::{Accelerated, Tool};
use crate::text;

verus! {

/// Whether to wait for uploads.
#[derive(Debug, Clone, Copy, PartialEq, Eq, Structural)]
pub enum WaitForUpload {
    /// As the environment suggests.
    Auto,
    ExplicitWait,
    ExplicitAsync,
}

/// What an option that can be left out asks for.
pub open spec fn asked_for(value: Option<bool>) -> WaitForUpload {
    match value {
        None => WaitForUpload::Auto,
        Some(true) => WaitForUpload::ExplicitWait,
        Some(false) => WaitForUpload::ExplicitAsync,
    }
}

impl WaitForUpload {
    /// What an option that can be left out asks for.
    pub fn from_option(value: Option<bool>) -> (r: WaitForUpload)
        ensures
            r == asked_for(value),
            r == (match value {
                None => WaitForUpload::Auto,
                Some(true) => WaitForUpload::ExplicitWait,
                Some(false) => WaitForUpload::ExplicitAsync,
            }),
    {
        match value {
            None => WaitForUpload::Auto,
            Some(true) => WaitForUpload::ExplicitWait,
            Some(false) => WaitForUpload::ExplicitAsync,
        }
    }

    /// Whether to wait, in an environment. In continuous integration, the machine
    /// does not outlive the build.
    pub fn should_wait(self, env: &Vec<(String, String)>) -> (r: bool)
        ensures
            r == waits(self, ci::is_ci_env(env@)),
    {
        match self {
            WaitForUpload::ExplicitWait => true,
            WaitForUpload::ExplicitAsync => false,
            WaitForUpload::Auto => ci::is_ci(env),
        }
    }
}

/// Whether to wait for uploads, inside and outside of continuous integration.
pub open spec fn waits(choice: WaitForUpload, ci: bool) -> bool {
    match choice {
        WaitForUpload::ExplicitWait => true,
        WaitForUpload::ExplicitAsync => false,
        WaitForUpload::Auto => ci,
    }
}

/// What a build is asked to do.
#[derive(Debug)]
pub struct BuildOptions {
    pub tool: Tool,
    pub command: Accelerated,
    /// The arguments for the tool.
    pub argv: Vec<String>,
    /// Whether there is a token for the remote cache.
    pub has_token: bool,
    /// Whether the cache is on the local disk.
    pub local_mode: bool,
    pub skip_restore: bool,
    pub skip_build: bool,
    pub skip_backup: bool,
    /// Whether to wait for uploads.
    pub wait: bool,
}

/// A step of a build.
#[derive(Debug, Clone, Copy, PartialEq, Eq, Structural)]
pub enum BuildStep {
    /// The tool shows its help, and nothing else is done.
    PassHelp,
    /// The workspace is opened.
    OpenWorkspace,
    /// The units of the build are told.
    PlanUnits,
    /// The remote cache is opened.
    OpenRemoteCache,
    /// The cache on the local disk is opened.
    OpenLocalCache,
    /// What the cache holds of the units is restored.
    Restore,
    /// The tool runs the command.
    RunTool,
    /// What was built is saved to the cache.
    Save,
    /// The upload of what was saved is waited for.
    WaitForUpload,
}

/// A build with the remote cache has no token.
#[derive(Debug, Clone, Copy, PartialEq, Eq, Structural)]
pub struct MissingToken;

/// The step, if it is to be done.
pub open spec fn when(condition: bool, step: BuildStep) -> Seq<BuildStep> {
    if condition {
        seq![step]
    } else {
        Seq::empty()
    }
}

/// The steps of a build.
pub open spec fn steps_of(o: BuildOptions) -> Result<Seq<BuildStep>, MissingToken> {
    if dispatch::asks_for_help(text::views(o.argv@)) {
        Ok(seq![BuildStep::PassHelp])
    } else if !o.local_mode && !o.has_token {
        Err(MissingToken)
    } else {
        Ok(
            seq![
                BuildStep::OpenWorkspace,
                BuildStep::PlanUnits,
                if o.local_mode {
                    BuildStep::OpenLocalCache
                } else {
                    BuildStep::OpenRemoteCache
                },
            ] + when(!o.skip_restore, BuildStep::Restore) + when(
                !o.skip_build,
                BuildStep::RunTool,
            ) + when(!o.skip_backup, BuildStep::Save) + when(
                !o.skip_backup && !o.local_mode && o.wait,
                BuildStep::WaitForUpload,
            ),
        )
    }
}

impl BuildOptions {
    /// The steps of the build, in order. The remote cache needs a token. Saves to the
    /// local disk are done when they return, so that there is nothing to wait for.
    pub fn steps(&self) -> (r: Result<Vec<BuildStep>, MissingToken>)
        ensures
            match r {
                Ok(steps) => steps_of(*self) == Ok::<Seq<BuildStep>, MissingToken>(steps@),
                Err(e) => steps_of(*self) == Err::<Seq<BuildStep>, MissingToken>(e),
            },
    {
        let mut r: Vec<BuildStep> = Vec::new();
        if dispatch::is_help_request(&self.argv) {
            r.push(BuildStep::PassHelp);
            assert(r@ =~= seq![BuildStep::PassHelp]);
            return Ok(r);
        }
        if !self.local_mode && !self.has_token {
            return Err(MissingToken);
        }
        r.push(BuildStep::OpenWorkspace);
        r.push(BuildStep::PlanUnits);
        r.push(
            if self.local_mode {
                BuildStep::OpenLocalCache
            } else {
                BuildStep::OpenRemoteCache
            },
        );
        if !self.skip_restore {
            r.push(BuildStep::Restore);
        }
        if !self.skip_build {
            r.push(BuildStep::RunTool);
        }
        if !self.skip_backup {
            r.push(BuildStep::Save);
            if !self.local_mode && self.wait {
                r.push(BuildStep::WaitForUpload);
            }
        }
        assert(r@ =~= steps_of(*self)->Ok_0);
        Ok(r)
    }

    /// Whether a build whose units cannot be told is done without the cache. What is
    /// built with Cross may be for a platform that the cache does not support.
    pub fn passes_through_unplanned(&self) -> (r: bool)
        ensures
            r == goes_on_unplanned(self.tool),
            r == (self.tool == Tool::Cross),
    {
        match self.tool {
            Tool::Cargo => false,
            Tool::Cross => true,
        }
    }

    /// The command that the tool runs.
    pub fn tool_command(&self) -> (r: &'static str)
        ensures
            r@ == command_name(self.command),
    {
        match self.command {
            Accelerated::Build => "build",
            Accelerated::Check => "check",
            Accelerated::Test => "test",
            Accelerated::Clippy => "clippy",
        }
    }
}

/// Whether a tool builds without the cache what cannot be planned.
pub open spec fn goes_on_unplanned(tool: Tool) -> bool {
    tool == Tool::Cross
}

/// The name of a command.
pub open spec fn command_name(command: Accelerated) -> Seq<char> {
    match command {
        Accelerated::Build => "build"@,
        Accelerated::Check => "check"@,
        Accelerated::Test => "test"@,
        Accelerated::Clippy => "clippy"@,
    }
}

/// A build does what it is not told to skip, wherever the cache is and whether or not
/// uploads are waited for: it restores exactly when restoring is not skipped, runs the
/// tool exactly when that is not skipped, and saves exactly when saving is not skipped.
/// It opens the workspace and tells its units, and opens one cache: the one on the local
/// disk in local mode, and else the remote one. It waits for uploads exactly when it
/// saves to the remote cache and is told to wait. Nothing is done twice.
#[verifier::spinoff_prover]
#[verifier::rlimit(60)]
pub proof fn law_build_does_what_is_not_skipped(o: BuildOptions)
    requires
        forall|i: int|
            0 <= i < o.argv@.len() ==> (#[trigger] o.argv@[i])@ != "--help"@ && o.argv@[i]@
                != "-h"@,
        o.local_mode || o.has_token,
    ensures
        steps_of(o) matches Ok(steps) && {
            &&& steps.contains(BuildStep::Restore) <==> !o.skip_restore
            &&& steps.contains(BuildStep::RunTool) <==> !o.skip_build
            &&& steps.contains(BuildStep::Save) <==> !o.skip_backup
            &&& steps.contains(BuildStep::WaitForUpload) <==> !o.skip_backup && !o.local_mode
                && o.wait
            &&& steps.contains(BuildStep::OpenWorkspace)
            &&& steps.contains(BuildStep::PlanUnits)
            &&& steps.contains(BuildStep::OpenLocalCache) <==> o.local_mode
            &&& steps.contains(BuildStep::OpenRemoteCache) <==> !o.local_mode
            &&& !steps.contains(BuildStep::PassHelp)
            &&& steps.no_duplicates()
        },
{
    let argv = text::views(o.argv@);
    assert(!dispatch::asks_for_help(argv)) by {
        if argv.contains("--help"@) {
            let i = choose|i: int| 0 <= i < argv.len() && argv[i] == "--help"@;
            assert(o.argv@[i]@ == "--help"@);
        }
        if argv.contains("-h"@) {
            let i = choose|i: int| 0 <= i < argv.len() && argv[i] == "-h"@;
            assert(o.argv@[i]@ == "-h"@);
        }
    }
    let steps = steps_of(o)->Ok_0;
    assert(steps.no_duplicates()) by {
        assert forall|i: int, j: int|
            0 <= i < steps.len() && 0 <= j < steps.len() && i != j implies steps[i] != steps[j] by {
            if i < j {
                law_build_prepares_before_it_acts(o, i, j);
            } else {
                law_build_prepares_before_it_acts(o, j, i);
            }
        }
    }
    assert forall|i: int| 0 <= i < steps.len() implies match #[trigger] steps[i] {
        BuildStep::PassHelp => false,
        BuildStep::OpenWorkspace => true,
        BuildStep::PlanUnits => true,
        BuildStep::OpenRemoteCache => !o.local_mode,
        BuildStep::OpenLocalCache => o.local_mode,
        BuildStep::Restore => !o.skip_restore,
        BuildStep::RunTool => !o.skip_build,
        BuildStep::Save => !o.skip_backup,
        BuildStep::WaitForUpload => !o.skip_backup && !o.local_mode && o.wait,
    } by {
    }
    let r = when(!o.skip_restore, BuildStep::Restore).len() as int;
    let t = when(!o.skip_build, BuildStep::RunTool).len() as int;
    let s = when(!o.skip_backup, BuildStep::Save).len() as int;
    assert(steps[0] is OpenWorkspace);
    assert(steps[1] is PlanUnits);
    assert(steps[2] is OpenLocalCache || steps[2] is OpenRemoteCache);
    if !o.skip_restore {
        assert(steps[3] is Restore);
    }
    if !o.skip_build {
        assert(steps[3 + r] is RunTool);
    }
    if !o.skip_backup {
        assert(steps[3 + r + t] is Save);
    }
    if !o.skip_backup && !o.local_mode && o.wait {
        assert(steps[3 + r + t + s] is WaitForUpload);
    }
}

/// The steps of a build come in one order: first the workspace is opened, then its units
/// are told, then the cache is opened, and only then is anything restored, run or saved,
/// in this order. Uploads are waited for last.
pub proof fn law_build_prepares_before_it_acts(o: BuildOptions, i: int, j: int)
    requires
        steps_of(o) is Ok,
        0 <= i < j < steps_of(o)->Ok_0.len(),
    ensures
        ({
            let place = |step: BuildStep|
                match step {
                    BuildStep::PassHelp => 0int,
                    BuildStep::OpenWorkspace => 1,
                    BuildStep::PlanUnits => 2,
                    BuildStep::OpenRemoteCache => 3,
                    BuildStep::OpenLocalCache => 3,
                    BuildStep::Restore => 4,
                    BuildStep::RunTool => 5,
                    BuildStep::Save => 6,
                    BuildStep::WaitForUpload => 7,
                };
            place(steps_of(o)->Ok_0[i]) < place(steps_of(o)->Ok_0[j])
        }),
{
}

/// A build that is asked for help shows that of the tool, and does nothing else,
/// whatever else it is asked for. No token is needed.
pub proof fn law_help_is_passed_on(o: BuildOptions, i: int)
    requires
        0 <= i < o.argv@.len(),
        o.argv@[i]@ == "--help"@ || o.argv@[i]@ == "-h"@,
    ensures
        steps_of(o) == Ok::<Seq<BuildStep>, MissingToken>(seq![BuildStep::PassHelp]),
{
    assert(text::views(o.argv@)[i] == o.argv@[i]@);
}

/// A build is refused exactly when it needs a token that it does not have: help was not
/// asked for, and the cache is the remote one.
pub proof fn law_only_the_remote_cache_needs_a_token(o: BuildOptions)
    ensures
        steps_of(o) is Err <==> !o.has_token && !o.local_mode && (forall|i: int|
            0 <= i < o.argv@.len() ==> (#[trigger] o.argv@[i])@ != "--help"@ && o.argv@[i]@
                != "-h"@),
{
    let argv = text::views(o.argv@);
    assert forall|i: int| 0 <= i < o.argv@.len() implies argv[i] == (#[trigger] o.argv@[i])@ by {
    }
    if dispatch::asks_for_help(argv) {
        let s = if argv.contains("--help"@) {
            "--help"@
        } else {
            "-h"@
        };
        let i = choose|i: int| 0 <= i < argv.len() && argv[i] == s;
        assert(o.argv@[i]@ == s);
    }
}

/// What is asked for explicitly is done in every environment: uploads are waited for, or
/// not. Where nothing is asked for, they are waited for exactly in continuous
/// integration.
pub proof fn law_explicit_waiting_overrides_the_environment(choice: WaitForUpload, ci: bool)
    ensures
        choice is ExplicitWait ==> waits(choice, ci),
        choice is ExplicitAsync ==> !waits(choice, ci),
        choice is Auto ==> (waits(choice, ci) <==> ci),
{
}

/// What is restored is restored before the tool runs, and what is saved is saved
/// after it. Uploads are waited for only once something was saved.
pub proof fn law_steps_are_in_order(o: BuildOptions, i: int, j: int)
    requires
        steps_of(o) is Ok,
        0 <= i < steps_of(o)->Ok_0.len(),
        0 <= j < steps_of(o)->Ok_0.len(),
    ensures
        ({
            let steps = steps_of(o)->Ok_0;
            &&& steps[i] is Restore && steps[j] is RunTool ==> i < j
            &&& steps[i] is RunTool && steps[j] is Save ==> i < j
            &&& steps[j] is WaitForUpload ==> j > 0 && steps[j - 1] is Save
        }),
{
}

/// The name of a command is one by which it is asked for.
pub proof fn law_command_names(command: Accelerated)
    ensures
        dispatch::accelerated_of(Tool::Cargo, command_name(command)) == Some(command),
{
    reveal_strlit("build");
    reveal_strlit("check");
    reveal_strlit("test");
    reveal_strlit("clippy");
    reveal_strlit("c");
    reveal_strlit("t");
    assert("build"@[0] == 'b');
    assert("check"@[1] == 'h');
    assert("test"@[0] == 't');
    assert("clippy"@[1] == 'l');
    assert("c"@.len() == 1);
    assert("t"@.len() == 1);
}

/// Who says whether to wait is obeyed, wherever the build runs. Where nobody says, one waits
/// exactly in continuous integration.
pub proof fn law_waiting_is_as_asked(value: Option<bool>, in_ci: bool)
    ensures
        value matches Some(asked) ==> waits(asked_for(value), in_ci) == asked,
        value is None ==> waits(asked_for(value), in_ci) == in_ci,
{
}

/// What cannot be planned is built without the cache by Cross. For Cargo it is an error.
pub proof fn law_cross_goes_on_unplanned(tool: Tool)
    ensures
        tool is Cross ==> goes_on_unplanned(tool),
        tool is Cargo ==> !goes_on_unplanned(tool),
{
}

} // verus!
