//! The arguments of a build.

use vstd::prelude::*;
use vstd::string::*;

use crate::text;

verus! {

/// The arguments that follow `cargo build`.
#[derive(Debug)]
pub struct CargoBuildArguments {
    pub argv: Vec<String>,
}

/// The value of an option: what follows the first argument that is the option, or
/// what stands behind the equals sign in it.
pub open spec fn option_value(argv: Seq<Seq<char>>, option: Seq<char>) -> Option<Seq<char>>
    decreases argv.len(),
{
    if argv.len() == 0 {
        None
    } else if argv[0] == option {
        if argv.len() > 1 {
            Some(argv[1])
        } else {
            None
        }
    } else if text::has_prefix(argv[0], option + "="@) {
        Some(argv[0].skip((option + "="@).len() as int))
    } else {
        option_value(argv.skip(1), option)
    }
}

/// The profile that arguments ask for.
pub open spec fn profile_of(argv: Seq<Seq<char>>) -> Option<Seq<char>> {
    match option_value(argv, "--profile"@) {
        Some(name) => Some(name),
        None => if argv.contains("--release"@) || argv.contains("-r"@) {
            Some("release"@)
        } else {
            None
        },
    }
}

impl View for CargoBuildArguments {
    type V = Seq<Seq<char>>;

    open spec fn view(&self) -> Seq<Seq<char>> {
        text::views(self.argv@)
    }
}

impl CargoBuildArguments {
    fn option(&self, option: &str) -> (r: Option<String>)
        ensures
            match r {
                Some(v) => option_value(self@, option@) == Some(v@),
                None => option_value(self@, option@) is None,
            },
    {
        let ghost all = self@;
        let with_equals = text::concat(option, "=");
        let mut i: usize = 0;
        assert(all.skip(0) =~= all);
        while i < self.argv.len()
            invariant
                i <= self.argv.len(),
                all == text::views(self.argv@),
                with_equals@ == option@ + "="@,
                option_value(all, option@) == option_value(all.skip(i as int), option@),
            decreases self.argv.len() - i,
        {
            let ghost rest = all.skip(i as int);
            assert(rest[0] == self.argv@[i as int]@);
            if text::same(self.argv[i].as_str(), option) {
                if i + 1 < self.argv.len() {
                    assert(rest[1] == self.argv@[i + 1]@);
                    return Some(self.argv[i + 1].clone());
                }
                return None;
            }
            if let Some(v) = text::strip_prefix(self.argv[i].as_str(), with_equals.as_str()) {
                return Some(v);
            }
            assert(rest.skip(1) =~= all.skip(i + 1));
            i += 1;
        }
        None
    }

    /// The profile that the arguments ask for.
    pub fn profile(&self) -> (r: Option<String>)
        ensures
            match r {
                Some(name) => profile_of(self@) == Some(name@),
                None => profile_of(self@) is None,
            },
    {
        match self.option("--profile") {
            Some(name) => Some(name),
            None => if text::list_contains(&self.argv, "--release") || text::list_contains(
                &self.argv,
                "-r",
            ) {
                Some(text::copy("release"))
            } else {
                None
            },
        }
    }

    /// The platform that the arguments ask for.
    pub fn target(&self) -> (r: Option<String>)
        ensures
            match r {
                Some(triple) => option_value(self@, "--target"@) == Some(triple@),
                None => option_value(self@, "--target"@) is None,
            },
    {
        self.option("--target")
    }

    /// The manifest that the arguments name.
    pub fn manifest_path(&self) -> (r: Option<String>)
        ensures
            match r {
                Some(p) => option_value(self@, "--manifest-path"@) == Some(p@),
                None => option_value(self@, "--manifest-path"@) is None,
            },
    {
        self.option("--manifest-path")
    }

    /// The arguments as they were given.
    pub fn to_argv(&self) -> (r: Vec<String>)
        ensures
            r@ == self.argv@,
    {
        text::copy_list(&self.argv)
    }

    /// The arguments with which Cargo prints the plan of this build.
    pub fn build_plan_argv(&self) -> (r: Vec<String>)
        ensures
            text::views(r@) == self@ + seq!["--build-plan"@, "-Z"@, "unstable-options"@],
    {
        let mut r = self.to_argv();
        r.push(text::copy("--build-plan"));
        r.push(text::copy("-Z"));
        r.push(text::copy("unstable-options"));
        assert(text::views(r@) =~= self@ + seq!["--build-plan"@, "-Z"@, "unstable-options"@]);
        r
    }
}

/// The arguments that are added to ask for the plan change nothing that is read of
/// the arguments.
pub proof fn law_plan_arguments_ask_for_the_same_build(argv: Seq<Seq<char>>)
    requires
        option_value(argv, "--profile"@) is Some || argv.len() == 0 || argv.last() != "--profile"@,
        option_value(argv, "--target"@) is Some || argv.len() == 0 || argv.last() != "--target"@,
    ensures
        ({
            let plan = argv + seq!["--build-plan"@, "-Z"@, "unstable-options"@];
            &&& profile_of(plan) == profile_of(argv)
            &&& option_value(plan, "--target"@) == option_value(argv, "--target"@)
        }),
{
    let extra = seq!["--build-plan"@, "-Z"@, "unstable-options"@];
    lemma_literals();
    lemma_extra(argv, "--profile"@);
    lemma_extra(argv, "--target"@);
    let plan = argv + extra;
    assert forall|s: Seq<char>| s == "--release"@ || s == "-r"@ implies argv.contains(s)
        == plan.contains(s) by {
        if argv.contains(s) {
            let i = choose|i: int| 0 <= i < argv.len() && argv[i] == s;
            assert(plan[i] == s);
        }
        if plan.contains(s) {
            let i = choose|i: int| 0 <= i < plan.len() && plan[i] == s;
            if i >= argv.len() {
                assert(plan[i] == extra[i - argv.len()]);
            }
            assert(argv[i] == s);
        }
    }
}

spec fn is_plain(arg: Seq<char>, option: Seq<char>) -> bool {
    arg != option && !text::has_prefix(arg, option + "="@)
}

proof fn lemma_literals()
    ensures
        is_plain("--build-plan"@, "--profile"@),
        is_plain("-Z"@, "--profile"@),
        is_plain("unstable-options"@, "--profile"@),
        is_plain("--build-plan"@, "--target"@),
        is_plain("-Z"@, "--target"@),
        is_plain("unstable-options"@, "--target"@),
        "--build-plan"@ != "--release"@,
        "--build-plan"@ != "-r"@,
        "-Z"@ != "--release"@,
        "-Z"@ != "-r"@,
        "unstable-options"@ != "--release"@,
        "unstable-options"@ != "-r"@,
{
    reveal_strlit("--build-plan");
    reveal_strlit("-Z");
    reveal_strlit("unstable-options");
    reveal_strlit("--profile");
    reveal_strlit("--target");
    reveal_strlit("--release");
    reveal_strlit("-r");
    reveal_strlit("=");
    assert("--build-plan"@[2] == 'b');
    assert("--profile"@[2] == 'p');
    assert("--target"@[2] == 't');
    assert("--release"@[2] == 'r');
    assert("unstable-options"@[0] == 'u');
    assert("-Z"@.len() == 2);
    assert("-Z"@[1] == 'Z');
    assert("-r"@[1] == 'r');
    let profile = "--profile"@ + "="@;
    let target = "--target"@ + "="@;
    assert(profile[2] == 'p' && profile[0] == '-' && profile.len() > 2);
    assert(target[2] == 't' && target[0] == '-' && target.len() > 2);
    assert(text::has_prefix("--build-plan"@, profile) ==> "--build-plan"@[2] == profile[2]);
    assert(text::has_prefix("--build-plan"@, target) ==> "--build-plan"@[2] == target[2]);
    assert(text::has_prefix("unstable-options"@, profile) ==> "unstable-options"@[0]
        == profile[0]);
    assert(text::has_prefix("unstable-options"@, target) ==> "unstable-options"@[0] == target[0]);
}

proof fn lemma_extra(argv: Seq<Seq<char>>, option: Seq<char>)
    requires
        option_value(argv, option) is Some || argv.len() == 0 || argv.last() != option,
        is_plain("--build-plan"@, option),
        is_plain("-Z"@, option),
        is_plain("unstable-options"@, option),
    ensures
        option_value(argv + seq!["--build-plan"@, "-Z"@, "unstable-options"@], option)
            == option_value(argv, option),
    decreases argv.len(),
{
    let extra = seq!["--build-plan"@, "-Z"@, "unstable-options"@];
    let plan = argv + extra;
    if argv.len() == 0 {
        assert(plan =~= extra);
        let one = extra.skip(1);
        let two = one.skip(1);
        let three = two.skip(1);
        assert(one[0] == "-Z"@ && two[0] == "unstable-options"@ && three.len() == 0);
        reveal_with_fuel(option_value, 4);
    } else {
        assert(plan[0] == argv[0]);
        if argv[0] == option {
            if argv.len() > 1 {
                assert(plan[1] == argv[1]);
            }
        } else if !text::has_prefix(argv[0], option + "="@) {
            assert(plan.skip(1) =~= argv.skip(1) + extra);
            if argv.len() > 1 {
                assert(argv.skip(1).last() == argv.last());
            }
            lemma_extra(argv.skip(1), option);
        }
    }
}

/// The value of an option is told by the first argument that is the option, or that is the
/// option with an equals sign behind it: in the one case it is the next argument, if there
/// is one, and in the other what stands behind the equals sign. Without such an argument
/// there is none.
pub proof fn law_first_option_counts(
    argv: Seq<Seq<char>>,
    option: Seq<char>,
    value: Seq<char>,
    i: int,
)
    requires
        0 <= i <= argv.len(),
        forall|j: int|
            0 <= j < i ==> #[trigger] argv[j] != option && !text::has_prefix(
                argv[j],
                option + "="@,
            ),
    ensures
        i == argv.len() ==> option_value(argv, option) is None,
        i < argv.len() && argv[i] == option ==> option_value(argv, option) == (if i + 1
            < argv.len() {
            Some(argv[i + 1])
        } else {
            None
        }),
        i < argv.len() && argv[i] == option + "="@ + value ==> option_value(argv, option) == Some(
            value,
        ),
    decreases argv.len(),
{
    if i > 0 {
        assert(argv[0] != option && !text::has_prefix(argv[0], option + "="@));
        let rest = argv.skip(1);
        assert forall|j: int| 0 <= j < i - 1 implies #[trigger] rest[j] != option
            && !text::has_prefix(rest[j], option + "="@) by {
            assert(rest[j] == argv[j + 1]);
        }
        law_first_option_counts(rest, option, value, i - 1);
    } else if argv.len() > 0 && argv[0] == option + "="@ + value {
        reveal_strlit("=");
        let n = (option + "="@).len() as int;
        assert(argv[0].take(n) =~= option + "="@);
        assert(argv[0].skip(n) =~= value);
        assert(argv[0].len() > option.len());
    }
}

/// A build has the profile that is named. Where none is, it has `release` exactly where
/// `--release` or `-r` is given, and else none.
pub proof fn law_named_profile_counts_first(argv: Seq<Seq<char>>)
    ensures
        option_value(argv, "--profile"@) is Some ==> profile_of(argv) == option_value(
            argv,
            "--profile"@,
        ),
        option_value(argv, "--profile"@) is None ==> (profile_of(argv) is Some <==> exists|i: int|
            0 <= i < argv.len() && (#[trigger] argv[i] == "--release"@ || argv[i] == "-r"@)),
        option_value(argv, "--profile"@) is None && profile_of(argv) is Some ==> profile_of(argv)
            == Some("release"@),
{
    if argv.contains("--release"@) {
        let i = choose|i: int| 0 <= i < argv.len() && argv[i] == "--release"@;
        assert(argv[i] == "--release"@);
    }
    if argv.contains("-r"@) {
        let i = choose|i: int| 0 <= i < argv.len() && argv[i] == "-r"@;
        assert(argv[i] == "-r"@);
    }
}

} // verus!
