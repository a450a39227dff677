//! Which command the arguments of `hurry cargo` and `hurry cross` ask for.

use vstd::prelude::*;
use vstd::string::*;

use crate::text;

verus! {

/// A command that is done with the cache.
#[derive(Debug, Clone, Copy, PartialEq, Eq, Structural)]
pub enum Accelerated {
    Build,
    Check,
    Test,
    Clippy,
}

/// What is done with some arguments.
#[derive(Debug)]
pub enum Dispatch {
    /// The tool is run without arguments.
    Plain,
    /// The tool is run with the arguments: a command and its options.
    PassThrough { command: String, options: Vec<String> },
    /// The command is done with the cache.
    Accelerate(Accelerated),
}

/// The tools that are run.
#[derive(Debug, Clone, Copy, PartialEq, Eq, Structural)]
pub enum Tool {
    Cargo,
    Cross,
}

/// The command of a tool that is done with the cache, by its name.
pub open spec fn accelerated_of(tool: Tool, command: Seq<char>) -> Option<Accelerated> {
    match tool {
        Tool::Cargo => if command == "build"@ {
            Some(Accelerated::Build)
        } else if command == "check"@ || command == "c"@ {
            Some(Accelerated::Check)
        } else if command == "test"@ || command == "t"@ {
            Some(Accelerated::Test)
        } else if command == "clippy"@ {
            Some(Accelerated::Clippy)
        } else {
            None
        },
        Tool::Cross => if command == "build"@ || command == "b"@ {
            Some(Accelerated::Build)
        } else {
            None
        },
    }
}

/// The command of a tool that is done with the cache, by its name.
pub fn accelerated(tool: Tool, command: &str) -> (r: Option<Accelerated>)
    ensures
        r == accelerated_of(tool, command@),
{
    match tool {
        Tool::Cargo => if text::same(command, "build") {
            Some(Accelerated::Build)
        } else if text::same(command, "check") || text::same(command, "c") {
            Some(Accelerated::Check)
        } else if text::same(command, "test") || text::same(command, "t") {
            Some(Accelerated::Test)
        } else if text::same(command, "clippy") {
            Some(Accelerated::Clippy)
        } else {
            None
        },
        Tool::Cross => if text::same(command, "build") || text::same(command, "b") {
            Some(Accelerated::Build)
        } else {
            None
        },
    }
}

/// The command that arguments ask for, where it is done with the cache.
pub open spec fn command_of(tool: Tool, windows: bool, args: Seq<Seq<char>>) -> Option<
    Accelerated,
> {
    if args.len() == 0 || windows || text::has_prefix(args[0], "-"@) {
        None
    } else {
        accelerated_of(tool, args[0])
    }
}

/// What is done with some arguments. On Windows, and where the first argument is a
/// flag, the tool gets them as they are. So it does for a command that is not known:
/// the tool may know it.
pub fn dispatch(tool: Tool, windows: bool, arguments: &Vec<String>) -> (r: Dispatch)
    ensures
        command_of(tool, windows, text::views(arguments@)) == (match r {
            Dispatch::Accelerate(command) => Some(command),
            _ => None,
        }),
        ({
            let args = text::views(arguments@);
            match r {
                Dispatch::Plain => args.len() == 0,
                Dispatch::PassThrough { command, options } => {
                    &&& args.len() > 0
                    &&& windows || text::has_prefix(args[0], "-"@) || accelerated_of(
                        tool,
                        args[0],
                    ) is None
                    &&& command@ == args[0]
                    &&& text::views(options@) == args.skip(1)
                },
                Dispatch::Accelerate(command) => {
                    &&& args.len() > 0
                    &&& !windows
                    &&& !text::has_prefix(args[0], "-"@)
                    &&& accelerated_of(tool, args[0]) == Some(command)
                },
            }
        }),
{
    if arguments.len() == 0 {
        return Dispatch::Plain;
    }
    let ghost args = text::views(arguments@);
    let command: &str = arguments[0].as_str();
    if !windows && !text::starts_with(command, "-") {
        if let Some(a) = accelerated(tool, command) {
            return Dispatch::Accelerate(a);
        }
    }
    let mut options: Vec<String> = Vec::new();
    let mut i: usize = 1;
    while i < arguments.len()
        invariant
            1 <= i <= arguments.len(),
            options@ == arguments@.subrange(1, i as int),
        decreases arguments.len() - i,
    {
        options.push(arguments[i].clone());
        assert(options@ =~= arguments@.subrange(1, i + 1));
        i += 1;
    }
    assert(text::views(options@) =~= args.skip(1));
    Dispatch::PassThrough { command: text::copy(command), options }
}

/// The commands that are done with the cache, by all the names that they have. Any other
/// name is left to the tool.
pub proof fn law_commands_with_the_cache(tool: Tool, command: Seq<char>)
    ensures
        accelerated_of(tool, command) == Some(Accelerated::Build) <==> command == "build"@ || (
        command == "b"@ && tool is Cross),
        accelerated_of(tool, command) == Some(Accelerated::Check) <==> tool is Cargo && (command
            == "check"@ || command == "c"@),
        accelerated_of(tool, command) == Some(Accelerated::Test) <==> tool is Cargo && (command
            == "test"@ || command == "t"@),
        accelerated_of(tool, command) == Some(Accelerated::Clippy) <==> tool is Cargo && command
            == "clippy"@,
{
    reveal_strlit("build");
    reveal_strlit("b");
    reveal_strlit("check");
    reveal_strlit("c");
    reveal_strlit("test");
    reveal_strlit("t");
    reveal_strlit("clippy");
    assert("build"@.len() == 5 && "build"@[0] == 'b');
    assert("check"@.len() == 5 && "check"@[0] == 'c' && "check"@[1] == 'h');
    assert("test"@.len() == 4 && "clippy"@.len() == 6);
    assert("b"@.len() == 1 && "b"@[0] == 'b');
    assert("c"@.len() == 1 && "c"@[0] == 'c');
    assert("t"@.len() == 1 && "t"@[0] == 't');
}

/// Whether arguments ask the tool for its help.
pub open spec fn asks_for_help(argv: Seq<Seq<char>>) -> bool {
    argv.contains("--help"@) || argv.contains("-h"@)
}

/// Whether arguments ask the tool for its help.
pub fn is_help_request(argv: &Vec<String>) -> (r: bool)
    ensures
        r == asks_for_help(text::views(argv@)),
{
    text::list_contains(argv, "--help") || text::list_contains(argv, "-h")
}

/// A command is done with the cache exactly where it is the first argument, by one of its
/// names, and not on Windows. A flag before it leaves it to the tool.
pub proof fn law_first_argument_is_the_command(tool: Tool, windows: bool, args: Seq<Seq<char>>)
    ensures
        args.len() == 0 ==> command_of(tool, windows, args) is None,
        windows ==> command_of(tool, windows, args) is None,
        args.len() > 0 && args[0].len() > 0 && args[0][0] == '-' ==> command_of(tool, windows, args)
            is None,
        !windows && args.len() > 0 && args[0] == "build"@ ==> command_of(tool, windows, args)
            == Some(Accelerated::Build),
        !windows && args.len() > 0 && tool is Cargo && args[0] == "check"@ ==> command_of(
            tool,
            windows,
            args,
        ) == Some(Accelerated::Check),
        !windows && args.len() > 0 && tool is Cargo && args[0] == "test"@ ==> command_of(
            tool,
            windows,
            args,
        ) == Some(Accelerated::Test),
        !windows && args.len() > 0 && tool is Cargo && args[0] == "clippy"@ ==> command_of(
            tool,
            windows,
            args,
        ) == Some(Accelerated::Clippy),
{
    reveal_strlit("-");
    reveal_strlit("build");
    reveal_strlit("check");
    reveal_strlit("test");
    reveal_strlit("clippy");
    if args.len() > 0 {
        law_commands_with_the_cache(tool, args[0]);
        if args[0].len() > 0 {
            assert(args[0].take(1)[0] == args[0][0]);
            if args[0][0] == '-' {
                assert(args[0].take(1) =~= "-"@);
            }
        }
    }
}

} // verus!
