//! The program that stands between Cargo and `rustc` and takes down what `rustc` is
//! asked.

use vstd::prelude::*;
use vstd::string::*;

use crate::path;
use crate::path::{AbsDirPath, AbsFilePath, RelFilePath};
use crate::text;

verus! {

/// Why an invocation cannot be taken down or run.
#[derive(Debug, Clone, Copy, PartialEq, Eq, Structural)]
pub enum WrapperError {
    /// The invocation of Cargo has no identifier.
    NoInvocationId,
    /// There is no directory for what is taken down.
    NoLogDir,
    /// That directory is not absolute.
    LogDirNotAbsolute,
    /// The identifier cannot name a directory.
    InvalidInvocationId,
    /// The program was called without a name.
    NoWrapper,
    /// There is no compiler to run.
    NoCompiler,
}

/// The name of this program.
pub const WRAPPER_NAME: &'static str = "hurry-cargo-rustc-wrapper";

/// Whether a variable is taken down: Cargo sets it.
pub open spec fn is_recorded(name: Seq<char>) -> bool {
    name == "OUT_DIR"@ || text::has_prefix(name, "CARGO_"@)
}

/// The variables that are taken down, in order.
pub open spec fn recorded(env: Seq<(String, String)>) -> Seq<(String, String)>
    decreases env.len(),
{
    if env.len() == 0 {
        Seq::empty()
    } else {
        let before = recorded(env.drop_last());
        if is_recorded(env.last().0@) {
            before.push(env.last())
        } else {
            before
        }
    }
}

/// The variables that are taken down, in order.
pub fn recorded_env(env: &Vec<(String, String)>) -> (r: Vec<(String, String)>)
    ensures
        r@ == recorded(env@),
{
    let mut r: Vec<(String, String)> = Vec::new();
    let mut i: usize = 0;
    assert(r@ =~= recorded(env@.take(0)));
    while i < env.len()
        invariant
            i <= env.len(),
            r@ == recorded(env@.take(i as int)),
        decreases env.len() - i,
    {
        proof {
            assert(env@.take(i + 1).drop_last() =~= env@.take(i as int));
            assert(env@.take(i + 1).last() == env@[i as int]);
        }
        if text::same(env[i].0.as_str(), "OUT_DIR") || text::starts_with(
            env[i].0.as_str(),
            "CARGO_",
        ) {
            r.push((env[i].0.clone(), env[i].1.clone()));
        }
        i += 1;
    }
    assert(env@.take(env.len() as int) =~= env@);
    r
}

/// The file that an invocation is taken down in: one of its own, in a directory for the
/// invocation of Cargo.
pub fn log_file(
    invocation_id: Option<String>,
    log_dir: Option<String>,
    id: &str,
) -> (r: Result<AbsFilePath, WrapperError>)
    requires
        !path::is_abs(id@ + ".json"@),
    ensures
        match r {
            Ok(p) => {
                &&& invocation_id is Some
                &&& log_dir is Some
                &&& path::is_abs(log_dir->0@)
                &&& !path::is_abs(invocation_id->0@)
                &&& p@ == path::join(
                    path::join(log_dir->0@, invocation_id->0@),
                    id@ + ".json"@,
                )
            },
            Err(WrapperError::NoInvocationId) => invocation_id is None,
            Err(WrapperError::NoLogDir) => invocation_id is Some && log_dir is None,
            Err(WrapperError::LogDirNotAbsolute) => invocation_id is Some && log_dir is Some
                && !path::is_abs(log_dir->0@),
            Err(WrapperError::InvalidInvocationId) => invocation_id is Some && log_dir is Some
                && path::is_abs(log_dir->0@) && path::is_abs(invocation_id->0@),
            Err(_) => false,
        },
{
    let invocation_id = match invocation_id {
        Some(v) => v,
        None => {
            return Err(WrapperError::NoInvocationId);
        },
    };
    let log_dir = match log_dir {
        Some(v) => v,
        None => {
            return Err(WrapperError::NoLogDir);
        },
    };
    let dir = match AbsDirPath::new(log_dir.as_str()) {
        Ok(d) => d,
        Err(_) => {
            return Err(WrapperError::LogDirNotAbsolute);
        },
    };
    let dir = match dir.try_join_dir(invocation_id.as_str()) {
        Ok(d) => d,
        Err(_) => {
            return Err(WrapperError::InvalidInvocationId);
        },
    };
    let name = text::concat(id, ".json");
    Ok(dir.join_file(&RelFilePath::known(name.as_str())))
}

/// The compiler that is run, and its arguments.
#[derive(Debug)]
pub struct CompilerCall {
    pub compiler: String,
    pub args: Vec<String>,
    /// Whether this program was called by another name than its own.
    pub other_name: bool,
}

/// Whether a name is another than that of this program.
pub open spec fn is_other_name(name: Seq<char>) -> bool {
    name != WRAPPER_NAME@
}

/// The compiler that some arguments call, with its own arguments.
pub open spec fn called(argv: Seq<Seq<char>>) -> Option<(Seq<char>, Seq<Seq<char>>)> {
    if argv.len() < 2 {
        None
    } else {
        Some((argv[1], argv.skip(2)))
    }
}

/// The compiler that is run: it is the first argument, and what follows are its
/// arguments.
pub fn compiler_call(argv: &Vec<String>) -> (r: Result<CompilerCall, WrapperError>)
    ensures
        called(text::views(argv@)) == (match r {
            Ok(call) => Some((call.compiler@, text::views(call.args@))),
            Err(_) => None,
        }),
        r matches Ok(call) ==> call.other_name == is_other_name(argv@[0]@),
        ({
            let args = text::views(argv@);
            match r {
                Ok(call) => {
                    &&& args.len() >= 2
                    &&& call.compiler@ == args[1]
                    &&& text::views(call.args@) == args.skip(2)
                    &&& call.other_name == (args[0] != WRAPPER_NAME@)
                },
                Err(WrapperError::NoWrapper) => args.len() == 0,
                Err(WrapperError::NoCompiler) => args.len() == 1,
                Err(_) => false,
            }
        }),
{
    let ghost all = text::views(argv@);
    if argv.len() == 0 {
        return Err(WrapperError::NoWrapper);
    }
    let other_name = !text::same(argv[0].as_str(), WRAPPER_NAME);
    if argv.len() == 1 {
        return Err(WrapperError::NoCompiler);
    }
    let mut args: Vec<String> = Vec::new();
    let mut i: usize = 2;
    while i < argv.len()
        invariant
            2 <= i <= argv.len(),
            args@ == argv@.subrange(2, i as int),
        decreases argv.len() - i,
    {
        args.push(argv[i].clone());
        assert(args@ =~= argv@.subrange(2, i + 1));
        i += 1;
    }
    assert(text::views(args@) =~= all.skip(2));
    Ok(CompilerCall { compiler: argv[1].clone(), args, other_name })
}

/// How the compiler ended.
#[derive(Debug, Clone, Copy, PartialEq, Eq, Structural)]
pub struct CompilerStatus {
    pub success: bool,
    /// The exit code, if the compiler was not killed.
    pub code: Option<i32>,
}

/// The exit code of this program.
pub open spec fn exit_code_of(status: Option<CompilerStatus>) -> u8 {
    match status {
        None => 1,
        Some(s) => if s.success {
            0
        } else {
            match s.code {
                Some(c) => if 0 <= c <= 255 {
                    c as u8
                } else {
                    1
                },
                None => 1,
            }
        },
    }
}

/// The exit code of this program: that of the compiler, where it is one, and one where
/// it is not or the compiler could not be run.
pub fn exit_code(status: Option<CompilerStatus>) -> (r: u8)
    ensures
        r == exit_code_of(status),
        r == (match status {
            None => 1,
            Some(s) => if s.success {
                0
            } else {
                match s.code {
                    Some(c) => if 0 <= c <= 255 {
                        c as u8
                    } else {
                        1
                    },
                    None => 1,
                }
            },
        }),
{
    match status {
        None => 1,
        Some(s) => {
            if s.success {
                return 0;
            }
            match s.code {
                Some(c) => if 0 <= c && c <= 255 {
                    c as u8
                } else {
                    1
                },
                None => 1,
            }
        },
    }
}

proof fn lemma_recorded_is_filtered(
    env: Seq<(String, String)>,
    keep: spec_fn((String, String)) -> bool,
)
    requires
        forall|v: (String, String)| #[trigger] keep(v) == is_recorded(v.0@),
    ensures
        recorded(env) == env.filter(keep),
    decreases env.len(),
{
    reveal(Seq::filter);
    if env.len() > 0 {
        lemma_recorded_is_filtered(env.drop_last(), keep);
        assert(keep(env.last()) == is_recorded(env.last().0@));
    }
}

/// Of the variables of an invocation, `OUT_DIR` and those whose names begin with `CARGO_`
/// are taken down, with their values, in their order.
pub proof fn law_variables_of_cargo_are_taken_down(env: Seq<(String, String)>)
    ensures
        recorded(env) == env.filter(
            |v: (String, String)| v.0@ == "OUT_DIR"@ || text::has_prefix(v.0@, "CARGO_"@),
        ),
{
    lemma_recorded_is_filtered(
        env,
        |v: (String, String)| v.0@ == "OUT_DIR"@ || text::has_prefix(v.0@, "CARGO_"@),
    );
}

/// This program succeeds where the compiler does. Where the compiler fails with a code of
/// one byte, it fails with the same. Where the compiler could not be run, was killed, or
/// failed with another code, it fails with one.
pub proof fn law_exit_codes_are_those_of_the_compiler(status: Option<CompilerStatus>)
    ensures
        status is None ==> exit_code_of(status) == 1,
        status matches Some(s) ==> (s.success ==> exit_code_of(status) == 0),
        status matches Some(s) ==> (!s.success && s.code is None ==> exit_code_of(status) == 1),
        status matches Some(s) ==> (!s.success ==> (s.code matches Some(c) ==> (0 <= c <= 255
            ==> exit_code_of(status) == c))),
        status matches Some(s) ==> (!s.success ==> (s.code matches Some(c) ==> (!(0 <= c <= 255)
            ==> exit_code_of(status) == 1))),
{
}

/// The compiler is called as if there were no wrapper: whatever stands behind the wrapper's
/// name is the call, and it needs nothing but the compiler.
pub proof fn law_the_compiler_is_called_as_without_a_wrapper(
    name: Seq<char>,
    compiler: Seq<char>,
    args: Seq<Seq<char>>,
)
    ensures
        called(seq![name, compiler] + args) == Some((compiler, args)),
        called(seq![name]) is None,
        called(Seq::empty()) is None,
{
    assert((seq![name, compiler] + args).skip(2) =~= args);
}

/// This program goes by one name.
pub proof fn law_the_wrapper_has_one_name(name: Seq<char>)
    ensures
        is_other_name(name) <==> name != "hurry-cargo-rustc-wrapper"@,
{
}

} // verus!
