//! What `rustc` is asked to compile, and for which platform.

use vstd::prelude::*;
use vstd::string::*;

use crate::path;
use crate::path::PathError;
use crate::text;

verus! {

/// A platform that `rustc` compiles for, known by its target triple.
#[derive(Debug)]
pub struct RustcTargetPlatform {
    triple: String,
}

impl View for RustcTargetPlatform {
    type V = Seq<char>;

    closed spec fn view(&self) -> Seq<char> {
        self.triple@
    }
}

/// Whether programs for a platform run against glibc: those for Linux with an environment
/// of the name `gnu`, whatever the binary interface that stands behind it.
pub open spec fn triple_uses_glibc(triple: Seq<char>) -> bool {
    text::split_once_on(triple, "-linux-gnu"@) is Some
}

impl RustcTargetPlatform {
    #[verifier::type_invariant]
    spec fn inv(self) -> bool {
        !path::is_abs(self.triple@)
    }

    /// The platform of a target triple, which also names a directory and so must
    /// not be an absolute path.
    pub fn new(triple: &str) -> (r: Result<RustcTargetPlatform, PathError>)
        ensures
            match r {
                Ok(p) => !path::is_abs(triple@) && p@ == triple@,
                Err(e) => path::is_abs(triple@) && e == PathError::NotRelative,
            },
    {
        if path::is_absolute(triple) {
            Err(PathError::NotRelative)
        } else {
            Ok(RustcTargetPlatform { triple: text::copy(triple) })
        }
    }

    /// The target triple.
    pub fn as_str(&self) -> (r: &str)
        ensures
            r@ == self@,
            !path::is_abs(self@),
    {
        proof {
            use_type_invariant(self);
        }
        self.triple.as_str()
    }

    /// Whether programs for this platform run against glibc.
    pub fn uses_glibc(&self) -> (r: bool)
        ensures
            r == triple_uses_glibc(self@),
    {
        text::split_once_str(self.triple.as_str(), "-linux-gnu").is_some()
    }

    /// Whether two platforms are the same.
    pub fn same(&self, other: &RustcTargetPlatform) -> (r: bool)
        ensures
            r == (self@ == other@),
    {
        text::same(self.triple.as_str(), other.triple.as_str())
    }
}

impl Clone for RustcTargetPlatform {
    fn clone(&self) -> (r: Self)
        ensures
            r == *self,
    {
        proof {
            use_type_invariant(self);
        }
        RustcTargetPlatform { triple: self.triple.clone() }
    }
}

/// The platform that a unit is compiled for.
#[derive(Debug)]
pub enum RustcTarget {
    /// The platform given with `--target`.
    Specified(RustcTargetPlatform),
    /// The host, because no platform was given.
    ImplicitHost,
}

impl View for RustcTarget {
    type V = Option<Seq<char>>;

    open spec fn view(&self) -> Option<Seq<char>> {
        match self {
            RustcTarget::Specified(p) => Some(p@),
            RustcTarget::ImplicitHost => None,
        }
    }
}

impl Clone for RustcTarget {
    fn clone(&self) -> (r: Self)
        ensures
            r == *self,
    {
        match self {
            RustcTarget::Specified(p) => RustcTarget::Specified(p.clone()),
            RustcTarget::ImplicitHost => RustcTarget::ImplicitHost,
        }
    }
}

/// What the build plan reads of the arguments of a `rustc` invocation.
#[derive(Debug)]
pub struct RustcArguments {
    pub argv: Vec<String>,
}

/// The position of the first argument that equals `flag`, or their number.
pub open spec fn flag_position(argv: Seq<Seq<char>>, flag: Seq<char>) -> int
    decreases argv.len(),
{
    if argv.len() == 0 || argv[0] == flag {
        0
    } else {
        1 + flag_position(argv.skip(1), flag)
    }
}

/// The argument that follows the first `flag`.
pub open spec fn flag_value(argv: Seq<Seq<char>>, flag: Seq<char>) -> Option<Seq<char>> {
    let i = flag_position(argv, flag);
    if i + 1 < argv.len() {
        Some(argv[i + 1])
    } else {
        None
    }
}

/// Whether an argument can be the source file: a Rust file and no flag.
pub open spec fn is_source_argument(arg: Seq<char>) -> bool {
    text::has_suffix(arg, ".rs"@) && !text::has_prefix(arg, "-"@)
}

/// The first argument that can be the source file.
pub open spec fn source_argument(argv: Seq<Seq<char>>) -> Option<Seq<char>>
    decreases argv.len(),
{
    if argv.len() == 0 {
        None
    } else if is_source_argument(argv[0]) {
        Some(argv[0])
    } else {
        source_argument(argv.skip(1))
    }
}

/// The value of a flag is the argument behind its first occurrence.
pub proof fn law_first_flag_counts(argv: Seq<Seq<char>>, flag: Seq<char>, i: int)
    requires
        0 <= i <= argv.len(),
        forall|j: int| 0 <= j < i ==> #[trigger] argv[j] != flag,
        i < argv.len() ==> argv[i] == flag,
    ensures
        flag_position(argv, flag) == i,
        i + 1 < argv.len() ==> flag_value(argv, flag) == Some(argv[i + 1]),
        i + 1 >= argv.len() ==> flag_value(argv, flag) is None,
    decreases argv.len(),
{
    if i > 0 {
        assert(argv[0] != flag);
        let rest = argv.skip(1);
        assert forall|j: int| 0 <= j < i - 1 implies #[trigger] rest[j] != flag by {
            assert(rest[j] == argv[j + 1]);
        }
        law_first_flag_counts(rest, flag, i - 1);
    }
}

/// The source file is the first argument that ends with `.rs` and does not begin with a
/// dash.
pub proof fn law_first_rust_file_is_the_source(argv: Seq<Seq<char>>, i: int)
    requires
        0 <= i <= argv.len(),
        forall|j: int|
            0 <= j < i ==> !text::has_suffix(#[trigger] argv[j], ".rs"@) || argv[j].len() > 0
                && argv[j][0] == '-',
        i < argv.len() ==> text::has_suffix(argv[i], ".rs"@) && (argv[i].len() == 0 || argv[i][0]
            != '-'),
    ensures
        i < argv.len() ==> source_argument(argv) == Some(argv[i]),
        i == argv.len() ==> source_argument(argv) is None,
    decreases argv.len(),
{
    reveal_strlit("-");
    assert forall|j: int| 0 <= j < argv.len() implies text::has_prefix(#[trigger] argv[j], "-"@)
        == (argv[j].len() > 0 && argv[j][0] == '-') by {
        if argv[j].len() > 0 {
            assert(argv[j].take(1)[0] == argv[j][0]);
            if argv[j][0] == '-' {
                assert(argv[j].take(1) =~= "-"@);
            }
        }
    }
    if argv.len() > 0 {
        assert(is_source_argument(argv[0]) == (text::has_suffix(argv[0], ".rs"@)
            && !text::has_prefix(argv[0], "-"@)));
    }
    if i > 0 {
        assert(!is_source_argument(argv[0]));
        let rest = argv.skip(1);
        assert forall|j: int| 0 <= j < i - 1 implies !text::has_suffix(#[trigger] rest[j], ".rs"@)
            || rest[j].len() > 0 && rest[j][0] == '-' by {
            assert(rest[j] == argv[j + 1]);
        }
        law_first_rust_file_is_the_source(rest, i - 1);
    }
}

impl RustcArguments {
    /// The value of `--crate-name`.
    pub fn crate_name(&self) -> (r: Option<String>)
        ensures
            match r {
                Some(s) => flag_value(text::views(self.argv@), "--crate-name"@) == Some(s@),
                None => flag_value(text::views(self.argv@), "--crate-name"@) is None,
            },
    {
        let ghost all = text::views(self.argv@);
        let mut i: usize = 0;
        assert(all.skip(0) =~= all);
        while i < self.argv.len() && !text::same(self.argv[i].as_str(), "--crate-name")
            invariant
                i <= self.argv.len(),
                all == text::views(self.argv@),
                flag_position(all, "--crate-name"@) == i + flag_position(
                    all.skip(i as int),
                    "--crate-name"@,
                ),
            decreases self.argv.len() - i,
        {
            assert(all.skip(i as int)[0] == self.argv@[i as int]@);
            assert(all.skip(i as int).skip(1) =~= all.skip(i + 1));
            i += 1;
        }
        proof {
            if i < self.argv.len() {
                assert(all.skip(i as int)[0] == self.argv@[i as int]@);
            }
        }
        if i < self.argv.len() && i + 1 < self.argv.len() {
            Some(self.argv[i + 1].clone())
        } else {
            None
        }
    }

    /// The source file.
    pub fn src_path(&self) -> (r: Option<String>)
        ensures
            match r {
                Some(s) => source_argument(text::views(self.argv@)) == Some(s@),
                None => source_argument(text::views(self.argv@)) is None,
            },
    {
        let ghost all = text::views(self.argv@);
        let mut i: usize = 0;
        assert(all.skip(0) =~= all);
        while i < self.argv.len()
            invariant
                i <= self.argv.len(),
                all == text::views(self.argv@),
                source_argument(all) == source_argument(all.skip(i as int)),
            decreases self.argv.len() - i,
        {
            assert(all.skip(i as int)[0] == self.argv@[i as int]@);
            let arg: &str = self.argv[i].as_str();
            if text::ends_with(arg, ".rs") && !text::starts_with(arg, "-") {
                return Some(text::copy(arg));
            }
            assert(all.skip(i as int).skip(1) =~= all.skip(i + 1));
            i += 1;
        }
        None
    }
}

/// Programs for a platform run against glibc exactly where its triple holds `-linux-gnu`.
pub proof fn law_platforms_with_glibc(triple: Seq<char>)
    ensures
        triple_uses_glibc(triple) <==> exists|i: int|
            0 <= i <= triple.len() && text::has_prefix(#[trigger] triple.skip(i), "-linux-gnu"@),
{
    text::law_first_occurrence_counts(triple, "-linux-gnu"@);
    if let Some((a, b)) = text::split_once_on(triple, "-linux-gnu"@) {
        let p = "-linux-gnu"@;
        let t = triple.skip(a.len() as int);
        assert(t =~= p + b);
        assert(t.take(p.len() as int) =~= p);
        assert(text::has_prefix(triple.skip(a.len() as int), p));
    }
}

} // verus!
