//! Environment variables, as a list of names and values.

use vstd::prelude::*;
use vstd::string::*;

use crate::text;

verus! {

/// The value of a variable: that of its first entry.
pub open spec fn value_of(env: Seq<(String, String)>, key: Seq<char>) -> Option<Seq<char>>
    decreases env.len(),
{
    if env.len() == 0 {
        None
    } else if env[0].0@ == key {
        Some(env[0].1@)
    } else {
        value_of(env.skip(1), key)
    }
}

/// The first entry of a name counts, and a name without an entry has no value.
pub proof fn law_first_entry_counts(env: Seq<(String, String)>, key: Seq<char>, i: int)
    requires
        0 <= i <= env.len(),
        forall|j: int| 0 <= j < i ==> (#[trigger] env[j]).0@ != key,
        i < env.len() ==> env[i].0@ == key,
    ensures
        i < env.len() ==> value_of(env, key) == Some(env[i].1@),
        i == env.len() ==> value_of(env, key) is None,
    decreases env.len(),
{
    if i > 0 {
        assert(env[0].0@ != key);
        let rest = env.skip(1);
        assert forall|j: int| 0 <= j < i - 1 implies (#[trigger] rest[j]).0@ != key by {
            assert(rest[j] == env[j + 1]);
        }
        law_first_entry_counts(rest, key, i - 1);
    }
}

/// The value of a variable.
pub fn get(env: &Vec<(String, String)>, key: &str) -> (r: Option<String>)
    ensures
        match r {
            Some(v) => value_of(env@, key@) == Some(v@),
            None => value_of(env@, key@) is None,
        },
{
    let mut i: usize = 0;
    assert(env@.skip(0) =~= env@);
    while i < env.len()
        invariant
            i <= env.len(),
            value_of(env@, key@) == value_of(env@.skip(i as int), key@),
        decreases env.len() - i,
    {
        let ghost rest = env@.skip(i as int);
        assert(rest[0] == env@[i as int]);
        if text::same(env[i].0.as_str(), key) {
            return Some(env[i].1.clone());
        }
        assert(rest.skip(1) =~= env@.skip(i + 1));
        i += 1;
    }
    None
}

} // verus!
