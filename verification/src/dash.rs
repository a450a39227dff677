//! Concurrent sets and maps of strings.
//!
//! `dashmap`'s collections can be shared between threads. Here they are handed
//! around as exclusive references, so that what a call does to their contents can
//! be stated.

use vstd::prelude::*;

verus! {

/// `dashmap::DashSet`.
#[verifier::external_type_specification]
#[verifier::external_body]
#[verifier::reject_recursive_types(K)]
#[verifier::reject_recursive_types(S)]
pub struct ExDashSet<K, S>(dashmap::DashSet<K, S>);

/// `dashmap::DashMap`.
#[verifier::external_type_specification]
#[verifier::external_body]
#[verifier::reject_recursive_types(K)]
#[verifier::reject_recursive_types(V)]
#[verifier::reject_recursive_types(S)]
pub struct ExDashMap<K, V, S>(dashmap::DashMap<K, V, S>);

/// The strings that a set holds.
pub uninterp spec fn set_contents(s: dashmap::DashSet<String>) -> Set<Seq<char>>;

/// What the sets in a map hold, by their keys.
pub uninterp spec fn map_contents(
    m: dashmap::DashMap<String, dashmap::DashSet<String>>,
) -> Map<Seq<char>, Set<Seq<char>>>;

/// The contents of a map that holds nothing.
pub open spec fn no_entries() -> Map<Seq<char>, Set<Seq<char>>> {
    Map::empty()
}

/// `dashmap::DashSet::new`: a set that holds nothing.
#[verifier::external_body]
pub(crate) fn set_new() -> (s: dashmap::DashSet<String>)
    ensures
        set_contents(s) == Set::<Seq<char>>::empty(),
{
    dashmap::DashSet::new()
}

/// `dashmap::DashSet::insert`: adds a string, and tells whether it is new.
#[verifier::external_body]
pub(crate) fn set_insert(s: &mut dashmap::DashSet<String>, item: String) -> (r: bool)
    ensures
        set_contents(*final(s)) == set_contents(*old(s)).insert(item@),
        r == !set_contents(*old(s)).contains(item@),
{
    s.insert(item)
}

/// `dashmap::DashSet::contains`: whether a string is there.
#[verifier::external_body]
pub(crate) fn set_contains(s: &dashmap::DashSet<String>, item: &str) -> (r: bool)
    ensures
        r == set_contents(*s).contains(item@),
{
    s.contains(item)
}

/// `dashmap::DashSet::remove`: takes a string out, and hands it back where it was
/// there.
#[verifier::external_body]
pub(crate) fn set_remove(s: &mut dashmap::DashSet<String>, item: &str) -> (r: Option<String>)
    ensures
        set_contents(*final(s)) == set_contents(*old(s)).remove(item@),
        r is Some <==> set_contents(*old(s)).contains(item@),
        r matches Some(t) ==> t@ == item@,
{
    s.remove(item)
}

/// `dashmap::DashSet::is_empty`: whether nothing is there.
#[verifier::external_body]
pub(crate) fn set_is_empty(s: &dashmap::DashSet<String>) -> (r: bool)
    ensures
        r == (set_contents(*s) == Set::<Seq<char>>::empty()),
{
    s.is_empty()
}

/// `dashmap::DashMap::new`: a map that holds nothing.
#[verifier::external_body]
pub(crate) fn map_new() -> (m: dashmap::DashMap<String, dashmap::DashSet<String>>)
    ensures
        map_contents(m) == no_entries(),
{
    dashmap::DashMap::new()
}

/// `dashmap::DashMap::insert`: enters a set for a key, in place of the one that
/// was there.
#[verifier::external_body]
pub(crate) fn map_insert(
    m: &mut dashmap::DashMap<String, dashmap::DashSet<String>>,
    key: String,
    value: dashmap::DashSet<String>,
)
    ensures
        map_contents(*final(m)) == map_contents(*old(m)).insert(key@, set_contents(value)),
{
    m.insert(key, value);
}

/// `dashmap::DashMap::remove`: takes the set of a key out, and hands it back where
/// there was one.
#[verifier::external_body]
pub(crate) fn map_remove(
    m: &mut dashmap::DashMap<String, dashmap::DashSet<String>>,
    key: &str,
) -> (r: Option<dashmap::DashSet<String>>)
    ensures
        map_contents(*final(m)) == map_contents(*old(m)).remove(key@),
        match r {
            Some(s) => map_contents(*old(m)).contains_key(key@) && set_contents(s)
                == map_contents(*old(m))[key@],
            None => !map_contents(*old(m)).contains_key(key@),
        },
{
    m.remove(key).map(|entry| entry.1)
}

} // verus!
