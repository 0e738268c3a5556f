//! Hash sets of register indices, line numbers and register values.
//!
//! The sets are `hashbrown::HashSet`s. Verus cannot look inside them, so this
//! module names what a set holds and states, for each method the debugger
//! calls, how the call changes or reads that content. These statements are
//! taken from hashbrown's documentation and are believed, not proved.
use vstd::prelude::*;
use hashbrown::HashSet;

verus! {

/// `hashbrown::HashSet`, the set type of the debugger. Nothing is claimed of
/// it here; values of it are only carried around.
#[verifier::external_type_specification]
#[verifier::external_body]
#[verifier::reject_recursive_types(T)]
#[verifier::reject_recursive_types(S)]
pub struct ExHashSet<T, S>(hashbrown::HashSet<T, S>);

/// `hashbrown::hash_map::DefaultHashBuilder`, the hasher that
/// `hashbrown::HashSet` uses unless told otherwise. Nothing is claimed of it.
#[verifier::external_type_specification]
#[verifier::external_body]
pub struct ExDefaultHashBuilder(hashbrown::hash_map::DefaultHashBuilder);

/// The indices (register numbers or line numbers) that a set holds.
pub uninterp spec fn index_set_view(s: HashSet<usize>) -> Set<usize>;

/// The register values that a set holds.
pub uninterp spec fn value_set_view(s: HashSet<i64>) -> Set<i64>;

/// `hashbrown::HashSet::new`: the new set holds nothing.
#[verifier::external_body]
pub(crate) fn index_set_new() -> (s: HashSet<usize>)
    ensures
        index_set_view(s) == Set::<usize>::empty(),
{
    HashSet::new()
}

/// `hashbrown::HashSet::insert`: afterwards the set holds what it held and
/// `value`; the result tells whether `value` was absent before.
#[verifier::external_body]
pub(crate) fn index_set_insert(s: &mut HashSet<usize>, value: usize) -> (fresh: bool)
    ensures
        index_set_view(*final(s)) == index_set_view(*old(s)).insert(value),
        fresh == !index_set_view(*old(s)).contains(value),
{
    s.insert(value)
}

/// `hashbrown::HashSet::contains`: the result tells whether the set holds
/// `value`.
#[verifier::external_body]
pub(crate) fn index_set_contains(s: &HashSet<usize>, value: usize) -> (found: bool)
    ensures
        found == index_set_view(*s).contains(value),
{
    s.contains(&value)
}

/// `hashbrown::HashSet::clear`: afterwards the set holds nothing.
#[verifier::external_body]
pub(crate) fn index_set_clear(s: &mut HashSet<usize>)
    ensures
        index_set_view(*final(s)) == Set::<usize>::empty(),
{
    s.clear()
}

/// `hashbrown::HashSet::len`: the result is the number of values that the
/// set holds.
#[verifier::external_body]
pub(crate) fn index_set_len(s: &HashSet<usize>) -> (n: usize)
    ensures
        n == index_set_view(*s).len(),
{
    s.len()
}

/// `hashbrown::HashSet::new`: the new set holds nothing.
#[verifier::external_body]
pub(crate) fn value_set_new() -> (s: HashSet<i64>)
    ensures
        value_set_view(s) == Set::<i64>::empty(),
{
    HashSet::new()
}

/// `hashbrown::HashSet::insert`: afterwards the set holds what it held and
/// `value`; the result tells whether `value` was absent before.
#[verifier::external_body]
pub(crate) fn value_set_insert(s: &mut HashSet<i64>, value: i64) -> (fresh: bool)
    ensures
        value_set_view(*final(s)) == value_set_view(*old(s)).insert(value),
        fresh == !value_set_view(*old(s)).contains(value),
{
    s.insert(value)
}

/// `hashbrown::HashSet::clear`: afterwards the set holds nothing.
#[verifier::external_body]
pub(crate) fn value_set_clear(s: &mut HashSet<i64>)
    ensures
        value_set_view(*final(s)) == Set::<i64>::empty(),
{
    s.clear()
}

/// `hashbrown::HashSet::len`: the result is the number of values that the
/// set holds.
#[verifier::external_body]
pub(crate) fn value_set_len(s: &HashSet<i64>) -> (n: usize)
    ensures
        n == value_set_view(*s).len(),
{
    s.len()
}

} // verus!
