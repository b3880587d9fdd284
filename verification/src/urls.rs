//! Operations on URL sets.
//!
//! The sets are hashbrown hash sets of URL serializations. Verified code
//! reads and fills them through the functions below, whose contracts speak
//! of `urls_of`, the mathematical set of character sequences a set holds.

use vstd::prelude::*;
use crate::ty::Urls;

verus! {

#[verifier::external_type_specification]
#[verifier::external_body]
#[verifier::reject_recursive_types(T)]
#[verifier::reject_recursive_types(S)]
pub struct ExHashSet<T, S>(hashbrown::HashSet<T, S>);

#[verifier::external_type_specification]
#[verifier::external_body]
pub struct ExDefaultHashBuilder(hashbrown::hash_map::DefaultHashBuilder);

/// The URLs a set holds, as a set of their character sequences.
pub uninterp spec fn urls_of(s: Urls) -> Set<Seq<char>>;

/// Relies on hashbrown::HashSet::new: the new set is empty.
#[verifier::external_body]
pub fn urls_new() -> (r: Urls)
    ensures
        urls_of(r) == Set::<Seq<char>>::empty(),
{
    hashbrown::HashSet::new()
}

/// Relies on hashbrown::HashSet::insert, with std's equality and hash on
/// String: afterwards the set holds the given value and all it held before.
#[verifier::external_body]
pub fn urls_insert(s: &mut Urls, url: String)
    ensures
        urls_of(*final(s)) == urls_of(*old(s)).insert(url@),
{
    s.insert(url);
}

/// Relies on hashbrown::HashSet::contains, with std's equality and hash on
/// String.
#[verifier::external_body]
pub fn urls_contains(s: &Urls, url: &str) -> (r: bool)
    ensures
        r == urls_of(*s).contains(url@),
{
    s.contains(url)
}

/// Relies on hashbrown::HashSet::remove, with std's equality and hash on
/// String.
#[verifier::external_body]
pub fn urls_remove(s: &mut Urls, url: &str)
    ensures
        urls_of(*final(s)) == urls_of(*old(s)).remove(url@),
{
    s.remove(url);
}

/// Relies on hashbrown::HashSet::iter: it yields an element of the set, or
/// nothing exactly when the set is empty. Which element comes first is
/// unspecified.
#[verifier::external_body]
pub fn urls_pick(s: &Urls) -> (r: Option<String>)
    ensures
        (match r {
            Some(u) => urls_of(*s).contains(u@),
            None => urls_of(*s) == Set::<Seq<char>>::empty(),
        }),
{
    s.iter().next().cloned()
}

/// Relies on hashbrown::HashSet::iter: it yields every element of the set,
/// in unspecified order.
#[verifier::external_body]
pub fn urls_elements(s: &Urls) -> (r: Vec<String>)
    ensures
        r.deep_view().to_set() == urls_of(*s),
{
    s.iter().cloned().collect()
}

} // verus!
