//! The hash maps that index the names and the identifiers of a scope,
//! and the hash set of a list of names.

use core::hash::BuildHasherDefault;
use rustc_hash::FxHashMap;
use rustc_hash::FxHashSet;
use rustc_hash::FxHasher;
use std::rc::Rc;
use vstd::prelude::*;

verus! {

/// `rustc_hash::FxHasher`: the hasher of the name index.
#[verifier::external_type_specification]
#[verifier::external_body]
pub struct ExFxHasher(FxHasher);

/// `core::hash::BuildHasherDefault`: what makes the hashers of a map.
#[verifier::external_type_specification]
#[verifier::external_body]
#[verifier::reject_recursive_types(H)]
pub struct ExBuildHasherDefault<H>(BuildHasherDefault<H>);

/// The entries of a name index: each name, as its characters, with the
/// number stored under it.
pub uninterp spec fn name_index(m: FxHashMap<String, usize>) -> Map<Seq<char>, usize>;

/// `FxHashMap::default`: a map without entries.
#[verifier::external_body]
pub(crate) fn name_index_new() -> (m: FxHashMap<String, usize>)
    ensures
        name_index(m) == (Map::<Seq<char>, usize>::empty()),
{
    FxHashMap::default()
}

/// `HashMap::insert`: afterwards `name` maps to `slot`, and every other name
/// to what it mapped to before.
#[verifier::external_body]
pub(crate) fn name_index_insert(m: &mut FxHashMap<String, usize>, name: String, slot: usize)
    ensures
        name_index(*final(m)) == name_index(*old(m)).insert(name@, slot),
{
    m.insert(name, slot);
}

/// `HashMap::get`: the number stored under `name`, if there is one. Names
/// are found by their characters.
#[verifier::external_body]
pub(crate) fn name_index_get(m: &FxHashMap<String, usize>, name: &str) -> (r: Option<usize>)
    ensures
        r == (if name_index(*m).contains_key(name@) {
            Some(name_index(*m)[name@])
        } else {
            None
        }),
{
    m.get(name).copied()
}

/// The entries of an identifier index: each identifier with the number
/// stored under it.
pub uninterp spec fn id_index(m: FxHashMap<u32, usize>) -> Map<u32, usize>;

/// `FxHashMap::default`: a map without entries.
#[verifier::external_body]
pub(crate) fn id_index_new() -> (m: FxHashMap<u32, usize>)
    ensures
        id_index(m) == (Map::<u32, usize>::empty()),
{
    FxHashMap::default()
}

/// `HashMap::insert`: afterwards `id` maps to `slot`, and every other
/// identifier to what it mapped to before.
#[verifier::external_body]
pub(crate) fn id_index_insert(m: &mut FxHashMap<u32, usize>, id: u32, slot: usize)
    ensures
        id_index(*final(m)) == id_index(*old(m)).insert(id, slot),
{
    m.insert(id, slot);
}

/// `HashMap::contains_key`: whether a number is stored under `id`.
#[verifier::external_body]
pub(crate) fn id_index_contains(m: &FxHashMap<u32, usize>, id: u32) -> (r: bool)
    ensures
        r == id_index(*m).contains_key(id),
{
    m.contains_key(&id)
}

/// The names that a set of names holds, each as its characters.
pub uninterp spec fn name_set(s: FxHashSet<&'static str>) -> Set<Seq<char>>;

/// `FxHashSet::default`: a set without entries.
#[verifier::external_body]
pub(crate) fn name_set_new() -> (s: FxHashSet<&'static str>)
    ensures
        name_set(s) == (Set::<Seq<char>>::empty()),
{
    FxHashSet::default()
}

/// `HashSet::insert`: afterwards the set holds `name` and what it held
/// before.
#[verifier::external_body]
pub(crate) fn name_set_insert(s: &mut FxHashSet<&'static str>, name: &'static str)
    ensures
        name_set(*final(s)) == name_set(*old(s)).insert(name@),
{
    s.insert(name);
}

/// `HashSet::contains`: whether the set holds `name`.
#[verifier::external_body]
pub(crate) fn name_set_contains(s: &FxHashSet<&'static str>, name: &str) -> (r: bool)
    ensures
        r == name_set(*s).contains(name@),
{
    s.contains(name)
}

/// `Rc::clone`: another handle to the same value.
#[verifier::external_body]
pub(crate) fn rc_share<T>(rc: &Rc<T>) -> (r: Rc<T>)
    ensures
        r == *rc,
{
    Rc::clone(rc)
}

} // verus!
