//! The two hash maps of the interpreter: the scripts that were loaded, by
//! name, and the global variables. Both are `ahash::AHashMap`s.

use vstd::prelude::*;

verus! {

#[verifier::external_type_specification]
#[verifier::external_body]
#[verifier::reject_recursive_types(K)]
#[verifier::reject_recursive_types(V)]
#[verifier::reject_recursive_types(S)]
pub struct ExAHashMap<K, V, S>(ahash::AHashMap<K, V, S>);

#[verifier::external_type_specification]
#[verifier::external_body]
pub struct ExRandomState(ahash::RandomState);

/// The entries of a map from script names to places in the list of loaded
/// scripts.
pub uninterp spec fn cache_entries(m: ahash::AHashMap<Vec<u8>, usize>) -> Map<Seq<u8>, usize>;

/// The entries of a map from variable names to values.
pub uninterp spec fn global_entries(m: ahash::AHashMap<Vec<u8>, Vec<u8>>) -> Map<
    Seq<u8>,
    Seq<u8>,
>;

/// `AHashMap::new`: a map without entries.
#[verifier::external_body]
pub(crate) fn cache_new() -> (m: ahash::AHashMap<Vec<u8>, usize>)
    ensures
        cache_entries(m).dom() == Set::<Seq<u8>>::empty(),
{
    ahash::AHashMap::new()
}

/// `AHashMap::insert`: the entry for the key is set, whether or not there was
/// one, and the others stay.
#[verifier::external_body]
pub(crate) fn cache_insert(m: &mut ahash::AHashMap<Vec<u8>, usize>, name: Vec<u8>, place: usize)
    ensures
        cache_entries(*final(m)) == cache_entries(*old(m)).insert(name@, place),
{
    m.insert(name, place);
}

/// `AHashMap::get`: the value of the entry whose key holds the same bytes, if
/// there is one.
#[verifier::external_body]
pub(crate) fn cache_get(m: &ahash::AHashMap<Vec<u8>, usize>, name: &[u8]) -> (place: Option<usize>)
    ensures
        place == if cache_entries(*m).dom().contains(name@) {
            Some(cache_entries(*m)[name@])
        } else {
            None
        },
{
    m.get(name).copied()
}

/// `AHashMap::new`: a map without entries.
#[verifier::external_body]
pub(crate) fn globals_new() -> (m: ahash::AHashMap<Vec<u8>, Vec<u8>>)
    ensures
        global_entries(m).dom() == Set::<Seq<u8>>::empty(),
{
    ahash::AHashMap::new()
}

/// `AHashMap::insert`: the entry for the key is set, whether or not there was
/// one, and the others stay.
#[verifier::external_body]
pub(crate) fn globals_insert(
    m: &mut ahash::AHashMap<Vec<u8>, Vec<u8>>,
    name: Vec<u8>,
    value: Vec<u8>,
)
    ensures
        global_entries(*final(m)) == global_entries(*old(m)).insert(name@, value@),
{
    m.insert(name, value);
}

/// `AHashMap::get`: a copy of the value of the entry whose key holds the same
/// bytes, if there is one.
#[verifier::external_body]
pub(crate) fn globals_get(m: &ahash::AHashMap<Vec<u8>, Vec<u8>>, name: &[u8]) -> (value: Option<
    Vec<u8>,
>)
    ensures
        value is Some == global_entries(*m).dom().contains(name@),
        value matches Some(v) ==> v@ == global_entries(*m)[name@],
{
    m.get(name).cloned()
}

} // verus!
