//! Maps keyed by strings that use the `fx` hash of `rustc_hash`: the
//! declarations that let verified code hold them, the names of their
//! contents, and the calls that read and change them.

use rustc_hash::FxHashMap;
use vstd::prelude::*;

use crate::ids::CallbackHandle;
use crate::ids::ModuleIdentifier;

verus! {

/// The hasher of `rustc_hash`, a type that verified code only carries.
#[verifier::external_type_specification]
#[verifier::external_body]
pub struct ExFxHasher(rustc_hash::FxHasher);

/// std's builder of default hashers, a type that verified code only carries.
#[verifier::external_type_specification]
#[verifier::external_body]
#[verifier::reject_recursive_types(H)]
pub struct ExBuildHasherDefault<H>(std::hash::BuildHasherDefault<H>);

/// Lists of callbacks by key.
pub type CallbackListsView = Map<Seq<char>, Seq<CallbackHandle>>;

/// Modules by key.
pub type FinishedModulesView = Map<Seq<char>, ModuleIdentifier>;

/// Strings by key.
pub type StringEntriesView = Map<Seq<char>, Seq<char>>;

/// What a map from keys to lists of callbacks holds, by the characters of
/// each key.
pub uninterp spec fn callback_lists(m: FxHashMap<String, Vec<CallbackHandle>>) -> Map<
    Seq<char>,
    Seq<CallbackHandle>,
>;

/// What a map from keys to modules holds, by the characters of each key.
pub uninterp spec fn finished_modules(m: FxHashMap<String, ModuleIdentifier>) -> Map<
    Seq<char>,
    ModuleIdentifier,
>;

/// What a map from strings to strings holds, by characters.
pub uninterp spec fn string_entries(m: FxHashMap<String, String>) -> Map<Seq<char>, Seq<char>>;

/// A map from keys to lists of callbacks.
pub type CallbackLists = FxHashMap<String, Vec<CallbackHandle>>;

/// `FxHashMap::default()`: a map with no entries.
#[verifier::external_body]
pub(crate) fn new_callback_lists() -> (result: CallbackLists)
    ensures
        callback_lists(result) == CallbackListsView::empty(),
{
    FxHashMap::default()
}

/// `HashMap::remove`: takes the entry of `key` out of the map and hands
/// back its value, if there was one; the other entries stay.
#[verifier::external_body]
pub(crate) fn callback_lists_remove(
    m: &mut FxHashMap<String, Vec<CallbackHandle>>,
    key: &str,
) -> (r: Option<Vec<CallbackHandle>>)
    ensures
        callback_lists(*final(m)) == callback_lists(*old(m)).remove(key@),
        match r {
            Some(v) => callback_lists(*old(m)).contains_key(key@) && v@ == callback_lists(
                *old(m),
            )[key@],
            None => !callback_lists(*old(m)).contains_key(key@),
        },
{
    m.remove(key)
}

/// `HashMap::insert`: the entry of `key` now holds `value`; the other
/// entries stay.
#[verifier::external_body]
pub(crate) fn callback_lists_insert(
    m: &mut FxHashMap<String, Vec<CallbackHandle>>,
    key: String,
    value: Vec<CallbackHandle>,
)
    ensures
        callback_lists(*final(m)) == callback_lists(*old(m)).insert(key@, value@),
{
    m.insert(key, value);
}

/// `FxHashMap::default()`: a map with no entries.
#[verifier::external_body]
pub(crate) fn new_finished_modules() -> (result: FxHashMap<String, ModuleIdentifier>)
    ensures
        finished_modules(result) == FinishedModulesView::empty(),
{
    FxHashMap::default()
}

/// `HashMap::get`, copying the value: the module that `key` maps to, if
/// any.
#[verifier::external_body]
pub(crate) fn finished_modules_get(m: &FxHashMap<String, ModuleIdentifier>, key: &str) -> (r:
    Option<ModuleIdentifier>)
    ensures
        match r {
            Some(v) => finished_modules(*m).contains_key(key@) && v == finished_modules(*m)[key@],
            None => !finished_modules(*m).contains_key(key@),
        },
{
    m.get(key).copied()
}

/// `HashMap::insert`: the entry of `key` now holds `value`; the other
/// entries stay.
#[verifier::external_body]
pub(crate) fn finished_modules_insert(
    m: &mut FxHashMap<String, ModuleIdentifier>,
    key: String,
    value: ModuleIdentifier,
)
    ensures
        finished_modules(*final(m)) == finished_modules(*old(m)).insert(key@, value),
{
    m.insert(key, value);
}

/// `FxHashMap::default()`: a map with no entries.
#[verifier::external_body]
pub(crate) fn new_string_entries() -> (result: FxHashMap<String, String>)
    ensures
        string_entries(result) == StringEntriesView::empty(),
{
    FxHashMap::default()
}

/// `HashMap::insert`: the entry of `key` now holds `value`; the other
/// entries stay.
#[verifier::external_body]
pub(crate) fn string_entries_insert(m: &mut FxHashMap<String, String>, key: String, value: String)
    ensures
        string_entries(*final(m)) == string_entries(*old(m)).insert(key@, value@),
{
    m.insert(key, value);
}

/// `HashMap::get`, cloning the value: the string that `key` maps to, if
/// any.
#[verifier::external_body]
pub(crate) fn string_entries_get(m: &FxHashMap<String, String>, key: &str) -> (r: Option<String>)
    ensures
        match r {
            Some(v) => string_entries(*m).contains_key(key@) && v@ == string_entries(*m)[key@],
            None => !string_entries(*m).contains_key(key@),
        },
{
    m.get(key).cloned()
}

/// `HashMap::keys`, collected: each key of the map once, in the order in
/// which the map happens to hold them (which the source leaves open).
#[verifier::external_body]
pub(crate) fn string_entries_keys(m: &FxHashMap<String, String>) -> (r: Vec<String>)
    ensures
        r@.map_values(|k: String| k@).to_set() == string_entries(*m).dom(),
        r@.map_values(|k: String| k@).no_duplicates(),
{
    m.keys().cloned().collect()
}

} // verus!
