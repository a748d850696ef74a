//! The hash tables that the preview cache keeps, keyed by scene identity.
//!
//! The tables are Bevy's `HashMap` and `HashSet`, which are hashbrown's with
//! Bevy's default hasher. Their contents are named by two functions without a
//! body, and every operation on them is a call whose contract is taken on
//! trust. A key is a [`SceneId`], whose derived equality and hash go by the
//! variant and its number.

use crate::scene::SceneId;
use bevy::asset::UntypedHandle;
use bevy::utils::{HashMap, HashSet};
use vstd::prelude::*;

verus! {

/// A `bevy::utils::HashMap` from scene identities to asset handles.
#[verifier::external_body]
pub struct HandleMap {
    inner: HashMap<SceneId, UntypedHandle>,
}

/// A `bevy::utils::HashSet` of scene identities.
#[verifier::external_body]
pub struct SceneSet {
    inner: HashSet<SceneId>,
}

/// The entries that the map inside a [`HandleMap`] holds.
pub uninterp spec fn handle_map_entries(m: HandleMap) -> Map<SceneId, UntypedHandle>;

/// The identities that the set inside a [`SceneSet`] holds.
pub uninterp spec fn scene_set_members(s: SceneSet) -> Set<SceneId>;

impl View for HandleMap {
    type V = Map<SceneId, UntypedHandle>;

    open spec fn view(&self) -> Map<SceneId, UntypedHandle> {
        handle_map_entries(*self)
    }
}

impl View for SceneSet {
    type V = Set<SceneId>;

    open spec fn view(&self) -> Set<SceneId> {
        scene_set_members(*self)
    }
}

/// What a lookup of `id` in `entries` gives.
pub open spec fn lookup(entries: Map<SceneId, UntypedHandle>, id: SceneId) -> Option<
    UntypedHandle,
> {
    if entries.contains_key(id) {
        Some(entries[id])
    } else {
        None
    }
}

/// An empty map, made by `HashMap::default`.
#[verifier::external_body]
pub(crate) fn handle_map_new() -> (m: HandleMap)
    ensures
        handle_map_entries(m) == (Map::<SceneId, UntypedHandle>::empty()),
{
    HandleMap { inner: HashMap::default() }
}

/// `HashMap::get`, with the handle found cloned: a clone of a handle refers to
/// the same asset and is the same value to the library.
#[verifier::external_body]
pub(crate) fn handle_map_get(m: &HandleMap, id: SceneId) -> (r: Option<UntypedHandle>)
    ensures
        r == lookup(handle_map_entries(*m), id),
{
    m.inner.get(&id).cloned()
}

/// `HashMap::insert`: the entry for `id` is added or replaced, the others stay.
#[verifier::external_body]
pub(crate) fn handle_map_insert(m: &mut HandleMap, id: SceneId, handle: UntypedHandle)
    ensures
        handle_map_entries(*final(m)) == handle_map_entries(*old(m)).insert(id, handle),
{
    m.inner.insert(id, handle);
}

/// `HashMap::remove`: the entry for `id` leaves the map and its handle is
/// returned, if there was one.
#[verifier::external_body]
pub(crate) fn handle_map_remove(m: &mut HandleMap, id: SceneId) -> (r: Option<UntypedHandle>)
    ensures
        handle_map_entries(*final(m)) == handle_map_entries(*old(m)).remove(id),
        r == lookup(handle_map_entries(*old(m)), id),
{
    m.inner.remove(&id)
}

/// The first key that `HashMap::keys` walks over. Which key that is depends on
/// the hasher, so the contract only says that it is one of the map's keys, and
/// that there is none exactly when the map is empty.
#[verifier::external_body]
pub(crate) fn handle_map_any_key(m: &HandleMap) -> (r: Option<SceneId>)
    ensures
        match r {
            Some(id) => handle_map_entries(*m).contains_key(id),
            None => handle_map_entries(*m) == (Map::<SceneId, UntypedHandle>::empty()),
        },
{
    m.inner.keys().next().copied()
}

/// `HashMap::len`: the number of entries.
#[verifier::external_body]
pub(crate) fn handle_map_len(m: &HandleMap) -> (n: usize)
    ensures
        n == handle_map_entries(*m).len(),
{
    m.inner.len()
}

/// An empty set, made by `HashSet::default`.
#[verifier::external_body]
pub(crate) fn scene_set_new() -> (s: SceneSet)
    ensures
        scene_set_members(s) == Set::<SceneId>::empty(),
{
    SceneSet { inner: HashSet::default() }
}

/// `HashSet::contains`.
#[verifier::external_body]
pub(crate) fn scene_set_contains(s: &SceneSet, id: SceneId) -> (r: bool)
    ensures
        r == scene_set_members(*s).contains(id),
{
    s.inner.contains(&id)
}

/// `HashSet::insert`: `id` is a member afterwards, and nothing else changes.
#[verifier::external_body]
pub(crate) fn scene_set_insert(s: &mut SceneSet, id: SceneId)
    ensures
        scene_set_members(*final(s)) == scene_set_members(*old(s)).insert(id),
{
    s.inner.insert(id);
}

/// `HashSet::remove`: `id` is no member afterwards, and nothing else changes.
#[verifier::external_body]
pub(crate) fn scene_set_remove(s: &mut SceneSet, id: SceneId)
    ensures
        scene_set_members(*final(s)) == scene_set_members(*old(s)).remove(id),
{
    s.inner.remove(&id);
}

} // verus!
