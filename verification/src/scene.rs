//! Scene identities, and the asset handles that travel with them.

use bevy::asset::{UntypedAssetId, UntypedHandle};
use vstd::prelude::*;

verus! {

/// `bevy::asset::UntypedHandle`, Bevy's type-erased asset handle. A scene is
/// held by one, and so is the image that a preview is rendered into. The
/// library never looks inside: it keeps a handle alive and passes it on.
#[verifier::external_type_specification]
#[verifier::external_body]
pub struct ExUntypedHandle(UntypedHandle);

/// The identity of a scene asset, as plain numbers.
///
/// An asset is identified either by its place in the asset storage or by a
/// UUID that stays the same from run to run.
#[derive(Clone, Copy, Debug, PartialEq, Eq, Hash, Structural)]
pub enum SceneId {
    /// A runtime identifier: generation and index of the storage cell, packed.
    Index { bits: u64 },
    /// A stable identifier.
    Uuid { uuid: u128 },
}

/// The identity of the asset that a handle refers to: what `UntypedHandle::id`
/// returns, spelled out in numbers. The type of asset that the handle was made
/// for is no part of it.
pub uninterp spec fn scene_id_of(handle: UntypedHandle) -> SceneId;

/// Reads the identity of the asset that `handle` refers to.
///
/// Calls `UntypedHandle::id` and spells the identifier out in numbers:
/// `AssetIndex::to_bits` for a runtime identifier, `Uuid::as_u128` for a stable
/// one.
#[verifier::external_body]
pub(crate) fn handle_scene_id(handle: &UntypedHandle) -> (id: SceneId)
    ensures
        id == scene_id_of(*handle),
{
    match handle.id() {
        UntypedAssetId::Index { index, .. } => SceneId::Index { bits: index.to_bits() },
        UntypedAssetId::Uuid { uuid, .. } => SceneId::Uuid { uuid: uuid.as_u128() },
    }
}

/// `UntypedHandle::clone`: a second handle to the same asset. The library takes
/// a handle for what it refers to, so the clone is the same value to it.
#[verifier::external_body]
pub(crate) fn clone_handle(handle: &UntypedHandle) -> (copy: UntypedHandle)
    ensures
        copy == *handle,
{
    handle.clone()
}

} // verus!
