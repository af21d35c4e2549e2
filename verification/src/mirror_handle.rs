//! Mirroring a handle of one asset type as a handle of another.

use vstd::prelude::*;

verus! {

/// What a handle refers to.
#[derive(Clone, Copy, Debug, PartialEq, Eq, Structural)]
pub enum HandleId {
    /// A loaded asset: the identifier of its type, and its number among the
    /// assets of that type.
    Id(u128, u64),
    /// An asset that is still pending, known by its source path and label.
    AssetPathId(u64, u64),
}

/// A handle to an asset. A strong handle keeps its asset alive; a weak one
/// does not.
#[derive(Clone, Copy, Debug, PartialEq, Eq, Structural)]
pub struct Handle {
    pub id: HandleId,
    pub strong: bool,
}

impl Handle {
    /// A weak handle to `id`.
    pub fn weak(id: HandleId) -> (handle: Self)
        ensures
            handle == (Handle { id, strong: false }),
    {
        Handle { id, strong: false }
    }

    /// Whether the handle can be mirrored.
    pub fn is_mirrorable(&self) -> (ok: bool)
        ensures
            ok == self.mirrorable(),
    {
        match self.id {
            HandleId::Id(_, _) => !self.strong,
            HandleId::AssetPathId(_, _) => false,
        }
    }
}

pub trait MirrorHandle {
    /// Whether the handle can be mirrored: it is weak and refers to a loaded
    /// asset.
    spec fn mirrorable(&self) -> bool;

    /// The mirror image of the handle among the assets of another type.
    spec fn mirrored(&self, type_uuid: u128) -> Handle;

    /// The weak handle to the asset of the type `type_uuid` that has the
    /// number of this handle's asset.
    fn mirror(&self, type_uuid: u128) -> (mirrored: Handle)
        requires
            self.mirrorable(),
        ensures
            mirrored == self.mirrored(type_uuid),
    ;
}

impl MirrorHandle for Handle {
    open spec fn mirrorable(&self) -> bool {
        !self.strong && self.id is Id
    }

    open spec fn mirrored(&self, type_uuid: u128) -> Handle {
        Handle { id: HandleId::Id(type_uuid, self.id->Id_1), strong: false }
    }

    fn mirror(&self, type_uuid: u128) -> (mirrored: Handle) {
        match self.id {
            HandleId::Id(_, id) => Handle::weak(HandleId::Id(type_uuid, id)),
            HandleId::AssetPathId(_, _) => vstd::pervasive::unreached(),
        }
    }
}

} // verus!
