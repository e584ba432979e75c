//! Container lookup surface: resolving a container reference to the
//! workspace behind it.
//!
//! The store lookup itself — resolving a reference prefix to a workspace
//! row — is a data-store capability outside the verified core; what is
//! verified is the shape of the request and the identity mapping from the
//! resolved workspace to the compatibility response.

use vstd::prelude::*;

verus! {

/// Query parameters of the container lookup routes: the container
/// reference to resolve, matched by prefix.
pub struct ContainerQuery {
    pub container_ref: String,
}

/// The container-info response: the workspace identifier under its
/// compatibility name.
#[derive(Clone, Copy, PartialEq, Eq, Structural, Debug)]
pub struct ContainerInfo {
    pub attempt_id: u128,
}

/// Maps a resolved workspace to the container-info response: the
/// workspace identifier is reported as the attempt identifier.
pub fn container_info_of(workspace_id: u128) -> (r: ContainerInfo)
    ensures
        r.attempt_id == workspace_id,
{
    ContainerInfo { attempt_id: workspace_id }
}

} // verus!
