//! Shapes of the user-setting endpoints' queries.
use vstd::prelude::*;

verus! {

/// Turns recording permission on or off.
pub struct RecordingPermissionQuery {
    pub value: bool,
}

/// Turns private cloud sync on or off.
pub struct PrivateCloudSyncQuery {
    pub value: bool,
}

} // verus!
