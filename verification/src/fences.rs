//! What a fence's answer means.
use vstd::prelude::*;

use crate::gl::{ALREADY_SIGNALED, CONDITION_SATISFIED, TIMEOUT_EXPIRED, WAIT_FAILED};

verus! {

/// A `glClientWaitSync` status says that the GPU has passed the fence.
pub open spec fn is_signalled(status: u32) -> bool {
    status == ALREADY_SIGNALED || status == CONDITION_SATISFIED
}

/// Whether a wait status says that the GPU has passed the fence. A slow GPU and a
/// driver that refuses to answer both say no, and so does any status that is not
/// documented.
pub fn fence_signalled(status: u32) -> (b: bool)
    ensures
        b == is_signalled(status),
{
    status == ALREADY_SIGNALED || status == CONDITION_SATISFIED
}

/// Whether a wait status is a permanent refusal: waiting again will not help.
pub fn fence_failed_permanently(status: u32) -> (b: bool)
    ensures
        b == (status == WAIT_FAILED),
{
    status == WAIT_FAILED
}

/// What the wait before a snapshot's copy came to.
#[derive(Clone, Copy, Debug, PartialEq, Eq, Structural)]
pub enum SnapshotFenceStatus {
    Signalled,
    Timeout,
    Failed,
}

/// The meaning of a wait status before a copy.
pub open spec fn snapshot_fence(status: u32) -> SnapshotFenceStatus {
    if is_signalled(status) {
        SnapshotFenceStatus::Signalled
    } else if status == TIMEOUT_EXPIRED {
        SnapshotFenceStatus::Timeout
    } else {
        SnapshotFenceStatus::Failed
    }
}

/// Classify the wait before a snapshot's copy.
pub fn classify_snapshot_fence(status: u32) -> (class: SnapshotFenceStatus)
    ensures
        class == snapshot_fence(status),
{
    if fence_signalled(status) {
        SnapshotFenceStatus::Signalled
    } else if status == TIMEOUT_EXPIRED {
        SnapshotFenceStatus::Timeout
    } else {
        SnapshotFenceStatus::Failed
    }
}

/// A wait is over exactly if the fence was signalled before it or by its end. A wait that ran
/// out may be tried again; one that the driver refused, or answered otherwise, may not.
pub proof fn law_what_a_wait_says(
    status: u32,
    signalled: bool,
    refused: bool,
    class: SnapshotFenceStatus,
)
    requires
        call_ensures(fence_signalled, (status,), signalled),
        call_ensures(fence_failed_permanently, (status,), refused),
        call_ensures(classify_snapshot_fence, (status,), class),
    ensures
        signalled == (status == 0x911A || status == 0x911C),
        refused == (status == 0x911D),
        !(signalled && refused),
        class is Signalled == signalled,
        class is Timeout == (status == 0x911B),
        refused ==> class is Failed,
{
}

} // verus!
