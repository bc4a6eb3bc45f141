//! Asynchronous texture uploads: budgets, deferral, and settling what the upload
//! thread hands back.
use std::collections::HashSet;
use std::collections::VecDeque;
use vstd::prelude::*;

use crate::device_caps::DeviceCapabilities;
use crate::fences::fence_failed_permanently;
use crate::fences::fence_signalled;

verus! {

/// The most uploads that wait for a later frame's budget.
pub const MAX_DEFERRED_UPLOADS: usize = 256;

/// The most bytes that those uploads hold.
pub const MAX_DEFERRED_BYTES: usize = 134217728;

/// One more upload may wait.
pub open spec fn may_defer(entry_count: nat, retained_bytes: nat, new_bytes: nat) -> bool {
    entry_count < MAX_DEFERRED_UPLOADS && retained_bytes + new_bytes <= MAX_DEFERRED_BYTES
}

/// Whether one more upload may wait: neither the number nor the bytes go over.
pub fn deferred_upload_fits(entry_count: usize, retained_bytes: usize, new_bytes: usize) -> (b: bool)
    ensures
        b == may_defer(entry_count as nat, retained_bytes as nat, new_bytes as nat),
{
    entry_count < MAX_DEFERRED_UPLOADS && match retained_bytes.checked_add(new_bytes) {
        None => false,
        Some(total) => total <= MAX_DEFERRED_BYTES,
    }
}

/// What becomes of an upload that the upload thread did not take.
#[derive(Clone, Copy, Debug, PartialEq, Eq, Structural)]
pub enum AsyncUploadRejectAction {
    /// Upload on the calling thread.
    SyncFallback,
    /// Try again in a later frame.
    DeferRetry,
}

/// A read of the default framebuffer is remembered the first time only.
pub fn should_latch_default_fbo_readback(needs_default_fbo_readback: bool) -> (b: bool)
    ensures
        b == !needs_default_fbo_readback,
{
    !needs_default_fbo_readback
}

/// Gather one frame's completions into a buffer that is kept between frames: what was
/// deferred first, then what `fill` adds.
pub fn stage_upload_drain<T, F: FnOnce(&mut Vec<T>)>(
    scratch: &mut Vec<T>,
    pending: &mut Vec<T>,
    fill: F,
) -> (staged: Vec<T>)
    requires
        forall|sink: &mut Vec<T>| #[trigger] call_requires(fill, (sink,)),
    ensures
        final(scratch)@ == Seq::<T>::empty(),
        final(pending)@ == Seq::<T>::empty(),
        exists|sink: &mut Vec<T>| #[trigger]
            call_ensures(fill, (sink,), ()) && sink@ == old(pending)@ && *final(sink) == staged,
{
    let mut staged: Vec<T> = Vec::new();
    std::mem::swap(&mut staged, scratch);
    staged.clear();
    staged.append(pending);
    assert(staged@ =~= old(pending)@);
    fill(&mut staged);
    staged
}

/// The budget of a frame and what has been taken of it.
pub struct Budget {
    pub frame_jobs: nat,
    pub frame_bytes: nat,
    pub used_jobs: nat,
    pub used_bytes: nat,
    /// Jobs that were taken and have not come back.
    pub depth: nat,
    /// Their bytes.
    pub outstanding_bytes: nat,
    pub rejections: nat,
}

/// A job of `bytes` fits in what is left of the frame's budget.
pub open spec fn job_fits(b: Budget, bytes: nat) -> bool {
    &&& b.used_jobs < b.frame_jobs
    &&& b.used_bytes + bytes <= b.frame_bytes
    &&& b.depth < usize::MAX
    &&& b.outstanding_bytes + bytes <= usize::MAX
}

/// Gates uploads by a per-frame number of jobs and bytes.
pub struct UploadServer {
    frame_jobs: usize,
    frame_bytes: usize,
    used_jobs: usize,
    used_bytes: usize,
    depth: usize,
    outstanding_bytes: usize,
    rejections: u32,
}

impl View for UploadServer {
    type V = Budget;

    closed spec fn view(&self) -> Budget {
        Budget {
            frame_jobs: self.frame_jobs as nat,
            frame_bytes: self.frame_bytes as nat,
            used_jobs: self.used_jobs as nat,
            used_bytes: self.used_bytes as nat,
            depth: self.depth as nat,
            outstanding_bytes: self.outstanding_bytes as nat,
            rejections: self.rejections as nat,
        }
    }
}

impl UploadServer {
    /// A server with the given budget per frame.
    pub fn new(max_jobs: usize, max_bytes: usize) -> (s: Self)
        ensures
            s@ == (Budget {
                frame_jobs: max_jobs as nat,
                frame_bytes: max_bytes as nat,
                used_jobs: 0,
                used_bytes: 0,
                depth: 0,
                outstanding_bytes: 0,
                rejections: 0,
            }),
    {
        UploadServer {
            frame_jobs: max_jobs,
            frame_bytes: max_bytes,
            used_jobs: 0,
            used_bytes: 0,
            depth: 0,
            outstanding_bytes: 0,
            rejections: 0,
        }
    }

    /// Replace the budget per frame.
    pub fn set_frame_budget(&mut self, jobs: usize, bytes: usize)
        ensures
            final(self)@ == (Budget {
                frame_jobs: jobs as nat,
                frame_bytes: bytes as nat,
                ..old(self)@
            }),
    {
        self.frame_jobs = jobs;
        self.frame_bytes = bytes;
    }

    /// Whether a job of `bytes` fits in a frame that has taken nothing.
    pub fn can_ever_fit_bytes(&self, bytes: usize) -> (b: bool)
        ensures
            b == (bytes <= self@.frame_bytes),
    {
        bytes <= self.frame_bytes
    }

    /// Take a job of `bytes` out of the frame's budget.
    pub fn try_acquire_job(&mut self, bytes: usize) -> (taken: bool)
        ensures
            taken == job_fits(old(self)@, bytes as nat),
            taken ==> final(self)@ == (Budget {
                used_jobs: old(self)@.used_jobs + 1,
                used_bytes: old(self)@.used_bytes + bytes as nat,
                depth: old(self)@.depth + 1,
                outstanding_bytes: old(self)@.outstanding_bytes + bytes as nat,
                ..old(self)@
            }),
            !taken ==> final(self)@ == (Budget {
                rejections: if old(self)@.rejections < u32::MAX {
                    old(self)@.rejections + 1
                } else {
                    old(self)@.rejections
                },
                ..old(self)@
            }),
    {
        if self.used_jobs < self.frame_jobs && self.used_bytes <= self.frame_bytes && bytes
            <= self.frame_bytes - self.used_bytes && self.depth < usize::MAX
            && self.outstanding_bytes <= usize::MAX - bytes {
            self.used_jobs = self.used_jobs + 1;
            self.used_bytes = self.used_bytes + bytes;
            self.depth = self.depth + 1;
            self.outstanding_bytes = self.outstanding_bytes + bytes;
            true
        } else {
            self.rejections = self.rejections.saturating_add(1);
            false
        }
    }

    /// A job of `bytes` has come back, or was never submitted.
    pub fn finish_job_bytes(&mut self, bytes: usize)
        ensures
            final(self)@ == (Budget {
                depth: crate::pbo_upload::sat_sub(old(self)@.depth, 1),
                outstanding_bytes: crate::pbo_upload::sat_sub(
                    old(self)@.outstanding_bytes,
                    bytes as nat,
                ),
                ..old(self)@
            }),
    {
        self.depth = self.depth.saturating_sub(1);
        self.outstanding_bytes = self.outstanding_bytes.saturating_sub(bytes);
    }

    /// Jobs that have not come back.
    pub fn queue_depth(&self) -> (n: usize)
        ensures
            n == self@.depth,
    {
        self.depth
    }

    /// Start a frame: its whole budget is available.
    pub fn reset_frame_budget(&mut self)
        ensures
            final(self)@ == (Budget { used_jobs: 0, used_bytes: 0, rejections: 0, ..old(self)@ }),
    {
        self.used_jobs = 0;
        self.used_bytes = 0;
        self.rejections = 0;
    }

    /// Jobs that this frame's budget refused.
    pub fn frame_rejections(&self) -> (n: u32)
        ensures
            n == self@.rejections,
    {
        self.rejections
    }

    /// The refused jobs, counted from zero again.
    pub fn take_frame_rejections(&mut self) -> (n: u32)
        ensures
            n == old(self)@.rejections,
            final(self)@ == (Budget { rejections: 0, ..old(self)@ }),
    {
        let n: u32 = self.frame_rejections();
        self.rejections = 0;
        n
    }
}

/// The upload budget of a device on its platform.
pub fn upload_server_for_device(caps: &DeviceCapabilities, android_api: Option<u32>) -> (server:
    UploadServer)
    ensures
        ({
            let profile = crate::device_profile::profile_for(*caps, android_api);
            server@ == (Budget {
                frame_jobs: profile.max_upload_jobs_per_frame as nat,
                frame_bytes: profile.max_upload_bytes_per_frame as nat,
                used_jobs: 0,
                used_bytes: 0,
                depth: 0,
                outstanding_bytes: 0,
                rejections: 0,
            })
        }),
{
    let profile = caps.render_profile_for_platform(android_api);
    let mut server = UploadServer::new(
        profile.max_upload_jobs_per_frame,
        profile.max_upload_bytes_per_frame,
    );
    server.set_frame_budget(profile.max_upload_jobs_per_frame, profile.max_upload_bytes_per_frame);
    server
}

/// The answer to a rejected upload: it waits only where a later frame can take it.
pub open spec fn reject_action(healthy: bool, server: Option<Budget>, bytes: nat) -> AsyncUploadRejectAction {
    if healthy && (server matches Some(b) && bytes <= b.frame_bytes) {
        AsyncUploadRejectAction::DeferRetry
    } else {
        AsyncUploadRejectAction::SyncFallback
    }
}

/// Decide what becomes of an upload that was rejected.
pub fn decide_async_upload_reject_action(
    upload_thread_healthy: bool,
    upload_server: Option<&UploadServer>,
    bytes: usize,
) -> (action: AsyncUploadRejectAction)
    ensures
        action == reject_action(
            upload_thread_healthy,
            match upload_server {
                Some(s) => Some(s@),
                None => None,
            },
            bytes as nat,
        ),
{
    let can_fit_later: bool = match upload_server {
        Some(server) => server.can_ever_fit_bytes(bytes),
        None => false,
    };
    if upload_thread_healthy && can_fit_later {
        AsyncUploadRejectAction::DeferRetry
    } else {
        AsyncUploadRejectAction::SyncFallback
    }
}

/// An upload that waits for budget. Its pixels and its responder are found again by
/// its image.
#[derive(Clone, Copy, Debug, PartialEq, Eq, Structural)]
pub struct DeferredUpload {
    pub image_id: u32,
    pub bytes: usize,
}

/// An upload that the upload thread has finished recording.
#[derive(Clone, Copy, Debug, PartialEq, Eq, Structural)]
pub struct CompletedUpload {
    pub image_id: u64,
    pub texture: u32,
    pub fence: usize,
    pub byte_len: usize,
    pub width: u32,
    pub height: u32,
}

/// An upload that was finished and whose result could not be delivered.
#[derive(Clone, Copy, Debug, PartialEq, Eq, Structural)]
pub struct DroppedUpload {
    pub image_id: u64,
    pub byte_len: usize,
}

/// What the caller does for the upload ledger.
#[derive(Clone, Copy, Debug, PartialEq, Eq, Structural)]
pub enum UploadEffect {
    DeleteFence { fence: usize },
    DeleteTexture { texture: u32 },
    Register { image_id: u64, texture: u32, width: u32, height: u32 },
    /// The image is loaded, with its size.
    ReplyLoaded { image_id: u64, width: u32, height: u32 },
    /// The upload was finished and its result lost.
    ReplyDropped { image_id: u64 },
    /// The GPU never confirmed the upload.
    ReplyFenceFailed { image_id: u64 },
    /// The image was destroyed before its upload was finished.
    ReplyCancelled { image_id: u64 },
    /// The load is an error whose code says that the context was lost.
    ReplyContextLost { image_id: u64 },
    /// The upload waited for budget; it is an error whose code says that the context was lost.
    ReplyDeferredContextLost { image_id: u64 },
}

/// The bytes of the uploads that wait.
pub open spec fn waiting_bytes(waiting: Seq<DeferredUpload>) -> nat
    decreases waiting.len(),
{
    if waiting.len() == 0 {
        0
    } else {
        waiting_bytes(waiting.drop_first()) + waiting[0].bytes as nat
    }
}

proof fn lemma_waiting_bytes_push(waiting: Seq<DeferredUpload>, more: DeferredUpload)
    ensures
        waiting_bytes(waiting.push(more)) == waiting_bytes(waiting) + more.bytes,
    decreases waiting.len(),
{
    if waiting.len() == 0 {
        assert(waiting.push(more).drop_first() =~= Seq::empty());
        assert(waiting_bytes(Seq::<DeferredUpload>::empty()) == 0);
    } else {
        lemma_waiting_bytes_push(waiting.drop_first(), more);
        assert(waiting.push(more).drop_first() =~= waiting.drop_first().push(more));
    }
}

/// The upload ledger.
pub struct Ledger {
    pub budget: Option<Budget>,
    /// Uploads whose fence has not signalled.
    pub pending: Seq<CompletedUpload>,
    /// Images that someone waits for.
    pub awaited: Set<u64>,
    /// Images that were destroyed while their upload was in flight.
    pub cancelled: Set<u64>,
    /// Uploads that wait for budget, oldest first.
    pub deferred: Seq<DeferredUpload>,
}

/// A job of `bytes` came back.
pub open spec fn budget_finished(budget: Option<Budget>, bytes: nat) -> Option<Budget> {
    match budget {
        None => None,
        Some(b) => Some(
            Budget {
                depth: crate::pbo_upload::sat_sub(b.depth, 1),
                outstanding_bytes: crate::pbo_upload::sat_sub(b.outstanding_bytes, bytes),
                ..b
            },
        ),
    }
}

/// The ledger after an upload's fence answered `status`.
pub open spec fn settled(l: Ledger, c: CompletedUpload, status: u32) -> Ledger {
    if crate::fences::is_signalled(status) {
        Ledger {
            budget: budget_finished(l.budget, c.byte_len as nat),
            cancelled: l.cancelled.remove(c.image_id),
            awaited: if l.cancelled.contains(c.image_id) {
                l.awaited
            } else {
                l.awaited.remove(c.image_id)
            },
            ..l
        }
    } else if status == crate::gl::WAIT_FAILED {
        Ledger {
            budget: budget_finished(l.budget, c.byte_len as nat),
            cancelled: l.cancelled.remove(c.image_id),
            awaited: l.awaited.remove(c.image_id),
            ..l
        }
    } else {
        Ledger { pending: l.pending.push(c), ..l }
    }
}

/// What is done for an upload whose fence answered `status`. Its texture is registered
/// or deleted, never both, and the one who waits for it hears once.
pub open spec fn settle_effects(l: Ledger, c: CompletedUpload, status: u32) -> Seq<UploadEffect> {
    if crate::fences::is_signalled(status) {
        if l.cancelled.contains(c.image_id) {
            seq![
                UploadEffect::DeleteFence { fence: c.fence },
                UploadEffect::DeleteTexture { texture: c.texture },
            ]
        } else if l.awaited.contains(c.image_id) {
            seq![
                UploadEffect::DeleteFence { fence: c.fence },
                UploadEffect::Register {
                    image_id: c.image_id,
                    texture: c.texture,
                    width: c.width,
                    height: c.height,
                },
                UploadEffect::ReplyLoaded {
                    image_id: c.image_id,
                    width: c.width,
                    height: c.height,
                },
            ]
        } else {
            seq![
                UploadEffect::DeleteFence { fence: c.fence },
                UploadEffect::Register {
                    image_id: c.image_id,
                    texture: c.texture,
                    width: c.width,
                    height: c.height,
                },
            ]
        }
    } else if status == crate::gl::WAIT_FAILED {
        if l.awaited.contains(c.image_id) {
            seq![
                UploadEffect::DeleteFence { fence: c.fence },
                UploadEffect::DeleteTexture { texture: c.texture },
                UploadEffect::ReplyFenceFailed { image_id: c.image_id },
            ]
        } else {
            seq![
                UploadEffect::DeleteFence { fence: c.fence },
                UploadEffect::DeleteTexture { texture: c.texture },
            ]
        }
    } else {
        Seq::empty()
    }
}

/// The ledger after each of `staged` answered, in order.
pub open spec fn settled_all(l: Ledger, staged: Seq<CompletedUpload>, statuses: Seq<u32>) -> Ledger
    decreases staged.len(),
{
    if staged.len() == 0 {
        l
    } else {
        settled(
            settled_all(l, staged.drop_last(), statuses),
            staged.last(),
            statuses[staged.len() - 1],
        )
    }
}

/// What is done for all of `staged`, in order.
pub open spec fn settle_all_effects(
    l: Ledger,
    staged: Seq<CompletedUpload>,
    statuses: Seq<u32>,
) -> Seq<UploadEffect>
    decreases staged.len(),
{
    if staged.len() == 0 {
        Seq::empty()
    } else {
        settle_all_effects(l, staged.drop_last(), statuses) + settle_effects(
            settled_all(l, staged.drop_last(), statuses),
            staged.last(),
            statuses[staged.len() - 1],
        )
    }
}

/// The ledger after finished uploads were lost.
pub open spec fn dropped_all(l: Ledger, dropped: Seq<DroppedUpload>) -> Ledger
    decreases dropped.len(),
{
    if dropped.len() == 0 {
        l
    } else {
        let before = dropped_all(l, dropped.drop_last());
        let d = dropped.last();
        Ledger {
            budget: budget_finished(before.budget, d.byte_len as nat),
            awaited: before.awaited.remove(d.image_id),
            cancelled: before.cancelled.remove(d.image_id),
            ..before
        }
    }
}

/// Who hears of the uploads that were lost.
pub open spec fn dropped_effects(l: Ledger, dropped: Seq<DroppedUpload>) -> Seq<UploadEffect>
    decreases dropped.len(),
{
    if dropped.len() == 0 {
        Seq::empty()
    } else {
        let before = dropped_all(l, dropped.drop_last());
        let d = dropped.last();
        if before.awaited.contains(d.image_id) {
            dropped_effects(l, dropped.drop_last()).push(
                UploadEffect::ReplyDropped { image_id: d.image_id },
            )
        } else {
            dropped_effects(l, dropped.drop_last())
        }
    }
}

/// What one drain did.
pub struct DrainReport {
    /// What the caller must do, in order.
    pub effects: Vec<UploadEffect>,
    /// What each fence answered, in the order the uploads were polled.
    pub statuses: Vec<u32>,
}

impl DrainReport {
    /// A report of nothing.
    pub fn new() -> (r: Self)
        ensures
            r.effects@ == Seq::<UploadEffect>::empty(),
            r.statuses@ == Seq::<u32>::empty(),
    {
        DrainReport { effects: Vec::new(), statuses: Vec::new() }
    }
}

/// What a drain leaves and reports: `ready` are the uploads that were polled, `gone`
/// those that were lost.
pub open spec fn drained<Poll: Fn(usize) -> u32>(
    before: Ledger,
    after: Ledger,
    ready: Seq<CompletedUpload>,
    gone: Seq<DroppedUpload>,
    poll: Poll,
    report: DrainReport,
) -> bool {
    let emptied = Ledger { pending: Seq::empty(), ..before };
    let start = dropped_all(emptied, gone);
    &&& report.statuses@.len() == ready.len()
    &&& forall|i: int|
        0 <= i < ready.len() ==> call_ensures(
            poll,
            ((#[trigger] ready[i]).fence,),
            report.statuses@[i],
        )
    &&& after == settled_all(start, ready, report.statuses@)
    &&& report.effects@ == dropped_effects(emptied, gone) + settle_all_effects(
        start,
        ready,
        report.statuses@,
    )
}

/// What one retry of a waiting upload came to.
#[derive(Clone, Copy, Debug, PartialEq, Eq, Structural)]
pub enum AttemptOutcome {
    /// The upload thread has it.
    Submitted,
    /// No later frame can take it: load it now.
    LoadNow,
    /// It waits on, at the head of the queue.
    StaysDeferred,
}

/// One retry of a waiting upload.
#[derive(Clone, Copy, Debug, PartialEq, Eq, Structural)]
pub struct Attempt {
    pub image_id: u32,
    pub outcome: AttemptOutcome,
}

/// A submitted job reaches the upload thread's queue.
pub open spec fn reaches_queue(l: Ledger, healthy: bool, bytes: nat) -> bool {
    healthy && (l.budget matches Some(b) ==> job_fits(b, bytes))
}

/// The budget after a job that fits was taken.
pub open spec fn budget_taken(budget: Option<Budget>, bytes: nat) -> Option<Budget> {
    match budget {
        None => None,
        Some(b) => Some(
            Budget {
                used_jobs: b.used_jobs + 1,
                used_bytes: b.used_bytes + bytes,
                depth: b.depth + 1,
                outstanding_bytes: b.outstanding_bytes + bytes,
                ..b
            },
        ),
    }
}

/// The budget after a job that does not fit was refused.
pub open spec fn budget_refused(budget: Option<Budget>) -> Option<Budget> {
    match budget {
        None => None,
        Some(b) => Some(
            Budget {
                rejections: if b.rejections < u32::MAX {
                    b.rejections + 1
                } else {
                    b.rejections
                },
                ..b
            },
        ),
    }
}

/// The ledger after an upload was submitted and `accepted` or not.
pub open spec fn after_submit(
    l: Ledger,
    healthy: bool,
    upload: DeferredUpload,
    accepted: bool,
) -> Ledger {
    if !healthy {
        l
    } else if !reaches_queue(l, healthy, upload.bytes as nat) {
        Ledger { budget: budget_refused(l.budget), ..l }
    } else if accepted {
        Ledger {
            budget: budget_taken(l.budget, upload.bytes as nat),
            awaited: l.awaited.insert(upload.image_id as u64),
            ..l
        }
    } else {
        Ledger {
            budget: budget_finished(
                budget_taken(l.budget, upload.bytes as nat),
                upload.bytes as nat,
            ),
            ..l
        }
    }
}

/// An attempt is the truth about the head of the queue: what the upload thread's queue
/// answered, and what a rejection calls for.
pub open spec fn attempt_holds<Submit: Fn(u32) -> bool>(
    l: Ledger,
    healthy: bool,
    submit: Submit,
    attempt: Attempt,
) -> bool {
    let accepted = attempt.outcome == AttemptOutcome::Submitted;
    let head = l.deferred[0];
    let left = after_submit(l, healthy, head, accepted);
    &&& l.deferred.len() > 0
    &&& attempt.image_id == head.image_id
    &&& accepted ==> reaches_queue(l, healthy, head.bytes as nat)
    &&& reaches_queue(l, healthy, head.bytes as nat) ==> call_ensures(
        submit,
        (head.image_id,),
        accepted,
    )
    &&& !accepted ==> (attempt.outcome == AttemptOutcome::StaysDeferred) == (reject_action(
        healthy,
        left.budget,
        head.bytes as nat,
    ) == AsyncUploadRejectAction::DeferRetry)
}

/// The ledger after the head of the queue was retried.
pub open spec fn after_attempt(l: Ledger, healthy: bool, attempt: Attempt) -> Ledger {
    let left = after_submit(
        l,
        healthy,
        l.deferred[0],
        attempt.outcome == AttemptOutcome::Submitted,
    );
    if attempt.outcome == AttemptOutcome::StaysDeferred {
        left
    } else {
        Ledger { deferred: left.deferred.drop_first(), ..left }
    }
}

/// The ledger after several attempts, in order.
pub open spec fn after_attempts(l: Ledger, healthy: bool, attempts: Seq<Attempt>) -> Ledger
    decreases attempts.len(),
{
    if attempts.len() == 0 {
        l
    } else {
        after_attempt(after_attempts(l, healthy, attempts.drop_last()), healthy, attempts.last())
    }
}

/// After the attempts `tried`, which left `l` and of which none has stopped the retries, the
/// head of the queue can be handed to the thread wherever it gets that far.
pub open spec fn drain_reaches<Submit: Fn(u32) -> bool>(
    start: Ledger,
    healthy: bool,
    submit: Submit,
    tried: Seq<Attempt>,
    l: Ledger,
) -> bool {
    l.deferred.len() > 0 && reaches_queue(l, healthy, l.deferred[0].bytes as nat) && (forall|
        i: int,
    |
        0 <= i < tried.len() ==> attempt_holds(
            after_attempts(start, healthy, tried.take(i)),
            healthy,
            submit,
            #[trigger] tried[i],
        ) && tried[i].outcome != AttemptOutcome::StaysDeferred) ==> call_requires(
        submit,
        (l.deferred[0].image_id,),
    )
}

/// The budget after every one of `uploads` came back.
pub open spec fn budget_finished_all(
    budget: Option<Budget>,
    uploads: Seq<CompletedUpload>,
) -> Option<Budget>
    decreases uploads.len(),
{
    if uploads.len() == 0 {
        budget
    } else {
        budget_finished(
            budget_finished_all(budget, uploads.drop_last()),
            uploads.last().byte_len as nat,
        )
    }
}

/// The images that `uploads` are of.
pub open spec fn images_of(uploads: Seq<CompletedUpload>) -> Set<u64> {
    Set::new(
        |id: u64| exists|j: int| 0 <= j < uploads.len() && (#[trigger] uploads[j]).image_id == id,
    )
}

/// The answers to those who wait for images.
pub open spec fn aborted_replies(awaited: Seq<u64>) -> Seq<UploadEffect> {
    Seq::new(awaited.len(), |i: int| UploadEffect::ReplyContextLost { image_id: awaited[i] })
}

/// The answers to those whose uploads waited for budget, oldest first.
pub open spec fn deferred_replies(deferred: Seq<DeferredUpload>) -> Seq<UploadEffect> {
    Seq::new(
        deferred.len(),
        |i: int| UploadEffect::ReplyDeferredContextLost { image_id: deferred[i].image_id as u64 },
    )
}

/// What uploads leave in the library whose fences can never signal.
pub open spec fn discards(uploads: Seq<CompletedUpload>) -> Seq<UploadEffect>
    decreases uploads.len(),
{
    if uploads.len() == 0 {
        Seq::empty()
    } else {
        let last = uploads.last();
        discards(uploads.drop_last()).push(
            UploadEffect::DeleteTexture { texture: last.texture },
        ).push(UploadEffect::DeleteFence { fence: last.fence })
    }
}

/// Everything that a lost context leaves unfinished.
pub struct AbortReport {
    /// Images that someone waited for, in no order.
    pub awaited: Vec<u64>,
    /// Uploads that waited for budget, oldest first.
    pub deferred: Vec<DeferredUpload>,
    /// Uploads whose fences can never signal.
    pub discarded: Vec<CompletedUpload>,
    /// What the caller does: each of those who waited is answered, and then the textures and
    /// the fences are deleted.
    pub effects: Vec<UploadEffect>,
}

impl AbortReport {
    /// The effects are those of what the report lists.
    pub open spec fn wf(&self) -> bool {
        self.effects@ == aborted_replies(self.awaited@) + deferred_replies(self.deferred@)
            + discards(self.discarded@)
    }

    /// The report of what was given up.
    fn of(
        awaited: Vec<u64>,
        deferred: Vec<DeferredUpload>,
        discarded: Vec<CompletedUpload>,
    ) -> (report: Self)
        ensures
            report.wf(),
            report.awaited@ == awaited@,
            report.deferred@ == deferred@,
            report.discarded@ == discarded@,
    {
        let mut effects: Vec<UploadEffect> = Vec::new();
        let mut i: usize = 0;
        assert(effects@ =~= aborted_replies(awaited@.take(0)));
        while i < awaited.len()
            invariant
                i <= awaited@.len(),
                effects@ == aborted_replies(awaited@.take(i as int)),
            decreases awaited@.len() - i,
        {
            effects.push(UploadEffect::ReplyContextLost { image_id: awaited[i] });
            assert(effects@ =~= aborted_replies(awaited@.take(i + 1)));
            i = i + 1;
        }
        assert(awaited@.take(i as int) =~= awaited@);
        let ghost told = effects@;
        let mut k: usize = 0;
        assert(effects@ =~= told + deferred_replies(deferred@.take(0)));
        while k < deferred.len()
            invariant
                k <= deferred@.len(),
                effects@ == told + deferred_replies(deferred@.take(k as int)),
            decreases deferred@.len() - k,
        {
            effects.push(
                UploadEffect::ReplyDeferredContextLost { image_id: deferred[k].image_id as u64 },
            );
            assert(effects@ =~= told + deferred_replies(deferred@.take(k + 1)));
            k = k + 1;
        }
        assert(deferred@.take(k as int) =~= deferred@);
        let ghost answered = effects@;
        let mut j: usize = 0;
        assert(effects@ =~= answered + discards(discarded@.take(0)));
        while j < discarded.len()
            invariant
                j <= discarded@.len(),
                effects@ == answered + discards(discarded@.take(j as int)),
            decreases discarded@.len() - j,
        {
            effects.push(UploadEffect::DeleteTexture { texture: discarded[j].texture });
            effects.push(UploadEffect::DeleteFence { fence: discarded[j].fence });
            assert(discarded@.take(j + 1).drop_last() =~= discarded@.take(j as int));
            assert(effects@ =~= answered + discards(discarded@.take(j + 1)));
            j = j + 1;
        }
        assert(discarded@.take(j as int) =~= discarded@);
        AbortReport { awaited, deferred, discarded, effects }
    }

    /// How many responders and uploads were given up.
    pub fn drained(&self) -> (n: usize)
        requires
            self.awaited@.len() + self.deferred@.len() + self.discarded@.len() <= usize::MAX,
        ensures
            n == self.awaited@.len() + self.deferred@.len() + self.discarded@.len(),
    {
        self.awaited.len() + self.deferred.len() + self.discarded.len()
    }
}

/// Whoever waits when the context is lost is answered, once, and with the failure.
pub proof fn law_every_waiter_is_answered_once(report: AbortReport, image_id: u64)
    requires
        report.wf(),
        report.awaited@.no_duplicates(),
        report.awaited@.contains(image_id),
    ensures
        exists|i: int|
            0 <= i < report.effects@.len() && #[trigger] report.effects@[i]
                == (UploadEffect::ReplyContextLost { image_id }),
        forall|i: int, j: int|
            0 <= i < report.effects@.len() && 0 <= j < report.effects@.len()
                && #[trigger] report.effects@[i] == (UploadEffect::ReplyContextLost { image_id })
                && #[trigger] report.effects@[j] == (UploadEffect::ReplyContextLost { image_id }) ==> i
                == j,
{
    let awaited = report.awaited@;
    let told = aborted_replies(awaited);
    let deferred = deferred_replies(report.deferred@);
    let k = choose|k: int| 0 <= k < awaited.len() && awaited[k] == image_id;
    assert(told[k] == (UploadEffect::ReplyContextLost { image_id }));
    assert(report.effects@[k] == told[k]);
    assert forall|i: int| 0 <= i < report.effects@.len() && #[trigger] report.effects@[i] == (
    UploadEffect::ReplyContextLost { image_id }) implies i < awaited.len() && awaited[i]
        == image_id by {
        if i < awaited.len() {
            assert(report.effects@[i] == told[i]);
        } else if i < awaited.len() + deferred.len() {
            assert(report.effects@[i] == deferred[i - awaited.len()]);
        } else {
            lemma_discards_only_delete(report.discarded@);
            let rest = discards(report.discarded@);
            assert(report.effects@[i] == rest[i - awaited.len() - deferred.len()]);
        }
    }
}

proof fn lemma_discards_only_delete(uploads: Seq<CompletedUpload>)
    ensures
        forall|i: int|
            0 <= i < discards(uploads).len() ==> ((#[trigger] discards(uploads)[i]) is DeleteTexture
                || discards(uploads)[i] is DeleteFence),
    decreases uploads.len(),
{
    if uploads.len() > 0 {
        lemma_discards_only_delete(uploads.drop_last());
        let rest = discards(uploads.drop_last());
        assert forall|i: int| 0 <= i < discards(uploads).len() implies ((#[trigger] discards(
            uploads,
        )[i]) is DeleteTexture || discards(uploads)[i] is DeleteFence) by {
            if i < rest.len() {
                assert(discards(uploads)[i] == rest[i]);
            }
        }
    }
}

/// Keeps the books of asynchronous uploads.
pub struct UploadLedger {
    server: Option<UploadServer>,
    pending: Vec<CompletedUpload>,
    scratch: Vec<CompletedUpload>,
    lost_scratch: Vec<DroppedUpload>,
    awaited: HashSet<u64>,
    cancelled: HashSet<u64>,
    deferred: VecDeque<DeferredUpload>,
    deferred_bytes: usize,
}

impl View for UploadLedger {
    type V = Ledger;

    closed spec fn view(&self) -> Ledger {
        Ledger {
            budget: match self.server {
                Some(s) => Some(s@),
                None => None,
            },
            pending: self.pending@,
            awaited: self.awaited@,
            cancelled: self.cancelled@,
            deferred: self.deferred@,
        }
    }
}

impl UploadLedger {
    /// The bytes on the books are those of the uploads that wait, and both limits hold.
    pub closed spec fn wf(&self) -> bool {
        self.deferred_bytes == waiting_bytes(self.deferred@) && self.deferred_bytes
            <= MAX_DEFERRED_BYTES && self.deferred@.len() <= MAX_DEFERRED_UPLOADS
    }

    /// Empty books; `server` gates an upload thread that is there.
    pub fn new(server: Option<UploadServer>) -> (l: Self)
        ensures
            l.wf(),
            l@ == (Ledger {
                budget: match server {
                    Some(s) => Some(s@),
                    None => None,
                },
                pending: Seq::empty(),
                awaited: Set::empty(),
                cancelled: Set::empty(),
                deferred: Seq::empty(),
            }),
    {
        let l = UploadLedger {
            server,
            pending: Vec::new(),
            scratch: Vec::new(),
            lost_scratch: Vec::new(),
            awaited: HashSet::new(),
            cancelled: HashSet::new(),
            deferred: VecDeque::new(),
            deferred_bytes: 0,
        };
        assert(l@.pending =~= Seq::empty());
        assert(l@.awaited =~= Set::empty());
        assert(l@.cancelled =~= Set::empty());
        assert(l@.deferred =~= Seq::empty());
        l
    }

    fn finish(&mut self, bytes: usize)
        ensures
            final(self)@ == (Ledger {
                budget: budget_finished(old(self)@.budget, bytes as nat),
                ..old(self)@
            }),
            final(self).deferred == old(self).deferred,
            final(self).deferred_bytes == old(self).deferred_bytes,
            final(self).scratch == old(self).scratch,
    {
        if let Some(mut server) = self.server.take() {
            server.finish_job_bytes(bytes);
            self.server = Some(server);
        }
    }

    /// Settle one upload whose fence answered `status`, adding to `effects`.
    pub fn settle(&mut self, c: CompletedUpload, status: u32, effects: &mut Vec<UploadEffect>)
        requires
            old(self).wf(),
        ensures
            final(self).wf(),
            final(self)@ == settled(old(self)@, c, status),
            final(effects)@ == old(effects)@ + settle_effects(old(self)@, c, status),
    {
        if fence_signalled(status) {
            effects.push(UploadEffect::DeleteFence { fence: c.fence });
            self.finish(c.byte_len);
            if self.cancelled.remove(&c.image_id) {
                effects.push(UploadEffect::DeleteTexture { texture: c.texture });
            } else {
                effects.push(
                    UploadEffect::Register {
                        image_id: c.image_id,
                        texture: c.texture,
                        width: c.width,
                        height: c.height,
                    },
                );
                if self.awaited.remove(&c.image_id) {
                    effects.push(
                        UploadEffect::ReplyLoaded {
                            image_id: c.image_id,
                            width: c.width,
                            height: c.height,
                        },
                    );
                }
            }
        } else if fence_failed_permanently(status) {
            effects.push(UploadEffect::DeleteFence { fence: c.fence });
            effects.push(UploadEffect::DeleteTexture { texture: c.texture });
            self.finish(c.byte_len);
            let _ = self.cancelled.remove(&c.image_id);
            if self.awaited.remove(&c.image_id) {
                effects.push(UploadEffect::ReplyFenceFailed { image_id: c.image_id });
            }
        } else {
            self.pending.push(c);
        }
        proof {
            let target = settled(old(self)@, c, status);
            assert(self@.awaited =~= target.awaited);
            assert(self@.cancelled =~= target.cancelled);
            assert(effects@ =~= old(effects)@ + settle_effects(old(self)@, c, status));
        }
    }

    /// Recover a lost upload: its budget comes back and the one who waits hears.
    fn recover(&mut self, d: DroppedUpload, effects: &mut Vec<UploadEffect>)
        requires
            old(self).wf(),
        ensures
            final(self).wf(),
            final(self).scratch == old(self).scratch,
            final(self)@ == (Ledger {
                budget: budget_finished(old(self)@.budget, d.byte_len as nat),
                awaited: old(self)@.awaited.remove(d.image_id),
                cancelled: old(self)@.cancelled.remove(d.image_id),
                ..old(self)@
            }),
            final(effects)@ == (if old(self)@.awaited.contains(d.image_id) {
                old(effects)@.push(UploadEffect::ReplyDropped { image_id: d.image_id })
            } else {
                old(effects)@
            }),
    {
        self.finish(d.byte_len);
        if self.awaited.remove(&d.image_id) {
            effects.push(UploadEffect::ReplyDropped { image_id: d.image_id });
        }
        let _ = self.cancelled.remove(&d.image_id);
        assert(self@.awaited =~= old(self)@.awaited.remove(d.image_id));
        assert(self@.cancelled =~= old(self)@.cancelled.remove(d.image_id));
    }

    /// Drain the upload thread: recover what was lost, then poll every upload that was
    /// deferred from earlier frames and every one that has just arrived, in that order.
    ///
    /// `completed` and `lost` append what the upload thread has for this frame. The
    /// report is the caller's, so that its buffers serve every frame. The answer is how
    /// many lost uploads were recovered.
    pub fn drain_upload_completed<
        Completed: FnOnce(&mut Vec<CompletedUpload>),
        Lost: FnOnce(&mut Vec<DroppedUpload>),
        Poll: Fn(usize) -> u32,
    >(&mut self, completed: Completed, lost: Lost, poll: Poll, report: &mut DrainReport) -> (recovered:
        usize)
        requires
            old(self).wf(),
            forall|sink: &mut Vec<CompletedUpload>| #[trigger] call_requires(completed, (sink,)),
            forall|sink: &mut Vec<DroppedUpload>| #[trigger] call_requires(lost, (sink,)),
            forall|f: usize| #[trigger] call_requires(poll, (f,)),
        ensures
            final(self).wf(),
            exists|ready: &mut Vec<CompletedUpload>, gone: &mut Vec<DroppedUpload>|
                {
                    &&& #[trigger] call_ensures(completed, (ready,), ())
                    &&& ready@ == old(self)@.pending
                    &&& #[trigger] call_ensures(lost, (gone,), ())
                    &&& gone@ == Seq::<DroppedUpload>::empty()
                    &&& drained(
                        old(self)@,
                        final(self)@,
                        final(ready)@,
                        final(gone)@,
                        poll,
                        *final(report),
                    )
                    &&& recovered == final(gone)@.len()
                },
    {
        let ghost before = self@;
        let mut staged = stage_upload_drain(&mut self.scratch, &mut self.pending, completed);
        let mut dropped: Vec<DroppedUpload> = Vec::new();
        std::mem::swap(&mut dropped, &mut self.lost_scratch);
        dropped.clear();
        lost(&mut dropped);
        report.effects.clear();
        report.statuses.clear();
        let mut i: usize = 0;
        let ghost emptied = Ledger { pending: Seq::empty(), ..before };
        assert(report.effects@ =~= dropped_effects(emptied, dropped@.take(0)));
        while i < dropped.len()
            invariant
                i <= dropped@.len(),
                self.wf(),
                self@ == dropped_all(emptied, dropped@.take(i as int)),
                report.effects@ == dropped_effects(emptied, dropped@.take(i as int)),
                report.statuses@.len() == 0,
            decreases dropped@.len() - i,
        {
            self.recover(dropped[i], &mut report.effects);
            proof {
                assert(dropped@.take(i + 1).drop_last() =~= dropped@.take(i as int));
                assert(dropped@.take(i + 1).last() == dropped@[i as int]);
            }
            i = i + 1;
        }
        assert(dropped@.take(i as int) =~= dropped@);
        let ghost start = dropped_all(emptied, dropped@);
        let ghost first = report.effects@;
        let mut k: usize = 0;
        assert(first + settle_all_effects(start, staged@.take(0), report.statuses@) =~= first);
        while k < staged.len()
            invariant
                k <= staged@.len(),
                self.wf(),
                forall|f: usize| #[trigger] call_requires(poll, (f,)),
                report.statuses@.len() == k,
                forall|j: int|
                    0 <= j < k ==> call_ensures(
                        poll,
                        ((#[trigger] staged@[j]).fence,),
                        report.statuses@[j],
                    ),
                self@ == settled_all(start, staged@.take(k as int), report.statuses@),
                report.effects@ == first + settle_all_effects(start, staged@.take(k as int), report.statuses@),
            decreases staged@.len() - k,
        {
            let c = staged[k];
            let status: u32 = poll(c.fence);
            let ghost older = report.statuses@;
            self.settle(c, status, &mut report.effects);
            report.statuses.push(status);
            proof {
                let shorter = staged@.take(k as int);
                assert(staged@.take(k + 1).drop_last() =~= shorter);
                lemma_settled_prefix(start, shorter, older, report.statuses@);
                assert(report.effects@ =~= first + settle_all_effects(
                    start,
                    staged@.take(k + 1),
                    report.statuses@,
                ));
            }
            k = k + 1;
        }
        assert(staged@.take(k as int) =~= staged@);
        let ghost all = staged@;
        let ghost gone = dropped@;
        let recovered: usize = dropped.len();
        assert(drained(before, self@, all, gone, poll, *report));
        staged.clear();
        self.scratch = staged;
        dropped.clear();
        self.lost_scratch = dropped;
        recovered
    }

    /// The context is lost: everyone who waits is told, what waits for budget is given
    /// up, and the uploads whose fences can never signal give their budget back.
    pub fn fail_pending_sync_responders(&mut self) -> (report: AbortReport)
        requires
            old(self).wf(),
        ensures
            final(self).wf(),
            report.wf(),
            report.awaited@.to_set() == old(self)@.awaited,
            report.awaited@.no_duplicates(),
            report.deferred@ == old(self)@.deferred,
            report.discarded@ == old(self)@.pending,
            final(self)@ == (Ledger {
                budget: budget_finished_all(old(self)@.budget, old(self)@.pending),
                pending: Seq::empty(),
                awaited: Set::empty(),
                cancelled: old(self)@.cancelled.difference(images_of(old(self)@.pending)),
                deferred: Seq::empty(),
            }),
    {
        broadcast use vstd::std_specs::hash::group_hash_axioms;
        broadcast use vstd::seq_lib::group_seq_properties;

        let ghost before = self@;
        let mut awaited: Vec<u64> = Vec::new();
        for id in it: self.awaited.iter()
            invariant
                awaited@ == it.seq().unref().take(it.index()),
        {
            awaited.push(*id);
        }
        self.awaited.clear();
        let mut deferred: Vec<DeferredUpload> = Vec::new();
        while self.deferred.len() > 0
            invariant
                deferred@ + self.deferred@ == before.deferred,
                self@ == (Ledger { awaited: Set::empty(), deferred: self.deferred@, ..before }),
            decreases self.deferred@.len(),
        {
            if let Some(d) = self.deferred.pop_front() {
                deferred.push(d);
            }
            assert(deferred@ + self.deferred@ =~= before.deferred);
        }
        assert(deferred@ =~= before.deferred);
        assert(self.deferred@ =~= Seq::empty());
        self.deferred_bytes = 0;
        let mut discarded: Vec<CompletedUpload> = Vec::new();
        discarded.append(&mut self.pending);
        assert(discarded@ =~= before.pending);
        let mut i: usize = 0;
        assert(self@.cancelled =~= before.cancelled.difference(images_of(discarded@.take(0))));
        while i < discarded.len()
            invariant
                i <= discarded@.len(),
                self.wf(),
                self@ == (Ledger {
                    budget: budget_finished_all(before.budget, discarded@.take(i as int)),
                    pending: Seq::empty(),
                    awaited: Set::empty(),
                    cancelled: before.cancelled.difference(images_of(discarded@.take(i as int))),
                    deferred: Seq::empty(),
                }),
            decreases discarded@.len() - i,
        {
            let c = discarded[i];
            self.finish(c.byte_len);
            let _ = self.cancelled.remove(&c.image_id);
            proof {
                let shorter = discarded@.take(i as int);
                let longer = discarded@.take(i + 1);
                assert(longer.drop_last() =~= shorter);
                assert(longer.last() == c);
                assert forall|id: u64| images_of(longer).contains(id) == (images_of(
                    shorter,
                ).contains(id) || id == c.image_id) by {
                    if images_of(shorter).contains(id) {
                        let j = choose|j: int|
                            0 <= j < shorter.len() && (#[trigger] shorter[j]).image_id == id;
                        assert(longer[j] == shorter[j]);
                    }
                    if images_of(longer).contains(id) {
                        let j = choose|j: int|
                            0 <= j < longer.len() && (#[trigger] longer[j]).image_id == id;
                        if j < i {
                            assert(longer[j] == shorter[j]);
                        }
                    }
                    assert(longer[i as int].image_id == c.image_id);
                }
                assert(self@.cancelled =~= before.cancelled.difference(images_of(longer)));
            }
            i = i + 1;
        }
        assert(discarded@.take(i as int) =~= discarded@);
        AbortReport::of(awaited, deferred, discarded)
    }

    /// Submit an upload of `bytes`. It is accepted when a healthy upload thread is
    /// there, the frame's budget admits it and the thread's queue takes it; a job that
    /// the queue does not take gives its place in the queue back.
    pub fn submit_async_upload<Submit: FnOnce(u32) -> bool>(
        &mut self,
        healthy: bool,
        image_id: u32,
        bytes: usize,
        submit: Submit,
    ) -> (accepted: bool)
        requires
            old(self).wf(),
            reaches_queue(old(self)@, healthy, bytes as nat) ==> call_requires(
                submit,
                (image_id,),
            ),
        ensures
            final(self).wf(),
            accepted ==> reaches_queue(old(self)@, healthy, bytes as nat),
            reaches_queue(old(self)@, healthy, bytes as nat) ==> call_ensures(
                submit,
                (image_id,),
                accepted,
            ),
            final(self)@ == after_submit(
                old(self)@,
                healthy,
                DeferredUpload { image_id, bytes },
                accepted,
            ),
    {
        if !healthy {
            return false;
        }
        let mut admitted: bool = true;
        if let Some(mut server) = self.server.take() {
            admitted = server.try_acquire_job(bytes);
            self.server = Some(server);
        }
        if !admitted {
            return false;
        }
        if submit(image_id) {
            let _ = self.awaited.insert(image_id as u64);
            assert(self@.awaited =~= old(self)@.awaited.insert(image_id as u64));
            true
        } else {
            self.finish(bytes);
            false
        }
    }

    /// Let an upload wait for a later frame. `false` where the queue is full.
    pub fn defer_upload(&mut self, image_id: u32, bytes: usize) -> (kept: bool)
        requires
            old(self).wf(),
        ensures
            final(self).wf(),
            kept == may_defer(
                old(self)@.deferred.len(),
                waiting_bytes(old(self)@.deferred),
                bytes as nat,
            ),
            kept ==> final(self)@ == (Ledger {
                deferred: old(self)@.deferred.push(DeferredUpload { image_id, bytes }),
                ..old(self)@
            }),
            !kept ==> final(self)@ == old(self)@,
    {
        if !deferred_upload_fits(self.deferred.len(), self.deferred_bytes, bytes) {
            return false;
        }
        proof {
            lemma_waiting_bytes_push(self.deferred@, DeferredUpload { image_id, bytes });
        }
        self.deferred_bytes = self.deferred_bytes + bytes;
        self.deferred.push_back(DeferredUpload { image_id, bytes });
        true
    }

    /// How many uploads wait for budget.
    pub fn deferred_uploads_len(&self) -> (n: usize)
        ensures
            n == self@.deferred.len(),
    {
        self.deferred.len()
    }

    /// The bytes of the uploads that wait for budget.
    pub fn deferred_upload_bytes(&self) -> (n: usize)
        requires
            self.wf(),
        ensures
            n == waiting_bytes(self@.deferred),
            n <= MAX_DEFERRED_BYTES,
    {
        self.deferred_bytes
    }

    /// Retry the uploads that wait, oldest first, until the budget refuses one that a
    /// later frame can take: that one stays at the head. The attempts are returned in
    /// order; an upload that no later frame can take is to be loaded by the caller.
    pub fn try_drain_deferred_uploads<Submit: Fn(u32) -> bool>(
        &mut self,
        healthy: bool,
        submit: Submit,
    ) -> (attempts: Vec<Attempt>)
        requires
            old(self).wf(),
            forall|tried: Seq<Attempt>|
                drain_reaches(
                    old(self)@,
                    healthy,
                    submit,
                    tried,
                    #[trigger] after_attempts(old(self)@, healthy, tried),
                ),
        ensures
            final(self).wf(),
            final(self)@ == after_attempts(old(self)@, healthy, attempts@),
            forall|i: int|
                0 <= i < attempts@.len() ==> attempt_holds(
                    after_attempts(old(self)@, healthy, attempts@.take(i)),
                    healthy,
                    submit,
                    #[trigger] attempts@[i],
                ),
            final(self)@.deferred.len() == 0 || (attempts@.len() > 0 && attempts@.last().outcome
                == AttemptOutcome::StaysDeferred),
            forall|i: int|
                0 <= i < attempts@.len() - 1 ==> (#[trigger] attempts@[i]).outcome
                    != AttemptOutcome::StaysDeferred,
    {
        let mut attempts: Vec<Attempt> = Vec::new();
        while self.deferred.len() > 0
            invariant_except_break
                forall|i: int|
                    0 <= i < attempts@.len() ==> (#[trigger] attempts@[i]).outcome
                        != AttemptOutcome::StaysDeferred,
            invariant
                self.wf(),
                forall|tried: Seq<Attempt>|
                    drain_reaches(
                        old(self)@,
                        healthy,
                        submit,
                        tried,
                        #[trigger] after_attempts(old(self)@, healthy, tried),
                    ),
                self@ == after_attempts(old(self)@, healthy, attempts@),
                forall|i: int|
                    0 <= i < attempts@.len() ==> attempt_holds(
                        after_attempts(old(self)@, healthy, attempts@.take(i)),
                        healthy,
                        submit,
                        #[trigger] attempts@[i],
                    ),
                forall|i: int|
                    0 <= i < attempts@.len() - 1 ==> (#[trigger] attempts@[i]).outcome
                        != AttemptOutcome::StaysDeferred,
            ensures
                self@.deferred.len() == 0 || (attempts@.len() > 0 && attempts@.last().outcome
                    == AttemptOutcome::StaysDeferred),
            decreases self.deferred@.len(),
        {
            let ghost before = self@;
            let ghost earlier = attempts@;
            let head = self.deferred[0];
            let accepted: bool = self.submit_async_upload(
                healthy,
                head.image_id,
                head.bytes,
                &submit,
            );
            let outcome = if accepted {
                AttemptOutcome::Submitted
            } else {
                match decide_async_upload_reject_action(healthy, self.server.as_ref(), head.bytes) {
                    AsyncUploadRejectAction::DeferRetry => AttemptOutcome::StaysDeferred,
                    AsyncUploadRejectAction::SyncFallback => AttemptOutcome::LoadNow,
                }
            };
            let attempt = Attempt { image_id: head.image_id, outcome };
            attempts.push(attempt);
            proof {
                assert(attempts@.drop_last() =~= earlier);
                assert forall|i: int| 0 <= i < attempts@.len() implies attempt_holds(
                    after_attempts(old(self)@, healthy, attempts@.take(i)),
                    healthy,
                    submit,
                    #[trigger] attempts@[i],
                ) by {
                    if i < earlier.len() {
                        assert(attempts@.take(i) =~= earlier.take(i));
                        assert(attempts@[i] == earlier[i]);
                    } else {
                        assert(attempts@.take(i) =~= earlier);
                    }
                }
            }
            if outcome == AttemptOutcome::StaysDeferred {
                break;
            }
            let _ = self.deferred.pop_front();
            self.deferred_bytes = self.deferred_bytes - head.bytes;
            assert(self@.deferred =~= before.deferred.drop_first());
        }
        attempts
    }

    /// What becomes of an upload of `bytes` that was rejected.
    pub fn async_upload_reject_action(&self, healthy: bool, bytes: usize) -> (action:
        AsyncUploadRejectAction)
        ensures
            action == reject_action(healthy, self@.budget, bytes as nat),
    {
        decide_async_upload_reject_action(healthy, self.server.as_ref(), bytes)
    }

    /// Whether any upload still needs a frame to make progress.
    pub fn has_outstanding_upload_work(&self) -> (b: bool)
        ensures
            b == (self@.pending.len() > 0 || self@.deferred.len() > 0 || (self@.budget matches Some(
                budget,
            ) && budget.depth > 0)),
    {
        let depth: usize = match &self.server {
            Some(server) => server.queue_depth(),
            None => 0,
        };
        self.pending.len() > 0 || self.deferred.len() > 0 || depth > 0
    }

    /// The upload thread is gone with the context it shared, and so is everything that was
    /// in flight on it.
    pub fn lose_thread(&mut self)
        requires
            old(self).wf(),
        ensures
            final(self).wf(),
            final(self)@ == (Ledger {
                budget: None,
                pending: Seq::empty(),
                cancelled: Set::empty(),
                ..old(self)@
            }),
    {
        self.server = None;
        self.pending.clear();
        self.cancelled.clear();
        assert(self@.pending =~= Seq::empty());
        assert(self@.cancelled =~= Set::empty());
    }

    /// The upload thread was stopped.
    pub fn ungate(&mut self)
        requires
            old(self).wf(),
        ensures
            final(self).wf(),
            final(self)@ == (Ledger { budget: None, ..old(self)@ }),
    {
        self.server = None;
    }

    /// An upload thread runs, gated by `server`.
    pub fn gate(&mut self, server: UploadServer)
        requires
            old(self).wf(),
        ensures
            final(self).wf(),
            final(self)@ == (Ledger { budget: Some(server@), ..old(self)@ }),
    {
        self.server = Some(server);
    }

    /// Start a frame's budget.
    pub fn reset_frame_upload_budget(&mut self)
        requires
            old(self).wf(),
        ensures
            final(self).wf(),
            final(self)@ == (Ledger {
                budget: match old(self)@.budget {
                    None => None,
                    Some(b) => Some(Budget { used_jobs: 0, used_bytes: 0, rejections: 0, ..b }),
                },
                ..old(self)@
            }),
    {
        if let Some(mut server) = self.server.take() {
            server.reset_frame_budget();
            self.server = Some(server);
        }
    }

    /// Read and reset the number of uploads that the budget has refused.
    pub fn take_upload_frame_rejections(&mut self) -> (n: u32)
        requires
            old(self).wf(),
        ensures
            final(self).wf(),
            n == (match old(self)@.budget {
                Some(b) => b.rejections as int,
                None => 0,
            }),
            final(self)@ == (Ledger {
                budget: match old(self)@.budget {
                    None => None,
                    Some(b) => Some(Budget { rejections: 0, ..b }),
                },
                ..old(self)@
            }),
    {
        if let Some(mut server) = self.server.take() {
            let n: u32 = server.take_frame_rejections();
            self.server = Some(server);
            n
        } else {
            0
        }
    }

    /// An image is destroyed. One whose upload is in flight has its waiter told, and
    /// its texture will be discarded on arrival; any other leaves no mark.
    pub fn cancel_pending_load(&mut self, image_id: u32) -> (effect: Option<UploadEffect>)
        requires
            old(self).wf(),
        ensures
            final(self).wf(),
            old(self)@.awaited.contains(image_id as u64) ==> {
                &&& effect == Some(UploadEffect::ReplyCancelled { image_id: image_id as u64 })
                &&& final(self)@ == (Ledger {
                    awaited: old(self)@.awaited.remove(image_id as u64),
                    cancelled: old(self)@.cancelled.insert(image_id as u64),
                    ..old(self)@
                })
            },
            !old(self)@.awaited.contains(image_id as u64) ==> effect is None && final(self)@ == old(
                self)@,
    {
        let id: u64 = image_id as u64;
        if self.awaited.remove(&id) {
            let _ = self.cancelled.insert(id);
            assert(self@.awaited =~= old(self)@.awaited.remove(id));
            assert(self@.cancelled =~= old(self)@.cancelled.insert(id));
            Some(UploadEffect::ReplyCancelled { image_id: id })
        } else {
            assert(self@.awaited =~= old(self)@.awaited);
            None
        }
    }
}

proof fn lemma_settled_prefix(
    l: Ledger,
    staged: Seq<CompletedUpload>,
    a: Seq<u32>,
    b: Seq<u32>,
)
    requires
        staged.len() <= a.len(),
        staged.len() <= b.len(),
        forall|i: int| 0 <= i < staged.len() ==> a[i] == b[i],
    ensures
        settled_all(l, staged, a) == settled_all(l, staged, b),
        settle_all_effects(l, staged, a) == settle_all_effects(l, staged, b),
    decreases staged.len(),
{
    if staged.len() > 0 {
        lemma_settled_prefix(l, staged.drop_last(), a, b);
    }
}

/// An upload whose fence the driver refuses for good is not kept: it leaves the
/// pending list and gives its budget back. One that is merely slow stays, with
/// everything it holds.
pub proof fn law_only_slow_uploads_stay(l: Ledger, c: CompletedUpload, status: u32)
    ensures
        status == crate::gl::TIMEOUT_EXPIRED ==> settled(l, c, status) == (Ledger {
            pending: l.pending.push(c),
            ..l
        }) && settle_effects(l, c, status).len() == 0,
        status == crate::gl::WAIT_FAILED ==> settled(l, c, status).pending == l.pending
            && settled(l, c, status).budget == budget_finished(l.budget, c.byte_len as nat)
            && settle_effects(l, c, status).contains(
            UploadEffect::DeleteTexture { texture: c.texture },
        ),
{
    if status == crate::gl::WAIT_FAILED {
        assert(settle_effects(l, c, status)[1] == (UploadEffect::DeleteTexture {
            texture: c.texture,
        }));
    }
}

/// An image that was destroyed while its upload was in flight is never registered when
/// the upload arrives, and its mark is used up, so a reused name is not affected.
pub proof fn law_cancelled_uploads_are_discarded(l: Ledger, c: CompletedUpload, status: u32)
    requires
        l.cancelled.contains(c.image_id),
        crate::fences::is_signalled(status),
    ensures
        forall|i: int|
            0 <= i < settle_effects(l, c, status).len() ==> !((#[trigger] settle_effects(
                l,
                c,
                status,
            )[i]) is Register),
        !settled(l, c, status).cancelled.contains(c.image_id),
{
}

/// One more upload may wait exactly while there are fewer than 256 and all of them together
/// stay within 128 mebibytes.
pub proof fn law_when_an_upload_may_wait(count: usize, retained: usize, more: usize, fits: bool)
    requires
        call_ensures(deferred_upload_fits, (count, retained, more), fits),
    ensures
        fits == (count < 256 && retained + more <= 134217728),
{
}

/// A job is taken exactly if the frame has a job and the bytes left for it, and is then on the
/// frame's account and outstanding; a job that is not taken is counted as refused and changes
/// nothing else. A frame never goes over its budget.
pub proof fn law_a_frame_keeps_to_its_budget(bytes: usize, taken: bool)
    ensures
        forall|s: &mut UploadServer|
            #[trigger] call_ensures(UploadServer::try_acquire_job, (s, bytes), taken) ==> {
                let before = (*s)@;
                let after = (*final(s))@;
                &&& taken ==> before.used_jobs + 1 <= before.frame_jobs && before.used_bytes + bytes
                    <= before.frame_bytes
                &&& before.used_jobs < before.frame_jobs && before.used_bytes + bytes
                    <= before.frame_bytes && before.depth < usize::MAX && before.outstanding_bytes
                    + bytes <= usize::MAX ==> taken
                &&& taken ==> after.used_jobs == before.used_jobs + 1 && after.used_bytes
                    == before.used_bytes + bytes && after.depth == before.depth + 1
                    && after.outstanding_bytes == before.outstanding_bytes + bytes
                    && after.rejections == before.rejections
                &&& !taken ==> after.used_jobs == before.used_jobs && after.used_bytes
                    == before.used_bytes && after.depth == before.depth && after.outstanding_bytes
                    == before.outstanding_bytes
                &&& !taken && before.rejections < u32::MAX ==> after.rejections
                    == before.rejections + 1
                &&& after.frame_jobs == before.frame_jobs && after.frame_bytes
                    == before.frame_bytes
            },
{
}

/// A job that comes back is outstanding no more, and the frame that took it has it on its
/// account all the same. A new frame has its whole budget, and what is outstanding stays so.
pub proof fn law_a_new_frame_has_its_whole_budget(bytes: usize)
    ensures
        forall|s: &mut UploadServer|
            #[trigger] call_ensures(UploadServer::finish_job_bytes, (s, bytes), ()) ==> {
                let before = (*s)@;
                let after = (*final(s))@;
                &&& before.depth > 0 ==> after.depth == before.depth - 1
                &&& before.depth == 0 ==> after.depth == 0
                &&& before.outstanding_bytes >= bytes ==> after.outstanding_bytes
                    == before.outstanding_bytes - bytes
                &&& before.outstanding_bytes < bytes ==> after.outstanding_bytes == 0
                &&& after.used_jobs == before.used_jobs && after.used_bytes == before.used_bytes
            },
        forall|s: &mut UploadServer|
            #[trigger] call_ensures(UploadServer::reset_frame_budget, (s,), ()) ==> {
                let before = (*s)@;
                let after = (*final(s))@;
                &&& after.used_jobs == 0 && after.used_bytes == 0 && after.rejections == 0
                &&& after.depth == before.depth
                &&& after.outstanding_bytes == before.outstanding_bytes
                &&& after.frame_jobs == before.frame_jobs
                &&& after.frame_bytes == before.frame_bytes
            },
{
}

/// A rejected upload waits exactly where the upload thread is healthy and gated, and a frame
/// that has taken nothing could take it; any other is made at once.
pub proof fn law_what_becomes_of_a_rejected_upload(
    healthy: bool,
    server: Option<&UploadServer>,
    bytes: usize,
    action: AsyncUploadRejectAction,
)
    requires
        call_ensures(decide_async_upload_reject_action, (healthy, server, bytes), action),
    ensures
        !healthy || server is None ==> action is SyncFallback,
        server matches Some(s) ==> bytes > s@.frame_bytes ==> action is SyncFallback,
        server matches Some(s) ==> healthy && bytes <= s@.frame_bytes ==> action is DeferRetry,
{
}

/// An upload that the GPU has passed has its fence deleted and its image registered, with its
/// own texture and size, unless it was cancelled: then its texture is deleted. Whoever waited
/// for it is told its size, and nobody else is told anything.
pub proof fn law_a_passed_upload_is_registered(l: Ledger, c: CompletedUpload, status: u32, i: int)
    requires
        status == 0x911A || status == 0x911C,
    ensures
        settle_effects(l, c, status).contains(UploadEffect::DeleteFence { fence: c.fence }),
        !l.cancelled.contains(c.image_id) ==> settle_effects(l, c, status).contains(
            UploadEffect::Register {
                image_id: c.image_id,
                texture: c.texture,
                width: c.width,
                height: c.height,
            },
        ),
        l.cancelled.contains(c.image_id) ==> settle_effects(l, c, status).contains(
            UploadEffect::DeleteTexture { texture: c.texture },
        ),
        !l.cancelled.contains(c.image_id) && l.awaited.contains(c.image_id) ==> settle_effects(
            l,
            c,
            status,
        ).contains(
            UploadEffect::ReplyLoaded { image_id: c.image_id, width: c.width, height: c.height },
        ),
        0 <= i < settle_effects(l, c, status).len() ==> {
            let effect = settle_effects(l, c, status)[i];
            &&& effect is ReplyLoaded ==> l.awaited.contains(c.image_id) && !l.cancelled.contains(
                c.image_id,
            )
            &&& effect is DeleteTexture ==> l.cancelled.contains(c.image_id)
            &&& effect is DeleteFence || effect is Register || effect is DeleteTexture
                || effect is ReplyLoaded
        },
        settled(l, c, status).pending == l.pending,
        settled(l, c, status).deferred == l.deferred,
        !settled(l, c, status).cancelled.contains(c.image_id),
        !l.cancelled.contains(c.image_id) ==> !settled(l, c, status).awaited.contains(c.image_id),
        l.budget matches Some(b) ==> settled(l, c, status).budget is Some && (b.depth > 0 ==> (
        settled(l, c, status).budget->0).depth == b.depth - 1) && (b.outstanding_bytes >= c.byte_len
            ==> (settled(l, c, status).budget->0).outstanding_bytes == b.outstanding_bytes
            - c.byte_len),
{
    let effects = settle_effects(l, c, status);
    assert(effects[0] == (UploadEffect::DeleteFence { fence: c.fence }));
    assert(effects[1] == effects[1]);
    if !l.cancelled.contains(c.image_id) && l.awaited.contains(c.image_id) {
        assert(effects[2] == effects[2]);
    }
}

/// An upload that the driver gave up has its fence and its texture deleted and is never
/// registered; whoever waited for it is told that it failed.
pub proof fn law_an_upload_given_up_is_answered(l: Ledger, c: CompletedUpload, i: int)
    ensures
        settle_effects(l, c, 0x911D).contains(UploadEffect::DeleteFence { fence: c.fence }),
        settle_effects(l, c, 0x911D).contains(UploadEffect::DeleteTexture { texture: c.texture }),
        l.awaited.contains(c.image_id) == settle_effects(l, c, 0x911D).contains(
            UploadEffect::ReplyFenceFailed { image_id: c.image_id },
        ),
        0 <= i < settle_effects(l, c, 0x911D).len() ==> !(settle_effects(
            l,
            c,
            0x911D,
        )[i] is Register) && !(settle_effects(l, c, 0x911D)[i] is ReplyLoaded),
        !settled(l, c, 0x911D).awaited.contains(c.image_id),
        settled(l, c, 0x911D).pending == l.pending,
{
    let effects = settle_effects(l, c, 0x911D);
    assert(effects[0] == (UploadEffect::DeleteFence { fence: c.fence }));
    assert(effects[1] == (UploadEffect::DeleteTexture { texture: c.texture }));
    if l.awaited.contains(c.image_id) {
        assert(effects[2] == (UploadEffect::ReplyFenceFailed { image_id: c.image_id }));
    }
}

/// An image that is destroyed while someone waits for it has that waiter told at once, and its
/// upload will be discarded; any other leaves the books as they are.
pub proof fn law_a_cancelled_load_is_answered_at_once(
    image_id: u32,
    effect: Option<UploadEffect>,
)
    ensures
        forall|l: &mut UploadLedger|
            #[trigger] call_ensures(UploadLedger::cancel_pending_load, (l, image_id), effect)
                ==> {
                let before = (*l)@;
                let after = (*final(l))@;
                let id = image_id as u64;
                &&& before.awaited.contains(id) ==> effect == Some(
                    UploadEffect::ReplyCancelled { image_id: id },
                ) && after.cancelled.contains(id) && !after.awaited.contains(id)
                &&& !before.awaited.contains(id) ==> effect is None && after == before
                &&& after.pending == before.pending && after.deferred == before.deferred
                    && after.budget == before.budget
            },
{
}

/// An upload that waits is the last in the queue, and counts for its own bytes; one for which
/// there is no room leaves the queue as it is.
pub proof fn law_a_waiting_upload_is_last(image_id: u32, bytes: usize, kept: bool)
    ensures
        forall|l: &mut UploadLedger|
            #[trigger] call_ensures(UploadLedger::defer_upload, (l, image_id, bytes), kept) ==> {
                let before = (*l)@;
                let after = (*final(l))@;
                &&& kept == (before.deferred.len() < 256 && waiting_bytes(before.deferred) + bytes
                    <= 134217728)
                &&& kept ==> after.deferred.len() == before.deferred.len() + 1
                    && after.deferred.last().image_id == image_id && after.deferred.last().bytes
                    == bytes && after.deferred.drop_last() =~= before.deferred
                &&& kept ==> waiting_bytes(after.deferred) == waiting_bytes(before.deferred) + bytes
                &&& !kept ==> after == before
            },
{
    assert forall|l: &mut UploadLedger|
        #[trigger] call_ensures(UploadLedger::defer_upload, (l, image_id, bytes), kept) implies {
        let before = (*l)@;
        let after = (*final(l))@;
        &&& kept ==> after.deferred.drop_last() =~= before.deferred
        &&& kept ==> waiting_bytes(after.deferred) == waiting_bytes(before.deferred) + bytes
    } by {
        lemma_waiting_bytes_push((*l)@.deferred, DeferredUpload { image_id, bytes });
    }
}

/// An upload is on its way exactly where a healthy thread and the frame's budget admit it and
/// the thread takes it: then its image is waited for. Without a healthy thread nothing changes.
pub proof fn law_a_submitted_upload_is_waited_for(
    l: Ledger,
    healthy: bool,
    upload: DeferredUpload,
    accepted: bool,
)
    ensures
        reaches_queue(l, healthy, upload.bytes as nat) ==> healthy,
        l.budget matches Some(b) ==> reaches_queue(l, healthy, upload.bytes as nat) ==> b.used_jobs
            < b.frame_jobs && b.used_bytes + upload.bytes <= b.frame_bytes,
        healthy && l.budget is None ==> reaches_queue(l, healthy, upload.bytes as nat),
        !healthy ==> after_submit(l, healthy, upload, accepted) == l,
        reaches_queue(l, healthy, upload.bytes as nat) && accepted ==> {
            let after = after_submit(l, healthy, upload, accepted);
            &&& after.awaited.contains(upload.image_id as u64)
            &&& l.budget matches Some(b) ==> after.budget is Some && (after.budget->0).used_jobs
                == b.used_jobs + 1 && (after.budget->0).used_bytes == b.used_bytes + upload.bytes
                && (after.budget->0).depth == b.depth + 1
        },
        reaches_queue(l, healthy, upload.bytes as nat) && !accepted ==> {
            let after = after_submit(l, healthy, upload, accepted);
            &&& after.awaited == l.awaited
            &&& l.budget matches Some(b) ==> after.budget is Some && (after.budget->0).depth
                == b.depth && (after.budget->0).outstanding_bytes == b.outstanding_bytes && (
            after.budget->0).used_jobs == b.used_jobs + 1
        },
        healthy && !reaches_queue(l, healthy, upload.bytes as nat) ==> after_submit(
            l,
            healthy,
            upload,
            accepted,
        ).awaited == l.awaited,
        after_submit(l, healthy, upload, accepted).deferred == l.deferred,
        after_submit(l, healthy, upload, accepted).pending == l.pending,
{
}

/// An attempt that stays deferred keeps its place at the head of the queue; any other leaves
/// it, and the rest keep their order.
pub proof fn law_the_queue_keeps_its_order(l: Ledger, healthy: bool, attempt: Attempt)
    requires
        l.deferred.len() > 0,
    ensures
        attempt.outcome == AttemptOutcome::StaysDeferred ==> after_attempt(
            l,
            healthy,
            attempt,
        ).deferred == l.deferred,
        attempt.outcome != AttemptOutcome::StaysDeferred ==> after_attempt(
            l,
            healthy,
            attempt,
        ).deferred.len() == l.deferred.len() - 1 && forall|i: int|
            0 <= i < l.deferred.len() - 1 ==> #[trigger] after_attempt(
                l,
                healthy,
                attempt,
            ).deferred[i] == l.deferred[i + 1],
{
}

/// An upload whose result was lost has its waiter told, if there is one, and is outstanding
/// and marked no more.
pub proof fn law_a_lost_result_is_told(l: Ledger, d: DroppedUpload)
    ensures
        dropped_effects(l, seq![d]) == if l.awaited.contains(d.image_id) {
            seq![UploadEffect::ReplyDropped { image_id: d.image_id }]
        } else {
            Seq::empty()
        },
        !dropped_all(l, seq![d]).awaited.contains(d.image_id),
        !dropped_all(l, seq![d]).cancelled.contains(d.image_id),
        l.budget matches Some(b) ==> b.depth > 0 ==> dropped_all(l, seq![d]).budget is Some && (
        dropped_all(l, seq![d]).budget->0).depth == b.depth - 1,
        dropped_all(l, seq![d]).pending == l.pending,
        dropped_all(l, seq![d]).deferred == l.deferred,
{
    let none = seq![d].drop_last();
    assert(none =~= Seq::<DroppedUpload>::empty());
    assert(dropped_all(l, none) == l);
    assert(dropped_effects(l, none) =~= Seq::empty());
    assert(seq![d].last() == d);
    assert(Seq::<UploadEffect>::empty().push(UploadEffect::ReplyDropped { image_id: d.image_id })
        =~= seq![UploadEffect::ReplyDropped { image_id: d.image_id }]);
}

/// A discarded upload has both its texture and its fence deleted.
pub proof fn law_a_discarded_upload_leaves_nothing(uploads: Seq<CompletedUpload>, i: int)
    requires
        0 <= i < uploads.len(),
    ensures
        discards(uploads).len() == 2 * uploads.len(),
        discards(uploads)[2 * i] == (UploadEffect::DeleteTexture { texture: uploads[i].texture }),
        discards(uploads)[2 * i + 1] == (UploadEffect::DeleteFence { fence: uploads[i].fence }),
    decreases uploads.len(),
{
    let rest = uploads.drop_last();
    if rest.len() > 0 {
        let k = if i < rest.len() {
            i
        } else {
            0
        };
        law_a_discarded_upload_leaves_nothing(rest, k);
    } else {
        assert(discards(rest).len() == 0);
    }
    if i == rest.len() {
        assert(uploads.last() == uploads[i]);
    } else {
        assert(rest[i] == uploads[i]);
    }
}

/// Uploads need another frame exactly while one is pending, one waits or one is out.
pub proof fn law_when_uploads_need_a_frame(l: UploadLedger, outstanding: bool)
    requires
        call_ensures(UploadLedger::has_outstanding_upload_work, (&l,), outstanding),
    ensures
        l@.pending.len() > 0 || l@.deferred.len() > 0 ==> outstanding,
        l@.budget matches Some(b) ==> b.depth > 0 ==> outstanding,
        l@.pending.len() == 0 && l@.deferred.len() == 0 && (l@.budget matches Some(b) ==> b.depth
            == 0) ==> !outstanding,
{
}

proof fn lemma_cancelled_shrinks(l: Ledger, staged: Seq<CompletedUpload>, statuses: Seq<u32>, id: u64)
    requires
        !l.cancelled.contains(id),
    ensures
        !settled_all(l, staged, statuses).cancelled.contains(id),
    decreases staged.len(),
{
    if staged.len() > 0 {
        lemma_cancelled_shrinks(l, staged.drop_last(), statuses, id);
    }
}

/// However many uploads are settled together, each that the GPU has passed and that nobody
/// cancelled is registered with its own texture and size, and each that is merely slow is
/// pending afterwards.
pub proof fn law_every_settled_upload_is_accounted_for(
    l: Ledger,
    staged: Seq<CompletedUpload>,
    statuses: Seq<u32>,
    i: int,
)
    requires
        0 <= i < staged.len() <= statuses.len(),
    ensures
        (statuses[i] == 0x911A || statuses[i] == 0x911C) && !l.cancelled.contains(
            staged[i].image_id,
        ) ==> settle_all_effects(l, staged, statuses).contains(
            UploadEffect::Register {
                image_id: staged[i].image_id,
                texture: staged[i].texture,
                width: staged[i].width,
                height: staged[i].height,
            },
        ),
        statuses[i] == 0x911B ==> settled_all(l, staged, statuses).pending.contains(staged[i]),
    decreases staged.len(),
{
    let rest = staged.drop_last();
    let last = staged.last();
    let status = statuses[staged.len() - 1];
    let before = settled_all(l, rest, statuses);
    let first = settle_all_effects(l, rest, statuses);
    let second = settle_effects(before, last, status);
    let all = settle_all_effects(l, staged, statuses);
    let registered = UploadEffect::Register {
        image_id: staged[i].image_id,
        texture: staged[i].texture,
        width: staged[i].width,
        height: staged[i].height,
    };
    if i < rest.len() {
        assert(rest[i] == staged[i]);
        law_every_settled_upload_is_accounted_for(l, rest, statuses, i);
        if first.contains(registered) {
            let k = first.index_of(registered);
            assert(all[k] == registered);
        }
        if before.pending.contains(staged[i]) {
            let k = before.pending.index_of(staged[i]);
            assert(settled_all(l, staged, statuses).pending[k] == staged[i]);
        }
    } else {
        assert(last == staged[i]);
        if !l.cancelled.contains(last.image_id) {
            lemma_cancelled_shrinks(l, rest, statuses, last.image_id);
        }
        if (status == 0x911A || status == 0x911C) && !l.cancelled.contains(last.image_id) {
            assert(second[1] == registered);
            assert(all[first.len() as int + 1] == registered);
        }
        if status == 0x911B {
            assert(settled_all(l, staged, statuses).pending.last() == last);
        }
    }
}

/// The oldest upload is retried first. Without a healthy thread none is submitted and none
/// waits on; one that no frame could take does not wait on either.
pub proof fn law_the_oldest_upload_is_retried_first<Submit: Fn(u32) -> bool>(
    l: Ledger,
    healthy: bool,
    submit: Submit,
    attempt: Attempt,
)
    requires
        attempt_holds(l, healthy, submit, attempt),
    ensures
        l.deferred.len() > 0,
        attempt.image_id == l.deferred[0].image_id,
        !healthy ==> attempt.outcome is LoadNow,
        l.budget matches Some(b) ==> l.deferred[0].bytes > b.frame_bytes ==> attempt.outcome is LoadNow,
        l.budget matches Some(b) ==> attempt.outcome is Submitted ==> b.used_jobs < b.frame_jobs
            && b.used_bytes + l.deferred[0].bytes <= b.frame_bytes,
        l.budget matches Some(b) ==> healthy && b.used_jobs == b.frame_jobs && l.deferred[0].bytes
            <= b.frame_bytes ==> attempt.outcome is StaysDeferred,
        attempt.outcome is Submitted ==> call_ensures(submit, (l.deferred[0].image_id,), true),
{
}

/// A server has the budget that it was made with, and nothing of it taken; whether a job can
/// ever fit goes by the bytes of a frame alone.
pub proof fn law_what_a_server_starts_with(jobs: usize, bytes: usize, s: UploadServer, job: usize, b: bool)
    requires
        call_ensures(UploadServer::new, (jobs, bytes), s),
        call_ensures(UploadServer::can_ever_fit_bytes, (&s, job), b),
    ensures
        s@.frame_jobs == jobs,
        s@.frame_bytes == bytes,
        s@.used_jobs == 0,
        s@.used_bytes == 0,
        s@.depth == 0,
        b == (job <= bytes),
{
}

/// A read of the default framebuffer is remembered the first time, and only then.
pub proof fn law_a_read_is_remembered_once(already: bool, latch: bool)
    requires
        call_ensures(should_latch_default_fbo_readback, (already,), latch),
    ensures
        latch == !already,
{
}

/// A budget is replaced by the jobs and the bytes that are given, and what was taken stays
/// taken. The refusals are told once.
pub proof fn law_a_replaced_budget_keeps_what_was_taken(jobs: usize, bytes: usize, n: u32)
    ensures
        forall|s: &mut UploadServer|
            #[trigger] call_ensures(UploadServer::set_frame_budget, (s, jobs, bytes), ()) ==> {
                &&& (*final(s))@.frame_jobs == jobs && (*final(s))@.frame_bytes == bytes
                &&& (*final(s))@.used_jobs == (*s)@.used_jobs && (*final(s))@.used_bytes
                    == (*s)@.used_bytes
                &&& (*final(s))@.depth == (*s)@.depth
            },
        forall|s: &mut UploadServer|
            #[trigger] call_ensures(UploadServer::take_frame_rejections, (s,), n) ==> {
                &&& n == (*s)@.rejections && (*final(s))@.rejections == 0
                &&& (*final(s))@.used_jobs == (*s)@.used_jobs
            },
{
}

} // verus!
