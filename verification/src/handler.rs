//! Commands on canvases and images.
use vstd::prelude::*;

use crate::canvases::BackingSizeOwner;
use crate::egl_device::EglCall;
use crate::egl_setup::EglError;
use crate::gl_device::GlCall;
use crate::images::CompressedImage;
use crate::images::ImageCall;
use crate::images::ImageError;
use crate::manager::CanvasError;
use crate::manager::CanvasManager;
use crate::manager::Mgr;
use crate::painters::PaintCall;
use crate::uploads::AsyncUploadRejectAction;
use crate::uploads::DeferredUpload;

verus! {

/// How soon an image is needed.
#[derive(Clone, Copy, Debug, PartialEq, Eq, Structural)]
pub enum ImagePriority {
    Critical,
    Normal,
    Background,
}

/// What a decoder has made of an image.
#[derive(Clone, Copy, Debug, PartialEq, Eq, Structural)]
pub enum DecodedImage {
    Compressed(CompressedImage),
    /// Pixels in a hardware buffer.
    HardwareBuffer,
    /// Pixels in memory, so many bytes of them.
    Rgba { bytes: usize },
}

/// A command.
pub enum CanvasCmd {
    CreateOffscreen { width: u32, height: u32 },
    RegisterOffscreen { id: u32, width: u32, height: u32 },
    /// Destroy a canvas, with the textures and renderbuffers that its content made.
    DestroyCanvas { id: u32, textures: Vec<u32>, renderbuffers: Vec<u32> },
    /// Install another native target. Whoever runs the session does that before commands
    /// come here.
    RecreateOnscreen,
    ResizeCanvas { id: u32, w: Option<u32>, h: Option<u32> },
    MakeCurrent { id: u32 },
    SwapBuffers { id: u32, wait_for_vsync: bool },
    GetInfo { id: u32 },
    LoadImage { image_id: u32, image: DecodedImage, priority: ImagePriority },
    DestroyImage { image_id: u32 },
    DestroyImages { image_ids: Vec<u32> },
    /// Any other command: it is not this handler's.
    Other,
}

/// What whoever sent a command is answered.
pub enum CanvasAnswer {
    /// Nothing: the command has no answer.
    Silent,
    Created(Result<u32, CanvasError>),
    Done(Result<(), CanvasError>),
    Size(Result<(u32, u32), CanvasError>),
    Image(Result<(u32, u32), ImageError>),
    /// The upload thread will answer.
    Pending,
    /// Those who waited for these images are told that they are gone.
    Cancelled(Vec<u32>),
}

/// A command that must be dealt with before it comes here.
#[derive(Clone, Copy, Debug, PartialEq, Eq, Structural)]
pub struct Misrouted;

/// What a load depends on besides the session.
#[derive(Clone, Copy, Debug, PartialEq, Eq, Structural)]
pub struct LoadFacts {
    /// There is an upload thread, and it works.
    pub upload_thread_healthy: bool,
    /// The most pixels that an image may have.
    pub max_image_pixels: u64,
}

/// The session after an upload was offered to the upload thread.
pub open spec fn offered(m: Mgr, healthy: bool, upload: DeferredUpload, accepted: bool) -> Mgr {
    Mgr { uploads: crate::uploads::after_submit(m.uploads, healthy, upload, accepted), ..m }
}

/// The session with an upload that waits for a later frame.
pub open spec fn deferred(m: Mgr, upload: DeferredUpload) -> Mgr {
    Mgr {
        uploads: crate::uploads::Ledger {
            deferred: m.uploads.deferred.push(upload),
            ..m.uploads
        },
        ..m
    }
}

/// The upload thread was offered pixels and did not take them: they wait where a later frame
/// can take them and there is room, and otherwise they are uploaded at once.
pub open spec fn rejected_load<D: Fn(ImageCall) -> Option<(u32, u32)>>(
    tried: Mgr,
    after: Mgr,
    healthy: bool,
    upload: DeferredUpload,
    images: D,
    answer: CanvasAnswer,
) -> bool {
    let waits = crate::uploads::reject_action(
        healthy,
        tried.uploads.budget,
        upload.bytes as nat,
    ) is DeferRetry && crate::uploads::may_defer(
        tried.uploads.deferred.len(),
        crate::uploads::waiting_bytes(tried.uploads.deferred),
        upload.bytes as nat,
    );
    if waits {
        answer is Pending && after == deferred(tried, upload)
    } else {
        answer matches CanvasAnswer::Image(result) && crate::images::load_outcome(
            tried,
            after,
            ImageCall::LoadShared { image_id: upload.image_id },
            images,
            result,
        )
    }
}

/// Pixels that are not needed at once were loaded: the upload thread took them, or they were
/// rejected.
pub open spec fn async_load<D: Fn(ImageCall) -> Option<(u32, u32)>, S: Fn(u32) -> bool>(
    before: Mgr,
    after: Mgr,
    healthy: bool,
    upload: DeferredUpload,
    images: D,
    submit: S,
    answer: CanvasAnswer,
) -> bool {
    let bytes = upload.bytes as nat;
    let reaches = crate::uploads::reaches_queue(before.uploads, healthy, bytes);
    ||| {
        &&& reaches
        &&& call_ensures(submit, (upload.image_id,), true)
        &&& answer is Pending
        &&& after == offered(before, healthy, upload, true)
    }
    ||| {
        &&& reaches ==> call_ensures(submit, (upload.image_id,), false)
        &&& rejected_load(
            offered(before, healthy, upload, false),
            after,
            healthy,
            upload,
            images,
            answer,
        )
    }
}

/// An image was loaded.
pub open spec fn image_loaded<D: Fn(ImageCall) -> Option<(u32, u32)>, S: Fn(u32) -> bool>(
    before: Mgr,
    after: Mgr,
    image_id: u32,
    image: DecodedImage,
    priority: ImagePriority,
    facts: LoadFacts,
    images: D,
    submit: S,
    answer: CanvasAnswer,
) -> bool {
    match image {
        DecodedImage::Compressed(compressed) => answer matches CanvasAnswer::Image(result)
            && crate::images::compressed_outcome(
            before,
            after,
            image_id,
            compressed,
            facts.max_image_pixels,
            images,
            result,
        ),
        DecodedImage::HardwareBuffer => answer matches CanvasAnswer::Image(result)
            && crate::images::load_outcome(
            before,
            after,
            ImageCall::LoadHardwareBuffer { image_id },
            images,
            result,
        ),
        DecodedImage::Rgba { bytes } => if priority is Critical {
            answer matches CanvasAnswer::Image(result) && crate::images::load_outcome(
                before,
                after,
                ImageCall::LoadShared { image_id },
                images,
                result,
            )
        } else {
            async_load(
                before,
                after,
                facts.upload_thread_healthy,
                DeferredUpload { image_id, bytes },
                images,
                submit,
                answer,
            )
        },
    }
}

/// The uploads after images were destroyed: those in flight are discarded on arrival.
pub open spec fn cancelled_all(l: crate::uploads::Ledger, ids: Seq<u32>) -> crate::uploads::Ledger
    decreases ids.len(),
{
    if ids.len() == 0 {
        l
    } else {
        let rest = cancelled_all(l, ids.drop_last());
        let id = ids.last() as u64;
        if rest.awaited.contains(id) {
            crate::uploads::Ledger {
                awaited: rest.awaited.remove(id),
                cancelled: rest.cancelled.insert(id),
                ..rest
            }
        } else {
            rest
        }
    }
}

/// The images whose waiters are told, in order.
pub open spec fn waiters_told(l: crate::uploads::Ledger, ids: Seq<u32>) -> Seq<u32>
    decreases ids.len(),
{
    if ids.len() == 0 {
        Seq::empty()
    } else {
        let rest = waiters_told(l, ids.drop_last());
        if cancelled_all(l, ids.drop_last()).awaited.contains(ids.last() as u64) {
            rest.push(ids.last())
        } else {
            rest
        }
    }
}

/// The session once an image is not waited for any more.
pub open spec fn unawaited(m: Mgr, image_id: u32) -> Mgr {
    Mgr { uploads: cancelled_all(m.uploads, seq![image_id]), ..m }
}

/// An image is not waited for any more, and the registry was asked to drop it, unless nothing
/// could be made current for that.
pub open spec fn image_destroyed<D: Fn(ImageCall) -> Option<(u32, u32)>>(
    before: Mgr,
    after: Mgr,
    image_id: u32,
    images: D,
) -> bool {
    exists|result: Result<(), ImageError>| #[trigger]
        crate::images::drop_outcome(unawaited(before, image_id), after, image_id, images, result)
}

/// Images were destroyed one after the other, by way of these states.
pub open spec fn destroyed_by_way_of<D: Fn(ImageCall) -> Option<(u32, u32)>>(
    states: Seq<Mgr>,
    ids: Seq<u32>,
    images: D,
) -> bool {
    &&& states.len() == ids.len() + 1
    &&& forall|i: int|
        0 <= i < ids.len() ==> image_destroyed(states[i], states[i + 1], #[trigger] ids[i], images)
}

/// Images were destroyed.
pub open spec fn images_destroyed<D: Fn(ImageCall) -> Option<(u32, u32)>>(
    before: Mgr,
    after: Mgr,
    ids: Seq<u32>,
    images: D,
    told: Seq<u32>,
) -> bool {
    &&& told == waiters_told(before.uploads, ids)
    &&& after.uploads == cancelled_all(before.uploads, ids)
    &&& crate::binding::only_binding_moved(before, Mgr { uploads: before.uploads, ..after })
    &&& exists|states: Seq<Mgr>| #[trigger]
        destroyed_by_way_of(states, ids, images) && states[0] == before && states.last() == after
}

/// A command was handled.
pub open spec fn handled<D: Fn(ImageCall) -> Option<(u32, u32)>, S: Fn(u32) -> bool>(
    before: Mgr,
    after: Mgr,
    cmd: CanvasCmd,
    facts: LoadFacts,
    images: D,
    submit: S,
    answer: CanvasAnswer,
) -> bool {
    match cmd {
        CanvasCmd::CreateOffscreen { width, height } => answer matches CanvasAnswer::Created(
            result,
        ) && crate::canvases::created(before, after, width, height, result),
        CanvasCmd::RegisterOffscreen { id, width, height } => answer is Silent && exists|
            result: Result<(), CanvasError>,
        | #[trigger]
            crate::canvases::registered(before, after, id, width, height, result),
        CanvasCmd::DestroyCanvas { id, textures, renderbuffers } => answer
            matches CanvasAnswer::Done(result) && crate::canvases::destroyed(
            before,
            after,
            id,
            textures@,
            renderbuffers@,
            result,
        ),
        CanvasCmd::RecreateOnscreen => false,
        CanvasCmd::ResizeCanvas { id, w, h } => answer is Silent && exists|
            result: Result<(), CanvasError>,
        | #[trigger]
            crate::canvases::resize_outcome(
                before,
                after,
                id,
                w,
                h,
                BackingSizeOwner::Content,
                result,
            ),
        CanvasCmd::MakeCurrent { id } => answer matches CanvasAnswer::Done(result)
            && crate::binding::made_current(before, after, id, result),
        CanvasCmd::SwapBuffers { id, wait_for_vsync } => answer matches CanvasAnswer::Done(
            result,
        ) && swapped(before, after, id, wait_for_vsync, result),
        CanvasCmd::GetInfo { id } => {
            &&& after == before
            &&& answer matches CanvasAnswer::Size(size) && size == (
            if before.canvases.dom().contains(id) {
                Ok::<(u32, u32), CanvasError>(crate::manager::buffer_size(before.canvases[id]))
            } else {
                Err::<(u32, u32), CanvasError>(CanvasError::NotFound)
            })
        },
        CanvasCmd::LoadImage { image_id, image, priority } => image_loaded(
            before,
            after,
            image_id,
            image,
            priority,
            facts,
            images,
            submit,
            answer,
        ),
        CanvasCmd::DestroyImage { image_id } => answer matches CanvasAnswer::Cancelled(told)
            && images_destroyed(before, after, seq![image_id], images, told@),
        CanvasCmd::DestroyImages { image_ids } => answer matches CanvasAnswer::Cancelled(told)
            && images_destroyed(before, after, image_ids@, images, told@),
        CanvasCmd::Other => answer is Silent && after == before,
    }
}

/// A canvas was presented, and only whether that went well is told.
pub open spec fn swapped(
    before: Mgr,
    after: Mgr,
    id: u32,
    wait_for_vsync: bool,
    result: Result<(), CanvasError>,
) -> bool {
    match result {
        Ok(_) => exists|damage: crate::damage::ResolvedDamage| #[trigger]
            crate::presenting::swap_outcome(before, after, id, wait_for_vsync, Ok(damage)),
        Err(e) => crate::presenting::swap_outcome(before, after, id, wait_for_vsync, Err(e)),
    }
}

/// Handles commands on canvases and images.
pub struct CanvasHandler;

impl CanvasHandler {
    pub fn new() -> (handler: Self)
        ensures
            handler == CanvasHandler,
    {
        CanvasHandler
    }

    /// Load pixels that are not needed at once: through the upload thread where it takes
    /// them, later where it may yet, and otherwise at once.
    fn load_later<
        F: Fn(GlCall) -> u32,
        H: Fn(EglCall) -> Result<usize, EglError>,
        P: Fn(PaintCall) -> u64,
        D: Fn(ImageCall) -> Option<(u32, u32)>,
        S: Fn(u32) -> bool,
    >(
        &mut self,
        cm: &mut CanvasManager<F, H, P>,
        healthy: bool,
        upload: DeferredUpload,
        images: &D,
        submit: &S,
    ) -> (answer: CanvasAnswer)
        requires
            old(cm).wf(),
            forall|call: ImageCall| #[trigger] call_requires(images, (call,)),
            forall|id: u32| #[trigger] call_requires(submit, (id,)),
        ensures
            final(cm).wf(),
            async_load(old(cm)@, final(cm)@, healthy, upload, *images, *submit, answer),
    {
        let accepted: bool = cm.uploads_mut().submit_async_upload(
            healthy,
            upload.image_id,
            upload.bytes,
            submit,
        );
        assert(upload == (DeferredUpload { image_id: upload.image_id, bytes: upload.bytes }));
        assert(cm@ == offered(old(cm)@, healthy, upload, accepted));
        if accepted {
            return CanvasAnswer::Pending;
        }
        let ghost tried = cm@;
        let action = cm.uploads_mut().async_upload_reject_action(healthy, upload.bytes);
        assert(cm@ == tried);
        match action {
            AsyncUploadRejectAction::SyncFallback => {
                CanvasAnswer::Image(cm.load_shared_image(upload.image_id, images))
            },
            AsyncUploadRejectAction::DeferRetry => {
                if cm.uploads_mut().defer_upload(upload.image_id, upload.bytes) {
                    assert(cm@ == deferred(tried, upload));
                    CanvasAnswer::Pending
                } else {
                    assert(cm@ == tried);
                    CanvasAnswer::Image(cm.load_shared_image(upload.image_id, images))
                }
            },
        }
    }

    /// Load an image.
    fn load_image<
        F: Fn(GlCall) -> u32,
        H: Fn(EglCall) -> Result<usize, EglError>,
        P: Fn(PaintCall) -> u64,
        D: Fn(ImageCall) -> Option<(u32, u32)>,
        S: Fn(u32) -> bool,
    >(
        &mut self,
        cm: &mut CanvasManager<F, H, P>,
        image_id: u32,
        image: &DecodedImage,
        priority: ImagePriority,
        facts: &LoadFacts,
        images: &D,
        submit: &S,
    ) -> (answer: CanvasAnswer)
        requires
            old(cm).wf(),
            forall|call: ImageCall| #[trigger] call_requires(images, (call,)),
            forall|id: u32| #[trigger] call_requires(submit, (id,)),
        ensures
            final(cm).wf(),
            image_loaded(
                old(cm)@,
                final(cm)@,
                image_id,
                *image,
                priority,
                *facts,
                *images,
                *submit,
                answer,
            ),
    {
        match image {
            DecodedImage::Compressed(compressed) => CanvasAnswer::Image(
                cm.load_compressed_image(image_id, compressed, facts.max_image_pixels, images),
            ),
            DecodedImage::HardwareBuffer => CanvasAnswer::Image(
                cm.load_ahb_image(image_id, images),
            ),
            DecodedImage::Rgba { bytes } => {
                if priority == ImagePriority::Critical {
                    CanvasAnswer::Image(cm.load_shared_image(image_id, images))
                } else {
                    self.load_later(
                        cm,
                        facts.upload_thread_healthy,
                        DeferredUpload { image_id, bytes: *bytes },
                        images,
                        submit,
                    )
                }
            },
        }
    }

    /// Destroy an image: an upload of it that is in flight is discarded on arrival. Whether
    /// somebody waited for it is told.
    fn destroy_image<
        F: Fn(GlCall) -> u32,
        H: Fn(EglCall) -> Result<usize, EglError>,
        P: Fn(PaintCall) -> u64,
        D: Fn(ImageCall) -> Option<(u32, u32)>,
    >(&mut self, cm: &mut CanvasManager<F, H, P>, image_id: u32, images: &D) -> (told: bool)
        requires
            old(cm).wf(),
            forall|call: ImageCall| #[trigger] call_requires(images, (call,)),
        ensures
            final(cm).wf(),
            told == old(cm)@.uploads.awaited.contains(image_id as u64),
            final(cm)@.uploads == (if told {
                crate::uploads::Ledger {
                    awaited: old(cm)@.uploads.awaited.remove(image_id as u64),
                    cancelled: old(cm)@.uploads.cancelled.insert(image_id as u64),
                    ..old(cm)@.uploads
                }
            } else {
                old(cm)@.uploads
            }),
            crate::binding::only_binding_moved(
                old(cm)@,
                Mgr { uploads: old(cm)@.uploads, ..final(cm)@ },
            ),
            image_destroyed(old(cm)@, final(cm)@, image_id, *images),
    {
        let told: bool = cm.uploads_mut().cancel_pending_load(image_id).is_some();
        let ghost cancelled = cm@;
        proof {
            reveal_with_fuel(cancelled_all, 2);
            assert(seq![image_id].drop_last() =~= Seq::<u32>::empty());
            assert(cancelled == unawaited(old(cm)@, image_id));
        }
        let result = cm.destroy_shared_image(image_id, images);
        assert(crate::images::drop_outcome(cancelled, cm@, image_id, *images, result));
        told
    }

    /// Destroy images. Those whose waiters are to be told are handed back.
    fn destroy_images<
        F: Fn(GlCall) -> u32,
        H: Fn(EglCall) -> Result<usize, EglError>,
        P: Fn(PaintCall) -> u64,
        D: Fn(ImageCall) -> Option<(u32, u32)>,
    >(&mut self, cm: &mut CanvasManager<F, H, P>, ids: &Vec<u32>, images: &D) -> (told: Vec<u32>)
        requires
            old(cm).wf(),
            forall|call: ImageCall| #[trigger] call_requires(images, (call,)),
        ensures
            final(cm).wf(),
            images_destroyed(old(cm)@, final(cm)@, ids@, *images, told@),
    {
        let mut told: Vec<u32> = Vec::new();
        let mut i: usize = 0;
        let ghost mut states: Seq<Mgr> = seq![cm@];
        assert(told@ =~= waiters_told(old(cm)@.uploads, ids@.take(0)));
        while i < ids.len()
            invariant
                i <= ids@.len(),
                cm.wf(),
                forall|call: ImageCall| #[trigger] call_requires(images, (call,)),
                told@ == waiters_told(old(cm)@.uploads, ids@.take(i as int)),
                cm@.uploads == cancelled_all(old(cm)@.uploads, ids@.take(i as int)),
                crate::binding::only_binding_moved(
                    old(cm)@,
                    Mgr { uploads: old(cm)@.uploads, ..cm@ },
                ),
                states.len() == i + 1,
                states[0] == old(cm)@,
                states.last() == cm@,
                destroyed_by_way_of(states, ids@.take(i as int), *images),
            decreases ids@.len() - i,
        {
            let id: u32 = ids[i];
            let ghost before = cm@;
            proof {
                let now = ids@.take(i + 1);
                assert(now.drop_last() =~= ids@.take(i as int));
                assert(now.last() == id);
            }
            if self.destroy_image(cm, id, images) {
                told.push(id);
            }
            proof {
                lemma_bindings_compose(old(cm)@, before, cm@);
                let after = states.push(cm@);
                let now = ids@.take(i + 1);
                assert forall|j: int| 0 <= j < now.len() implies image_destroyed(
                    after[j],
                    after[j + 1],
                    #[trigger] now[j],
                    *images,
                ) by {
                    if j < i {
                        assert(ids@.take(i as int)[j] == now[j]);
                        assert(after[j] == states[j] && after[j + 1] == states[j + 1]);
                    }
                }
                states = after;
            }
            i = i + 1;
        }
        assert(ids@.take(i as int) =~= ids@);
        told
    }

    /// Handle a command. The answer goes to whoever sent it; a command that must be dealt
    /// with before it comes here is refused, and nothing is touched.
    pub fn handle_command<
        F: Fn(GlCall) -> u32,
        H: Fn(EglCall) -> Result<usize, EglError>,
        P: Fn(PaintCall) -> u64,
        D: Fn(ImageCall) -> Option<(u32, u32)>,
        S: Fn(u32) -> bool,
    >(
        &mut self,
        cm: &mut CanvasManager<F, H, P>,
        cmd: &CanvasCmd,
        facts: &LoadFacts,
        images: &D,
        submit: &S,
    ) -> (result: Result<CanvasAnswer, Misrouted>)
        requires
            old(cm).wf(),
            forall|call: ImageCall| #[trigger] call_requires(images, (call,)),
            forall|id: u32| #[trigger] call_requires(submit, (id,)),
        ensures
            final(cm).wf(),
            match result {
                Ok(answer) => handled(
                    old(cm)@,
                    final(cm)@,
                    *cmd,
                    *facts,
                    *images,
                    *submit,
                    answer,
                ),
                Err(_) => *cmd is RecreateOnscreen && final(cm)@ == old(cm)@,
            },
    {
        match cmd {
            CanvasCmd::CreateOffscreen { width, height } => Ok(
                CanvasAnswer::Created(cm.create_offscreen(*width, *height)),
            ),
            CanvasCmd::RegisterOffscreen { id, width, height } => {
                let registered = cm.register_offscreen(*id, *width, *height);
                assert(crate::canvases::registered(
                    old(cm)@,
                    cm@,
                    *id,
                    *width,
                    *height,
                    registered,
                ));
                Ok(CanvasAnswer::Silent)
            },
            CanvasCmd::DestroyCanvas { id, textures, renderbuffers } => Ok(
                CanvasAnswer::Done(cm.destroy_canvas(*id, textures, renderbuffers)),
            ),
            CanvasCmd::RecreateOnscreen => Err(Misrouted),
            CanvasCmd::ResizeCanvas { id, w, h } => {
                let resized = cm.resize_canvas(*id, *w, *h, BackingSizeOwner::Content);
                assert(crate::canvases::resize_outcome(
                    old(cm)@,
                    cm@,
                    *id,
                    *w,
                    *h,
                    BackingSizeOwner::Content,
                    resized,
                ));
                Ok(CanvasAnswer::Silent)
            },
            CanvasCmd::MakeCurrent { id } => Ok(CanvasAnswer::Done(cm.make_current_needed(*id))),
            CanvasCmd::SwapBuffers { id, wait_for_vsync } => {
                let done = match cm.swap_buffers_no_restore(*id, *wait_for_vsync) {
                    Ok(damage) => {
                        assert(crate::presenting::swap_outcome(
                            old(cm)@,
                            cm@,
                            *id,
                            *wait_for_vsync,
                            Ok(damage),
                        ));
                        Ok(())
                    },
                    Err(e) => Err(e),
                };
                Ok(CanvasAnswer::Done(done))
            },
            CanvasCmd::GetInfo { id } => Ok(CanvasAnswer::Size(cm.get_canvas_size(*id))),
            CanvasCmd::LoadImage { image_id, image, priority } => Ok(
                self.load_image(cm, *image_id, image, *priority, facts, images, submit),
            ),
            CanvasCmd::DestroyImage { image_id } => {
                let mut ids: Vec<u32> = Vec::new();
                ids.push(*image_id);
                let told = self.destroy_images(cm, &ids, images);
                assert(ids@ =~= seq![*image_id]);
                Ok(CanvasAnswer::Cancelled(told))
            },
            CanvasCmd::DestroyImages { image_ids } => Ok(
                CanvasAnswer::Cancelled(self.destroy_images(cm, image_ids, images)),
            ),
            CanvasCmd::Other => Ok(CanvasAnswer::Silent),
        }
    }
}

proof fn lemma_bindings_compose(a: Mgr, b: Mgr, c: Mgr)
    requires
        crate::binding::only_binding_moved(a, Mgr { uploads: a.uploads, ..b }),
        crate::binding::only_binding_moved(b, Mgr { uploads: b.uploads, ..c }),
    ensures
        crate::binding::only_binding_moved(a, Mgr { uploads: a.uploads, ..c }),
{
    assert forall|id: u32| #[trigger] c.canvases.dom().contains(
        id,
    ) implies crate::binding::same_canvas(a.canvases[id], c.canvases[id]) by {
        assert(b.canvases.dom().contains(id));
    }
}

/// An image that is needed at once never waits: its answer is there when the command is done.
pub proof fn law_critical_images_never_wait<
    D: Fn(ImageCall) -> Option<(u32, u32)>,
    S: Fn(u32) -> bool,
>(
    before: Mgr,
    after: Mgr,
    image_id: u32,
    image: DecodedImage,
    facts: LoadFacts,
    images: D,
    submit: S,
    answer: CanvasAnswer,
)
    requires
        image_loaded(
            before,
            after,
            image_id,
            image,
            ImagePriority::Critical,
            facts,
            images,
            submit,
            answer,
        ),
    ensures
        answer is Image,
{
}

/// An image waits for a later frame only where a later frame can take it: without a working
/// upload thread, or larger than a frame may upload, it is uploaded at once.
pub proof fn law_waiting_is_never_in_vain<
    D: Fn(ImageCall) -> Option<(u32, u32)>,
    S: Fn(u32) -> bool,
>(
    before: Mgr,
    after: Mgr,
    healthy: bool,
    upload: DeferredUpload,
    images: D,
    submit: S,
    answer: CanvasAnswer,
)
    requires
        async_load(before, after, healthy, upload, images, submit, answer),
        !healthy || (before.uploads.budget matches Some(b) && upload.bytes > b.frame_bytes),
        !crate::uploads::reaches_queue(before.uploads, healthy, upload.bytes as nat),
    ensures
        answer is Image,
        after.uploads.deferred == before.uploads.deferred,
{
    reveal(crate::binding::made_current);
}

/// A command does what it is named for: a size is asked without changing anything, and told as
/// the drawing buffer's or else the surface's; a resize is content's own; a command that is not
/// this handler's changes nothing.
pub proof fn law_a_command_does_what_it_is_named_for<
    D: Fn(ImageCall) -> Option<(u32, u32)>,
    S: Fn(u32) -> bool,
>(
    before: Mgr,
    after: Mgr,
    cmd: CanvasCmd,
    facts: LoadFacts,
    images: D,
    submit: S,
    answer: CanvasAnswer,
)
    requires
        handled(before, after, cmd, facts, images, submit, answer),
    ensures
        cmd is Other ==> answer is Silent && after == before,
        cmd matches CanvasCmd::GetInfo { id } ==> after == before && answer is Size && {
            let size = answer->Size_0;
            &&& size is Ok == before.canvases.dom().contains(id)
            &&& size is Ok ==> match before.canvases[id].drawing_buffer {
                Some(db) => size->Ok_0.0 == db.width && size->Ok_0.1 == db.height,
                None => size->Ok_0.0 == before.canvases[id].physical_width && size->Ok_0.1
                    == before.canvases[id].physical_height,
            }
        },
        cmd matches CanvasCmd::MakeCurrent { id } ==> answer is Done && (answer->Done_0 is Ok
            ==> crate::binding::serving(after.bound) == Some(id)),
        cmd matches CanvasCmd::ResizeCanvas { id, w, h } ==> answer is Silent && exists|
            result: Result<(), CanvasError>,
        | #[trigger]
            crate::canvases::resize_outcome(
                before,
                after,
                id,
                w,
                h,
                BackingSizeOwner::Content,
                result,
            ),
        cmd matches CanvasCmd::CreateOffscreen { width, height } ==> answer is Created && (
        answer->Created_0 is Ok ==> answer->Created_0->Ok_0 == before.next_canvas_id),
        !(cmd is RecreateOnscreen),
{
    reveal(crate::binding::made_current);
}

/// Whoever waits for an image that is destroyed is told, and nobody else; the image is then
/// waited for no more, and marked so that its upload is discarded.
pub proof fn law_who_is_told_of_a_destroyed_image(l: crate::uploads::Ledger, id: u32)
    ensures
        l.awaited.contains(id as u64) ==> waiters_told(l, seq![id]) == seq![id],
        !l.awaited.contains(id as u64) ==> waiters_told(l, seq![id]).len() == 0,
        l.awaited.contains(id as u64) ==> cancelled_all(l, seq![id]).cancelled.contains(id as u64),
        !cancelled_all(l, seq![id]).awaited.contains(id as u64),
        !l.awaited.contains(id as u64) ==> cancelled_all(l, seq![id]) == l,
{
    let none = seq![id].drop_last();
    assert(none =~= Seq::<u32>::empty());
    assert(cancelled_all(l, none) == l);
    assert(waiters_told(l, none) =~= Seq::<u32>::empty());
    assert(seq![id].last() == id);
    assert(Seq::<u32>::empty().push(id) =~= seq![id]);
}

/// An image goes by its kind: a hardware buffer to where those are imported, a compressed image
/// to its own check, and decoded pixels that are critical are uploaded at once.
pub proof fn law_an_image_goes_by_its_kind<
    D: Fn(ImageCall) -> Option<(u32, u32)>,
    S: Fn(u32) -> bool,
>(
    before: Mgr,
    after: Mgr,
    image_id: u32,
    image: DecodedImage,
    priority: ImagePriority,
    facts: LoadFacts,
    images: D,
    submit: S,
    answer: CanvasAnswer,
    size: (u32, u32),
)
    requires
        image_loaded(before, after, image_id, image, priority, facts, images, submit, answer),
    ensures
        image is HardwareBuffer && answer == CanvasAnswer::Image(Ok(size)) ==> call_ensures(
            images,
            (ImageCall::LoadHardwareBuffer { image_id },),
            Some(size),
        ),
        image is Rgba && priority is Critical && answer == CanvasAnswer::Image(Ok(size))
            ==> call_ensures(images, (ImageCall::LoadShared { image_id },), Some(size)),
        image is HardwareBuffer || image is Compressed || priority is Critical ==> !(
        answer is Pending),
        image matches DecodedImage::Compressed(compressed) ==> compressed.width as nat
            * compressed.height as nat > facts.max_image_pixels ==> answer == CanvasAnswer::Image(
            Err::<(u32, u32), ImageError>(ImageError::OutOfMemory),
        ) && after == before,
{
}

/// A canvas that a command makes has the width and the height that the command names, and one
/// that it swaps waits for the display exactly if the command says so. Those who wait for an
/// image that a command destroys are told.
pub proof fn law_a_command_is_carried_out_as_given<
    D: Fn(ImageCall) -> Option<(u32, u32)>,
    S: Fn(u32) -> bool,
>(
    before: Mgr,
    after: Mgr,
    cmd: CanvasCmd,
    facts: LoadFacts,
    images: D,
    submit: S,
    answer: CanvasAnswer,
)
    requires
        handled(before, after, cmd, facts, images, submit, answer),
    ensures
        cmd matches CanvasCmd::CreateOffscreen { width, height } ==> answer is Created
            && answer->Created_0 is Ok && !before.canvases.dom().contains(before.next_canvas_id)
            ==> after.canvases[before.next_canvas_id].physical_width == width
            && after.canvases[before.next_canvas_id].physical_height == height,
        cmd matches CanvasCmd::SwapBuffers { id, wait_for_vsync } ==> answer is Done
            && answer->Done_0 is Ok ==> after.swap_interval == if wait_for_vsync {
            1i32
        } else {
            0i32
        },
        cmd matches CanvasCmd::DestroyImage { image_id } ==> answer is Cancelled && (
        before.uploads.awaited.contains(image_id as u64) ==> answer->Cancelled_0@.contains(
            image_id,
        )) && !after.uploads.awaited.contains(image_id as u64),
        cmd matches CanvasCmd::RegisterOffscreen { id, width, height } ==> answer is Silent
            && exists|result: Result<(), CanvasError>| #[trigger]
            crate::canvases::registered(before, after, id, width, height, result),
        cmd matches CanvasCmd::DestroyCanvas { id, textures, renderbuffers } ==> answer is Done && (
        id == 1 ==> answer->Done_0 is Err) && (id != 1 ==> answer->Done_0 is Ok
            && !after.canvases.dom().contains(id)),
{
    match cmd {
        CanvasCmd::CreateOffscreen { width, height } => {
            if answer->Created_0 is Ok && !before.canvases.dom().contains(before.next_canvas_id) {
                crate::canvases::law_a_new_canvas_has_its_size(
                    crate::canvases::numbered(before),
                    after,
                    before.next_canvas_id,
                    width,
                    height,
                    0,
                );
            }
        },
        CanvasCmd::DestroyImage { image_id } => {
            law_who_is_told_of_a_destroyed_image(before.uploads, image_id);
            assert(seq![image_id][0] == image_id);
        },
        CanvasCmd::DestroyCanvas { id, textures, renderbuffers } => {
            crate::canvases::law_what_a_destroyed_canvas_takes_along(
                before,
                after,
                id,
                0,
                textures@,
                renderbuffers@,
                answer->Done_0,
            );
        },
        _ => {},
    }
}

/// Pixels that the upload thread did not take wait at the end of the queue, whole, and only
/// while the thread is healthy, a frame can ever take them and there is room; nothing else of
/// the session changes then. All others are uploaded before the load is answered.
pub proof fn law_pixels_that_were_not_taken<D: Fn(ImageCall) -> Option<(u32, u32)>>(
    tried: Mgr,
    after: Mgr,
    healthy: bool,
    upload: DeferredUpload,
    images: D,
    answer: CanvasAnswer,
)
    requires
        rejected_load(tried, after, healthy, upload, images, answer),
    ensures
        answer is Pending || answer is Image,
        answer is Pending ==> healthy && tried.uploads.deferred.len() < 256
            && after.uploads.deferred.len() == tried.uploads.deferred.len() + 1
            && after.uploads.deferred.last() == upload,
        answer is Pending ==> (tried.uploads.budget matches Some(b) && upload.bytes
            <= b.frame_bytes),
        answer is Pending ==> after.gl == tried.gl && after.egl == tried.egl && after.canvases
            == tried.canvases && after.uploads.pending == tried.uploads.pending,
        !healthy || tried.uploads.budget is None ==> answer is Image,
{
}

} // verus!
