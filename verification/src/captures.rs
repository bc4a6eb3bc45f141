//! Snapshots of 2D canvases, and copies of textures into the ones that content has bound.
use vstd::prelude::*;

use crate::egl_device::EglCall;
use crate::egl_setup::EglError;
use crate::gl_device::GlCall;
use crate::gl_device::TextureCopy;
use crate::gl_device::TextureDestination;
use crate::manager::CanvasError;
use crate::manager::CanvasManager;
use crate::manager::Mgr;
use crate::painters::PaintCall;
use crate::painters::StaleState;
use crate::snapshots::Admission;
use crate::snapshots::CachedText;
use crate::snapshots::CopyError;
use crate::snapshots::DirectError;
use crate::snapshots::SnapshotEntry;
use crate::snapshots::SnapshotError;
use crate::snapshots::SnapshotRequest;
use crate::snapshots::Source2d;
use crate::snapshots::DIRECT_CANVAS2D_RESERVED_ID;

verus! {

/// What a finished capture has made stale.
pub open spec fn capture_stales() -> StaleState {
    StaleState { render_target: true, texture_binding: true, pixel_store: false }
}

/// What a copy makes stale.
pub open spec fn copy_stales() -> StaleState {
    StaleState { render_target: false, texture_binding: true, pixel_store: false }
}

/// A canvas's 2D context as the source of a capture.
pub open spec fn source_of(m: Mgr, id: u32) -> Option<Source2d> {
    if m.contexts.dom().contains(id) {
        Some(
            Source2d {
                width: m.contexts[id].width,
                height: m.contexts[id].height,
                fbo: m.contexts[id].fbo,
            },
        )
    } else {
        None
    }
}

/// Everything is as it was but what the library holds, what the 2D contexts were told, and
/// the books of copies and snapshots.
pub open spec fn only_copying_moved(before: Mgr, after: Mgr) -> bool {
    &&& crate::manager::same_frames(before, after)
    &&& crate::manager::same_session(before, after)
    &&& after.egl == before.egl
    &&& after.bound == before.bound
    &&& after.canvases == before.canvases
    &&& after.contexts == before.contexts
    &&& after.dirty == before.dirty
    &&& after.shadows == before.shadows
    &&& after.debt == before.debt
    &&& after.uploads == before.uploads
}

/// The 2D contexts after a canvas forgot a stale state and was flushed with the calls on the
/// library as far as `at`, and the contexts were told of a capture if one was made.
pub open spec fn told_of_capture(
    before: crate::painters::PaintModel,
    canvas_id: u32,
    at: crate::gl_device::Moment,
    made: bool,
) -> crate::painters::PaintModel {
    crate::painters::PaintModel {
        refreshed: before.refreshed.push((canvas_id, before.flushed.len())),
        flushed: before.flushed.push(canvas_id),
        submitted: before.submitted.push(at),
        stale: if made {
            before.stale.push(capture_stales())
        } else {
            before.stale
        },
        ..before
    }
}

/// With the canvas current, its drawing was submitted and the region captured, in that order:
/// at the submission neither the fence nor the copy had been asked for.
pub open spec fn capture_tried(
    bound: Mgr,
    after: Mgr,
    canvas_id: u32,
    r: SnapshotRequest,
    bytes: usize,
    result: Result<u32, SnapshotError>,
) -> bool {
    &&& only_copying_moved(bound, after)
    &&& after.copy_fbos == bound.copy_fbos
    &&& after.paint == told_of_capture(
        bound.paint,
        canvas_id,
        crate::gl_device::moment(bound.gl),
        result matches Ok(id) && id != 0,
    )
    &&& crate::manager::region_captured(
        bound,
        after,
        r,
        source_of(bound, canvas_id)->0,
        bytes,
        result,
    )
}

/// A capture was asked for. The answer is its identifier, or zero where there is none.
pub open spec fn capture_outcome(
    before: Mgr,
    after: Mgr,
    canvas_id: u32,
    r: SnapshotRequest,
    result: Result<u32, SnapshotError>,
) -> bool {
    match crate::snapshots::admission(
        before.snapshots,
        r,
        source_of(before, canvas_id),
        before.cfg.gles_major,
    ) {
        Admission::Refused => result == Ok::<u32, SnapshotError>(0) && after == before,
        Admission::TooLarge => result == Err::<u32, SnapshotError>(SnapshotError::TooLarge)
            && after == before,
        Admission::Admitted { bytes } => match result {
            Err(SnapshotError::MakeCurrent(e)) => crate::binding::made_current(
                before,
                after,
                canvas_id,
                Err(e),
            ),
            _ => exists|bound: Mgr| #[trigger]
                crate::binding::made_current(before, bound, canvas_id, Ok(())) && capture_tried(
                    bound,
                    after,
                    canvas_id,
                    r,
                    bytes,
                    result,
                ),
        },
    }
}

/// With the canvas current, a rectangle of a texture was copied to it.
pub open spec fn copied_to(
    bound: Mgr,
    after: Mgr,
    canvas_id: u32,
    copy: TextureCopy,
) -> bool {
    &&& only_copying_moved(bound, after)
    &&& after.snapshots == bound.snapshots
    &&& after.paint == (crate::painters::PaintModel {
        stale: bound.paint.stale.push(copy_stales()),
        ..bound.paint
    })
    &&& after.gl.copies == bound.gl.copies.push(copy)
    &&& after.gl.bindings == bound.gl.bindings
    &&& after.gl.textures == bound.gl.textures
    &&& after.gl.blits == bound.gl.blits
    &&& after.copy_fbos == bound.copy_fbos.insert(canvas_id, copy.framebuffer)
    &&& bound.copy_fbos.dom().contains(canvas_id) ==> copy.framebuffer
        == bound.copy_fbos[canvas_id]
}

/// The library had no framebuffer to give, and nothing else came of it.
pub open spec fn no_framebuffer(before: Mgr, after: Mgr) -> bool {
    after == (Mgr {
        gl: crate::gl_device::unmade(before.gl, GlCall::CreateFramebuffer),
        ..before
    })
}

/// A copy was asked for: `from` is its rectangle, and the framebuffer that it goes through is
/// the canvas's own.
pub open spec fn copy_outcome(
    before: Mgr,
    after: Mgr,
    canvas_id: u32,
    from: TextureCopy,
    result: Result<(), CopyError>,
) -> bool {
    match result {
        Ok(_) => exists|bound: Mgr| #[trigger]
            crate::binding::made_current(before, bound, canvas_id, Ok(())) && copied_to(
                bound,
                after,
                canvas_id,
                TextureCopy { framebuffer: after.copy_fbos[canvas_id], ..from },
            ),
        Err(CopyError::MakeCurrent(e)) => crate::binding::made_current(
            before,
            after,
            canvas_id,
            Err(e),
        ),
        Err(CopyError::CreateFramebuffer) => {
            &&& exists|bound: Mgr| #[trigger]
                crate::binding::made_current(before, bound, canvas_id, Ok(()))
                    && no_framebuffer(bound, after)
            &&& !before.copy_fbos.dom().contains(canvas_id)
        },
    }
}

/// The copy of a whole snapshot.
pub open spec fn whole(entry: SnapshotEntry, destination: TextureDestination) -> TextureCopy {
    TextureCopy {
        framebuffer: 0,
        source: entry.tex,
        source_x: 0,
        source_y: 0,
        width: entry.width as i32,
        height: entry.height as i32,
        destination,
    }
}

/// A snapshot was to be copied to a canvas. One that is not in the pool leaves no mark.
pub open spec fn snapshot_copy_outcome(
    before: Mgr,
    after: Mgr,
    canvas_id: u32,
    destination: TextureDestination,
    snapshot_id: u32,
    result: Result<bool, CopyError>,
) -> bool {
    if !before.snapshots.entries.dom().contains(snapshot_id) {
        result == Ok::<bool, CopyError>(false) && after == before
    } else {
        let from = whole(before.snapshots.entries[snapshot_id], destination);
        match result {
            Ok(found) => found && copy_outcome(before, after, canvas_id, from, Ok(())),
            Err(e) => copy_outcome(before, after, canvas_id, from, Err(e)),
        }
    }
}

/// The session without the reserved capture, whose texture is deleted.
pub open spec fn direct_freed(m: Mgr) -> Mgr {
    if m.snapshots.entries.dom().contains(DIRECT_CANVAS2D_RESERVED_ID) {
        Mgr {
            snapshots: crate::snapshots::without_snapshot(
                m.snapshots,
                DIRECT_CANVAS2D_RESERVED_ID,
            ),
            gl: crate::gl_device::GlModel {
                textures: m.gl.textures.remove(
                    m.snapshots.entries[DIRECT_CANVAS2D_RESERVED_ID].tex,
                ),
                ..m.gl
            },
            ..m
        }
    } else {
        m
    }
}

/// The request under the reserved identifier.
pub open spec fn reserved(region: SnapshotRequest) -> SnapshotRequest {
    SnapshotRequest { snapshot_id: DIRECT_CANVAS2D_RESERVED_ID, ..region }
}

/// A region of a 2D canvas was to be copied straight to another canvas.
pub open spec fn direct_outcome(
    before: Mgr,
    after: Mgr,
    canvas_id: u32,
    destination: TextureDestination,
    canvas_2d_id: u32,
    region: SnapshotRequest,
    result: Result<bool, DirectError>,
) -> bool {
    let clean = direct_freed(before);
    let r = reserved(region);
    match result {
        Err(DirectError::Capture(e)) => capture_outcome(clean, after, canvas_2d_id, r, Err(e)),
        Ok(false) => capture_outcome(clean, after, canvas_2d_id, r, Ok(0)),
        Err(DirectError::Copy(e)) => exists|held: Mgr| #[trigger]
            capture_outcome(clean, held, canvas_2d_id, r, Ok(DIRECT_CANVAS2D_RESERVED_ID))
                && copy_outcome(
                held,
                after,
                canvas_id,
                whole(held.snapshots.entries[DIRECT_CANVAS2D_RESERVED_ID], destination),
                Err(e),
            ),
        Ok(true) => exists|held: Mgr, done: Mgr|
            {
                &&& #[trigger] capture_outcome(
                    clean,
                    held,
                    canvas_2d_id,
                    r,
                    Ok(DIRECT_CANVAS2D_RESERVED_ID),
                )
                &&& #[trigger] copy_outcome(
                    held,
                    done,
                    canvas_id,
                    whole(held.snapshots.entries[DIRECT_CANVAS2D_RESERVED_ID], destination),
                    Ok(()),
                )
                &&& after == direct_freed(done)
            },
    }
}

impl<
    F: Fn(GlCall) -> u32,
    H: Fn(EglCall) -> Result<usize, EglError>,
    P: Fn(PaintCall) -> u64,
> CanvasManager<F, H, P> {
    /// Tell every 2D context what was changed behind its back.
    pub fn mark_all_2d_contexts_stale_bits(&mut self, stale: StaleState)
        requires
            old(self).wf(),
        ensures
            final(self).wf(),
            final(self)@ == (Mgr {
                paint: crate::painters::PaintModel {
                    stale: old(self)@.paint.stale.push(stale),
                    ..old(self)@.paint
                },
                ..old(self)@
            }),
    {
        let _ = self.issue_paint(PaintCall::MarkStale { stale });
    }

    /// Tell every 2D context that nothing that it knows of the library's state holds.
    pub fn mark_all_2d_contexts_stale(&mut self)
        requires
            old(self).wf(),
        ensures
            final(self).wf(),
            final(self)@ == (Mgr {
                paint: crate::painters::PaintModel {
                    stale: old(self)@.paint.stale.push(
                        StaleState {
                            render_target: true,
                            texture_binding: true,
                            pixel_store: true,
                        },
                    ),
                    ..old(self)@.paint
                },
                ..old(self)@
            }),
    {
        self.mark_all_2d_contexts_stale_bits(
            StaleState { render_target: true, texture_binding: true, pixel_store: true },
        );
    }

    /// Submit the drawing of the current canvas and capture a region of it.
    fn capture_current(
        &mut self,
        canvas_id: u32,
        r: SnapshotRequest,
        source: Source2d,
        bytes: usize,
    ) -> (result: Result<u32, SnapshotError>)
        requires
            old(self).wf(),
            source_of(old(self)@, canvas_id) == Some(source),
            crate::snapshots::admission(
                old(self)@.snapshots,
                r,
                Some(source),
                old(self)@.cfg.gles_major,
            ) == (Admission::Admitted { bytes }),
        ensures
            final(self).wf(),
            capture_tried(old(self)@, final(self)@, canvas_id, r, bytes, result),
    {
        let _ = self.issue_paint(PaintCall::ResetIfStale { canvas: canvas_id });
        let _ = self.issue_paint(PaintCall::Flush { canvas: canvas_id });
        let ghost flushed = self@;
        let result = self.capture_snapshot(r, source, bytes);
        let ghost taken = self@;
        assert(crate::manager::region_captured(flushed, taken, r, source, bytes, result));
        assert(crate::manager::region_captured(old(self)@, taken, r, source, bytes, result));
        match result {
            Ok(id) => {
                if id != 0 {
                    self.mark_all_2d_contexts_stale_bits(
                        StaleState {
                            render_target: true,
                            texture_binding: true,
                            pixel_store: false,
                        },
                    );
                }
            },
            Err(_) => {},
        }
        assert(self@.gl == taken.gl && self@.snapshots == taken.snapshots);
        assert(crate::manager::region_captured(old(self)@, self@, r, source, bytes, result));
        assert(self@.paint == told_of_capture(
            old(self)@.paint,
            canvas_id,
            crate::gl_device::moment(old(self)@.gl),
            result matches Ok(id) && id != 0,
        ));
        result
    }

    /// Capture a region of a 2D canvas under the caller's identifier.
    ///
    /// The answer is the identifier, or zero where nothing was captured: a region without
    /// area, one that is not all on the canvas, a canvas without a 2D context, a driver
    /// that cannot copy between framebuffers, or a pool that is full.
    pub fn snapshot_canvas2d_region_with_id(&mut self, canvas_id: u32, r: SnapshotRequest) -> (result:
        Result<u32, SnapshotError>)
        requires
            old(self).wf(),
        ensures
            final(self).wf(),
            capture_outcome(old(self)@, final(self)@, canvas_id, r, result),
    {
        let source = match self.context_2d(canvas_id) {
            None => None,
            Some(ctx) => Some(Source2d { width: ctx.width, height: ctx.height, fbo: ctx.fbo }),
        };
        assert(source == source_of(self@, canvas_id));
        let bytes: usize = match self.decide_snapshot(r, source) {
            Admission::Refused => {
                return Ok(0);
            },
            Admission::TooLarge => {
                return Err(SnapshotError::TooLarge);
            },
            Admission::Admitted { bytes } => bytes,
        };
        let source = match source {
            None => {
                return Ok(0);
            },
            Some(source) => source,
        };
        match self.make_current_needed(canvas_id) {
            Err(e) => {
                return Err(SnapshotError::MakeCurrent(e));
            },
            Ok(unit) => {
                assert(unit == ());
            },
        }
        let ghost bound = self@;
        assert(crate::binding::made_current(old(self)@, bound, canvas_id, Ok(())));
        assert(source_of(bound, canvas_id) == Some(source));
        let result = self.capture_current(canvas_id, r, source, bytes);
        assert(capture_tried(bound, self@, canvas_id, r, bytes, result));
        result
    }

    /// Copy a rectangle of a texture to the current canvas.
    pub(crate) fn copy_to_current(&mut self, canvas_id: u32, from: TextureCopy) -> (made: bool)
        requires
            old(self).wf(),
        ensures
            final(self).wf(),
            made ==> copied_to(
                old(self)@,
                final(self)@,
                canvas_id,
                TextureCopy { framebuffer: final(self)@.copy_fbos[canvas_id], ..from },
            ),
            !made ==> no_framebuffer(old(self)@, final(self)@) && !old(
                self)@.copy_fbos.dom().contains(canvas_id),
    {
        let framebuffer: u32 = match self.ensure_image_copy_fbo(canvas_id) {
            None => {
                return false;
            },
            Some(fbo) => fbo,
        };
        assert(self@.copy_fbos =~= old(self)@.copy_fbos.insert(canvas_id, framebuffer));
        let _ = self.issue_gl(GlCall::CopyTexture { copy: TextureCopy { framebuffer, ..from } });
        self.mark_all_2d_contexts_stale_bits(
            StaleState { render_target: false, texture_binding: true, pixel_store: false },
        );
        true
    }

    /// Copy a rectangle of a texture into the one that is bound on a canvas. The
    /// framebuffer of `from` is not read: the copy goes through the canvas's own.
    pub fn copy_texture_to_canvas(&mut self, canvas_id: u32, from: TextureCopy) -> (result: Result<
        (),
        CopyError,
    >)
        requires
            old(self).wf(),
        ensures
            final(self).wf(),
            copy_outcome(old(self)@, final(self)@, canvas_id, from, result),
            result is Ok ==> final(self)@.snapshots == old(self)@.snapshots,
    {
        match self.make_current_needed(canvas_id) {
            Err(e) => {
                return Err(CopyError::MakeCurrent(e));
            },
            Ok(unit) => {
                assert(unit == ());
            },
        }
        let ghost bound = self@;
        assert(crate::binding::made_current(old(self)@, bound, canvas_id, Ok(())));
        if self.copy_to_current(canvas_id, from) {
            Ok(())
        } else {
            Err(CopyError::CreateFramebuffer)
        }
    }

    /// Copy a snapshot into the texture that is bound on a canvas. The answer is whether
    /// the snapshot was there.
    pub fn tex_image_2d_from_canvas2d_snapshot(
        &mut self,
        canvas_id: u32,
        destination: TextureDestination,
        snapshot_id: u32,
    ) -> (result: Result<bool, CopyError>)
        requires
            old(self).wf(),
        ensures
            final(self).wf(),
            snapshot_copy_outcome(
                old(self)@,
                final(self)@,
                canvas_id,
                destination,
                snapshot_id,
                result,
            ),
            result is Ok ==> final(self)@.snapshots == old(self)@.snapshots,
    {
        let entry = match self.snapshot(snapshot_id) {
            None => {
                return Ok(false);
            },
            Some(entry) => entry,
        };
        let from = TextureCopy {
            framebuffer: 0,
            source: entry.tex,
            source_x: 0,
            source_y: 0,
            width: entry.width as i32,
            height: entry.height as i32,
            destination,
        };
        match self.copy_texture_to_canvas(canvas_id, from) {
            Err(e) => Err(e),
            Ok(unit) => {
                assert(unit == ());
                Ok(true)
            },
        }
    }

    /// Copy a snapshot into a part of the texture that is bound on a canvas.
    pub fn tex_sub_image_2d_from_canvas2d_snapshot(
        &mut self,
        canvas_id: u32,
        target: u32,
        level: i32,
        xoffset: i32,
        yoffset: i32,
        snapshot_id: u32,
    ) -> (result: Result<bool, CopyError>)
        requires
            old(self).wf(),
        ensures
            final(self).wf(),
            snapshot_copy_outcome(
                old(self)@,
                final(self)@,
                canvas_id,
                TextureDestination::SubImage { target, level, xoffset, yoffset },
                snapshot_id,
                result,
            ),
    {
        self.tex_image_2d_from_canvas2d_snapshot(
            canvas_id,
            TextureDestination::SubImage { target, level, xoffset, yoffset },
            snapshot_id,
        )
    }

    /// Copy a text image of the text cache, if there is one, into the texture that is bound
    /// on a canvas. The answer is whether there was one.
    pub fn tex_image_2d_from_text_cache(
        &mut self,
        canvas_id: u32,
        destination: TextureDestination,
        cached: Option<CachedText>,
    ) -> (result: Result<bool, CopyError>)
        requires
            old(self).wf(),
        ensures
            final(self).wf(),
            match cached {
                None => result == Ok::<bool, CopyError>(false) && final(self)@ == old(self)@,
                Some(text) => if text.texture == 0 {
                    result == Ok::<bool, CopyError>(false) && final(self)@ == old(self)@
                } else {
                    match result {
                        Ok(found) => found && copy_outcome(
                            old(self)@,
                            final(self)@,
                            canvas_id,
                            text_copy(text, destination),
                            Ok(()),
                        ),
                        Err(e) => copy_outcome(
                            old(self)@,
                            final(self)@,
                            canvas_id,
                            text_copy(text, destination),
                            Err(e),
                        ),
                    }
                },
            },
    {
        let text = match cached {
            None => {
                return Ok(false);
            },
            Some(text) => text,
        };
        if text.texture == 0 {
            return Ok(false);
        }
        let from = TextureCopy {
            framebuffer: 0,
            source: text.texture,
            source_x: 0,
            source_y: 0,
            width: text.width as i32,
            height: text.height as i32,
            destination,
        };
        match self.copy_texture_to_canvas(canvas_id, from) {
            Err(e) => Err(e),
            Ok(unit) => {
                assert(unit == ());
                Ok(true)
            },
        }
    }

    /// Take the reserved capture out of the pool and delete its texture.
    fn free_direct(&mut self)
        requires
            old(self).wf(),
        ensures
            final(self).wf(),
            final(self)@ == direct_freed(old(self)@),
    {
        if let Some(entry) = self.take_snapshot(DIRECT_CANVAS2D_RESERVED_ID) {
            let _ = self.issue_gl(GlCall::DeleteTexture { name: entry.tex });
        }
    }

    /// Copy a region of a 2D canvas straight into the texture that is bound on another
    /// canvas. The capture between the two stands in the pool for the length of this
    /// call. The answer is whether anything was copied.
    pub fn tex_image_2d_from_canvas2d_direct(
        &mut self,
        canvas_id: u32,
        destination: TextureDestination,
        canvas_2d_id: u32,
        region: SnapshotRequest,
    ) -> (result: Result<bool, DirectError>)
        requires
            old(self).wf(),
        ensures
            final(self).wf(),
            direct_outcome(
                old(self)@,
                final(self)@,
                canvas_id,
                destination,
                canvas_2d_id,
                region,
                result,
            ),
    {
        let r = SnapshotRequest { snapshot_id: DIRECT_CANVAS2D_RESERVED_ID, ..region };
        self.free_direct();
        let ghost clean = self@;
        let id: u32 = match self.snapshot_canvas2d_region_with_id(canvas_2d_id, r) {
            Err(e) => {
                return Err(DirectError::Capture(e));
            },
            Ok(id) => id,
        };
        if id == 0 {
            return Ok(false);
        }
        let ghost held = self@;
        proof {
            lemma_captured_under(clean, held, canvas_2d_id, r, id);
            assert(capture_outcome(
                clean,
                held,
                canvas_2d_id,
                reserved(region),
                Ok(DIRECT_CANVAS2D_RESERVED_ID),
            ));
        }
        match self.tex_image_2d_from_canvas2d_snapshot(canvas_id, destination, id) {
            Err(e) => {
                assert(copy_outcome(
                    held,
                    self@,
                    canvas_id,
                    whole(held.snapshots.entries[DIRECT_CANVAS2D_RESERVED_ID], destination),
                    Err(e),
                ));
                return Err(DirectError::Copy(e));
            },
            Ok(found) => {
                assert(found);
            },
        }
        let ghost done = self@;
        assert(copy_outcome(
            held,
            done,
            canvas_id,
            whole(held.snapshots.entries[DIRECT_CANVAS2D_RESERVED_ID], destination),
            Ok(()),
        ));
        self.free_direct();
        Ok(true)
    }

    /// As [`Self::tex_image_2d_from_canvas2d_direct`], into a part of the texture.
    pub fn tex_sub_image_2d_from_canvas2d_direct(
        &mut self,
        canvas_id: u32,
        target: u32,
        level: i32,
        xoffset: i32,
        yoffset: i32,
        canvas_2d_id: u32,
        region: SnapshotRequest,
    ) -> (result: Result<bool, DirectError>)
        requires
            old(self).wf(),
        ensures
            final(self).wf(),
            direct_outcome(
                old(self)@,
                final(self)@,
                canvas_id,
                TextureDestination::SubImage { target, level, xoffset, yoffset },
                canvas_2d_id,
                region,
                result,
            ),
    {
        self.tex_image_2d_from_canvas2d_direct(
            canvas_id,
            TextureDestination::SubImage { target, level, xoffset, yoffset },
            canvas_2d_id,
            region,
        )
    }

    /// Read a snapshot's pixels back. A snapshot that is not there, or that the driver
    /// cannot read, gives none.
    pub fn read_canvas2d_snapshot_pixels<ReadBack: Fn(u32, u32) -> Vec<u8>>(
        &mut self,
        snapshot_id: u32,
        read: &ReadBack,
    ) -> (result: Result<Vec<u8>, CopyError>)
        requires
            old(self).wf(),
            forall|w: u32, h: u32| #[trigger] call_requires(read, (w, h)),
        ensures
            final(self).wf(),
            readback_outcome(old(self)@, final(self)@, snapshot_id, *read, result),
            old(self).readback_framebuffer() != 0 ==> !(result matches Err(
                CopyError::CreateFramebuffer,
            )),
    {
        let entry = match self.snapshot(snapshot_id) {
            None => {
                return Ok(Vec::new());
            },
            Some(entry) => entry,
        };
        let ghost before = self@;
        match self.ensure_any_canvas_current() {
            Err(e) => {
                return Err(CopyError::MakeCurrent(e));
            },
            Ok(id) => {
                assert(crate::binding::any_current(before, self@, Ok::<u32, CanvasError>(id)));
            },
        }
        match self.read_snapshot(entry, read) {
            None => Err(CopyError::CreateFramebuffer),
            Some(pixels) => Ok(pixels),
        }
    }

    /// Delete the textures of a list.
    fn delete_textures(&mut self, names: &Vec<u32>)
        requires
            old(self).wf(),
        ensures
            final(self).wf(),
            final(self)@ == (Mgr {
                gl: crate::gl_device::GlModel {
                    textures: final(self)@.gl.textures,
                    ..old(self)@.gl
                },
                ..old(self)@
            }),
            final(self)@.gl.textures == old(self)@.gl.textures.difference(names@.to_set()),
    {
        let mut i: usize = 0;
        assert(names@.take(0).to_set() =~= Set::<u32>::empty());
        assert(self@.gl.textures =~= old(self)@.gl.textures.difference(names@.take(0).to_set()));
        while i < names.len()
            invariant
                i <= names@.len(),
                self.wf(),
                self@ == (Mgr {
                    gl: crate::gl_device::GlModel {
                        textures: self@.gl.textures,
                        ..old(self)@.gl
                    },
                    ..old(self)@
                }),
                self@.gl.textures == old(self)@.gl.textures.difference(
                    names@.take(i as int).to_set(),
                ),
            decreases names@.len() - i,
        {
            let _ = self.issue_gl(GlCall::DeleteTexture { name: names[i] });
            proof {
                let now = names@.take(i + 1);
                assert(now =~= names@.take(i as int).push(names@[i as int]));
                assert forall|x: u32| now.to_set().contains(x) <==> names@.take(
                    i as int,
                ).to_set().contains(x) || x == names@[i as int] by {
                    if names@.take(i as int).contains(x) {
                        let j = choose|j: int|
                            0 <= j < names@.take(i as int).len() && names@.take(i as int)[j] == x;
                        assert(now[j] == x);
                    }
                    if now.contains(x) {
                        let j = choose|j: int| 0 <= j < now.len() && now[j] == x;
                        if j < i {
                            assert(names@.take(i as int)[j] == x);
                        }
                    }
                    assert(now[i as int] == names@[i as int]);
                }
                assert(self@.gl.textures =~= old(self)@.gl.textures.difference(now.to_set()));
            }
            i = i + 1;
        }
        assert(names@.take(i as int) =~= names@);
    }

    /// Delete the textures of images that nothing draws with any longer.
    pub fn drain_pending_image_deletions(&mut self, unreferenced: &Vec<u32>)
        requires
            old(self).wf(),
        ensures
            final(self).wf(),
            final(self)@ == (Mgr {
                gl: crate::gl_device::GlModel {
                    textures: old(self)@.gl.textures.difference(unreferenced@.to_set()),
                    ..old(self)@.gl
                },
                ..old(self)@
            }),
    {
        self.delete_textures(unreferenced);
    }

    /// Empty the snapshot pool at the end of a frame: the textures of the snapshots are
    /// deleted, but for those that the text cache takes over, which are handed back.
    /// Where no context can be made current the pool is kept for a later frame.
    pub fn drain_canvas2d_snapshots(&mut self) -> (to_cache: Vec<SnapshotEntry>)
        requires
            old(self).wf(),
        ensures
            final(self).wf(),
            drain_outcome(old(self)@, final(self)@, to_cache@),
    {
        let ghost before = self@;
        let current: bool = match self.ensure_any_canvas_current() {
            Ok(id) => {
                assert(crate::binding::any_current(before, self@, Ok::<u32, CanvasError>(id)));
                true
            },
            Err(e) => {
                assert(crate::binding::any_current(before, self@, Err::<u32, CanvasError>(e)));
                false
            },
        };
        let ghost bound = self@;
        let drain = self.drain_snapshots(current);
        self.delete_textures(&drain.to_delete);
        proof {
            if !current {
                assert(drain.to_delete@.to_set() =~= Set::<u32>::empty());
                assert(self@.gl.textures =~= bound.gl.textures);
            }
        }
        drain.to_cache
    }
}

/// A finished capture stands in the pool under its identifier.
proof fn lemma_captured_under(before: Mgr, after: Mgr, canvas_id: u32, r: SnapshotRequest, id: u32)
    requires
        capture_outcome(before, after, canvas_id, r, Ok(id)),
        id != 0,
    ensures
        id == r.snapshot_id,
        after.snapshots.entries.dom().contains(id),
{
}

/// The copy of a whole text image.
pub open spec fn text_copy(text: CachedText, destination: TextureDestination) -> TextureCopy {
    TextureCopy {
        framebuffer: 0,
        source: text.texture,
        source_x: 0,
        source_y: 0,
        width: text.width as i32,
        height: text.height as i32,
        destination,
    }
}

/// A snapshot was to be read back.
pub open spec fn readback_outcome<ReadBack: Fn(u32, u32) -> Vec<u8>>(
    before: Mgr,
    after: Mgr,
    snapshot_id: u32,
    read: ReadBack,
    result: Result<Vec<u8>, CopyError>,
) -> bool {
    if !before.snapshots.entries.dom().contains(snapshot_id) {
        result matches Ok(pixels) && pixels@.len() == 0 && after == before
    } else {
        let entry = before.snapshots.entries[snapshot_id];
        match result {
            Err(CopyError::MakeCurrent(e)) => crate::binding::any_current(
                before,
                after,
                Err::<u32, CanvasError>(e),
            ),
            Err(CopyError::CreateFramebuffer) => exists|bound: Mgr, id: u32| #[trigger]
                crate::binding::any_current(before, bound, Ok::<u32, CanvasError>(id))
                    && no_framebuffer(bound, after),
            Ok(pixels) => exists|bound: Mgr, id: u32|
                {
                    &&& #[trigger] crate::binding::any_current(
                        before,
                        bound,
                        Ok::<u32, CanvasError>(id),
                    )
                    &&& after == (Mgr { gl: after.gl, ..bound })
                    &&& crate::snapshots::pixels_read(
                        bound.gl,
                        after.gl,
                        entry,
                        read,
                        Some(pixels),
                    )
                },
        }
    }
}

/// The pool was emptied, or kept because nothing could be made current.
pub open spec fn drain_outcome(before: Mgr, after: Mgr, to_cache: Seq<SnapshotEntry>) -> bool {
    ||| {
        &&& exists|bound: Mgr, id: u32|
            {
                &&& #[trigger] crate::binding::any_current(
                    before,
                    bound,
                    Ok::<u32, CanvasError>(id),
                )
                &&& after.gl.textures == bound.gl.textures.difference(
                    crate::snapshots::unkept(
                        before.snapshots.entries,
                        before.snapshots.order,
                    ).to_set(),
                )
                &&& after.gl.bindings == bound.gl.bindings
                &&& only_copying_moved(bound, after)
                &&& after.paint == bound.paint
                &&& after.copy_fbos == bound.copy_fbos
            }
        &&& after.snapshots.order.len() == 0
        &&& to_cache == crate::snapshots::kept(before.snapshots.entries, before.snapshots.order)
    }
    ||| {
        &&& to_cache.len() == 0
        &&& exists|e: CanvasError| #[trigger]
            crate::binding::any_current(before, after, Err::<u32, CanvasError>(e))
    }
}

/// A copy straight from a canvas leaves the snapshots of the pool as they were, but for a
/// capture under the reserved identifier that an earlier failure had left.
pub proof fn law_a_direct_copy_leaves_no_snapshot(
    before: Mgr,
    after: Mgr,
    canvas_id: u32,
    destination: TextureDestination,
    canvas_2d_id: u32,
    region: SnapshotRequest,
)
    requires
        direct_outcome(before, after, canvas_id, destination, canvas_2d_id, region, Ok(true)),
        crate::snapshots::pool_wf(before.snapshots),
    ensures
        after.snapshots == (crate::snapshots::Pool {
            waits: after.snapshots.waits,
            ..crate::snapshots::without_snapshot(before.snapshots, DIRECT_CANVAS2D_RESERVED_ID)
        }),
{
    let clean = direct_freed(before);
    let r = reserved(region);
    let (held, done) = choose|held: Mgr, done: Mgr|
        {
            &&& #[trigger] capture_outcome(
                clean,
                held,
                canvas_2d_id,
                r,
                Ok(DIRECT_CANVAS2D_RESERVED_ID),
            )
            &&& #[trigger] copy_outcome(
                held,
                done,
                canvas_id,
                whole(held.snapshots.entries[DIRECT_CANVAS2D_RESERVED_ID], destination),
                Ok(()),
            )
            &&& after == direct_freed(done)
        };
    lemma_captured_under(clean, held, canvas_2d_id, r, DIRECT_CANVAS2D_RESERVED_ID);
    reveal(crate::binding::made_current);
    let others = clean.snapshots;
    let order = others.order.push(DIRECT_CANVAS2D_RESERVED_ID);
    assert(!others.order.contains(DIRECT_CANVAS2D_RESERVED_ID));
    assert(held.snapshots.order == order);
    assert(done.snapshots == held.snapshots);
    assert(order.index_of(DIRECT_CANVAS2D_RESERVED_ID) == others.order.len()) by {
        assert(order[others.order.len() as int] == DIRECT_CANVAS2D_RESERVED_ID);
        let i = order.index_of(DIRECT_CANVAS2D_RESERVED_ID);
        if i < others.order.len() {
            assert(others.order[i] == DIRECT_CANVAS2D_RESERVED_ID);
            assert(others.order.contains(DIRECT_CANVAS2D_RESERVED_ID));
        }
    }
    assert(after.snapshots.order =~= others.order);
    assert(after.snapshots.entries =~= others.entries);
}

/// A capture is never stale: the canvas's drawing was submitted last of all, and only then was
/// the fence put that the copy waited for, and the copy made.
pub proof fn law_a_capture_comes_behind_its_drawing(
    before: Mgr,
    after: Mgr,
    canvas_id: u32,
    r: SnapshotRequest,
    id: u32,
)
    requires
        capture_outcome(before, after, canvas_id, r, Ok(id)),
        id != 0,
    ensures
        after.paint.flushed.last() == canvas_id,
        after.paint.submitted.last().fences < after.gl.fenced.len(),
        after.gl.fenced.last().1 == after.paint.submitted.last().blits,
        after.gl.truthful ==> after.paint.submitted.last().blits < after.gl.blits.len(),
{
    reveal(crate::snapshots::finished_first);
}

/// What is captured of a 2D canvas is the region that was asked for, the right way up, out of
/// the framebuffer that the canvas paints on: row `j` of the capture is row `y + j` of the
/// canvas from its top. The capture is kept at the region's size, for four bytes a pixel, and
/// every 2D context is told that its render target and its texture are to be set anew.
pub proof fn law_a_capture_shows_its_canvas(
    before: Mgr,
    after: Mgr,
    canvas_id: u32,
    r: SnapshotRequest,
    id: u32,
    i: int,
    j: int,
)
    requires
        capture_outcome(before, after, canvas_id, r, Ok(id)),
        id != 0,
        after.gl.truthful,
        before.contexts[canvas_id].width <= i32::MAX,
        before.contexts[canvas_id].height <= i32::MAX,
        0 <= i < r.width,
        0 <= j < r.height,
    ensures
        id == r.snapshot_id,
        before.contexts.dom().contains(canvas_id),
        r.x >= 0,
        r.y >= 0,
        r.x + r.width <= before.contexts[canvas_id].width,
        r.y + r.height <= before.contexts[canvas_id].height,
        crate::snapshots::pixel_read(after.gl.blits.last(), i, j) == (
            r.x + i,
            before.contexts[canvas_id].height - 1 - (r.y + j),
        ),
        after.gl.blits.last().read_framebuffer == before.contexts[canvas_id].fbo,
        after.snapshots.entries.dom().contains(id),
        after.snapshots.entries[id].width == r.width,
        after.snapshots.entries[id].height == r.height,
        after.snapshots.entries[id].bytes == 4 * (r.width as nat * r.height as nat),
        after.paint.stale.last().render_target,
        after.paint.stale.last().texture_binding,
        !after.paint.stale.last().pixel_store,
        after.canvases.dom() =~= before.canvases.dom(),
{
    reveal(crate::binding::made_current);
    let source = before.contexts[canvas_id];
    let at = Source2d { width: source.width, height: source.height, fbo: source.fbo };
    crate::snapshots::law_what_is_admitted(before.snapshots, r, at, before.cfg.gles_major);
    assert(before.contexts.dom().contains(canvas_id)) by {
        crate::snapshots::law_what_is_admitted(before.snapshots, r, at, before.cfg.gles_major);
    }
    assert(source_of(before, canvas_id) == Some(at));
    let bytes = match crate::snapshots::admission(
        before.snapshots,
        r,
        Some(at),
        before.cfg.gles_major,
    ) {
        Admission::Admitted { bytes } => bytes,
        _ => 0usize,
    };
    let bound = choose|bound: Mgr| #[trigger]
        crate::binding::made_current(before, bound, canvas_id, Ok(())) && capture_tried(
            bound,
            after,
            canvas_id,
            r,
            bytes,
            Ok(id),
        );
    assert(bound.contexts == before.contexts);
    let fbo = choose|fbo: u32| #[trigger]
        crate::snapshots::captured(
            r,
            at,
            bytes,
            bound.gl,
            after.gl,
            bound.snapshots,
            after.snapshots,
            fbo,
            Ok(id),
        );
    crate::snapshots::law_a_capture_holds_its_region(
        r,
        at,
        bytes,
        bound.gl,
        after.gl,
        bound.snapshots,
        after.snapshots,
        fbo,
        id,
        i,
        j,
    );
}

/// A request that is not admitted changes nothing: it is answered with zero, or as too large
/// where it alone is over what the pool may hold.
pub proof fn law_a_refused_capture_changes_nothing(
    before: Mgr,
    after: Mgr,
    canvas_id: u32,
    r: SnapshotRequest,
    result: Result<u32, SnapshotError>,
)
    requires
        capture_outcome(before, after, canvas_id, r, result),
    ensures
        r.width == 0 || r.height == 0 || r.snapshot_id == 0 || before.cfg.gles_major < 3
            || !before.contexts.dom().contains(canvas_id)
            || before.snapshots.entries.dom().contains(r.snapshot_id) ==> after == before && (
        result == Ok::<u32, SnapshotError>(0) || result == Err::<u32, SnapshotError>(
            SnapshotError::TooLarge,
        )),
        r.snapshot_id != 0 && 4 * (r.width as nat * r.height as nat) > 67108864 ==> after == before
            && result == Err::<u32, SnapshotError>(SnapshotError::TooLarge),
{
    let at = Source2d { width: 0, height: 0, fbo: 0 };
    crate::snapshots::law_what_is_admitted(before.snapshots, r, at, before.cfg.gles_major);
    let pixels = r.width as nat * r.height as nat;
    assert(crate::snapshots::rgba_bytes(r.width as nat, r.height as nat) == pixels * 4);
    if r.width == 0 || r.height == 0 {
        assert(pixels == 0) by (nonlinear_arith)
            requires
                pixels == r.width as nat * r.height as nat,
                r.width == 0 || r.height == 0,
        ;
    }
}

/// A snapshot that goes into a texture goes there whole, from its first row and column, to
/// where it was sent; and a snapshot that is not there sends nothing.
pub proof fn law_a_snapshot_is_copied_whole(
    before: Mgr,
    after: Mgr,
    canvas_id: u32,
    destination: TextureDestination,
    snapshot_id: u32,
    found: bool,
)
    requires
        snapshot_copy_outcome(before, after, canvas_id, destination, snapshot_id, Ok(found)),
        before.snapshots.entries[snapshot_id].width <= i32::MAX,
        before.snapshots.entries[snapshot_id].height <= i32::MAX,
    ensures
        found == before.snapshots.entries.dom().contains(snapshot_id),
        !found ==> after == before,
        found ==> {
            let copy = after.gl.copies.last();
            let entry = before.snapshots.entries[snapshot_id];
            &&& after.gl.copies.len() == before.gl.copies.len() + 1
            &&& copy.source == entry.tex
            &&& copy.source_x == 0 && copy.source_y == 0
            &&& copy.width == entry.width && copy.height == entry.height
            &&& copy.destination == destination
            &&& after.snapshots == before.snapshots
            &&& after.paint.stale.last().texture_binding
            &&& crate::binding::serving(after.bound) == Some(canvas_id)
        },
{
    reveal(crate::binding::made_current);
}

/// A text image goes into a texture whole, from its first row and column.
pub proof fn law_a_text_image_is_copied_whole(
    before: Mgr,
    after: Mgr,
    canvas_id: u32,
    destination: TextureDestination,
    text: CachedText,
)
    requires
        copy_outcome(before, after, canvas_id, text_copy(text, destination), Ok(())),
        text.width <= i32::MAX,
        text.height <= i32::MAX,
    ensures
        after.gl.copies.len() == before.gl.copies.len() + 1,
        after.gl.copies.last().source == text.texture,
        after.gl.copies.last().source_x == 0,
        after.gl.copies.last().source_y == 0,
        after.gl.copies.last().width == text.width,
        after.gl.copies.last().height == text.height,
        after.gl.copies.last().destination == destination,
{
    reveal(crate::binding::made_current);
}

/// A direct copy carries the region that was asked for, and all of it.
pub proof fn law_a_direct_copy_carries_its_region(
    before: Mgr,
    after: Mgr,
    canvas_id: u32,
    destination: TextureDestination,
    canvas_2d_id: u32,
    region: SnapshotRequest,
)
    requires
        direct_outcome(before, after, canvas_id, destination, canvas_2d_id, region, Ok(true)),
        before.contexts[canvas_2d_id].width <= i32::MAX,
        before.contexts[canvas_2d_id].height <= i32::MAX,
    ensures
        before.contexts.dom().contains(canvas_2d_id),
        region.width > 0 && region.height > 0,
        0 <= region.x && region.x + region.width <= before.contexts[canvas_2d_id].width,
        0 <= region.y && region.y + region.height <= before.contexts[canvas_2d_id].height,
        after.gl.copies.last().source_x == 0,
        after.gl.copies.last().source_y == 0,
        after.gl.copies.last().width == region.width,
        after.gl.copies.last().height == region.height,
        after.gl.copies.last().destination == destination,
{
    reveal(crate::binding::made_current);
    let clean = direct_freed(before);
    let r = reserved(region);
    let source = before.contexts[canvas_2d_id];
    let at = Source2d { width: source.width, height: source.height, fbo: source.fbo };
    crate::snapshots::law_what_is_admitted(clean.snapshots, r, at, clean.cfg.gles_major);
}

/// Once nothing that is known of the library's state holds, every 2D context sets all of it
/// anew.
pub proof fn law_what_a_stale_context_sets_anew<
    F: Fn(GlCall) -> u32,
    H: Fn(EglCall) -> Result<usize, EglError>,
    P: Fn(PaintCall) -> u64,
>(stale: StaleState)
    ensures
        forall|m: &mut CanvasManager<F, H, P>|
            #[trigger] call_ensures(
                CanvasManager::<F, H, P>::mark_all_2d_contexts_stale,
                (m,),
                (),
            ) ==> {
                let told = (*final(m))@.paint.stale.last();
                &&& told.render_target && told.texture_binding && told.pixel_store
                &&& (*final(m))@.paint.stale.len() == (*m)@.paint.stale.len() + 1
            },
        forall|m: &mut CanvasManager<F, H, P>|
            #[trigger] call_ensures(
                CanvasManager::<F, H, P>::mark_all_2d_contexts_stale_bits,
                (m, stale),
                (),
            ) ==> (*final(m))@.paint.stale.last() == stale,
{
}

/// The pixels of a snapshot are read at its own width and height; a snapshot that is not there
/// has none.
pub proof fn law_a_snapshot_is_read_at_its_size<ReadBack: Fn(u32, u32) -> Vec<u8>>(
    before: Mgr,
    after: Mgr,
    snapshot_id: u32,
    read: ReadBack,
    pixels: Vec<u8>,
)
    requires
        readback_outcome(before, after, snapshot_id, read, Ok(pixels)),
    ensures
        !before.snapshots.entries.dom().contains(snapshot_id) ==> pixels@.len() == 0 && after
            == before,
        before.snapshots.entries.dom().contains(snapshot_id) && after.gl.statuses.last() == 0x8CD5
            ==> call_ensures(
            read,
            (
                before.snapshots.entries[snapshot_id].width,
                before.snapshots.entries[snapshot_id].height,
            ),
            pixels,
        ),
        before.snapshots.entries.dom().contains(snapshot_id) && after.gl.statuses.last() != 0x8CD5
            ==> pixels@.len() == 0,
        after.gl.truthful && before.snapshots.entries.dom().contains(snapshot_id)
            ==> after.gl.textures == before.gl.textures,
        after.snapshots == before.snapshots,
{
    reveal(crate::binding::made_current);
}

} // verus!
