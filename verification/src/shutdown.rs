//! Taking a whole session down, with proof that its native targets are free.
use vstd::prelude::*;

use crate::egl_device::EglCall;
use crate::egl_device::EglContextHandle;
use crate::egl_setup::EglError;
use crate::gl_device::Code;
use crate::gl_device::GlCall;
use crate::manager::CanvasManager;
use crate::manager::Flags;
use crate::manager::Mgr;
use crate::manager::Preserved;
use crate::manager::Window;
use crate::manager::ONSCREEN;
use crate::painters::PaintCall;

verus! {

/// The names of the objects that content still has.
pub struct LiveObjects {
    pub programs: Vec<u32>,
    pub shaders: Vec<u32>,
    pub buffers: Vec<u32>,
    pub textures: Vec<u32>,
    pub framebuffers: Vec<u32>,
    pub renderbuffers: Vec<u32>,
}

/// The display is as far up as it was, holds no target that it did not hold, and the
/// session has come to nothing new.
pub open spec fn closing(before: Mgr, after: Mgr) -> bool {
    &&& after.egl.up == before.egl.up
    &&& after.egl.terminated == before.egl.terminated
    &&& crate::install::within(after.egl.windows, before.egl.windows)
    &&& after.flags == before.flags
    &&& after.egl.uploads == before.egl.uploads
    &&& after.uploads == before.uploads
    &&& after.root == before.root
    &&& after.egl.root == before.egl.root
    &&& crate::manager::refusals(after) >= crate::manager::refusals(before)
    &&& crate::egl_device::remembers(before.egl, after.egl)
    &&& after.paint.forgotten >= before.paint.forgotten
}

/// The display has no context, no surface and no native target.
pub open spec fn nothing_left(m: crate::egl_device::EglModel) -> bool {
    &&& m.windows == Map::<usize, u64>::empty()
    &&& m.surfaces == Set::<usize>::empty()
    &&& m.contexts == Set::<usize>::empty()
}

/// The driver has refused a call.
pub open spec fn has_refused(m: crate::egl_device::EglModel, call: EglCall) -> bool {
    exists|i: int| 0 <= i < m.refused.len() && (#[trigger] m.refused[i]).0 == call
}

/// A context that was put by is gone, unless the driver has refused to destroy it; and its
/// drawing buffer is deleted, under that context unless the driver has refused to make it
/// current.
pub open spec fn pair_disposed(m: Mgr, pair: Preserved) -> bool {
    pair.ctx matches Some(ctx) ==> {
        &&& !m.egl.contexts.contains(ctx) || has_refused(
            m.egl,
            EglCall::DestroyContext { context: ctx },
        )
        &&& pair.db matches Some(db) ==> {
            &&& m.unbuffered.contains((db.fbo, Some(ctx))) || has_refused(
                m.egl,
                crate::manager::current_call(EglContextHandle { ctx, surf: m.root.surf }),
            )
            &&& !m.gl.textures.contains(db.color_tex)
            &&& !m.gl.framebuffers.contains(db.fbo)
            &&& !m.gl.renderbuffers.contains(db.depth_stencil_rb)
        }
    }
}

/// A window surface that was not yet a canvas's was destroyed, unless the driver has refused
/// that, or refused to make the root current for it.
pub open spec fn candidate_let_go(
    m: Mgr,
    pending: crate::manager::PendingOnscreen,
    root: crate::egl_device::EglContextHandle,
) -> bool {
    ||| m.egl.surfaces_gone.contains(pending.surface)
    ||| has_refused(m.egl, EglCall::DestroySurface { surface: pending.surface })
    ||| has_refused(m.egl, crate::manager::current_call(root))
}

/// What the driver has refused and destroyed stays on the account.
pub open spec fn account_grows(
    before: crate::egl_device::EglModel,
    after: crate::egl_device::EglModel,
) -> bool {
    &&& crate::egl_device::remembers(before, after)
    &&& forall|s: usize|
        before.surfaces_gone.contains(s) ==> #[trigger] after.surfaces_gone.contains(s)
}

/// What was refused since a state was refused.
proof fn lemma_since_is_ever(
    before: crate::egl_device::EglModel,
    after: crate::egl_device::EglModel,
    call: EglCall,
)
    requires
        crate::egl_device::refused_since(before, after, call),
    ensures
        has_refused(after, call),
{
}

proof fn lemma_refusals_stay(
    before: crate::egl_device::EglModel,
    after: crate::egl_device::EglModel,
    call: EglCall,
)
    requires
        account_grows(before, after),
    ensures
        has_refused(before, call) ==> has_refused(after, call),
{
    if has_refused(before, call) {
        let i = choose|i: int|
            0 <= i < before.refused.len() && (#[trigger] before.refused[i]).0 == call;
        assert(after.refused[i].0 == call);
    }
}

/// The snapshots of a session are deleted and off the books.
pub open spec fn snapshots_deleted(before: Mgr, after: Mgr) -> bool {
    &&& after.snapshots.order.len() == 0
    &&& forall|i: int|
        0 <= i < before.snapshots.order.len() ==> !after.gl.textures.contains(
            before.snapshots.entries[#[trigger] before.snapshots.order[i]].tex,
        )
}

proof fn lemma_every_snapshot_is_drained(
    entries: Map<u32, crate::snapshots::SnapshotEntry>,
    order: Seq<u32>,
    i: int,
)
    requires
        0 <= i < order.len(),
    ensures
        entries[order[i]].cache_key is None ==> crate::snapshots::unkept(entries, order).contains(
            entries[order[i]].tex,
        ),
        entries[order[i]].cache_key is Some ==> crate::snapshots::kept(entries, order).contains(
            entries[order[i]],
        ),
    decreases order.len(),
{
    let unkept = crate::snapshots::unkept(entries, order.drop_last());
    let kept = crate::snapshots::kept(entries, order.drop_last());
    let last = entries[order.last()];
    if i < order.len() - 1 {
        lemma_every_snapshot_is_drained(entries, order.drop_last(), i);
        assert(order.drop_last()[i] == order[i]);
        let entry = entries[order[i]];
        if entry.cache_key is None {
            let k = unkept.index_of(entry.tex);
            assert(unkept.push(last.tex)[k] == entry.tex);
        } else {
            let k = kept.index_of(entry);
            assert(kept.push(last)[k] == entry);
        }
    } else {
        assert(unkept.push(last.tex).last() == last.tex);
        assert(kept.push(last).last() == last);
    }
}

/// Neither the onscreen canvas nor a surface that was not yet a canvas's holds its target
/// any more.
pub open spec fn windows_let_go(before: Mgr, after: Mgr) -> bool {
    &&& before.canvases.dom().contains(ONSCREEN) ==> (before.canvases[ONSCREEN].ctx.surf matches Some(
        s,
    ) ==> !after.egl.windows.dom().contains(s))
    &&& before.pending matches Some(pending) ==> !after.egl.windows.dom().contains(pending.surface)
}

/// The surface and the context of every offscreen canvas were destroyed, as far as the driver
/// agreed.
pub open spec fn offscreens_unmade(before: Mgr, after: crate::egl_device::EglModel) -> bool {
    forall|id: u32| #[trigger]
        before.canvases.dom().contains(id) && id != ONSCREEN ==> crate::egl_device::pair_unmade(
            before.egl,
            after,
            before.canvases[id].ctx,
        )
}

/// A display was taken down in its order: the uploads stopped before anything was destroyed,
/// the canvases went before the root, and the display last.
pub open spec fn in_due_order(before: Mgr, after: Mgr) -> bool {
    &&& after.egl.steps.len() > before.egl.steps.len()
    &&& after.egl.steps[before.egl.steps.len() as int] == crate::egl_device::Step::UploadsStopped
    &&& exists|bare: crate::egl_device::EglModel| #[trigger]
        offscreens_unmade(before, bare) && crate::egl_device::remembers(bare, after.egl) && (
        before.egl.up && before.egl.root is Some ==> crate::egl_device::pair_unmade(
            bare,
            after.egl,
            before.egl.root->0,
        ))
    &&& before.egl.up && !before.egl.terminated && after.egl.terminated
        ==> after.egl.steps.last() == crate::egl_device::Step::Terminated
}

proof fn lemma_offscreens_within(
    first: Mgr,
    before: Mgr,
    after: crate::egl_device::EglModel,
    last: crate::egl_device::EglModel,
)
    requires
        crate::egl_device::remembers(first.egl, before.egl),
        crate::egl_device::remembers(after, last),
        offscreens_unmade(before, after),
        forall|id: u32|
            id != ONSCREEN && #[trigger] first.canvases.dom().contains(id)
                ==> before.canvases.dom().contains(id) && before.canvases[id].ctx
                == first.canvases[id].ctx,
    ensures
        offscreens_unmade(first, last),
{
    assert forall|id: u32| #[trigger]
        first.canvases.dom().contains(id) && id != ONSCREEN implies crate::egl_device::pair_unmade(
        first.egl,
        last,
        first.canvases[id].ctx,
    ) by {
        assert(before.canvases.dom().contains(id));
        crate::egl_device::lemma_unmade_within(
            first.egl,
            before.egl,
            after,
            last,
            first.canvases[id].ctx,
        );
    }
}

/// One more canvas is gone, and was unmade; those that went before still are.
proof fn lemma_one_more_unmade(first: Mgr, before: Mgr, after: Mgr, gone: u32)
    requires
        crate::egl_device::remembers(first.egl, before.egl),
        crate::egl_device::remembers(before.egl, after.egl),
        forall|id: u32| #[trigger]
            before.canvases.dom().contains(id) ==> first.canvases[id].ctx
                == before.canvases[id].ctx,
        forall|id: u32| #[trigger]
            first.canvases.dom().contains(id) && id != ONSCREEN && !before.canvases.dom().contains(
                id,
            ) ==> crate::egl_device::pair_unmade(first.egl, before.egl, first.canvases[id].ctx),
        before.canvases.dom().contains(gone),
        gone != ONSCREEN ==> crate::egl_device::pair_unmade(
            before.egl,
            after.egl,
            before.canvases[gone].ctx,
        ),
        forall|id: u32|
            id != gone && #[trigger] before.canvases.dom().contains(id)
                ==> after.canvases.dom().contains(id),
    ensures
        forall|id: u32| #[trigger]
            first.canvases.dom().contains(id) && id != ONSCREEN && !after.canvases.dom().contains(
                id,
            ) ==> crate::egl_device::pair_unmade(first.egl, after.egl, first.canvases[id].ctx),
{
    assert forall|id: u32| #[trigger]
        first.canvases.dom().contains(id) && id != ONSCREEN && !after.canvases.dom().contains(
            id,
        ) implies crate::egl_device::pair_unmade(
        first.egl,
        after.egl,
        first.canvases[id].ctx,
    ) by {
        let ctx = first.canvases[id].ctx;
        if before.canvases.dom().contains(id) {
            assert(id == gone);
            crate::egl_device::lemma_unmade_within(
                first.egl,
                before.egl,
                after.egl,
                after.egl,
                ctx,
            );
        } else {
            crate::egl_device::lemma_unmade_within(
                first.egl,
                first.egl,
                before.egl,
                after.egl,
                ctx,
            );
        }
    }
}

/// What was dropped in place over one stretch and over the next was so over both, where the
/// canvases of the second are among those of the first.
proof fn lemma_dropped_on(first: Mgr, before: Mgr, after: Mgr)
    requires
        crate::manager::dropped_in_place(first, before),
        crate::manager::dropped_in_place(before, after),
        forall|id: u32| #[trigger]
            before.canvases.dom().contains(id) ==> first.canvases.dom().contains(id)
                && first.canvases[id].ctx == before.canvases[id].ctx,
    ensures
        crate::manager::dropped_in_place(first, after),
{
    assert forall|i: int| first.dropped.len() <= i < after.dropped.len() implies {
        let (id, context) = #[trigger] after.dropped[i];
        first.canvases.dom().contains(id) && context == Some(first.canvases[id].ctx.ctx)
    } by {
        if i < before.dropped.len() {
            assert(after.dropped[i] == before.dropped[i]);
        } else {
            assert(before.canvases.dom().contains(after.dropped[i].0));
        }
    }
}

impl<
    F: Fn(GlCall) -> u32,
    H: Fn(EglCall) -> Result<usize, EglError>,
    P: Fn(PaintCall) -> u64,
> CanvasManager<F, H, P> {
    /// Destroy every canvas; the onscreen one first, which content cannot destroy.
    fn destroy_canvases(&mut self)
        requires
            old(self).wf(),
        ensures
            final(self).wf(),
            closing(old(self)@, final(self)@),
            final(self)@.pending == old(self)@.pending,
            final(self)@.snapshots == old(self)@.snapshots,
            !final(self)@.canvases.dom().contains(ONSCREEN) ==> final(self)@.preserved
                == crate::install::put_by(old(self)@),
            final(self)@.window.installed is None && old(self)@.window.installed is Some ==> {
                &&& old(self)@.canvases.dom().contains(ONSCREEN)
                &&& old(self)@.canvases[ONSCREEN].ctx.surf matches Some(s)
                    ==> !final(self)@.egl.windows.dom().contains(s)
            },
            final(self)@.window.installed is Some ==> final(self)@.window.installed == old(
                self)@.window.installed,
            forall|id: u32| id != ONSCREEN ==> !#[trigger] final(self)@.canvases.dom().contains(id),
            forall|id: u32| #[trigger]
                old(self)@.canvases.dom().contains(id) ==> !final(self)@.contexts.dom().contains(
                    id,
                ),
            offscreens_unmade(old(self)@, final(self)@.egl),
            crate::manager::dropped_in_place(old(self)@, final(self)@),
            final(self)@.adrift == old(self)@.adrift,
    {
        if self.canvas(ONSCREEN).is_some() {
            let _ = self.destroy_onscreen_internal();
        }
        let ghost left = self@;
        proof {
            assert forall|id: u32| #[trigger] left.canvases.dom().contains(id) implies old(
                self)@.canvases.dom().contains(id) && old(self)@.canvases[id].ctx
                == left.canvases[id].ctx by {}
            assert forall|id: u32|
                id != ONSCREEN && #[trigger] old(self)@.canvases.dom().contains(id) implies
                left.canvases.dom().contains(id) && left.canvases[id].ctx == old(
                self)@.canvases[id].ctx by {
                if !left.canvases.dom().contains(id) {
                    assert(left.canvases == old(self)@.canvases.remove(ONSCREEN));
                    assert(false);
                }
            }
        }
        let ids = self.canvas_ids();
        let none: Vec<u32> = Vec::new();
        let mut i: usize = 0;
        assert forall|k: int| 0 <= k < ids@.len() implies self@.canvases.dom().contains(
            #[trigger] ids@[k],
        ) by {
            assert(ids@.to_set().contains(ids@[k]));
        }
        while i < ids.len()
            invariant
                i <= ids@.len(),
                self.wf(),
                closing(left, self@),
                self@.pending == left.pending,
                self@.snapshots == left.snapshots,
                self@.preserved == left.preserved,
                self@.canvases.dom().contains(ONSCREEN) == left.canvases.dom().contains(ONSCREEN),
                self@.window.installed == left.window.installed,
                ids@.to_set() == left.canvases.dom(),
                ids@.no_duplicates(),
                forall|k: int|
                    i <= k < ids@.len() ==> self@.canvases.dom().contains(#[trigger] ids@[k]),
                forall|id: u32| #[trigger]
                    self@.canvases.dom().contains(id) ==> left.canvases.dom().contains(id),
                forall|id: u32, k: int|
                    #![trigger self@.canvases.dom().contains(id), ids@[k]]
                    self@.canvases.dom().contains(id) && id != ONSCREEN && 0 <= k < i ==> ids@[k]
                        != id,
                forall|id: u32| #[trigger]
                    self@.contexts.dom().contains(id) ==> left.contexts.dom().contains(id),
                forall|k: int|
                    0 <= k < i && ids@[k] != ONSCREEN ==> !self@.contexts.dom().contains(
                        #[trigger] ids@[k],
                    ),
                forall|id: u32| #[trigger]
                    self@.canvases.dom().contains(id) ==> left.canvases[id].ctx
                        == self@.canvases[id].ctx,
                forall|id: u32| #[trigger]
                    left.canvases.dom().contains(id) && id != ONSCREEN
                        && !self@.canvases.dom().contains(id) ==> crate::egl_device::pair_unmade(
                        left.egl,
                        self@.egl,
                        left.canvases[id].ctx,
                    ),
                crate::manager::dropped_in_place(left, self@),
                self@.adrift == left.adrift,
            decreases ids@.len() - i,
        {
            let ghost before = self@;
            let _ = self.destroy_canvas(ids[i], &none, &none);
            assert forall|id: u32| #[trigger] self@.canvases.dom().contains(id) implies
                before.canvases.dom().contains(id) && (id != ONSCREEN ==> id != ids@[i as int]) by {}
            proof {
                lemma_dropped_on(left, before, self@);
                lemma_one_more_unmade(left, before, self@, ids@[i as int]);
            }
            i = i + 1;
        }
        proof {
            lemma_dropped_on(old(self)@, left, self@);
            assert forall|id: u32| #[trigger]
                left.canvases.dom().contains(id) && id != ONSCREEN implies
                !self@.canvases.dom().contains(id) by {
                assert(ids@.to_set().contains(id));
                let k = choose|k: int| 0 <= k < ids@.len() && ids@[k] == id;
                assert(ids@[k] == id);
            }
            assert(offscreens_unmade(left, self@.egl));
            lemma_offscreens_within(old(self)@, left, self@.egl, self@.egl);
            assert forall|id: u32| id != ONSCREEN implies !#[trigger] self@.canvases.dom().contains(
                id,
            ) by {
                if self@.canvases.dom().contains(id) {
                    assert(ids@.to_set().contains(id));
                    let k = choose|k: int| 0 <= k < ids@.len() && ids@[k] == id;
                    assert(ids@[k] == id);
                }
            }
        }
    }
}

/// The programs or shaders of a list were deleted.
pub open spec fn code_deleted(
    names: Seq<u32>,
    code: crate::gl_device::Code,
    gone: Seq<(crate::gl_device::Code, u32)>,
) -> bool {
    forall|i: int| 0 <= i < names.len() ==> gone.contains((code, #[trigger] names[i]))
}

/// None of the names is left.
pub open spec fn gone(names: Seq<u32>, left: Set<u32>) -> bool {
    forall|i: int| 0 <= i < names.len() ==> !left.contains(#[trigger] names[i])
}

impl<
    F: Fn(GlCall) -> u32,
    H: Fn(EglCall) -> Result<usize, EglError>,
    P: Fn(PaintCall) -> u64,
> CanvasManager<F, H, P> {
    /// Delete framebuffers.
    fn delete_framebuffers(&mut self, names: &Vec<u32>)
        requires
            old(self).wf(),
        ensures
            final(self).wf(),
            final(self)@ == (Mgr { gl: final(self)@.gl, ..old(self)@ }),
            final(self)@.gl == (crate::gl_device::GlModel {
                framebuffers: final(self)@.gl.framebuffers,
                ..old(self)@.gl
            }),
            gone(names@, final(self)@.gl.framebuffers),
            final(self)@.gl.framebuffers.subset_of(old(self)@.gl.framebuffers),
    {
        let mut i: usize = 0;
        while i < names.len()
            invariant
                i <= names@.len(),
                self.wf(),
                self@ == (Mgr { gl: self@.gl, ..old(self)@ }),
                self@.gl == (crate::gl_device::GlModel {
                    framebuffers: self@.gl.framebuffers,
                    ..old(self)@.gl
                }),
                gone(names@.take(i as int), self@.gl.framebuffers),
                self@.gl.framebuffers.subset_of(old(self)@.gl.framebuffers),
            decreases names@.len() - i,
        {
            let _ = self.issue_gl(GlCall::DeleteFramebuffer { name: names[i] });
            assert(names@.take(i + 1) =~= names@.take(i as int).push(names@[i as int]));
            assert forall|k: int| 0 <= k < i + 1 implies !self@.gl.framebuffers.contains(
                #[trigger] names@.take(i + 1)[k],
            ) by {
                if k < i {
                    assert(names@.take(i as int)[k] == names@.take(i + 1)[k]);
                }
            }
            i = i + 1;
        }
        assert(names@.take(i as int) =~= names@);
    }

    /// Delete buffers.
    fn delete_buffers(&mut self, names: &Vec<u32>)
        requires
            old(self).wf(),
        ensures
            final(self).wf(),
            final(self)@ == (Mgr {
                gl: final(self)@.gl,
                adrift: final(self)@.adrift,
                ..old(self)@
            }),
            crate::manager::afloat(old(self)@) ==> final(self)@.adrift == old(self)@.adrift,
            final(self)@.gl == (crate::gl_device::GlModel {
                buffers: final(self)@.gl.buffers,
                ..old(self)@.gl
            }),
            gone(names@, final(self)@.gl.buffers),
    {
        let mut i: usize = 0;
        while i < names.len()
            invariant
                i <= names@.len(),
                self.wf(),
                self@ == (Mgr { gl: self@.gl, adrift: self@.adrift, ..old(self)@ }),
                crate::manager::afloat(old(self)@) ==> self@.adrift == old(self)@.adrift,
                self@.gl == (crate::gl_device::GlModel {
                    buffers: self@.gl.buffers,
                    ..old(self)@.gl
                }),
                gone(names@.take(i as int), self@.gl.buffers),
            decreases names@.len() - i,
        {
            let _ = self.issue_gl(GlCall::DeleteBuffer { name: names[i] });
            assert(names@.take(i + 1) =~= names@.take(i as int).push(names@[i as int]));
            assert forall|k: int| 0 <= k < i + 1 implies !self@.gl.buffers.contains(
                #[trigger] names@.take(i + 1)[k],
            ) by {
                if k < i {
                    assert(names@.take(i as int)[k] == names@.take(i + 1)[k]);
                }
            }
            i = i + 1;
        }
        assert(names@.take(i as int) =~= names@);
    }

    /// Delete programs or shaders.
    fn delete_code(&mut self, code: Code, names: &Vec<u32>)
        requires
            old(self).wf(),
        ensures
            final(self).wf(),
            final(self)@ == (Mgr {
                gl: final(self)@.gl,
                adrift: final(self)@.adrift,
                ..old(self)@
            }),
            crate::manager::afloat(old(self)@) ==> final(self)@.adrift == old(self)@.adrift,
            final(self)@.gl == (crate::gl_device::GlModel {
                code_gone: old(self)@.gl.code_gone + Seq::new(
                    names@.len(),
                    |i: int| (code, names@[i]),
                ),
                ..old(self)@.gl
            }),
    {
        let mut i: usize = 0;
        let ghost before = self@.gl.code_gone;
        assert(before =~= before + Seq::new(0, |i: int| (code, names@[i])));
        while i < names.len()
            invariant
                i <= names@.len(),
                self.wf(),
                before == old(self)@.gl.code_gone,
                self@ == (Mgr { gl: self@.gl, adrift: self@.adrift, ..old(self)@ }),
                crate::manager::afloat(old(self)@) ==> self@.adrift == old(self)@.adrift,
                self@.gl == (crate::gl_device::GlModel {
                    code_gone: before + Seq::new(i as nat, |i: int| (code, names@[i])),
                    ..old(self)@.gl
                }),
            decreases names@.len() - i,
        {
            let _ = self.issue_gl(GlCall::DeleteCode { code, name: names[i] });
            assert(self@.gl.code_gone =~= before + Seq::new(
                (i + 1) as nat,
                |i: int| (code, names@[i]),
            ));
            i = i + 1;
        }
    }

    /// Delete the programs, the shaders and the buffers of content.
    fn delete_shared(&mut self, objects: &LiveObjects)
        requires
            old(self).wf(),
        ensures
            final(self).wf(),
            final(self)@ == (Mgr {
                gl: final(self)@.gl,
                adrift: final(self)@.adrift,
                ..old(self)@
            }),
            crate::manager::afloat(old(self)@) ==> final(self)@.adrift == old(self)@.adrift,
            final(self)@.gl == (crate::gl_device::GlModel {
                buffers: final(self)@.gl.buffers,
                code_gone: final(self)@.gl.code_gone,
                ..old(self)@.gl
            }),
            gone(objects.buffers@, final(self)@.gl.buffers),
            code_deleted(objects.programs@, Code::Program, final(self)@.gl.code_gone),
            code_deleted(objects.shaders@, Code::Shader, final(self)@.gl.code_gone),
    {
        self.delete_code(Code::Program, &objects.programs);
        self.delete_code(Code::Shader, &objects.shaders);
        proof {
            let before = old(self)@.gl.code_gone;
            let programs = Seq::new(
                objects.programs@.len(),
                |i: int| (Code::Program, objects.programs@[i]),
            );
            let shaders = Seq::new(
                objects.shaders@.len(),
                |i: int| (Code::Shader, objects.shaders@[i]),
            );
            let after = self@.gl.code_gone;
            assert(after == before + programs + shaders);
            assert forall|i: int| 0 <= i < objects.programs@.len() implies after.contains(
                (Code::Program, #[trigger] objects.programs@[i]),
            ) by {
                assert(after[before.len() + i] == (Code::Program, objects.programs@[i]));
            }
            assert forall|i: int| 0 <= i < objects.shaders@.len() implies after.contains(
                (Code::Shader, #[trigger] objects.shaders@[i]),
            ) by {
                assert(after[before.len() + programs.len() + i] == (
                    Code::Shader,
                    objects.shaders@[i],
                ));
            }
        }
        self.delete_buffers(&objects.buffers);
    }

    /// Delete the textures of every snapshot, where a context is current; without one they
    /// are kept for the display's own end.
    fn delete_snapshots(&mut self, context_is_current: bool)
        requires
            old(self).wf(),
        ensures
            final(self).wf(),
            !context_is_current ==> final(self)@ == old(self)@,
            context_is_current ==> snapshots_deleted(old(self)@, final(self)@),
            final(self)@ == (Mgr {
                gl: final(self)@.gl,
                snapshots: final(self)@.snapshots,
                ..old(self)@
            }),
            final(self)@.gl.textures.subset_of(old(self)@.gl.textures),
            final(self)@.gl.renderbuffers.subset_of(old(self)@.gl.renderbuffers),
            final(self)@.gl.framebuffers == old(self)@.gl.framebuffers,
            final(self)@.gl.buffers == old(self)@.gl.buffers,
            final(self)@.gl.code_gone == old(self)@.gl.code_gone,
    {
        let drain = self.drain_snapshots(context_is_current);
        if context_is_current {
            let none: Vec<u32> = Vec::new();
            self.delete_objects(&drain.to_delete, &none);
            let mut kept: Vec<u32> = Vec::new();
            let mut i: usize = 0;
            while i < drain.to_cache.len()
                invariant
                    i <= drain.to_cache@.len(),
                    kept@.len() == i,
                    forall|k: int| 0 <= k < i ==> kept@[k] == (#[trigger] drain.to_cache@[k]).tex,
                decreases drain.to_cache@.len() - i,
            {
                kept.push(drain.to_cache[i].tex);
                i = i + 1;
            }
            self.delete_objects(&kept, &none);
            proof {
                let pool = old(self)@.snapshots;
                assert forall|k: int| 0 <= k < pool.order.len() implies !self@.gl.textures.contains(
                    pool.entries[#[trigger] pool.order[k]].tex,
                ) by {
                    lemma_every_snapshot_is_drained(pool.entries, pool.order, k);
                    let entry = pool.entries[pool.order[k]];
                    if entry.cache_key is None {
                        assert(drain.to_delete@.to_set().contains(entry.tex));
                    } else {
                        let j = drain.to_cache@.index_of(entry);
                        assert(drain.to_cache@[j] == entry);
                        assert(kept@[j] == entry.tex);
                        assert(kept@.to_set().contains(entry.tex));
                    }
                }
            }
        }
    }

    /// Delete the objects of content.
    fn delete_listed(&mut self, objects: &LiveObjects)
        requires
            old(self).wf(),
        ensures
            final(self).wf(),
            final(self)@ == (Mgr {
                gl: final(self)@.gl,
                adrift: final(self)@.adrift,
                ..old(self)@
            }),
            crate::manager::afloat(old(self)@) ==> final(self)@.adrift == old(self)@.adrift,
            gone(objects.textures@, final(self)@.gl.textures),
            gone(objects.framebuffers@, final(self)@.gl.framebuffers),
            gone(objects.renderbuffers@, final(self)@.gl.renderbuffers),
            gone(objects.buffers@, final(self)@.gl.buffers),
            code_deleted(objects.programs@, Code::Program, final(self)@.gl.code_gone),
            code_deleted(objects.shaders@, Code::Shader, final(self)@.gl.code_gone),
    {
        self.delete_shared(objects);
        self.delete_objects(&objects.textures, &objects.renderbuffers);
        proof {
            assert forall|i: int| 0 <= i < objects.textures@.len() implies
                !self@.gl.textures.contains(#[trigger] objects.textures@[i]) by {
                assert(objects.textures@.to_set().contains(objects.textures@[i]));
            }
            assert forall|i: int| 0 <= i < objects.renderbuffers@.len() implies
                !self@.gl.renderbuffers.contains(#[trigger] objects.renderbuffers@[i]) by {
                assert(objects.renderbuffers@.to_set().contains(objects.renderbuffers@[i]));
            }
        }
        self.delete_framebuffers(&objects.framebuffers);
    }

    /// Delete the framebuffers that copies and captures went through.
    fn delete_passages(&mut self, framebuffers: (u32, u32))
        requires
            old(self).wf(),
        ensures
            final(self).wf(),
            final(self)@ == (Mgr {
                gl: final(self)@.gl,
                copy_fbos: final(self)@.copy_fbos,
                ..old(self)@
            }),
            final(self)@.gl == (crate::gl_device::GlModel {
                framebuffers: final(self)@.gl.framebuffers,
                ..old(self)@.gl
            }),
            final(self)@.gl.framebuffers.subset_of(old(self)@.gl.framebuffers),
            framebuffers.0 != 0 ==> !final(self)@.gl.framebuffers.contains(framebuffers.0),
            framebuffers.1 != 0 ==> !final(self)@.gl.framebuffers.contains(framebuffers.1),
            old(self)@.copy_fbos.dom().contains(ONSCREEN) ==> !final(
                self)@.gl.framebuffers.contains(old(self)@.copy_fbos[ONSCREEN]),
    {
        if let Some(fbo) = self.forget_copy_fbo(ONSCREEN) {
            let _ = self.issue_gl(GlCall::DeleteFramebuffer { name: fbo });
        }
        if framebuffers.0 != 0 {
            let _ = self.issue_gl(GlCall::DeleteFramebuffer { name: framebuffers.0 });
        }
        if framebuffers.1 != 0 {
            let _ = self.issue_gl(GlCall::DeleteFramebuffer { name: framebuffers.1 });
        }
    }

    /// Delete what is left in the library.
    fn delete_everything(&mut self, objects: &LiveObjects, framebuffers: (u32, u32))
        requires
            old(self).wf(),
        ensures
            final(self).wf(),
            closing(old(self)@, final(self)@),
            final(self)@.pending == old(self)@.pending,
            final(self)@.window == old(self)@.window,
            final(self)@.preserved == old(self)@.preserved,
            final(self)@.canvases.dom() == old(self)@.canvases.dom(),
            gone(objects.textures@, final(self)@.gl.textures),
            gone(objects.framebuffers@, final(self)@.gl.framebuffers),
            gone(objects.renderbuffers@, final(self)@.gl.renderbuffers),
            gone(objects.buffers@, final(self)@.gl.buffers),
            code_deleted(objects.programs@, Code::Program, final(self)@.gl.code_gone),
            code_deleted(objects.shaders@, Code::Shader, final(self)@.gl.code_gone),
            framebuffers.0 != 0 ==> !final(self)@.gl.framebuffers.contains(framebuffers.0),
            framebuffers.1 != 0 ==> !final(self)@.gl.framebuffers.contains(framebuffers.1),
            final(self)@.contexts == old(self)@.contexts,
            snapshots_deleted(old(self)@, final(self)@) || crate::manager::refusals(final(self)@)
                > crate::manager::refusals(old(self)@),
            final(self)@.adrift == old(self)@.adrift || crate::manager::refusals(final(self)@)
                > crate::manager::refusals(old(self)@),
            final(self)@.dropped == old(self)@.dropped,
            final(self)@.paint.forgotten > old(self)@.paint.forgotten,
    {
        let current: bool = self.ensure_any_canvas_current().is_ok();
        let ghost bound = self@;
        self.delete_listed(objects);
        self.delete_passages(framebuffers);
        assert(gone(objects.framebuffers@, self@.gl.framebuffers));
        let ghost cleared = self@;
        assert(cleared.snapshots == old(self)@.snapshots);
        self.delete_snapshots(current);
        let _ = self.issue_paint(PaintCall::ForgetImages);
    }

    /// Delete the drawing buffer that was put by, and destroy its context.
    fn dispose_preserved(&mut self)
        requires
            old(self).wf(),
        ensures
            final(self).wf(),
            closing(old(self)@, final(self)@),
            final(self)@.egl.windows == old(self)@.egl.windows,
            final(self)@.pending == old(self)@.pending,
            final(self)@.window == old(self)@.window,
            final(self)@.preserved == (Preserved { ctx: None, db: None }),
            final(self)@.canvases == old(self)@.canvases,
            crate::onscreen::only_deleted(old(self)@.gl, final(self)@.gl),
            final(self)@.contexts == old(self)@.contexts,
            final(self)@.snapshots == old(self)@.snapshots,
            pair_disposed(final(self)@, old(self)@.preserved),
            account_grows(old(self)@.egl, final(self)@.egl),
            final(self)@.dropped == old(self)@.dropped,
            final(self)@.adrift == old(self)@.adrift,
    {
        let preserved = self.preserved();
        let root = self.root();
        self.set_preserved(Preserved { ctx: None, db: None });
        if let Some(ctx) = preserved.ctx {
            let ghost start = self@;
            match preserved.db {
                Some(db) => {
                    self.delete_under(ctx, db, false);
                    proof {
                        if !self@.unbuffered.contains((db.fbo, Some(ctx))) {
                            lemma_since_is_ever(
                                start.egl,
                                self@.egl,
                                crate::manager::current_call(
                                    EglContextHandle { ctx, surf: start.root.surf },
                                ),
                            );
                        }
                    }
                },
                None => {
                    let _ = self.visit(root);
                },
            }
            let ghost deleted = self@;
            let destroyed = self.destroy_context(ctx);
            assert(destroyed is Err ==> self@.egl.refused.last().0 == (EglCall::DestroyContext {
                context: ctx,
            }));
            proof {
                lemma_refusals_stay(
                    deleted.egl,
                    self@.egl,
                    crate::manager::current_call(EglContextHandle { ctx, surf: root.surf }),
                );
            }
        } else if let Some(db) = preserved.db {
            self.destroy_drawing_buffer(db);
        }
    }
}

impl<
    F: Fn(GlCall) -> u32,
    H: Fn(EglCall) -> Result<usize, EglError>,
    P: Fn(PaintCall) -> u64,
> CanvasManager<F, H, P> {
    /// Take down the display, and say whether the native targets are free.
    fn finish_shutdown(&mut self) -> (confirmed: bool)
        requires
            old(self).wf(),
        ensures
            final(self).wf(),
            !final(self)@.egl.up,
            old(self)@.egl.up ==> final(self)@.egl.root is None,
            final(self)@.pending is None,
            final(self)@.window.installed is None,
            confirmed == (final(self)@.egl.terminated || (old(self)@.pending is None && old(
                self)@.window.installed is None)),
            final(self)@.flags == (Flags {
                native_release_confirmed: confirmed,
                ..old(self)@.flags
            }),
            final(self)@.gl == old(self)@.gl,
            final(self)@.canvases == old(self)@.canvases,
            final(self)@.preserved == old(self)@.preserved,
            final(self)@.contexts == old(self)@.contexts,
            final(self)@.uploads == old(self)@.uploads,
            final(self)@.egl.uploads == old(self)@.egl.uploads,
            old(self)@.egl.up && !old(self)@.egl.terminated ==> {
                &&& final(self)@.egl.terminated ==> nothing_left(final(self)@.egl)
                &&& !final(self)@.egl.terminated ==> crate::install::within(
                    final(self)@.egl.windows,
                    old(self)@.egl.windows,
                )
            },
            old(self)@.egl.up && !final(self)@.egl.terminated
                ==> crate::egl_device::shutdown_refused(final(self)@.egl),
            final(self)@.egl.terminated ==> final(self)@.snapshots.order.len() == 0,
            old(self)@.snapshots.order.len() == 0 ==> final(self)@.snapshots.order.len() == 0,
            final(self)@.paint == old(self)@.paint,
            final(self)@.egl.contexts.subset_of(old(self)@.egl.contexts),
            account_grows(old(self)@.egl, final(self)@.egl),
            final(self)@.dropped == old(self)@.dropped,
            final(self)@.adrift == old(self)@.adrift,
            final(self)@.unbuffered == old(self)@.unbuffered,
            final(self)@.root == old(self)@.root,
            old(self)@.egl.up ==> (old(self)@.egl.root matches Some(root)
                ==> crate::egl_device::pair_unmade(old(self)@.egl, final(self)@.egl, root)),
            old(self)@.egl.up && !old(self)@.egl.terminated && final(self)@.egl.terminated
                ==> final(self)@.egl.steps.len() > 0 && final(self)@.egl.steps.last()
                == crate::egl_device::Step::Terminated,
    {
        let window = self.window();
        let released: bool = self.pending().is_none() && window.installed.is_none();
        let gone: bool = self.shutdown_display();
        if gone {
            self.abandon_snapshots();
        }
        let confirmed: bool = released || gone;
        let flags = self.flags();
        self.set_flags(Flags { native_release_confirmed: confirmed, ..flags });
        self.set_pending(None);
        self.set_window(Window { installed: None, ..window });
        confirmed
    }

    /// Take the whole session down, once. `objects` are those that its content still has.
    ///
    /// The uploads stop first, since they use the display; what lives in the library goes
    /// while a context is there; canvases go before the root, and the display last, whose
    /// end frees whatever the driver kept.
    ///
    /// `true` only if the native targets are free: every surface on them was destroyed, or
    /// the display is gone. With `false` the caller must keep the targets alive for good.
    pub fn destroy_all(&mut self, objects: &LiveObjects) -> (released: bool)
        requires
            old(self).wf(),
        ensures
            final(self).wf(),
            old(self)@.flags.teardown_complete ==> released == old(
                self)@.flags.native_release_confirmed && final(self)@ == old(self)@,
            !old(self)@.flags.teardown_complete ==> {
                &&& final(self)@.flags == (Flags {
                    teardown_complete: true,
                    native_release_confirmed: released,
                    ..old(self)@.flags
                })
                &&& !final(self)@.egl.up
                &&& old(self)@.egl.up ==> final(self)@.egl.root is None
                &&& final(self)@.paint.forgotten > old(self)@.paint.forgotten
                &&& in_due_order(old(self)@, final(self)@)
                &&& crate::manager::dropped_in_place(old(self)@, final(self)@)
                &&& final(self)@.adrift == old(self)@.adrift || crate::manager::refusals(
                    final(self)@,
                ) > crate::manager::refusals(old(self)@)
                &&& !final(self)@.egl.uploads
                &&& final(self)@.uploads.budget is None
                &&& final(self)@.preserved == (Preserved { ctx: None, db: None })
                &&& final(self)@.pending is None
                &&& final(self)@.window.installed is None
                &&& final(self)@.egl.terminated ==> released && final(
                    self)@.snapshots.order.len() == 0
                &&& snapshots_deleted(old(self)@, final(self)@) || crate::manager::refusals(
                    final(self)@,
                ) > crate::manager::refusals(old(self)@)
                &&& !final(self)@.canvases.dom().contains(ONSCREEN) ==> pair_disposed(
                    final(self)@,
                    crate::install::put_by(old(self)@),
                )
                &&& old(self)@.pending matches Some(pending) ==> candidate_let_go(
                    final(self)@,
                    pending,
                    old(self)@.root,
                )
                &&& old(self)@.egl.up && !released ==> crate::egl_device::shutdown_refused(
                    final(self)@.egl,
                )
                &&& forall|id: u32|
                    id != ONSCREEN ==> !#[trigger] final(self)@.canvases.dom().contains(id)
                &&& gone(objects.textures@, final(self)@.gl.textures)
                &&& gone(objects.framebuffers@, final(self)@.gl.framebuffers)
                &&& gone(objects.renderbuffers@, final(self)@.gl.renderbuffers)
                &&& gone(objects.buffers@, final(self)@.gl.buffers)
                &&& code_deleted(objects.programs@, Code::Program, final(self)@.gl.code_gone)
                &&& code_deleted(objects.shaders@, Code::Shader, final(self)@.gl.code_gone)
                &&& ({
                    let (blit, read) = old(self).snapshot_framebuffers();
                    &&& blit != 0 ==> !final(self)@.gl.framebuffers.contains(blit)
                    &&& read != 0 ==> !final(self)@.gl.framebuffers.contains(read)
                })
                &&& forall|id: u32| #[trigger]
                    old(self)@.canvases.dom().contains(id) ==> !final(
                        self)@.contexts.dom().contains(id)
                &&& old(self)@.egl.up && !old(self)@.egl.terminated && final(
                    self)@.egl.terminated ==> nothing_left(final(self)@.egl)
                &&& old(self)@.egl.up && !old(self)@.egl.terminated && released && (old(
                    self)@.canvases.dom().contains(ONSCREEN) ==> old(
                    self)@.window.installed is Some) ==> windows_let_go(old(self)@, final(self)@)
            },
    {
        let flags = self.flags();
        if flags.teardown_complete {
            return flags.native_release_confirmed;
        }
        let framebuffers = self.take_snapshot_framebuffers();
        self.set_flags(Flags { teardown_complete: true, ..flags });
        self.stop_uploads();
        self.ungate_uploads();
        let ghost quiet = self@;
        self.destroy_canvases();
        let ghost emptied = self@;
        self.delete_everything(objects, framebuffers);
        let ghost deleted = self@;
        let _ = self.cleanup_pending_onscreen();
        let ghost cleaned = self@;
        self.dispose_preserved();
        let ghost disposed = self@;
        let released = self.finish_shutdown();
        proof {
            lemma_offscreens_within(old(self)@, quiet, emptied.egl, disposed.egl);
            assert(self@.egl.steps[old(self)@.egl.steps.len() as int] == quiet.egl.steps.last());
            assert(crate::egl_device::remembers(disposed.egl, self@.egl));
            assert(in_due_order(old(self)@, self@));
            let kept = crate::install::put_by(old(self)@);
            if !self@.canvases.dom().contains(ONSCREEN) {
                assert(emptied.preserved == kept);
                assert(deleted.preserved == kept);
                assert(kept.ctx is Some ==> cleaned.preserved.ctx == kept.ctx);
                assert(kept.ctx is Some && kept.db is Some ==> cleaned.preserved.db == kept.db);
                assert(pair_disposed(disposed, kept));
                if kept.ctx is Some {
                    let call = EglCall::DestroyContext { context: kept.ctx->0 };
                    lemma_refusals_stay(disposed.egl, self@.egl, call);
                    lemma_refusals_stay(
                        disposed.egl,
                        self@.egl,
                        crate::manager::current_call(
                            EglContextHandle { ctx: kept.ctx->0, surf: disposed.root.surf },
                        ),
                    );
                }
                assert(pair_disposed(self@, kept));
            }
            if old(self)@.pending is Some {
                let pending = old(self)@.pending->0;
                let destroy = EglCall::DestroySurface { surface: pending.surface };
                let current = crate::manager::current_call(emptied.root);
                if cleaned.pending is None {
                    assert(cleaned.egl.surfaces_gone.last() == pending.surface);
                    assert(cleaned.egl.surfaces_gone.contains(pending.surface));
                } else {
                    let last = cleaned.egl.refused.len() - 1;
                    assert(cleaned.egl.refused[last].0 == destroy || cleaned.egl.refused[last].0
                        == current);
                }
                assert(candidate_let_go(cleaned, pending, emptied.root));
                lemma_refusals_stay(cleaned.egl, disposed.egl, destroy);
                lemma_refusals_stay(cleaned.egl, disposed.egl, current);
                lemma_refusals_stay(disposed.egl, self@.egl, destroy);
                lemma_refusals_stay(disposed.egl, self@.egl, current);
                assert(candidate_let_go(self@, pending, old(self)@.root));
            }
            if snapshots_deleted(emptied, deleted) {
                assert(snapshots_deleted(old(self)@, self@));
            }
            assert(snapshots_deleted(old(self)@, self@) || crate::manager::refusals(self@)
                > crate::manager::refusals(old(self)@));
        }
        released
    }
}

/// A session is taken down once, and says ever after what it said then. Once the display is
/// gone its targets are free; what content had is gone, and no canvas is left but one whose
/// surface the driver kept.
pub proof fn law_a_session_is_taken_down_once<
    F: Fn(GlCall) -> u32,
    H: Fn(EglCall) -> Result<usize, EglError>,
    P: Fn(PaintCall) -> u64,
>(objects: LiveObjects, released: bool, id: u32)
    ensures
        forall|m: &mut CanvasManager<F, H, P>|
            #[trigger] call_ensures(
                CanvasManager::<F, H, P>::destroy_all,
                (m, &objects),
                released,
            ) ==> {
                let before = (*m)@;
                let after = (*final(m))@;
                &&& before.flags.teardown_complete ==> after == before && released
                    == before.flags.native_release_confirmed
                &&& after.flags.teardown_complete
                &&& after.flags.native_release_confirmed == released
                &&& !before.flags.teardown_complete ==> {
                    &&& !after.egl.up
                    &&& !after.egl.uploads
                    &&& after.window.installed is None
                    &&& after.pending is None
                    &&& id != 1 ==> !after.canvases.dom().contains(id)
                    &&& after.egl.terminated ==> released
                    &&& objects.textures@.contains(id) ==> !after.gl.textures.contains(id)
                    &&& objects.framebuffers@.contains(id) ==> !after.gl.framebuffers.contains(id)
                    &&& objects.buffers@.contains(id) ==> !after.gl.buffers.contains(id)
                }
            },
{
}

} // verus!
