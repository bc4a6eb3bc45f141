//! Presenting the onscreen canvas: what is declared, copied, submitted and remembered.
use vstd::prelude::*;

use crate::damage::DamageEffect;
use crate::damage::ResolvedDamage;
use crate::egl_device::EglCall;
use crate::egl_setup::classify_egl_swap_failure;
use crate::egl_setup::EglError;
use crate::egl_setup::EglSwapFailureClass;
use crate::gl_device::GlCall;
use crate::manager::CanvasEntry;
use crate::manager::CanvasError;
use crate::manager::CanvasManager;
use crate::manager::Flags;
use crate::manager::Mgr;
use crate::painters::PaintCall;
use crate::present::blit_plan;
use crate::present::build_present_plan;
use crate::present::commit_present_outcome;
use crate::present::repair_after_declaration_failure;
use crate::present::surface_damage_to_submit;
use crate::present::take_plan;
use crate::present::DamageRegion;
use crate::present::PresentCommit;
use crate::present::PresentDamagePlan;

verus! {

/// The canvas's drawing buffer has exactly its surface's size.
pub open spec fn buffer_fits(entry: CanvasEntry) -> bool {
    entry.drawing_buffer matches Some(db) && db.width == entry.physical_width && db.height
        == entry.physical_height
}

/// The size of a canvas's surface, as damage is cut to it.
pub open spec fn surface_size(entry: CanvasEntry) -> (i32, i32) {
    (entry.physical_width as i32, entry.physical_height as i32)
}

/// Nothing moved but what is current, and what the driver was asked and told.
pub open spec fn only_planning_moved(before: Mgr, after: Mgr) -> bool {
    &&& crate::manager::same_books(before, after)
    &&& crate::manager::same_frames(before, after)
    &&& crate::manager::same_session(before, after)
    &&& crate::manager::same_objects(before.egl, after.egl)
    &&& after.egl.swaps == before.egl.swaps
    &&& after.egl.intervals == before.egl.intervals
    &&& after.gl.blits == before.gl.blits
    &&& after.gl.truthful ==> before.gl.truthful
    &&& crate::painting::canvases_stay(before.canvases, after.canvases)
}

/// What the repair of a frame comes to: the age of the back buffer is asked for where the
/// driver tells it, and what is left to repair is declared. A declaration that the driver
/// does not take leaves a partial repair only where aged contents are kept anyway.
pub open spec fn repair_settled(
    before: Mgr,
    after: Mgr,
    entry: CanvasEntry,
    plan: crate::present::Plan,
) -> bool {
    let surf = entry.ctx.surf->0;
    exists|age: i32|
        {
            let wanted = #[trigger] crate::present::planned_repair(
                plan.current,
                before.history,
                before.cfg.has_buffer_age,
                age as int,
                buffer_fits(entry),
                before.cfg.single_sample,
            );
            &&& after.egl.ages == (if before.cfg.has_buffer_age {
                before.egl.ages.push((surf, age))
            } else {
                before.egl.ages
            })
            &&& match wanted {
                crate::present::Region::Full => plan.repair == wanted && after.egl.declared
                    == before.egl.declared,
                crate::present::Region::Rects(rects) => {
                    ||| {
                        &&& before.cfg.declares_damage
                        &&& plan.repair == wanted
                        &&& after.egl.declared.len() == before.egl.declared.len() + 1
                        &&& after.egl.declared == before.egl.declared.push(
                            after.egl.declared.last(),
                        )
                        &&& after.egl.declared.last().0 == surf
                        &&& crate::damage::list_rects(after.egl.declared.last().1) == rects
                    }
                    ||| {
                        &&& !before.cfg.declares_damage || rects.len() == 0
                            || declaration_refused(before, after, surf, wanted)
                        &&& after.egl.declared == before.egl.declared
                        &&& plan.repair == (if before.cfg.has_ext_buffer_age {
                            wanted
                        } else {
                            crate::present::Region::Full
                        })
                    }
                },
            }
        }
}

/// The driver was asked to take a declaration of the region's rectangles, and refused.
pub open spec fn declaration_refused(
    before: Mgr,
    after: Mgr,
    surf: usize,
    region: crate::present::Region,
) -> bool {
    exists|list: crate::damage::RectList|
        region == crate::present::Region::Rects(#[trigger] crate::damage::list_rects(list))
            && crate::egl_device::refused_once(
            before.egl,
            after.egl,
            EglCall::DeclareDamage { surface: surf, rects: list },
        )
}

/// A swap is tried with what the frame has changed.
pub open spec fn submits(m: Mgr, current: crate::present::Region) -> bool {
    &&& m.cfg.submits_damage
    &&& !m.swap_damage_rejected
    &&& current matches crate::present::Region::Rects(rects) && rects.len() > 0
}

/// The driver was asked to swap with the region's rectangles, and refused.
pub open spec fn submission_refused(
    before: Mgr,
    after: Mgr,
    surf: usize,
    region: crate::present::Region,
) -> bool {
    exists|list: crate::damage::RectList|
        region == crate::present::Region::Rects(#[trigger] crate::damage::list_rects(list))
            && crate::egl_device::refused_once(
            before.egl,
            after.egl,
            EglCall::SwapWithDamage { surface: surf, rects: list },
        )
}

/// A plan was prepared for a canvas.
pub open spec fn prepared(before: Mgr, after: Mgr, id: u32, plan: crate::present::Plan) -> bool {
    let entry = before.canvases[id];
    if !before.canvases.dom().contains(id) || entry.ctx.surf is None {
        &&& plan.current is Full
        &&& plan.repair is Full
        &&& after == before
    } else {
        &&& plan.current == crate::present::frame_region(before.damage, surface_size(entry))
        &&& entry.bypass_drawing_buffer ==> plan.repair is Full && after == before
        &&& !entry.bypass_drawing_buffer ==> {
            ||| repair_settled(before, after, entry, plan)
            ||| {
                // The canvas could not be made current.
                &&& plan.repair is Full
                &&& after.egl.ages == before.egl.ages
                &&& after.egl.declared == before.egl.declared
                &&& after.egl.refused.len() > before.egl.refused.len()
            }
        }
    }
}

impl<
    F: Fn(GlCall) -> u32,
    H: Fn(EglCall) -> Result<usize, EglError>,
    P: Fn(PaintCall) -> u64,
> CanvasManager<F, H, P> {
    /// Declare what a plan repairs. That is done wherever the driver takes declarations and
    /// the repair is a list of rectangles that is not empty; it fails only where the driver
    /// refuses it.
    fn declare_repair_region(&mut self, surf: usize, repair: &DamageRegion) -> (declared: bool)
        requires
            old(self).wf(),
            repair.wf(),
        ensures
            final(self).wf(),
            final(self)@ == (Mgr { egl: final(self)@.egl, ..old(self)@ }),
            final(self)@.egl == (crate::egl_device::EglModel {
                declared: final(self)@.egl.declared,
                refused: final(self)@.egl.refused,
                ..old(self)@.egl
            }),
            !declared ==> final(self)@.egl.declared == old(self)@.egl.declared,
            !(old(self)@.cfg.declares_damage && (repair@ matches crate::present::Region::Rects(r)
                && r.len() > 0)) ==> !declared && final(self)@ == old(self)@,
            old(self)@.cfg.declares_damage && !declared ==> {
                ||| !(repair@ matches crate::present::Region::Rects(r) && r.len() > 0)
                ||| declaration_refused(old(self)@, final(self)@, surf, repair@)
            },
            declared ==> {
                let all = final(self)@.egl.declared;
                &&& old(self)@.cfg.declares_damage
                &&& all == old(self)@.egl.declared.push(all.last())
                &&& all.len() == old(self)@.egl.declared.len() + 1
                &&& all.last().0 == surf
                &&& repair@ == crate::present::Region::Rects(
                    crate::damage::list_rects(all.last().1),
                )
            },
    {
        if !self.cfg().declares_damage {
            return false;
        }
        match repair {
            DamageRegion::FullSurface => false,
            DamageRegion::Partial(rects) => {
                if rects.len() == 0 {
                    return false;
                }
                let list = rects.list();
                assert(repair@ == crate::present::Region::Rects(crate::damage::list_rects(list)));
                self.declare_damage(surf, list)
            },
        }
    }

    /// The region of a surface that the frame in flight has damaged.
    fn frame_damage(&mut self, surface: (i32, i32)) -> (region: DamageRegion)
        requires
            old(self).wf(),
        ensures
            final(self).wf(),
            final(self)@ == old(self)@,
            region.wf(),
            region@ == crate::present::frame_region(old(self)@.damage, surface),
    {
        let present = self.present_mut();
        present.current_damage_region(surface)
    }

    /// Plan the present of a frame whose back buffer has an age.
    fn plan_for_age(&mut self, current: DamageRegion, age: i32, db_matches: bool) -> (plan:
        PresentDamagePlan)
        requires
            old(self).wf(),
            current.wf(),
        ensures
            final(self).wf(),
            final(self)@ == old(self)@,
            plan.wf(),
            plan.current@ == current@,
            plan.repair@ == crate::present::planned_repair(
                current@,
                old(self)@.history,
                old(self)@.cfg.has_buffer_age,
                age as int,
                db_matches,
                old(self)@.cfg.single_sample,
            ),
    {
        let has_buffer_age: bool = self.cfg().has_buffer_age;
        let single_sample: bool = self.cfg().single_sample;
        let present = self.present_mut();
        build_present_plan(current, &present.history, has_buffer_age, age, db_matches, single_sample)
    }

    /// Settle what a frame repairs, with its canvas current.
    fn settle_repair(&mut self, entry: CanvasEntry, surf: usize, current: DamageRegion) -> (plan:
        PresentDamagePlan)
        requires
            old(self).wf(),
            current.wf(),
            entry.ctx.surf == Some(surf),
        ensures
            final(self).wf(),
            plan.wf(),
            plan.current@ == current@,
            only_planning_moved(old(self)@, final(self)@),
            repair_settled(old(self)@, final(self)@, entry, plan@),
    {
        let db_matches: bool = match entry.drawing_buffer {
            Some(db) => db.width == entry.physical_width && db.height == entry.physical_height,
            None => false,
        };
        let age: i32 = if self.cfg().has_buffer_age {
            self.buffer_age(surf)
        } else {
            0
        };
        let plan = self.plan_for_age(current, age, db_matches);
        let ghost wanted = plan.repair@;
        assert(wanted == crate::present::planned_repair(
            plan@.current,
            old(self)@.history,
            old(self)@.cfg.has_buffer_age,
            age as int,
            buffer_fits(entry),
            old(self)@.cfg.single_sample,
        ));
        assert(self@.canvases.dom() =~= old(self)@.canvases.dom());
        if let DamageRegion::FullSurface = plan.repair {
            return plan;
        }
        if self.declare_repair_region(surf, &plan.repair) {
            plan
        } else {
            let keeps: bool = self.cfg().has_ext_buffer_age;
            repair_after_declaration_failure(plan, keeps)
        }
    }

    /// Plan the present of a canvas and declare what it repairs.
    ///
    /// The canvas is made current before the driver is asked for the age of its back buffer
    /// or told a region. Whatever cannot be established leaves everything to repair.
    pub fn prepare_present_plan(&mut self, id: u32) -> (plan: PresentDamagePlan)
        requires
            old(self).wf(),
        ensures
            final(self).wf(),
            plan.wf(),
            only_planning_moved(old(self)@, final(self)@),
            prepared(old(self)@, final(self)@, id, plan@),
    {
        assert(self@.canvases.dom() =~= old(self)@.canvases.dom());
        let entry = match self.canvas(id) {
            None => {
                return PresentDamagePlan {
                    current: DamageRegion::FullSurface,
                    repair: DamageRegion::FullSurface,
                };
            },
            Some(entry) => entry,
        };
        let surf: usize = match entry.ctx.surf {
            None => {
                return PresentDamagePlan {
                    current: DamageRegion::FullSurface,
                    repair: DamageRegion::FullSurface,
                };
            },
            Some(surf) => surf,
        };
        let current = self.frame_damage((entry.physical_width as i32, entry.physical_height as i32));
        if entry.bypass_drawing_buffer {
            return PresentDamagePlan { current, repair: DamageRegion::FullSurface };
        }
        if let Err(e) = self.make_current_needed(id) {
            proof {
                reveal(crate::binding::made_current);
            }
            return PresentDamagePlan { current, repair: DamageRegion::FullSurface };
        }
        let ghost bound = self@;
        proof {
            reveal(crate::binding::made_current);
            assert(bound.egl.ages == old(self)@.egl.ages);
            assert(bound.egl.declared == old(self)@.egl.declared);
        }
        let plan = self.settle_repair(entry, surf, current);
        proof {
            assert(repair_settled(old(self)@, self@, entry, plan@));
        }
        plan
    }

    /// Declare what the frame in flight repairs, and keep the plan for its swap.
    pub fn declare_frame_damage(&mut self, id: u32)
        requires
            old(self).wf(),
        ensures
            final(self).wf(),
            final(self)@.plan matches Some((planned, plan)) && planned == id && prepared(
                old(self)@,
                Mgr { plan: old(self)@.plan, ..final(self)@ },
                id,
                plan,
            ),
            final(self)@.damage == old(self)@.damage,
            final(self)@.history == old(self)@.history,
    {
        let plan = self.prepare_present_plan(id);
        let ghost ready = self@;
        let present = self.present_mut();
        present.pending_plan = Some((id, plan));
        assert(Mgr { plan: old(self)@.plan, ..self@ } == ready);
    }

    /// Everything of the frame in flight has to be drawn again.
    pub fn mark_current_frame_requires_full_redraw(&mut self)
        requires
            old(self).wf(),
        ensures
            final(self).wf(),
            final(self)@ == (Mgr {
                damage: crate::damage::after_effect(old(self)@.damage, DamageEffect::FullSurface),
                ..old(self)@
            }),
    {
        self.add_damage(DamageEffect::FullSurface);
    }

    /// Part of the frame in flight has changed. A rectangle that is empty, or not on the
    /// window, changes nothing.
    pub fn stage_current_frame_partial_damage(
        &mut self,
        x: i32,
        y: i32,
        width: i32,
        height: i32,
        is_onscreen: bool,
    )
        requires
            old(self).wf(),
        ensures
            final(self).wf(),
            final(self)@ == (if is_onscreen {
                Mgr {
                    damage: crate::damage::after_effect(
                        old(self)@.damage,
                        DamageEffect::OnscreenRect { x, y, width, height },
                    ),
                    ..old(self)@
                }
            } else {
                old(self)@
            }),
            width <= 0 || height <= 0 ==> final(self)@ == old(self)@,
    {
        if !is_onscreen {
            return ;
        }
        if width <= 0 || height <= 0 {
            return ;
        }
        self.add_damage(DamageEffect::OnscreenRect { x, y, width, height });
    }
}

/// The plan with which a canvas is swapped: the one that was declared for it, or one that is
/// prepared now; never one that was declared for another canvas.
pub open spec fn plan_in_force(before: Mgr, after: Mgr, id: u32, plan: crate::present::Plan) -> bool {
    let cleared = Mgr { plan: None, ..before };
    if before.plan matches Some((planned, _)) && planned == id {
        before.plan == Some((id, plan)) && after == cleared
    } else {
        prepared(cleared, after, id, plan)
    }
}

/// A canvas's buffer has to be copied to its window.
pub open spec fn copies(entry: CanvasEntry) -> bool {
    !entry.bypass_drawing_buffer && entry.drawing_buffer is Some
}

/// The buffer was copied to the window, as the repair asks.
pub open spec fn copied(before: Mgr, after: Mgr, entry: CanvasEntry, repair: crate::present::Region) -> bool {
    after.gl.truthful ==> exists|b: crate::present::BlitPlan|
        {
            &&& #[trigger] crate::present::blit_for(
                repair,
                buffer_fits(entry),
                before.cfg.single_sample,
                b,
            )
            &&& after.gl.blits == before.gl.blits + crate::drawing_buffer::plan_blits(
                entry.drawing_buffer->0,
                entry.physical_width,
                entry.physical_height,
                b,
                false,
            )
        }
}

/// What the compositor is told with a swap: what the frame has changed, never what it
/// repaired; and nothing where the driver does not take it.
pub open spec fn told(
    m: Mgr,
    current: crate::present::Region,
    damage: Option<crate::damage::RectList>,
) -> bool {
    damage matches Some(list) ==> {
        &&& m.cfg.submits_damage
        &&& !m.swap_damage_rejected
        &&& current == crate::present::Region::Rects(crate::damage::list_rects(list))
    }
}

proof fn lemma_untold_since(
    first: Mgr,
    before: Mgr,
    after: Mgr,
    surf: usize,
    current: crate::present::Region,
    damage: Option<crate::damage::RectList>,
)
    requires
        before.cfg == first.cfg,
        before.swap_damage_rejected == first.swap_damage_rejected,
        before.egl.refused == first.egl.refused,
        untold(before, after, surf, current, damage),
    ensures
        untold(first, after, surf, current, damage),
{
    reveal(untold);
}

/// The compositor is told wherever there is something to tell and the driver takes it.
#[verifier::opaque]
pub open spec fn untold(
    before: Mgr,
    after: Mgr,
    surf: usize,
    current: crate::present::Region,
    damage: Option<crate::damage::RectList>,
) -> bool {
    damage is None && submits(before, current) ==> submission_refused(before, after, surf, current)
}

/// A canvas whose default framebuffer is a drawing buffer has it bound for drawing and for
/// reading, and its shadow knows: a bind of it by content is a repeat.
pub open spec fn default_bound(m: Mgr, id: u32) -> bool {
    m.canvases.dom().contains(id) ==> (crate::manager::default_fbo(m.canvases[id]) matches Some(
        fbo,
    ) ==> {
        &&& m.gl.bindings.read_framebuffer == fbo
        &&& m.gl.bindings.draw_framebuffer == fbo
        &&& crate::binding::default_known(m.shadows[id])
    })
}

/// A canvas was presented with a plan, or was not. Its buffer is copied first; then the frame
/// is handed to whoever has asked for it, and the interval set; a swap comes behind all that,
/// and the canvas's default framebuffer is bound again behind the swap.
pub open spec fn presented(
    before: Mgr,
    after: Mgr,
    id: u32,
    wait_for_vsync: bool,
    plan: crate::present::Plan,
    result: Result<ResolvedDamage, CanvasError>,
) -> bool {
    let entry = before.canvases[id];
    if !before.canvases.dom().contains(id) {
        result == Err::<ResolvedDamage, CanvasError>(CanvasError::NotFound) && after == before
    } else {
        &&& after.swap_interval == (if wait_for_vsync {
            1i32
        } else {
            0i32
        })
        &&& after.egl.intervals == (if after.swap_interval == before.swap_interval {
            before.egl.intervals
        } else {
            before.egl.intervals.push(after.swap_interval)
        })
        &&& after.gl.offered == before.gl.offered.push(
            (entry.physical_width, entry.physical_height, after.gl.blits.len()),
        )
        &&& match entry.ctx.surf {
            None => {
                &&& result == Ok::<ResolvedDamage, CanvasError>(ResolvedDamage::FullSurface)
                &&& after.egl.swaps == before.egl.swaps
                &&& after.damage == before.damage
                &&& after.history == before.history
                &&& after.flags == before.flags
            },
            Some(surf) => match result {
                Ok(damage) => {
                    &&& after.flags == before.flags
                    &&& after.egl.swaps.len() == before.egl.swaps.len() + 1
                    &&& after.egl.swaps == before.egl.swaps.push(after.egl.swaps.last())
                    &&& after.egl.swaps.last().0 == surf
                    &&& told(before, plan.current, after.egl.swaps.last().1)
                    &&& untold(before, after, surf, plan.current, after.egl.swaps.last().1)
                    &&& after.egl.swapped_at == before.egl.swapped_at.push(
                        crate::manager::swap_moment(after),
                    )
                    &&& default_bound(after, id)
                    &&& {
                        ||| {
                            &&& damage == crate::present::region_resolved(plan.current)
                            &&& after.damage == crate::present::clean_frame()
                            &&& after.history == crate::present::remembered(
                                before.history,
                                plan.current,
                            )
                            &&& copies(entry) ==> copied(before, after, entry, plan.repair)
                        }
                        ||| {
                            &&& copies(entry)
                            &&& crate::drawing_buffer::copy_failed(before.gl, after.gl)
                            &&& damage == ResolvedDamage::FullSurface
                            &&& after.damage.full
                            &&& after.history == seq![crate::present::Region::Full]
                        }
                    }
                },
                Err(CanvasError::Egl(e)) => {
                    &&& after.egl.swaps == before.egl.swaps
                    &&& after.damage == before.damage
                    &&& after.history == before.history
                    &&& after.egl.refused.last() == (EglCall::SwapBuffers { surface: surf }, e)
                    &&& after.flags == (Flags {
                        context_lost: before.flags.context_lost || e == EglError::ContextLost,
                        surface_unavailable: before.flags.surface_unavailable
                            || crate::egl_setup::loses_the_surface(e),
                        ..before.flags
                    })
                },
                Err(_) => false,
            },
        }
    }
}

impl<
    F: Fn(GlCall) -> u32,
    H: Fn(EglCall) -> Result<usize, EglError>,
    P: Fn(PaintCall) -> u64,
> CanvasManager<F, H, P> {
    /// The plan with which a canvas is swapped.
    fn plan_to_present(&mut self, id: u32) -> (plan: PresentDamagePlan)
        requires
            old(self).wf(),
        ensures
            final(self).wf(),
            plan.wf(),
            plan_in_force(old(self)@, final(self)@, id, plan@),
            only_planning_moved(Mgr { plan: None, ..old(self)@ }, final(self)@),
    {
        let present = self.present_mut();
        let kept = take_plan(present, id);
        let ghost cleared = Mgr { plan: None, ..old(self)@ };
        assert(self@ == cleared);
        assert(self@.canvases.dom() =~= cleared.canvases.dom());
        match kept {
            Some(plan) => plan,
            None => self.prepare_present_plan(id),
        }
    }

    /// Copy a canvas's buffer to its window, where it does not draw there itself.
    fn copy_frame(&mut self, entry: CanvasEntry, plan: &PresentDamagePlan) -> (succeeded: bool)
        requires
            old(self).wf(),
            plan.wf(),
        ensures
            final(self).wf(),
            final(self)@ == (Mgr { gl: final(self)@.gl, ..old(self)@ }),
            !copies(entry) ==> succeeded && final(self)@ == old(self)@,
            copies(entry) && succeeded ==> copied(
                old(self)@,
                final(self)@,
                entry,
                plan.repair@,
            ),
            !succeeded ==> crate::drawing_buffer::copy_failed(old(self)@.gl, final(self)@.gl),
            final(self)@.gl.offered == old(self)@.gl.offered,
    {
        if entry.bypass_drawing_buffer {
            return true;
        }
        match entry.drawing_buffer {
            None => true,
            Some(db) => {
                let db_matches: bool = db.width == entry.physical_width && db.height
                    == entry.physical_height;
                let blit = blit_plan(&plan.repair, db_matches, self.cfg().single_sample);
                assert(crate::present::blit_for(
                    plan.repair@,
                    buffer_fits(entry),
                    old(self)@.cfg.single_sample,
                    blit,
                ));
                self.blit_to_window(db, entry.physical_width, entry.physical_height, &blit)
            },
        }
    }

    /// Swap a surface and tell the compositor what the frame has changed. That is tried
    /// wherever the driver takes it, has not rejected it before, and the frame has changed a
    /// list of rectangles that is not empty; a driver that rejects it is not asked again.
    fn try_swap_with_damage(&mut self, surf: usize, plan: &PresentDamagePlan) -> (swapped: bool)
        requires
            old(self).wf(),
            plan.wf(),
        ensures
            final(self).wf(),
            final(self)@ == (Mgr {
                egl: final(self)@.egl,
                swap_damage_rejected: final(self)@.swap_damage_rejected,
                ..old(self)@
            }),
            final(self)@.egl == (crate::egl_device::EglModel {
                swaps: final(self)@.egl.swaps,
                swapped_at: final(self)@.egl.swapped_at,
                refused: final(self)@.egl.refused,
                ..old(self)@.egl
            }),
            old(self)@.swap_damage_rejected ==> final(self)@.swap_damage_rejected,
            !swapped ==> final(self)@.egl.swaps == old(self)@.egl.swaps,
            !submits(old(self)@, plan.current@) ==> !swapped && final(self)@ == old(self)@,
            submits(old(self)@, plan.current@) ==> {
                &&& final(self)@.swap_damage_rejected == !swapped
                &&& !swapped ==> submission_refused(
                    old(self)@,
                    final(self)@,
                    surf,
                    plan.current@,
                )
            },
            swapped ==> {
                let all = final(self)@.egl.swaps;
                &&& all == old(self)@.egl.swaps.push(all.last())
                &&& all.len() == old(self)@.egl.swaps.len() + 1
                &&& all.last().0 == surf
                &&& told(old(self)@, plan.current@, all.last().1)
                &&& all.last().1 is Some
                &&& final(self)@.egl.swapped_at == old(self)@.egl.swapped_at.push(
                        crate::manager::swap_moment(old(self)@),
                    )
            },
            !swapped ==> final(self)@.egl.swapped_at == old(self)@.egl.swapped_at,
    {
        let supported: bool = self.cfg().submits_damage;
        let present = self.present_mut();
        let rejected: bool = present.swap_with_damage_rejected;
        match surface_damage_to_submit(plan, supported, rejected) {
            None => false,
            Some(rects) => {
                let list = rects.list();
                assert(plan.current@ == crate::present::Region::Rects(
                    crate::damage::list_rects(list),
                ));
                self.swap_with_damage(surf, list)
            },
        }
    }

    /// Keep account of a swap that happened or did not.
    fn commit_present(&mut self, swapped: bool, copied: bool, plan: &PresentDamagePlan) -> (commit:
        PresentCommit)
        requires
            old(self).wf(),
            plan.wf(),
        ensures
            final(self).wf(),
            final(self)@ == (Mgr {
                damage: final(self)@.damage,
                history: final(self)@.history,
                ..old(self)@
            }),
            !swapped ==> commit == PresentCommit::Retry && final(self)@.damage == old(self)@.damage
                && final(self)@.history == old(self)@.history,
            swapped && copied ==> {
                &&& commit == PresentCommit::Presented(
                    crate::present::region_resolved(plan.current@),
                )
                &&& final(self)@.damage == crate::present::clean_frame()
                &&& final(self)@.history == crate::present::remembered(
                    old(self)@.history,
                    plan.current@,
                )
            },
            swapped && !copied ==> {
                &&& commit == PresentCommit::PresentedPartial
                &&& final(self)@.damage.full
                &&& final(self)@.history == seq![crate::present::Region::Full]
            },
    {
        let present = self.present_mut();
        commit_present_outcome(
            &mut present.damage,
            &mut present.history,
            swapped,
            copied,
            plan,
        )
    }

    /// A swap failed: keep account of what is gone with it.
    fn note_swap_failure(&mut self, e: EglError)
        requires
            old(self).wf(),
        ensures
            final(self).wf(),
            final(self)@ == (Mgr {
                flags: Flags {
                    context_lost: old(self)@.flags.context_lost || e == EglError::ContextLost,
                    surface_unavailable: old(self)@.flags.surface_unavailable
                        || crate::egl_setup::loses_the_surface(e),
                    ..old(self)@.flags
                },
                ..old(self)@
            }),
    {
        let flags = self.flags();
        match classify_egl_swap_failure(e) {
            EglSwapFailureClass::ContextLost => {
                self.set_flags(Flags { context_lost: true, ..flags });
            },
            EglSwapFailureClass::SurfaceLost => {
                self.set_flags(Flags { surface_unavailable: true, ..flags });
            },
            EglSwapFailureClass::Other => {},
        }
    }
}

/// A canvas was presented: with the plan in force once it was current, where it could be
/// made so.
pub open spec fn swap_outcome(
    before: Mgr,
    after: Mgr,
    id: u32,
    wait_for_vsync: bool,
    result: Result<ResolvedDamage, CanvasError>,
) -> bool {
    ||| result matches Err(e) && crate::binding::made_current(before, after, id, Err(e))
    ||| exists|bound: Mgr, ready: Mgr, plan: crate::present::Plan|
        {
            &&& #[trigger] crate::binding::made_current(before, bound, id, Ok(()))
            &&& #[trigger] plan_in_force(bound, ready, id, plan)
            &&& presented(ready, after, id, wait_for_vsync, plan, result)
            &&& only_present_moved(ready, after)
        }
}

/// Nothing moved but what is current, frames, and what the driver was asked and told.
pub open spec fn only_present_moved(before: Mgr, after: Mgr) -> bool {
    &&& after.cfg == before.cfg
    &&& after.root == before.root
    &&& after.shared_2d == before.shared_2d
    &&& after.window == before.window
    &&& after.pending == before.pending
    &&& after.preserved == before.preserved
    &&& after.next_canvas_id == before.next_canvas_id
    &&& after.paint == before.paint
    &&& after.contexts == before.contexts
    &&& after.dirty == before.dirty
    &&& after.debt == before.debt
    &&& after.copy_fbos == before.copy_fbos
    &&& after.snapshots == before.snapshots
    &&& after.uploads == before.uploads
    &&& crate::manager::same_objects(before.egl, after.egl)
    &&& crate::painting::canvases_stay(before.canvases, after.canvases)
}

impl<
    F: Fn(GlCall) -> u32,
    H: Fn(EglCall) -> Result<usize, EglError>,
    P: Fn(PaintCall) -> u64,
> CanvasManager<F, H, P> {
    /// Swap a surface: with damage where that can be submitted, else plainly.
    fn swap_surface(&mut self, surf: usize, plan: &PresentDamagePlan) -> (result: Result<
        (),
        EglError,
    >)
        requires
            old(self).wf(),
            plan.wf(),
        ensures
            final(self).wf(),
            final(self)@ == (Mgr {
                egl: final(self)@.egl,
                swap_damage_rejected: final(self)@.swap_damage_rejected,
                ..old(self)@
            }),
            final(self)@.egl == (crate::egl_device::EglModel {
                swaps: final(self)@.egl.swaps,
                swapped_at: final(self)@.egl.swapped_at,
                refused: final(self)@.egl.refused,
                ..old(self)@.egl
            }),
            match result {
                Ok(_) => {
                    let all = final(self)@.egl.swaps;
                    &&& all == old(self)@.egl.swaps.push(all.last())
                    &&& all.len() == old(self)@.egl.swaps.len() + 1
                    &&& all.last().0 == surf
                    &&& told(old(self)@, plan.current@, all.last().1)
                    &&& untold(old(self)@, final(self)@, surf, plan.current@, all.last().1)
                    &&& final(self)@.egl.swapped_at == old(self)@.egl.swapped_at.push(
                        crate::manager::swap_moment(old(self)@),
                    )
                },
                Err(e) => {
                    &&& final(self)@.egl.swaps == old(self)@.egl.swaps
                    &&& final(self)@.egl.refused.last() == (
                        EglCall::SwapBuffers { surface: surf },
                        e,
                    )
                },
            },
    {
        proof {
            reveal(untold);
        }
        if self.try_swap_with_damage(surf, plan) {
            Ok(())
        } else {
            let ghost refused = self@;
            let result = self.swap(surf);
            assert(result is Ok ==> self@.egl.refused == refused.egl.refused);
            assert(result is Ok ==> self@.egl.swaps =~= old(self)@.egl.swaps.push(
                self@.egl.swaps.last(),
            ));
            result
        }
    }

    /// Swap a surface and keep account of it.
    fn finish_present(
        &mut self,
        id: u32,
        entry: CanvasEntry,
        surf: usize,
        copied: bool,
        plan: &PresentDamagePlan,
    ) -> (result: Result<ResolvedDamage, CanvasError>)
        requires
            old(self).wf(),
            plan.wf(),
        ensures
            final(self).wf(),
            only_present_moved(old(self)@, final(self)@),
            final(self)@.swap_interval == old(self)@.swap_interval,
            final(self)@.egl.intervals == old(self)@.egl.intervals,
            final(self)@.gl.blits == old(self)@.gl.blits,
            final(self)@.gl.offered == old(self)@.gl.offered,
            final(self)@.gl.errors == old(self)@.gl.errors,
            final(self)@.gl.statuses == old(self)@.gl.statuses,
            final(self)@.gl.truthful == old(self)@.gl.truthful,
            match result {
                Ok(damage) => {
                    let all = final(self)@.egl.swaps;
                    &&& final(self)@.flags == old(self)@.flags
                    &&& all == old(self)@.egl.swaps.push(all.last())
                    &&& all.len() == old(self)@.egl.swaps.len() + 1
                    &&& all.last().0 == surf
                    &&& told(old(self)@, plan.current@, all.last().1)
                    &&& untold(old(self)@, final(self)@, surf, plan.current@, all.last().1)
                    &&& final(self)@.egl.swapped_at == old(self)@.egl.swapped_at.push(
                        crate::manager::swap_moment(final(self)@),
                    )
                    &&& default_bound(final(self)@, id)
                    &&& copied ==> {
                        &&& damage == crate::present::region_resolved(plan.current@)
                        &&& final(self)@.damage == crate::present::clean_frame()
                        &&& final(self)@.history == crate::present::remembered(
                            old(self)@.history,
                            plan.current@,
                        )
                    }
                    &&& !copied ==> {
                        &&& damage == ResolvedDamage::FullSurface
                        &&& final(self)@.damage.full
                        &&& final(self)@.history == seq![crate::present::Region::Full]
                    }
                },
                Err(CanvasError::Egl(e)) => {
                    &&& final(self)@.egl.swaps == old(self)@.egl.swaps
                    &&& final(self)@.damage == old(self)@.damage
                    &&& final(self)@.history == old(self)@.history
                    &&& final(self)@.egl.refused.last() == (
                        EglCall::SwapBuffers { surface: surf },
                        e,
                    )
                    &&& final(self)@.flags == (Flags {
                        context_lost: old(self)@.flags.context_lost || e == EglError::ContextLost,
                        surface_unavailable: old(self)@.flags.surface_unavailable
                            || crate::egl_setup::loses_the_surface(e),
                        ..old(self)@.flags
                    })
                },
                Err(_) => false,
            },
    {
        assert(self@.canvases.dom() =~= old(self)@.canvases.dom());
        proof {
            reveal(untold);
        }
        match self.swap_surface(surf, plan) {
            Err(e) => {
                let _ = self.commit_present(false, copied, plan);
                self.note_swap_failure(e);
                Err(CanvasError::Egl(e))
            },
            Ok(_) => {
                let commit = self.commit_present(true, copied, plan);
                self.bind_default_framebuffer(id);
                match commit {
                    PresentCommit::Presented(resolved) => Ok(resolved),
                    _ => Ok(ResolvedDamage::FullSurface),
                }
            },
        }
    }

    /// Present a canvas, with a plan.
    #[verifier::rlimit(60)]
    fn present_with(&mut self, id: u32, wait_for_vsync: bool, plan: &PresentDamagePlan) -> (result:
        Result<ResolvedDamage, CanvasError>)
        requires
            old(self).wf(),
            plan.wf(),
        ensures
            final(self).wf(),
            only_present_moved(old(self)@, final(self)@),
            presented(old(self)@, final(self)@, id, wait_for_vsync, plan@, result),
    {
        assert(self@.canvases.dom() =~= old(self)@.canvases.dom());
        let entry = match self.canvas(id) {
            None => {
                return Err(CanvasError::NotFound);
            },
            Some(entry) => entry,
        };
        let copied: bool = self.copy_frame(entry, plan);
        let _ = self.issue_gl(
            GlCall::CaptureFrame { width: entry.physical_width, height: entry.physical_height },
        );
        let interval: i32 = if wait_for_vsync {
            1
        } else {
            0
        };
        self.set_swap_interval(interval);
        match entry.ctx.surf {
            None => Ok(ResolvedDamage::FullSurface),
            Some(surf) => {
                let ghost ready = self@;
                let result = self.finish_present(id, entry, surf, copied, plan);
                proof {
                    if result is Ok {
                        lemma_untold_since(
                            old(self)@,
                            ready,
                            self@,
                            surf,
                            plan.current@,
                            self@.egl.swaps.last().1,
                        );
                    }
                }
                result
            },
        }
    }

    /// Present a canvas: its buffer is copied to the window, the surface is swapped, and the
    /// frame's damage goes from what is owed to what can be repaired from.
    ///
    /// A swap that fails leaves the damage owed. A copy that fails leaves the next present
    /// everything to repair.
    pub fn swap_buffers_no_restore(&mut self, id: u32, wait_for_vsync: bool) -> (result: Result<
        ResolvedDamage,
        CanvasError,
    >)
        requires
            old(self).wf(),
        ensures
            final(self).wf(),
            swap_outcome(old(self)@, final(self)@, id, wait_for_vsync, result),
    {
        match self.make_current_needed(id) {
            Err(e) => {
                return Err(e);
            },
            Ok(unit) => {
                assert(unit == ());
            },
        }
        let ghost bound = self@;
        assert(crate::binding::made_current(old(self)@, bound, id, Ok(())));
        let plan = self.plan_to_present(id);
        let ghost ready = self@;
        assert(plan_in_force(bound, ready, id, plan@));
        let result = self.present_with(id, wait_for_vsync, &plan);
        result
    }
}

/// A swap that fails keeps the frame's damage for the next try, and remembers no frame.
pub proof fn law_a_failed_swap_is_owed(
    before: Mgr,
    after: Mgr,
    id: u32,
    wait_for_vsync: bool,
    plan: crate::present::Plan,
    e: CanvasError,
)
    requires
        presented(before, after, id, wait_for_vsync, plan, Err(e)),
    ensures
        after.damage == before.damage,
        after.history == before.history,
        after.egl.swaps == before.egl.swaps,
{
}

/// The compositor is never told of anything but what the frame has changed: the repair of
/// older frames is not damage.
pub proof fn law_repairs_are_not_submitted(
    before: Mgr,
    after: Mgr,
    id: u32,
    wait_for_vsync: bool,
    plan: crate::present::Plan,
    damage: ResolvedDamage,
)
    requires
        presented(before, after, id, wait_for_vsync, plan, Ok(damage)),
        before.canvases.dom().contains(id),
        before.canvases[id].ctx.surf is Some,
    ensures
        after.egl.swaps.last().1 matches Some(list) ==> plan.current
            == crate::present::Region::Rects(crate::damage::list_rects(list)),
{
}

/// A swap shows the whole of its frame: nothing of the frame is copied to the window, handed
/// out or set behind it.
pub proof fn law_a_swap_comes_behind_its_frame(
    before: Mgr,
    after: Mgr,
    id: u32,
    wait_for_vsync: bool,
    plan: crate::present::Plan,
    damage: ResolvedDamage,
)
    requires
        presented(before, after, id, wait_for_vsync, plan, Ok(damage)),
        before.canvases.dom().contains(id),
        before.canvases[id].ctx.surf is Some,
    ensures
        after.egl.swapped_at.last().0.blits == after.gl.blits.len(),
        after.egl.swapped_at.last().0.offered == after.gl.offered.len(),
        after.egl.swapped_at.last().1 == after.egl.intervals.len(),
        after.gl.offered.last().2 == after.gl.blits.len(),
{
}

/// A frame whose buffer has another size than its window is copied whole, onto the whole of
/// the window: content fills the window whatever size it draws at.
pub proof fn law_a_frame_fills_its_window(
    before: Mgr,
    after: Mgr,
    id: u32,
    wait_for_vsync: bool,
    plan: crate::present::Plan,
    damage: ResolvedDamage,
    px: int,
    py: int,
)
    requires
        presented(before, after, id, wait_for_vsync, plan, Ok(damage)),
        before.canvases.dom().contains(id),
        before.canvases[id].ctx.surf is Some,
        !before.canvases[id].bypass_drawing_buffer,
        before.canvases[id].drawing_buffer is Some,
        (before.canvases[id].drawing_buffer->0).width != before.canvases[id].physical_width || (
        before.canvases[id].drawing_buffer->0).height != before.canvases[id].physical_height
            || plan.repair is Full || !before.cfg.single_sample,
        (before.canvases[id].drawing_buffer->0).width <= i32::MAX,
        (before.canvases[id].drawing_buffer->0).height <= i32::MAX,
        before.canvases[id].physical_width <= i32::MAX,
        before.canvases[id].physical_height <= i32::MAX,
        after.gl.truthful,
        !after.damage.full,
    ensures
        ({
            let entry = before.canvases[id];
            let db = entry.drawing_buffer->0;
            let blit = after.gl.blits.last();
            let same = db.width == entry.physical_width && db.height == entry.physical_height;
            &&& after.gl.blits.len() == before.gl.blits.len() + 1
            &&& blit.read_framebuffer == db.fbo && blit.draw_framebuffer == 0
            &&& blit.source.x0 == 0 && blit.source.y0 == 0
            &&& blit.source.x1 == db.width && blit.source.y1 == db.height
            &&& blit.target.x0 == 0 && blit.target.y0 == 0
            &&& blit.target.x1 == entry.physical_width && blit.target.y1 == entry.physical_height
            &&& 0 <= px < entry.physical_width && 0 <= py < entry.physical_height
                ==> blit.target.x0 <= px < blit.target.x1 && blit.target.y0 <= py < blit.target.y1
            &&& blit.filter == if same { 0x2600u32 } else { 0x2601u32 }
        }),
{
    let entry = before.canvases[id];
    let b = choose|b: crate::present::BlitPlan|
        {
            &&& #[trigger] crate::present::blit_for(
                plan.repair,
                buffer_fits(entry),
                before.cfg.single_sample,
                b,
            )
            &&& after.gl.blits == before.gl.blits + crate::drawing_buffer::plan_blits(
                entry.drawing_buffer->0,
                entry.physical_width,
                entry.physical_height,
                b,
                false,
            )
        };
    assert(b is Full);
    crate::drawing_buffer::law_a_full_copy_fills_the_surface(
        entry.drawing_buffer->0,
        entry.physical_width,
        entry.physical_height,
        b->linear,
        false,
        px,
        py,
    );
}

/// A frame that is repaired in part has one copy for each rectangle of the repair, from each
/// of its pixels to the same place on the window.
pub proof fn law_a_partial_frame_copies_its_repair(
    before: Mgr,
    after: Mgr,
    id: u32,
    wait_for_vsync: bool,
    plan: crate::present::Plan,
    damage: ResolvedDamage,
    i: int,
    px: int,
    py: int,
)
    requires
        presented(before, after, id, wait_for_vsync, plan, Ok(damage)),
        before.canvases.dom().contains(id),
        before.canvases[id].ctx.surf is Some,
        !before.canvases[id].bypass_drawing_buffer,
        before.canvases[id].drawing_buffer matches Some(db) && db.width
            == before.canvases[id].physical_width && db.height
            == before.canvases[id].physical_height,
        before.cfg.single_sample,
        plan.repair is Rects,
        0 <= i < (plan.repair->Rects_0).len(),
        ({
            let r = (plan.repair->Rects_0)[i];
            &&& i32::MIN <= r.x && r.x + r.width <= i32::MAX && r.width > 0
            &&& i32::MIN <= r.y && r.y + r.height <= i32::MAX && r.height > 0
        }),
        after.gl.truthful,
        !after.damage.full,
    ensures
        ({
            let rects = plan.repair->Rects_0;
            let r = rects[i];
            let blit = after.gl.blits[before.gl.blits.len() + i];
            &&& after.gl.blits.len() == before.gl.blits.len() + rects.len()
            &&& blit.read_framebuffer == (before.canvases[id].drawing_buffer->0).fbo
            &&& blit.draw_framebuffer == 0
            &&& (blit.source.x0 <= px < blit.source.x1 && blit.source.y0 <= py < blit.source.y1)
                == (r.x <= px < r.x + r.width && r.y <= py < r.y + r.height)
            &&& blit.target == blit.source
        }),
{
    let entry = before.canvases[id];
    let b = choose|b: crate::present::BlitPlan|
        {
            &&& #[trigger] crate::present::blit_for(
                plan.repair,
                buffer_fits(entry),
                before.cfg.single_sample,
                b,
            )
            &&& after.gl.blits == before.gl.blits + crate::drawing_buffer::plan_blits(
                entry.drawing_buffer->0,
                entry.physical_width,
                entry.physical_height,
                b,
                false,
            )
        };
    assert(b is Rects);
    crate::drawing_buffer::law_a_partial_copy_takes_its_rectangles(
        entry.drawing_buffer->0,
        entry.physical_width,
        entry.physical_height,
        b,
        false,
        i,
        px,
        py,
    );
}

/// A frame that is to wait for the display is swapped at an interval of one, any other at an
/// interval of zero, and the driver is told of a change alone. The frame is handed out once,
/// at the size of its surface.
pub proof fn law_the_interval_follows_the_wish(
    before: Mgr,
    after: Mgr,
    id: u32,
    wait_for_vsync: bool,
    plan: crate::present::Plan,
    result: Result<ResolvedDamage, CanvasError>,
)
    requires
        presented(before, after, id, wait_for_vsync, plan, result),
        before.canvases.dom().contains(id),
    ensures
        wait_for_vsync ==> after.swap_interval == 1,
        !wait_for_vsync ==> after.swap_interval == 0,
        after.swap_interval == before.swap_interval ==> after.egl.intervals == before.egl.intervals,
        after.swap_interval != before.swap_interval ==> after.egl.intervals.len()
            == before.egl.intervals.len() + 1 && after.egl.intervals.last() == after.swap_interval,
        after.gl.offered.len() == before.gl.offered.len() + 1,
        after.gl.offered.last().0 == before.canvases[id].physical_width,
        after.gl.offered.last().1 == before.canvases[id].physical_height,
{
}

/// A frame that was presented whole is remembered and owes nothing; one of which a part could
/// not be copied is owed anew, all of it. One swap is made of it, to the canvas's own surface,
/// and a canvas without a surface has none.
pub proof fn law_a_presented_frame_is_settled(
    before: Mgr,
    after: Mgr,
    id: u32,
    wait_for_vsync: bool,
    plan: crate::present::Plan,
    damage: ResolvedDamage,
)
    requires
        presented(before, after, id, wait_for_vsync, plan, Ok(damage)),
        before.canvases.dom().contains(id),
        before.history.len() <= 8,
    ensures
        before.canvases[id].ctx.surf is None ==> after.egl.swaps == before.egl.swaps
            && after.damage == before.damage && damage is FullSurface,
        before.canvases[id].ctx.surf matches Some(surf) ==> {
            &&& after.egl.swaps.len() == before.egl.swaps.len() + 1
            &&& after.egl.swaps.last().0 == surf
            &&& !after.damage.full ==> after.damage.rects.len() == 0 && after.history[0]
                == plan.current
            &&& after.damage.full ==> after.history.len() == 1 && after.history[0]
                == crate::present::Region::Full
            &&& after.egl.swaps.last().1 is Some ==> before.cfg.submits_damage
                && !before.swap_damage_rejected && plan.current is Rects
        },
        after.flags.context_lost == before.flags.context_lost,
{
}

/// A canvas without a surface, or one that draws straight to its window, is repaired as a
/// whole. What a frame changed is the frame's own damage on its surface.
pub proof fn law_what_a_plan_holds(before: Mgr, after: Mgr, id: u32, plan: crate::present::Plan)
    requires
        prepared(before, after, id, plan),
    ensures
        !before.canvases.dom().contains(id) ==> plan.repair is Full && plan.current is Full,
        before.canvases.dom().contains(id) && before.canvases[id].ctx.surf is None
            ==> plan.repair is Full && plan.current is Full,
        before.canvases.dom().contains(id) && before.canvases[id].bypass_drawing_buffer
            ==> plan.repair is Full,
        before.canvases.dom().contains(id) && before.damage.full ==> plan.current is Full,
        before.canvases.dom().contains(id) && before.canvases[id].ctx.surf is Some
            && plan.repair is Rects ==> {
            &&& before.cfg.has_buffer_age
            &&& before.cfg.single_sample
            &&& before.canvases[id].drawing_buffer matches Some(db) && db.width
                == before.canvases[id].physical_width && db.height
                == before.canvases[id].physical_height
        },
{
}

/// The plan of one canvas is never another's: what was declared for a canvas is what it is
/// presented with, and is used once.
pub proof fn law_a_plan_is_used_once(
    before: Mgr,
    after: Mgr,
    id: u32,
    other: u32,
    declared: crate::present::Plan,
    plan: crate::present::Plan,
)
    requires
        before.plan == Some((other, declared)),
        plan_in_force(before, after, id, plan),
    ensures
        other == id ==> plan == declared && after.plan is None && after.damage == before.damage,
        other != id ==> prepared(Mgr { plan: None, ..before }, after, id, plan),
{
}

/// A change of a canvas that is not on the window damages nothing of the frame; on the window
/// its rectangle is damaged, and a full redraw damages everything.
pub proof fn law_what_a_change_damages<
    F: Fn(GlCall) -> u32,
    H: Fn(EglCall) -> Result<usize, EglError>,
    P: Fn(PaintCall) -> u64,
>(x: i32, y: i32, width: i32, height: i32, px: int, py: int)
    requires
        x <= px < x + width,
        y <= py < y + height,
    ensures
        forall|m: &mut CanvasManager<F, H, P>|
            #[trigger] call_ensures(
                CanvasManager::<F, H, P>::stage_current_frame_partial_damage,
                (m, x, y, width, height, false),
                (),
            ) ==> (*final(m))@ == (*m)@,
        forall|m: &mut CanvasManager<F, H, P>|
            #[trigger] call_ensures(
                CanvasManager::<F, H, P>::stage_current_frame_partial_damage,
                (m, x, y, width, height, true),
                (),
            ) && (*m)@.damage.rects.len() <= 4 ==> (*final(m))@.damage.full
                || crate::damage::any_covers((*final(m))@.damage.rects, px, py),
        forall|m: &mut CanvasManager<F, H, P>|
            #[trigger] call_ensures(
                CanvasManager::<F, H, P>::mark_current_frame_requires_full_redraw,
                (m,),
                (),
            ) ==> (*final(m))@.damage.full,
{
    let effect = DamageEffect::OnscreenRect { x, y, width, height };
    assert forall|m: &mut CanvasManager<F, H, P>|
        #[trigger] call_ensures(
            CanvasManager::<F, H, P>::stage_current_frame_partial_damage,
            (m, x, y, width, height, true),
            (),
        ) && (*m)@.damage.rects.len() <= 4 implies (*final(m))@.damage.full
        || crate::damage::any_covers((*final(m))@.damage.rects, px, py) by {
        crate::damage::law_an_operation_damages_what_it_reports((*m)@.damage, effect, px, py);
    }
}

/// Wherever the driver takes a region with a swap, the compositor is told what the frame has
/// changed: a swap that the driver did not refuse carries it, all of it and nothing else.
pub proof fn law_the_compositor_is_told(
    before: Mgr,
    after: Mgr,
    id: u32,
    wait_for_vsync: bool,
    plan: crate::present::Plan,
    damage: ResolvedDamage,
)
    requires
        presented(before, after, id, wait_for_vsync, plan, Ok(damage)),
        before.canvases.dom().contains(id),
        before.canvases[id].ctx.surf is Some,
        before.cfg.submits_damage,
        !before.swap_damage_rejected,
        plan.current is Rects,
        (plan.current->Rects_0).len() > 0,
        after.egl.refused == before.egl.refused,
    ensures
        after.egl.swaps.last().1 is Some,
        crate::damage::list_rects(after.egl.swaps.last().1->0) == plan.current->Rects_0,
{
    reveal(untold);
    assert(submits(before, plan.current));
    if after.egl.swaps.last().1 is None {
        let surf = before.canvases[id].ctx.surf->0;
        assert(submission_refused(before, after, surf, plan.current));
        let list = choose|list: crate::damage::RectList|
            plan.current == crate::present::Region::Rects(
                #[trigger] crate::damage::list_rects(list),
            ) && crate::egl_device::refused_once(
                before.egl,
                after.egl,
                EglCall::SwapWithDamage { surface: surf, rects: list },
            );
        assert(after.egl.refused.len() == before.egl.refused.len() + 1);
    }
}

/// Behind a swap content draws by default where it did before it: into the drawing buffer,
/// unless it is bypassed.
pub proof fn law_content_draws_on_behind_a_swap(
    before: Mgr,
    after: Mgr,
    id: u32,
    wait_for_vsync: bool,
    plan: crate::present::Plan,
    damage: ResolvedDamage,
    db: crate::drawing_buffer::DrawingBuffer,
)
    requires
        presented(before, after, id, wait_for_vsync, plan, Ok(damage)),
        before.canvases.dom().contains(id),
        before.canvases[id].ctx.surf is Some,
        after.canvases.dom().contains(id),
        !after.canvases[id].bypass_drawing_buffer,
        after.canvases[id].drawing_buffer == Some(db),
    ensures
        after.gl.bindings.draw_framebuffer == db.fbo,
        after.gl.bindings.read_framebuffer == db.fbo,
{
}

/// A swap that failed for a lost context has the context lost, one that failed for the surface
/// has the surface unavailable, and any other failure leaves both as they were.
pub proof fn law_what_a_failed_swap_leaves(
    before: Mgr,
    after: Mgr,
    id: u32,
    wait_for_vsync: bool,
    plan: crate::present::Plan,
    e: EglError,
)
    requires
        presented(before, after, id, wait_for_vsync, plan, Err(CanvasError::Egl(e))),
        before.canvases.dom().contains(id),
    ensures
        e is ContextLost ==> after.flags.context_lost,
        e is BadSurface || e is BadCurrentSurface || e is BadNativeWindow || e is BadDisplay
            ==> after.flags.surface_unavailable,
        !(e is ContextLost) ==> after.flags.context_lost == before.flags.context_lost,
        e is BadAlloc || e is BadAccess || e is ContextLost ==> after.flags.surface_unavailable
            == before.flags.surface_unavailable,
        after.damage == before.damage,
        after.egl.swaps == before.egl.swaps,
{
}

/// A partial repair is made wherever it can be: on a driver that tells a buffer's age and keeps
/// its contents, with a buffer of the surface's size and one sample a pixel, the repair is what
/// a buffer of the age that the driver told lacks.
pub proof fn law_a_repair_goes_by_the_age(
    before: Mgr,
    after: Mgr,
    id: u32,
    plan: crate::present::Plan,
)
    requires
        prepared(before, after, id, plan),
        before.canvases.dom().contains(id),
        before.canvases[id].ctx.surf is Some,
        !before.canvases[id].bypass_drawing_buffer,
        before.canvases[id].drawing_buffer matches Some(db) && db.width
            == before.canvases[id].physical_width && db.height
            == before.canvases[id].physical_height,
        before.cfg.has_buffer_age,
        before.cfg.has_ext_buffer_age,
        before.cfg.single_sample,
        after.egl.refused.len() == before.egl.refused.len(),
    ensures
        after.egl.ages.len() == before.egl.ages.len() + 1,
        after.egl.ages.last().0 == before.canvases[id].ctx.surf->0,
        plan.repair == crate::present::repair_for_age(
            plan.current,
            before.history,
            after.egl.ages.last().1 as int,
        ),
        plan.current == crate::present::frame_region(
            before.damage,
            (
                before.canvases[id].physical_width as i32,
                before.canvases[id].physical_height as i32,
            ),
        ),
{
}

/// A canvas that does not exist is not presented, and nothing changes.
pub proof fn law_only_canvases_that_exist_are_presented(
    before: Mgr,
    after: Mgr,
    id: u32,
    wait_for_vsync: bool,
    plan: crate::present::Plan,
    result: Result<ResolvedDamage, CanvasError>,
)
    requires
        presented(before, after, id, wait_for_vsync, plan, result),
        !before.canvases.dom().contains(id),
    ensures
        result == Err::<ResolvedDamage, CanvasError>(CanvasError::NotFound),
        after == before,
{
}

} // verus!
