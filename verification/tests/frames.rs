use graphics::damage::{DamageEffect, DamageRect, FrameDamageAccumulator, ResolvedDamage};
use graphics::draw_damage::{
    classify_draw_damage, state_allows_partial, Covered, DrawCommand, PaintFacts,
};
use graphics::present::{
    blit_plan, build_present_plan, commit_present_outcome, repair_after_declaration_failure,
    BlitPlan, DamageRegion, PresentCommit, PresentDamageHistory, PresentDamagePlan,
};

fn rect(x: i32, y: i32, width: i32, height: i32) -> DamageEffect {
    DamageEffect::OnscreenRect { x, y, width, height }
}

fn partial(x: i32, y: i32, width: i32, height: i32) -> ResolvedDamage {
    ResolvedDamage::Partial { x, y, width, height }
}

fn region(x: i32, y: i32, width: i32, height: i32) -> DamageRegion {
    DamageRegion::from_rect(DamageRect::new(x, y, width, height).expect("non-empty rect"))
}

fn plan_with_distinct_regions() -> PresentDamagePlan {
    PresentDamagePlan { current: region(0, 0, 360, 640), repair: DamageRegion::FullSurface }
}

#[test]
fn a_failed_swap_keeps_the_frames_damage_for_the_retry() {
    let mut damage = FrameDamageAccumulator::new();
    let mut history = PresentDamageHistory::new();
    damage.add(rect(0, 0, 360, 640));

    let commit = commit_present_outcome(
        &mut damage,
        &mut history,
        false,
        true,
        &plan_with_distinct_regions(),
    );

    assert_eq!(commit, PresentCommit::Retry);
    assert!(
        damage.has_damage(),
        "a failed swap must leave the accumulated damage in place for the retry"
    );
    assert_eq!(
        history.len(),
        0,
        "nothing reached the surface, so nothing may enter the buffer-age history"
    );
}

#[test]
fn a_successful_swap_resets_the_frames_damage() {
    let mut damage = FrameDamageAccumulator::new();
    let mut history = PresentDamageHistory::new();
    damage.add(rect(0, 0, 360, 640));

    let commit = commit_present_outcome(
        &mut damage,
        &mut history,
        true,
        true,
        &plan_with_distinct_regions(),
    );

    assert!(matches!(commit, PresentCommit::Presented(_)));
    assert!(!damage.has_damage(), "a presented frame starts the next one owing nothing");
    assert_eq!(history.len(), 1, "a presented frame is repairable from");
}

#[test]
fn history_records_the_frames_own_damage_and_never_the_age_expanded_repair() {
    let mut damage = FrameDamageAccumulator::new();
    let mut history = PresentDamageHistory::new();
    let plan = plan_with_distinct_regions();

    commit_present_outcome(&mut damage, &mut history, true, true, &plan);

    assert_eq!(
        history.resolve_with_age(&plan.current, 2),
        plan.current,
        "the history entry must be the current-frame region, not the repair region"
    );
}

#[test]
fn a_failed_blit_makes_the_history_unusable_as_a_repair_source() {
    let mut damage = FrameDamageAccumulator::new();
    let mut history = PresentDamageHistory::new();
    let plan = plan_with_distinct_regions();
    history.push(plan.current.clone());

    let commit = commit_present_outcome(&mut damage, &mut history, true, false, &plan);

    assert_eq!(commit, PresentCommit::PresentedPartial);
    assert_eq!(
        history.resolve_with_age(&plan.current, 2),
        DamageRegion::FullSurface,
        "a partially-written frame must be unusable as a repair source"
    );
}

#[test]
fn a_failed_blit_leaves_the_next_present_owing_the_whole_surface() {
    let mut damage = FrameDamageAccumulator::new();
    let mut history = PresentDamageHistory::new();

    commit_present_outcome(
        &mut damage,
        &mut history,
        true,
        false,
        &plan_with_distinct_regions(),
    );

    assert!(
        damage.is_full_surface(),
        "the next present must repair everything, not the region this frame meant to write"
    );
}

#[test]
fn canvas2d_rect_resolves_to_partial_damage() {
    let mut acc = FrameDamageAccumulator::new();
    acc.add(rect(10, 20, 300, 400));
    assert_eq!(acc.resolve((1080, 1920)), partial(10, 20, 300, 400));
}

#[test]
fn canvas2d_plus_gl_viewport_unions_to_partial() {
    let mut acc = FrameDamageAccumulator::new();
    acc.add(rect(10, 20, 100, 50));
    acc.add(rect(200, 300, 150, 100));
    assert_eq!(acc.resolve((1080, 1920)), partial(10, 20, 340, 380));
}

#[test]
fn untracked_gl_clear_forces_full_surface() {
    let mut acc = FrameDamageAccumulator::new();
    acc.add(rect(10, 20, 100, 50));
    acc.add(DamageEffect::FullSurface);
    assert_eq!(acc.resolve((1080, 1920)), ResolvedDamage::FullSurface);
}

#[test]
fn offscreen_gl_produces_no_damage() {
    let mut acc = FrameDamageAccumulator::new();
    acc.add(rect(10, 20, 100, 50));
    acc.add(DamageEffect::NoDamage);
    assert_eq!(acc.resolve((1080, 1920)), partial(10, 20, 100, 50));
}

#[test]
fn full_surface_after_partial_rects_poisons_accumulator() {
    let mut acc = FrameDamageAccumulator::new();
    acc.add(rect(10, 20, 100, 50));
    acc.add(rect(200, 300, 150, 100));
    acc.add(DamageEffect::FullSurface);
    assert_eq!(acc.resolve((1080, 1920)), ResolvedDamage::FullSurface);
}

#[test]
fn multiple_mixed_batches_union_correctly() {
    let mut acc = FrameDamageAccumulator::new();
    acc.add(rect(0, 0, 50, 50));
    acc.add(rect(100, 100, 60, 40));
    acc.add(rect(30, 20, 80, 60));
    acc.add(rect(200, 0, 50, 200));
    assert_eq!(acc.resolve((1080, 1920)), partial(0, 0, 250, 200));
}

#[test]
fn scissor_bounded_clear_unions_with_canvas2d() {
    let mut acc = FrameDamageAccumulator::new();
    acc.add(rect(0, 0, 100, 100));
    acc.add(rect(200, 200, 50, 50));
    assert_eq!(acc.resolve((1080, 1920)), partial(0, 0, 250, 250));
}

#[test]
fn damage_outside_the_surface_is_cut_off() {
    let mut acc = FrameDamageAccumulator::new();
    acc.add(rect(-10, -10, 30, 30));
    assert_eq!(acc.resolve((100, 100)), partial(0, 0, 20, 20));
    acc.reset();
    assert!(!acc.has_damage());
}

#[test]
fn an_age_beyond_the_history_repairs_everything() {
    let history = PresentDamageHistory::new();
    let now = region(1, 2, 3, 4);
    assert_eq!(history.resolve_with_age(&now, 1), now);
    assert_eq!(history.resolve_with_age(&now, 0), DamageRegion::FullSurface);
    assert_eq!(history.resolve_with_age(&now, 3), DamageRegion::FullSurface);
}

#[test]
fn an_older_buffer_is_repaired_with_what_it_missed() {
    let mut history = PresentDamageHistory::new();
    history.push(region(0, 0, 10, 10));
    let repaired = history.resolve_with_age(&region(20, 0, 10, 10), 2);
    let bounds = repaired.bounding_rect().expect("partial");
    assert_eq!(bounds.xywh(), (0, 0, 30, 10));
}

#[test]
fn a_plan_without_buffer_age_repairs_everything() {
    let history = PresentDamageHistory::new();
    let plan = build_present_plan(region(0, 0, 5, 5), &history, false, 1, true, true);
    assert_eq!(plan.current, region(0, 0, 5, 5));
    assert_eq!(plan.repair, DamageRegion::FullSurface);
    let aged = build_present_plan(region(0, 0, 5, 5), &history, true, 1, true, true);
    assert_eq!(aged.repair, region(0, 0, 5, 5));
    let undeclared = repair_after_declaration_failure(aged, false);
    assert_eq!(undeclared.repair, DamageRegion::FullSurface);
}

#[test]
fn a_buffer_of_another_size_is_copied_whole() {
    assert!(matches!(
        blit_plan(&region(0, 0, 5, 5), false, true),
        BlitPlan::Full { linear: true }
    ));
    assert!(matches!(blit_plan(&region(0, 0, 5, 5), true, true), BlitPlan::Rects(_)));
    assert!(matches!(
        blit_plan(&DamageRegion::FullSurface, true, true),
        BlitPlan::Full { linear: false }
    ));
}

fn base() -> PaintFacts {
    PaintFacts {
        shadow_visible: false,
        source_over: true,
        opaque: true,
        miter_join: true,
        long_miters: false,
        axis_aligned: true,
    }
}

#[test]
fn state_allows_partial_default_is_true() {
    assert!(state_allows_partial(&base()));
}

#[test]
fn shadow_disables_partial() {
    let mut s = base();
    s.shadow_visible = true;
    assert!(!state_allows_partial(&s));
}

#[test]
fn non_source_over_disables_partial() {
    let mut s = base();
    s.source_over = false;
    assert!(!state_allows_partial(&s));
}

#[test]
fn global_alpha_lt_1_disables_partial() {
    let mut s = base();
    s.opaque = false;
    assert!(!state_allows_partial(&s));
}

#[test]
fn rotated_ctm_disables_partial() {
    let mut s = base();
    s.axis_aligned = false;
    assert!(!state_allows_partial(&s));
}

#[test]
#[allow(non_snake_case)]
fn setTransform_back_to_identity_re_enables_partial() {
    let mut s = base();
    s.axis_aligned = false;
    assert!(!state_allows_partial(&s));
    s.axis_aligned = true;
    assert!(state_allows_partial(&s));
}

#[test]
fn long_miters_disable_partial_only_with_miter_joins() {
    let mut s = base();
    s.long_miters = true;
    assert!(!state_allows_partial(&s));
    s.miter_join = false;
    assert!(state_allows_partial(&s));
}

fn covered(left: i32, top: i32, right: i32, bottom: i32) -> Covered {
    Covered::Pixels { left, top, right, bottom }
}

#[test]
fn fill_rect_yields_onscreen_rect_when_safe() {
    assert_eq!(
        classify_draw_damage(DrawCommand::FillRect, &base(), covered(10, 20, 40, 60)),
        rect(10, 20, 30, 40)
    );
}

#[test]
fn fill_rect_with_shadow_falls_back_to_full_surface() {
    let mut s = base();
    s.shadow_visible = true;
    assert_eq!(
        classify_draw_damage(DrawCommand::FillRect, &s, covered(0, 0, 10, 10)),
        DamageEffect::FullSurface
    );
}

#[test]
fn path_fill_always_falls_back_to_full_surface() {
    assert_eq!(
        classify_draw_damage(DrawCommand::Other, &base(), covered(0, 0, 10, 10)),
        DamageEffect::FullSurface
    );
}

#[test]
fn rotated_ctm_falls_back_to_full_surface() {
    let mut s = base();
    s.axis_aligned = false;
    assert_eq!(
        classify_draw_damage(DrawCommand::FillRect, &s, covered(0, 0, 10, 10)),
        DamageEffect::FullSurface
    );
}

#[test]
fn non_finite_ctm_falls_back_to_full_surface() {
    assert_eq!(
        classify_draw_damage(DrawCommand::FillRect, &base(), Covered::Unknown),
        DamageEffect::FullSurface
    );
}

#[test]
fn zero_area_rect_paints_nothing() {
    assert_eq!(
        classify_draw_damage(DrawCommand::FillRect, &base(), Covered::Nothing),
        DamageEffect::NoDamage
    );
}

#[test]
fn state_commands_never_damage() {
    let mut s = base();
    s.shadow_visible = true;
    for cmd in [
        DrawCommand::BeginPath,
        DrawCommand::SetTransform,
        DrawCommand::Save,
        DrawCommand::Clip,
        DrawCommand::MeasureText,
        DrawCommand::GetImageData,
        DrawCommand::CaptureSnapshot,
        DrawCommand::CreateContext2D,
        DrawCommand::ResizeCanvas,
    ] {
        assert_eq!(
            classify_draw_damage(cmd, &s, covered(0, 0, 10, 10)),
            DamageEffect::NoDamage
        );
    }
}

#[test]
fn a_side_too_long_to_write_down_is_as_long_as_can_be() {
    assert_eq!(
        classify_draw_damage(
            DrawCommand::DrawImage,
            &base(),
            covered(i32::MIN, 0, i32::MAX, 4)
        ),
        rect(i32::MIN, 0, i32::MAX, 4)
    );
}
