use graphics::surface_ledger::SurfaceLedger;

const CTX_A: usize = 0xA;
const CTX_B: usize = 0xB;
const WINDOW: usize = 0x100;
const PBUFFER: usize = 0x200;

#[test]
fn a_bound_surface_is_referenced_and_switching_away_releases_it() {
    let mut ledger = SurfaceLedger::default();
    ledger.made_current(Some(WINDOW), Some(WINDOW), Some(CTX_A));
    assert_eq!(ledger.references(WINDOW), 1);

    ledger.made_current(Some(PBUFFER), Some(PBUFFER), Some(CTX_B));
    assert_eq!(
        ledger.references(WINDOW),
        0,
        "switching the context away has to release the window surface"
    );
    assert_eq!(ledger.references(PBUFFER), 1);
}

#[test]
fn rebinding_the_same_context_does_not_accumulate() {
    let mut ledger = SurfaceLedger::default();
    for _ in 0..64 {
        ledger.made_current(Some(WINDOW), Some(WINDOW), Some(CTX_A));
    }
    assert_eq!(ledger.references(WINDOW), 1);
}

#[test]
fn separate_read_and_draw_surfaces_are_counted_separately() {
    let mut ledger = SurfaceLedger::default();
    ledger.made_current(Some(WINDOW), Some(PBUFFER), Some(CTX_A));
    assert_eq!(ledger.references(WINDOW), 1);
    assert_eq!(ledger.references(PBUFFER), 1);
    ledger.made_current(None, None, None);
    assert_eq!(ledger.references(WINDOW), 0);
    assert_eq!(ledger.references(PBUFFER), 0);
}

#[test]
fn one_surface_in_both_slots_is_one_reference() {
    let mut ledger = SurfaceLedger::default();
    ledger.made_current(Some(WINDOW), Some(WINDOW), Some(CTX_A));
    assert_eq!(ledger.references(WINDOW), 1);
}

#[test]
fn a_second_context_taking_the_surface_does_not_double_count() {
    let mut ledger = SurfaceLedger::default();
    ledger.made_current(Some(WINDOW), Some(WINDOW), Some(CTX_A));
    ledger.made_current(Some(WINDOW), Some(WINDOW), Some(CTX_B));
    assert_eq!(
        ledger.references(WINDOW),
        1,
        "CTX_A gave up the surface when the context changed"
    );
    ledger.made_current(Some(PBUFFER), Some(PBUFFER), Some(CTX_B));
    assert_eq!(ledger.references(WINDOW), 0);
}

#[test]
fn a_preserved_context_keeps_holding_what_it_bound() {
    let mut ledger = SurfaceLedger::default();
    ledger.made_current(Some(WINDOW), Some(WINDOW), Some(CTX_A));
    assert_eq!(ledger.references(WINDOW), 1);
    ledger.context_destroyed(CTX_A);
    assert_eq!(ledger.references(WINDOW), 0);
}

#[test]
fn destroying_a_context_that_is_not_current_leaves_the_live_binding_alone() {
    let mut ledger = SurfaceLedger::default();
    ledger.made_current(Some(WINDOW), Some(WINDOW), Some(CTX_A));
    ledger.context_destroyed(CTX_B);
    assert_eq!(ledger.references(WINDOW), 1);
}

#[test]
fn a_reused_surface_handle_does_not_inherit_the_old_count() {
    let mut ledger = SurfaceLedger::default();
    ledger.made_current(Some(WINDOW), Some(WINDOW), Some(CTX_A));
    ledger.surface_destroyed(WINDOW);
    assert_eq!(ledger.references(WINDOW), 0);
    ledger.made_current(Some(WINDOW), Some(WINDOW), Some(CTX_B));
    assert_eq!(ledger.references(WINDOW), 1);
}

#[test]
fn releasing_the_current_context_releases_its_surfaces() {
    let mut ledger = SurfaceLedger::default();
    ledger.made_current(Some(WINDOW), Some(WINDOW), Some(CTX_A));
    ledger.made_current(None, None, None);
    assert_eq!(ledger.references(WINDOW), 0);
}
