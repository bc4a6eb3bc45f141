use std::cell::RefCell;
use std::rc::Rc;

use graphics::fences::{
    classify_snapshot_fence, fence_failed_permanently, fence_signalled, SnapshotFenceStatus,
};
use graphics::gl_device::{Gl, GlCall, Transfer};
use graphics::pbo_upload::{
    check_pbo_support, first_reusable, should_try_ahb_upload, upload_texture_tiered,
    upload_texture_with_pbo_ext, ImageExtent, PboConfig, PboPool, TextureUploadPath, UploadFailure,
};
use graphics::uploads::{
    decide_async_upload_reject_action, deferred_upload_fits, should_latch_default_fbo_readback,
    stage_upload_drain, AsyncUploadRejectAction, AttemptOutcome, CompletedUpload, DrainReport,
    DroppedUpload, UploadEffect, UploadLedger, UploadServer, MAX_DEFERRED_BYTES,
    MAX_DEFERRED_UPLOADS,
};

#[test]
fn staging_keeps_deferred_uploads_ahead_of_newly_arrived_ones() {
    let mut scratch = Vec::new();
    let mut pending = vec![10u32, 11];
    let staged = stage_upload_drain(&mut scratch, &mut pending, |sink: &mut Vec<u32>| {
        sink.extend_from_slice(&[20, 21])
    });
    assert_eq!(staged, vec![10, 11, 20, 21]);
    assert!(
        pending.is_empty(),
        "the deferred list must be emptied, or its items are staged twice"
    );
}

#[test]
fn staging_starts_from_an_empty_buffer_even_if_the_scratch_was_dirty() {
    let mut scratch = vec![99u32, 98];
    let mut pending = vec![1u32];
    let staged =
        stage_upload_drain(&mut scratch, &mut pending, |sink: &mut Vec<u32>| sink.push(2));
    assert_eq!(
        staged,
        vec![1, 2],
        "a dirty scratch leaked last frame's uploads into this frame"
    );
}

#[test]
fn handler_rejection_sync_fallbacks_when_image_can_never_fit() {
    let mut server = UploadServer::new(4, 4 * 1024 * 1024);
    server.set_frame_budget(2, 512 * 1024);
    assert_eq!(
        decide_async_upload_reject_action(true, Some(&server), 600 * 1024),
        AsyncUploadRejectAction::SyncFallback
    );
}

#[test]
fn deferred_retry_rejection_stays_deferred_when_budget_pressure_is_temporary() {
    let mut server = UploadServer::new(4, 4 * 1024 * 1024);
    server.set_frame_budget(2, 512 * 1024);
    assert_eq!(
        decide_async_upload_reject_action(true, Some(&server), 256 * 1024),
        AsyncUploadRejectAction::DeferRetry
    );
}

#[test]
fn handler_rejection_sync_fallbacks_when_upload_thread_is_degraded() {
    let mut server = UploadServer::new(4, 4 * 1024 * 1024);
    server.set_frame_budget(2, 512 * 1024);
    assert_eq!(
        decide_async_upload_reject_action(false, Some(&server), 256 * 1024),
        AsyncUploadRejectAction::SyncFallback
    );
}

#[test]
fn handler_rejection_sync_fallbacks_without_upload_server() {
    assert_eq!(
        decide_async_upload_reject_action(true, None, 256 * 1024),
        AsyncUploadRejectAction::SyncFallback
    );
}

#[test]
fn default_fbo_readback_latch_only_on_first_signal() {
    assert!(should_latch_default_fbo_readback(false));
    assert!(!should_latch_default_fbo_readback(true));
}

#[test]
fn deferred_upload_queue_is_fifo() {
    let mut ledger = UploadLedger::new(None);
    assert!(ledger.defer_upload(1, 4));
    assert!(ledger.defer_upload(2, 4));
    assert!(ledger.defer_upload(3, 4));
    let report = ledger.fail_pending_sync_responders();
    assert_eq!(report.deferred[0].image_id, 1);
    assert_eq!(report.deferred[1].image_id, 2);
    assert_eq!(report.deferred[2].image_id, 3);
}

#[test]
fn max_deferred_uploads_constant_is_reasonable() {
    assert!(MAX_DEFERRED_UPLOADS >= 32);
    assert!(MAX_DEFERRED_UPLOADS <= 4096);
}

#[test]
fn wait_failed_is_permanent_but_timeout_is_deferred() {
    assert!(fence_failed_permanently(glow::WAIT_FAILED));
    assert!(!fence_failed_permanently(glow::TIMEOUT_EXPIRED));
    assert!(!fence_failed_permanently(glow::ALREADY_SIGNALED));
}

#[test]
fn deferred_upload_byte_budget_rejects_before_entry_cap() {
    assert!(deferred_upload_fits(MAX_DEFERRED_UPLOADS - 1, MAX_DEFERRED_BYTES - 4, 4));
    assert!(!deferred_upload_fits(MAX_DEFERRED_UPLOADS - 1, MAX_DEFERRED_BYTES - 4, 5));
    assert!(!deferred_upload_fits(0, MAX_DEFERRED_BYTES, 1));
}

#[test]
fn snapshot_fence_status_has_explicit_timeout_and_failure_results() {
    assert_eq!(
        classify_snapshot_fence(glow::ALREADY_SIGNALED),
        SnapshotFenceStatus::Signalled
    );
    assert_eq!(
        classify_snapshot_fence(glow::TIMEOUT_EXPIRED),
        SnapshotFenceStatus::Timeout
    );
    assert_eq!(classify_snapshot_fence(glow::WAIT_FAILED), SnapshotFenceStatus::Failed);
}

#[test]
fn only_a_signalled_fence_means_the_gpu_is_done() {
    assert!(fence_signalled(glow::ALREADY_SIGNALED));
    assert!(fence_signalled(glow::CONDITION_SATISFIED));
    assert!(
        !fence_signalled(glow::TIMEOUT_EXPIRED),
        "an unfinished fence was reported as passed"
    );
    assert!(
        !fence_signalled(glow::WAIT_FAILED),
        "a driver that refused to answer was read as a yes"
    );
    let all = [
        glow::ALREADY_SIGNALED,
        glow::CONDITION_SATISFIED,
        glow::TIMEOUT_EXPIRED,
        glow::WAIT_FAILED,
    ];
    for (i, a) in all.iter().enumerate() {
        for b in &all[i + 1..] {
            assert_ne!(a, b, "two wait statuses share a value");
        }
    }
    for bogus in [0u32, 1, 0xFFFF_FFFF] {
        if !all.contains(&bogus) {
            assert!(!fence_signalled(bogus), "an unknown status was read as a passed fence");
        }
    }
}

#[test]
fn an_empty_pool_has_nothing_to_reuse() {
    assert_eq!(first_reusable(&[], 1024), None);
}

#[test]
fn a_ready_entry_of_sufficient_size_is_reused() {
    assert_eq!(first_reusable(&[(2048, true)], 1024), Some(0));
    assert_eq!(first_reusable(&[(1024, true)], 1024), Some(0));
}

#[test]
fn an_entry_smaller_than_the_request_is_never_reused() {
    assert_eq!(first_reusable(&[(512, true)], 1024), None);
}

#[test]
fn an_entry_still_in_flight_is_skipped_not_waited_for() {
    assert_eq!(first_reusable(&[(4096, false)], 1024), None);
}

#[test]
fn the_scan_looks_past_an_in_flight_entry_to_a_ready_one() {
    assert_eq!(first_reusable(&[(4096, false), (2048, true)], 1024), Some(1));
}

#[test]
fn the_scan_looks_past_a_too_small_entry_to_a_ready_one() {
    assert_eq!(first_reusable(&[(256, true), (2048, true)], 1024), Some(1));
    assert_eq!(
        first_reusable(&[(256, true), (512, false), (2048, true)], 1024),
        Some(2)
    );
}

#[test]
fn a_pool_with_no_qualifying_entry_reports_none() {
    assert_eq!(
        first_reusable(&[(256, true), (4096, false), (512, true)], 1024),
        None
    );
}

#[test]
fn first_fit_over_a_size_sorted_pool_is_best_fit() {
    assert_eq!(
        first_reusable(&[(1024, true), (2048, true), (4096, true)], 1024),
        Some(0)
    );
    assert_eq!(
        first_reusable(&[(1024, true), (2048, true), (4096, true)], 2000),
        Some(1)
    );
}

#[test]
fn legacy_ahb_upload_obeys_the_session_circuit_breaker() {
    assert!(should_try_ahb_upload(true, true, true));
    assert!(!should_try_ahb_upload(false, true, true));
    assert!(!should_try_ahb_upload(true, false, true));
    assert!(!should_try_ahb_upload(true, true, false));
}

#[test]
fn select_path_prefers_immutable_when_everything_available() {
    assert_eq!(
        TextureUploadPath::select(true, true, true),
        TextureUploadPath::PboImmutable
    );
}

#[test]
fn select_path_falls_back_to_mutable_pbo_when_no_tex_storage() {
    assert_eq!(
        TextureUploadPath::select(true, false, true),
        TextureUploadPath::PboMutable
    );
}

#[test]
fn select_path_uses_sync_when_pbo_unavailable() {
    assert_eq!(
        TextureUploadPath::select(false, true, true),
        TextureUploadPath::Synchronous
    );
    assert_eq!(
        TextureUploadPath::select(false, false, true),
        TextureUploadPath::Synchronous
    );
}

#[test]
fn select_path_uses_sync_when_data_is_empty() {
    for use_pbo in [false, true] {
        for has_ts in [false, true] {
            assert_eq!(
                TextureUploadPath::select(use_pbo, has_ts, false),
                TextureUploadPath::Synchronous
            );
        }
    }
}

#[test]
fn select_tiered_uses_ahb_at_api_26_capability_boundary() {
    assert_eq!(
        TextureUploadPath::select_tiered(true, true, true, true, true, true),
        TextureUploadPath::Ahb
    );
    assert_eq!(
        TextureUploadPath::select_tiered(false, true, true, true, true, true),
        TextureUploadPath::PboImmutable
    );
    assert_eq!(
        TextureUploadPath::select_tiered(false, true, true, true, false, true),
        TextureUploadPath::PboMutable
    );
}

#[test]
fn select_tiered_uses_sync_for_empty_data_even_when_ahb_is_available() {
    assert_eq!(
        TextureUploadPath::select_tiered(true, true, true, true, true, false),
        TextureUploadPath::Synchronous
    );
}

#[test]
fn select_path_is_deterministic_across_identical_inputs() {
    for _ in 0..10 {
        assert_eq!(
            TextureUploadPath::select(true, true, true),
            TextureUploadPath::PboImmutable
        );
    }
}

#[test]
fn buffers_of_up_to_four_mebibytes_are_used_by_default() {
    let config = PboConfig::default();
    assert!(config.enabled);
    assert_eq!(config.max_buffer_size, 4194304);
}

#[test]
fn pixel_buffers_come_with_version_three() {
    assert!(check_pbo_support("OpenGL ES 3.2 build"));
    assert!(check_pbo_support("4.6 core"));
    assert!(!check_pbo_support("OpenGL ES 2.0"));
}

fn complete(image_id: u64, byte_len: usize) -> CompletedUpload {
    CompletedUpload { image_id, texture: 7, fence: 70, byte_len, width: 3, height: 2 }
}

#[test]
fn a_steady_state_upload_drain_never_reaches_the_heap() {
    let mut scratch: Vec<u32> = Vec::new();
    let mut pending: Vec<u32> = vec![0];
    let arriving = [1u32, 2, 3, 4];
    let mut seen = None;
    let mut decoys: Vec<Vec<u32>> = Vec::with_capacity(128);
    for frame in 0..72 {
        let mut staged = stage_upload_drain(&mut scratch, &mut pending, |sink: &mut Vec<u32>| {
            decoys.push(Vec::with_capacity(sink.capacity()));
            sink.extend_from_slice(&arriving)
        });
        for item in staged.drain(..) {
            if item == 0 {
                pending.push(item);
            }
        }
        scratch = staged;
        decoys.push(Vec::with_capacity(pending.capacity()));
        let buffers = (
            (scratch.as_ptr() as usize, scratch.capacity()),
            (pending.as_ptr() as usize, pending.capacity()),
        );
        if frame >= 8 {
            assert_eq!(seen.unwrap_or(buffers), buffers, "a buffer was bought anew");
        }
        seen = Some(buffers);
    }
    assert_eq!(pending, vec![0], "the unready item must stay deferred");
}

#[test]
fn finished_uploads_are_registered_and_answered() {
    let mut server = UploadServer::new(4, 4096);
    server.set_frame_budget(4, 4096);
    let mut ledger = UploadLedger::new(Some(server));
    assert!(ledger.submit_async_upload(true, 5, 24, |_| true));
    let mut report = DrainReport::new();
    ledger.drain_upload_completed(
        |sink: &mut Vec<CompletedUpload>| sink.push(complete(5, 24)),
        |_: &mut Vec<DroppedUpload>| {},
        |_| glow::ALREADY_SIGNALED,
        &mut report,
    );
    assert!(report
        .effects
        .contains(&UploadEffect::Register { image_id: 5, texture: 7, width: 3, height: 2 }));
    assert!(report
        .effects
        .contains(&UploadEffect::ReplyLoaded { image_id: 5, width: 3, height: 2 }));
    assert!(!ledger.has_outstanding_upload_work());
}

#[test]
fn a_slow_upload_stays_and_a_refused_one_goes() {
    let mut ledger = UploadLedger::new(None);
    let mut effects = Vec::new();
    ledger.settle(complete(1, 8), glow::TIMEOUT_EXPIRED, &mut effects);
    assert!(effects.is_empty());
    assert!(ledger.has_outstanding_upload_work());
    ledger.settle(complete(2, 8), glow::WAIT_FAILED, &mut effects);
    assert!(effects.contains(&UploadEffect::DeleteTexture { texture: 7 }));
}

#[test]
fn a_destroyed_image_is_discarded_when_its_upload_arrives() {
    let mut ledger = UploadLedger::new(None);
    assert!(ledger.submit_async_upload(true, 9, 4, |_| true));
    assert_eq!(
        ledger.cancel_pending_load(9),
        Some(UploadEffect::ReplyCancelled { image_id: 9 })
    );
    assert_eq!(ledger.cancel_pending_load(9), None);
    let mut effects = Vec::new();
    ledger.settle(complete(9, 4), glow::ALREADY_SIGNALED, &mut effects);
    assert!(!effects.iter().any(|e| matches!(e, UploadEffect::Register { .. })));
    assert!(effects.contains(&UploadEffect::DeleteTexture { texture: 7 }));
}

#[test]
fn uploads_that_waited_are_retried_in_order() {
    let mut server = UploadServer::new(8, 4096);
    server.set_frame_budget(2, 100);
    let mut ledger = UploadLedger::new(Some(server));
    assert!(ledger.defer_upload(1, 60));
    assert!(ledger.defer_upload(2, 60));
    assert_eq!(ledger.deferred_upload_bytes(), 120);
    let attempts = ledger.try_drain_deferred_uploads(true, |_| true);
    assert_eq!(attempts[0].image_id, 1);
    assert_eq!(attempts[0].outcome, AttemptOutcome::Submitted);
    assert_eq!(attempts[1].image_id, 2);
    assert_eq!(attempts[1].outcome, AttemptOutcome::StaysDeferred);
    assert_eq!(ledger.deferred_uploads_len(), 1);
    assert_eq!(ledger.take_upload_frame_rejections(), 1);
    assert_eq!(ledger.take_upload_frame_rejections(), 0);
}

#[test]
fn a_budget_takes_jobs_until_it_is_spent() {
    let mut server = UploadServer::new(2, 100);
    server.set_frame_budget(2, 100);
    assert!(server.try_acquire_job(60));
    assert!(!server.try_acquire_job(60));
    assert_eq!(server.frame_rejections(), 1);
    server.finish_job_bytes(60);
    assert_eq!(server.queue_depth(), 0);
    assert!(server.can_ever_fit_bytes(100));
    assert!(!server.can_ever_fit_bytes(101));
}

/// A driver that keeps account of a few bindings.
#[derive(Default)]
struct Driver {
    next: u32,
    texture: u32,
    alignment: u32,
    unpack: u32,
    wait: u32,
    refuse_buffers: bool,
    refuse_textures: bool,
    refuse_storage: bool,
    error: u32,
    log: Vec<GlCall>,
}

fn run(driver: &Rc<RefCell<Driver>>) -> impl Fn(GlCall) -> u32 {
    let driver = driver.clone();
    move |call| {
        let mut d = driver.borrow_mut();
        d.log.push(call);
        match call {
            GlCall::GetInteger { pname } => {
                if pname == glow::TEXTURE_BINDING_2D {
                    d.texture
                } else {
                    d.alignment
                }
            }
            GlCall::CreateTexture => {
                if d.refuse_textures {
                    return 0;
                }
                d.next += 1;
                d.next
            }
            GlCall::CreateBuffer => {
                if d.refuse_buffers {
                    return 0;
                }
                d.next += 1;
                d.next
            }
            GlCall::FenceSync => {
                d.next += 1;
                d.next
            }
            GlCall::BindTexture { name, .. } => {
                d.texture = name;
                0
            }
            GlCall::BindBuffer { name, .. } => {
                d.unpack = name;
                0
            }
            GlCall::PixelStore { value, .. } => {
                d.alignment = value;
                0
            }
            GlCall::ClientWaitSync { .. } => d.wait,
            GlCall::TexStorage2D { .. } => {
                if d.refuse_storage {
                    d.error = glow::OUT_OF_MEMORY;
                }
                0
            }
            GlCall::GetError => std::mem::take(&mut d.error),
            _ => 0,
        }
    }
}

const IMAGE: ImageExtent = ImageExtent { width: 4, height: 2, bytes: 32 };

#[test]
fn an_upload_gives_the_callers_bindings_back() {
    for (use_pbo, storage, path, how) in [
        (true, true, TextureUploadPath::PboImmutable, Transfer::SubImage),
        (true, false, TextureUploadPath::PboMutable, Transfer::Image),
        (false, true, TextureUploadPath::Synchronous, Transfer::Image),
    ] {
        let driver = Rc::new(RefCell::new(Driver {
            next: 100,
            texture: 5,
            alignment: 8,
            ..Driver::default()
        }));
        let mut gl = Gl::new(run(&driver));
        let up = upload_texture_with_pbo_ext(&mut gl, &IMAGE, use_pbo, &mut None, storage)
            .expect("uploaded");
        assert_eq!(up.path_taken, path);
        assert_eq!((up.width, up.height), (4, 2));
        let d = driver.borrow();
        assert_eq!((d.texture, d.alignment, d.unpack), (5, 8, 0));
        assert!(d.log.contains(&GlCall::TransferPixels { how, width: 4, height: 2 }));
        assert_eq!(
            d.log.iter().any(|c| matches!(c, GlCall::TexStorage2D { .. })),
            path == TextureUploadPath::PboImmutable
        );
        assert_eq!(
            d.log.iter().any(|c| matches!(c, GlCall::DeleteBuffer { .. })),
            path != TextureUploadPath::Synchronous
        );
    }
}

#[test]
fn a_layout_that_cannot_be_allocated_is_made_anew() {
    let driver = Rc::new(RefCell::new(Driver {
        next: 100,
        refuse_storage: true,
        ..Driver::default()
    }));
    let mut gl = Gl::new(run(&driver));
    let up = upload_texture_with_pbo_ext(&mut gl, &IMAGE, true, &mut None, true).expect("uploaded");
    assert_eq!(up.path_taken, TextureUploadPath::PboMutable);
    let d = driver.borrow();
    assert!(d.log.contains(&GlCall::TransferPixels { how: Transfer::Image, width: 4, height: 2 }));
    assert!(!d.log.iter().any(|c| matches!(
        c,
        GlCall::TransferPixels { how: Transfer::SubImage, .. }
    )));
}

#[test]
fn a_lost_context_answers_everyone_who_waits() {
    let mut ledger = UploadLedger::new(None);
    assert!(ledger.defer_upload(1, 4));
    assert!(ledger.defer_upload(2, 4));
    assert!(ledger.submit_async_upload(true, 9, 4, |_: u32| true));
    let report = ledger.fail_pending_sync_responders();
    assert_eq!(report.drained(), 3);
    assert_eq!(
        report.effects,
        vec![
            UploadEffect::ReplyContextLost { image_id: 9 },
            UploadEffect::ReplyDeferredContextLost { image_id: 1 },
            UploadEffect::ReplyDeferredContextLost { image_id: 2 },
        ]
    );
    assert_eq!(ledger.fail_pending_sync_responders().drained(), 0);
}

#[test]
fn the_smallest_buffer_that_fits_is_taken() {
    let driver = Rc::new(RefCell::new(Driver {
        next: 10,
        wait: glow::ALREADY_SIGNALED,
        ..Driver::default()
    }));
    let mut gl = Gl::new(run(&driver));
    let mut pool = PboPool::new("OpenGL ES 3.0", 4);
    let large = pool.acquire(&mut gl, 256).expect("made");
    let small = pool.acquire(&mut gl, 64).expect("made");
    pool.release(&mut gl, large, 256);
    pool.release(&mut gl, small, 64);
    assert_eq!(pool.acquire(&mut gl, 48), Some(small));
    assert_eq!(pool.acquire(&mut gl, 48), Some(large));
    assert!(!driver.borrow().log.iter().any(|c| matches!(
        c,
        GlCall::ClientWaitSync { timeout, .. } if *timeout != 0
    )));
}

#[test]
fn an_upload_names_what_could_not_be_had() {
    let driver = Rc::new(RefCell::new(Driver { refuse_textures: true, ..Driver::default() }));
    let mut gl = Gl::new(run(&driver));
    assert_eq!(
        upload_texture_with_pbo_ext(&mut gl, &IMAGE, true, &mut None, true).err(),
        Some(UploadFailure::CreateTexture)
    );
    let driver = Rc::new(RefCell::new(Driver { refuse_buffers: true, ..Driver::default() }));
    let mut gl = Gl::new(run(&driver));
    assert_eq!(
        upload_texture_with_pbo_ext(&mut gl, &IMAGE, true, &mut None, true).err(),
        Some(UploadFailure::CreateBuffer)
    );
}

#[test]
fn a_failed_hardware_buffer_goes_on_without_one() {
    let driver = Rc::new(RefCell::new(Driver { next: 100, ..Driver::default() }));
    let disabled = Rc::new(RefCell::new(0));
    let count = disabled.clone();
    let mut gl = Gl::new(run(&driver));
    let up = upload_texture_tiered(
        &mut gl,
        &IMAGE,
        true,
        true,
        &mut None,
        true,
        || None,
        move || {
            *count.borrow_mut() += 1;
            true
        },
    )
    .expect("uploaded");
    assert_eq!(up.path_taken, TextureUploadPath::PboImmutable);
    assert_eq!(*disabled.borrow(), 1);
    let imported =
        upload_texture_tiered(&mut gl, &IMAGE, true, true, &mut None, true, || Some(77), || true)
            .expect("imported");
    assert_eq!(imported.path_taken, TextureUploadPath::Ahb);
    assert_eq!(imported.texture, 77);
}

#[test]
fn a_pool_hands_out_buffers_that_the_gpu_is_done_with() {
    let driver = Rc::new(RefCell::new(Driver {
        next: 10,
        wait: glow::TIMEOUT_EXPIRED,
        ..Driver::default()
    }));
    let mut gl = Gl::new(run(&driver));
    let mut pool = PboPool::new("OpenGL ES 3.0", 4);
    assert!(pool.is_pbo_supported());
    let first = pool.acquire(&mut gl, 64).expect("made");
    assert_eq!(pool.in_flight_bytes(), 64);
    pool.release(&mut gl, first, 64);
    assert_eq!((pool.reserved_bytes(), pool.in_flight_bytes()), (64, 0));
    let second = pool.acquire(&mut gl, 64).expect("made");
    assert_ne!(first, second, "a buffer in flight was handed out");
    pool.release(&mut gl, second, 64);
    driver.borrow_mut().wait = glow::ALREADY_SIGNALED;
    assert_eq!(pool.acquire(&mut gl, 32), Some(first));
    pool.clear(&mut gl);
    assert_eq!((pool.reserved_bytes(), pool.in_flight_bytes()), (0, 0));
    assert!(driver.borrow().log.contains(&GlCall::DeleteBuffer { name: second }));
}

#[test]
fn a_pool_prefers_the_smallest_buffer_that_fits() {
    let driver = Rc::new(RefCell::new(Driver {
        next: 10,
        wait: glow::ALREADY_SIGNALED,
        ..Driver::default()
    }));
    let mut gl = Gl::new(run(&driver));
    let mut pool = PboPool::new("OpenGL ES 3.0", 4);
    pool.release(&mut gl, 1, 4096);
    pool.release(&mut gl, 2, 1024);
    pool.release(&mut gl, 3, 2048);
    assert_eq!(pool.acquire(&mut gl, 1500), Some(3));
    assert_eq!(pool.acquire(&mut gl, 1500), Some(1));
}

#[test]
fn a_pool_without_pixel_buffers_has_none() {
    let driver = Rc::new(RefCell::new(Driver::default()));
    let mut gl = Gl::new(run(&driver));
    let mut pool = PboPool::new("OpenGL ES 2.0", 4);
    assert_eq!(pool.acquire(&mut gl, 64), None);
    assert!(driver.borrow().log.is_empty());
}
