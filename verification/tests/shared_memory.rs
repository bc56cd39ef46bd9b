use bookokrat::pdf::kittyv2::image::{
    rgb_for_shm, Dimensions, Image, ImageError, ImageId, ImageState, Transmission,
};
use bookokrat::pdf::kittyv2::kgfx::lease::ShmLease;
use bookokrat::pdf::kittyv2::kgfx::pool::{
    pool, PoolError, RegionPool, SlotFailure, DEFAULT_MIN_REUSE_AGE, DEFAULT_POOL_SIZE,
    DEFAULT_REGION_SIZE,
};
use bookokrat::pdf::kittyv2::kgfx::tracker::{
    can_unlink, tracker, unlink_path, LifecycleTracker, UnlinkAnswer, HARD_LIMIT, SOFT_LIMIT,
};
use bookokrat::pdf::kittyv2::terminal_canvas::probe::{
    probe_capabilities, probe_shared_memory, ProbeEvent, ProbeStep, ResponseReader, TransferMode,
    PROBE_IMAGE_ID, PROBE_TIMEOUT,
};

const SECOND: u64 = 1_000_000_000;

fn create_test_pool(pool_size: usize, region_size: usize) -> RegionPool {
    RegionPool::with_config_and_prefix(pool_size, region_size, "kgfxv2_test7_0".to_string(), 0)
}

fn write(pool: &mut RegionPool, data: &[u8], now: u64) -> Result<String, PoolError> {
    pool.write_and_get_path(data.len(), now, &None).map(|w| w.path)
}

#[test]
fn test_pool_initialization() {
    let mut pool = create_test_pool(3, 1024);

    assert!(!pool.is_initialized());

    let data = b"test data";
    let path = write(&mut pool, data, 0).expect("write failed");

    assert!(pool.is_initialized());
    assert!(path.contains("kgfxv2_test"));

    pool.clear();
}

#[test]
fn test_round_robin() {
    let mut pool = create_test_pool(3, 1024);

    let path1 = write(&mut pool, b"1", 0).expect("write 1 failed");
    let path2 = write(&mut pool, b"2", 0).expect("write 2 failed");
    let path3 = write(&mut pool, b"3", 0).expect("write 3 failed");
    let path4 = write(&mut pool, b"4", 0).expect("write 4 failed");

    assert_ne!(path1, path2);
    assert_ne!(path2, path3);
    assert_ne!(path1, path3);

    assert_eq!(path1, path4);

    pool.clear();
}

#[test]
fn test_size_limit() {
    let mut pool = create_test_pool(2, 100);

    let large_data = [0u8; 200];
    let err = write(&mut pool, &large_data, 0).expect_err("should fail");

    assert!(err.message().contains("200"));
    assert!(err.message().contains("100"));
    assert_eq!(err.message(), "data too large: 200 bytes exceeds slot size of 100 bytes");

    pool.clear();
}

#[test]
fn test_path_format() {
    let mut pool = create_test_pool(2, 1024);

    let path = write(&mut pool, b"test", 0).expect("write failed");

    assert!(path.starts_with('/'), "path {path} should start with /");
    assert!(path.contains("kgfxv2_test"), "path {path} should contain kgfxv2_test");

    pool.clear();
}

#[test]
fn test_explicit_initialization() {
    let mut pool = create_test_pool(2, 1024);

    pool.initialize(&None).expect("init failed");
    assert!(pool.is_initialized());

    pool.initialize(&None).expect("second init failed");

    pool.clear();
}

#[test]
fn test_default_pool_format() {
    let pid: u32 = 4711;
    let mut pool = RegionPool::with_config(1, 1024, pid);
    let path = write(&mut pool, b"test", 0).expect("write failed");

    let expected_prefix = format!("/kgfxv2_pool_{pid}_");
    assert!(path.starts_with(&expected_prefix), "path {path} should start with {expected_prefix}");

    pool.clear();
}

#[test]
fn regions_rest_before_they_are_used_again() {
    let mut pool = RegionPool::with_config_and_reuse_age(2, 10, SECOND, 1);
    assert_eq!(pool.min_reuse_age(), SECOND);
    assert_eq!(write(&mut pool, b"a", 0).unwrap(), "/kgfxv2_pool_1_0");
    assert_eq!(write(&mut pool, b"b", SECOND / 2).unwrap(), "/kgfxv2_pool_1_1");
    let err = write(&mut pool, b"c", SECOND - 1).expect_err("both are in use");
    assert_eq!(err.message(), "all pool slots are in use (min reuse age not elapsed)");
    assert_eq!(write(&mut pool, b"c", SECOND).unwrap(), "/kgfxv2_pool_1_0");
    // The second region is free before the first one is again.
    assert_eq!(write(&mut pool, b"d", SECOND + SECOND / 2).unwrap(), "/kgfxv2_pool_1_1");
    // The turn passes over a region that is in use.
    let mut pool = RegionPool::with_config_and_reuse_age(2, 10, SECOND, 1);
    assert_eq!(pool.write_and_get_path(1, 5 * SECOND, &None).unwrap().index, 0);
    assert_eq!(pool.write_and_get_path(1, SECOND, &None).unwrap().index, 1);
    assert_eq!(pool.write_and_get_path(1, 5 * SECOND, &None).unwrap().index, 1);
}

#[test]
fn failed_regions_leave_the_pool_empty() {
    let mut pool = create_test_pool(2, 10);
    assert_eq!(pool.paths_to_create(), vec!["/kgfxv2_test7_0_0".to_string(), "/kgfxv2_test7_0_1".to_string()]);
    let failure = Some(SlotFailure { index: 1, cause: "no space".to_string() });
    let err = pool.initialize(&failure).expect_err("the second region fails");
    assert_eq!(err.message(), "failed to create pool slot 1: no space");
    assert!(!pool.is_initialized());
    let err = pool.write_and_get_path(1, 0, &failure).expect_err("it still fails");
    assert!(matches!(err, PoolError::CreateFailed { index: 1, .. }));
    assert!(write(&mut pool, b"x", 0).is_ok());
    assert!(pool.paths_to_create().is_empty());
    assert!(pool.initialize(&failure).is_ok());
    assert_eq!(pool.clear().len(), 2);
    assert!(!pool.is_initialized());
    assert_eq!(write(&mut pool, b"x", 0).unwrap(), "/kgfxv2_test7_0_0");
}

#[test]
fn pools_without_regions_refuse() {
    let mut pool = create_test_pool(0, 10);
    let err = write(&mut pool, b"x", 0).expect_err("nothing to write to");
    assert_eq!(err.message(), "pool is empty");
}

#[test]
fn application_pool_has_the_usual_size() {
    let p = pool(3);
    assert_eq!(p.pool_size(), DEFAULT_POOL_SIZE);
    assert_eq!(p.pool_size(), 10);
    assert_eq!(p.region_size(), DEFAULT_REGION_SIZE);
    assert_eq!(p.region_size(), 32 * 1024 * 1024);
    assert_eq!(p.min_reuse_age(), DEFAULT_MIN_REUSE_AGE);
    assert_eq!(RegionPool::new(3).paths_to_create().len(), 10);
}

#[test]
fn test_basic_cleanup_after_limit() {
    let mut tracker = LifecycleTracker::new(0);
    tracker.set_position(100);

    for i in 0..25 {
        tracker.register(format!("kgfxv2-track-{i}"), 100, i, 0);
    }

    let r = tracker.register("kgfxv2-track-last".to_string(), 100, 50, 1_100_000_000);

    assert!(
        tracker.len() <= SOFT_LIMIT + 1,
        "queue length {} exceeds soft limit",
        tracker.len()
    );
    assert_eq!(tracker.len(), 20);
    assert_eq!(r.removed.len(), 6);
    assert_eq!(r.removed[0], "kgfxv2-track-0");
    assert_eq!(tracker.total_size(), 2000);

    assert_eq!(tracker.cleanup_all().len(), 20);
}

#[test]
fn test_protection_by_position() {
    let mut tracker = LifecycleTracker::new(0);
    tracker.set_position(10);

    let protected_positions: Vec<i64> = vec![8, 9, 10, 11, 12];
    for &pos in &protected_positions {
        tracker.register(format!("kgfxv2-prot-{pos}"), 100, pos, 0);
    }

    for i in 100..120 {
        tracker.register(format!("kgfxv2-prot-{i}"), 100, i, 0);
    }

    tracker.register("kgfxv2-prot-200".to_string(), 100, 200, 1_100_000_000);

    assert!(
        tracker.protected_count() >= protected_positions.len(),
        "protected count {} is less than expected {}",
        tracker.protected_count(),
        protected_positions.len()
    );
    assert_eq!(tracker.protected_count(), 5);

    tracker.cleanup_all();
}

#[test]
fn test_age_gate_prevents_premature_cleanup() {
    let mut tracker = LifecycleTracker::new(0);
    tracker.set_position(1000);

    for i in 0..30 {
        tracker.register(format!("kgfxv2-age-{i}"), 100, i, 0);
    }

    assert!(
        tracker.len() > SOFT_LIMIT,
        "queue length {} should exceed soft limit due to age gate",
        tracker.len()
    );

    tracker.cleanup_all();
}

#[test]
fn test_position_update() {
    let mut tracker = LifecycleTracker::new(0);

    tracker.set_position(5);
    assert_eq!(tracker.position(), 5);

    tracker.set_position(10);
    assert_eq!(tracker.position(), 10);

    assert!(tracker.is_protected(8));
    assert!(tracker.is_protected(12));
    assert!(!tracker.is_protected(7));
    assert!(!tracker.is_protected(13));
}

#[test]
fn test_saturating_size_tracking() {
    let mut tracker = LifecycleTracker::new(0);

    tracker.register("kgfxv2-sat-0".to_string(), 1000, 0, 0);
    assert_eq!(tracker.total_size(), 1000);

    tracker.cleanup_all();
    assert_eq!(tracker.total_size(), 0);
}

#[test]
fn sizes_do_not_overflow() {
    let mut tracker = LifecycleTracker::new(0);
    tracker.register("a".to_string(), usize::MAX, 0, 0);
    tracker.register("b".to_string(), 5, 0, 0);
    assert_eq!(tracker.total_size(), usize::MAX);
}

#[test]
fn protected_regions_go_only_above_the_hard_limit() {
    let mut tracker = LifecycleTracker::new(0);
    for i in 0..HARD_LIMIT {
        let r = tracker.register(format!("{i}"), 1, 0, 0);
        assert!(r.removed.is_empty());
    }
    // All are protected, and not old enough for the hard limit.
    let r = tracker.register("next".to_string(), 1, 0, 4 * SECOND);
    assert!(r.removed.is_empty());
    let r = tracker.register("last".to_string(), 1, 0, 5 * SECOND);
    assert_eq!(r.removed, vec!["0".to_string(), "1".to_string()]);
    assert_eq!(tracker.len(), HARD_LIMIT);
}

#[test]
fn far_positions_do_not_overflow() {
    let mut tracker = LifecycleTracker::new(0);
    tracker.set_position(i64::MAX);
    assert!(!tracker.is_protected(i64::MIN));
    assert!(tracker.is_protected(i64::MAX - 2));
    assert_eq!(tracker.dump_state().protected_max, i64::MAX as i128 + 2);
}

#[test]
fn reports_come_every_ten_seconds() {
    let mut t = tracker(0);
    assert!(t.is_empty());
    assert!(t.register("a".to_string(), 7, 0, 10 * SECOND - 1).stats.is_none());
    let stats = t.register("b".to_string(), 8, 9, 10 * SECOND).stats.expect("due");
    assert_eq!((stats.regions, stats.protected, stats.total_size, stats.position), (2, 1, 15, 0));
    assert!(t.register("c".to_string(), 7, 0, 11 * SECOND).stats.is_none());
    let dump = t.dump_state();
    assert_eq!((dump.protected_min, dump.protected_max, dump.total_size), (-2, 2, 22));
    assert_eq!(dump.entries.len(), 3);
    assert!(dump.entries[0].protected && !dump.entries[1].protected);
    assert_eq!((dump.entries[1].path.as_str(), dump.entries[1].position), ("b", 9));
}

#[test]
fn missing_paths_count_as_removed() {
    assert!(can_unlink("/a"));
    assert!(!can_unlink("/a\0b"));
    assert!(unlink_path("/a", UnlinkAnswer::Removed));
    assert!(unlink_path("/a", UnlinkAnswer::NotFound));
    assert!(!unlink_path("/a", UnlinkAnswer::Failed));
    assert!(!unlink_path("/a\0", UnlinkAnswer::Removed));
}

#[test]
fn queued_image_drop_unlinks_shm() {
    let path = "/bk_queued-drop_0";
    let data = [255u8, 0, 0];
    let id = ImageId::new(1);

    let (img, size) = Image::create_shm_from_rgb(&data, 1, 1, Ok(path.to_string()), id).expect("create SHM");
    assert_eq!(size, 3);

    let state = ImageState::Queued(img);
    assert!(!state.is_uploaded());
    assert_eq!(
        state.released().as_deref(),
        Some(path),
        "queued image drop should unlink SHM: {path}"
    );
    assert!(ImageState::Uploaded(id).is_uploaded());
    assert!(ImageState::Uploaded(id).released().is_none());
}

#[test]
fn handed_off_lease_keeps_shm_until_tracker_unlinks() {
    let path = "/bk_handoff_1";
    let data = [0u8, 255, 0];
    let id = ImageId::new(2);

    let (mut img, _) = Image::create_shm_from_rgb(&data, 1, 1, Ok(path.to_string()), id).expect("create SHM");

    let mut local_tracker = LifecycleTracker::new(0);
    if let Transmission::SharedMemory { shm } = &mut img.transmission {
        let lease = shm.take().expect("expected SHM lease");
        assert!(lease.handoff_to_tracker(0, &mut local_tracker, 0).removed.is_empty());
    } else {
        panic!("expected shared memory transmission");
    }
    assert!(
        ImageState::Queued(img).released().is_none(),
        "handed-off lease should not unlink SHM (tracker owns cleanup): {path}"
    );

    assert_eq!(local_tracker.cleanup_all(), vec![path.to_string()]);
}

#[test]
fn leases_know_their_region() {
    let lease = ShmLease::new("/p".to_string(), 9);
    assert_eq!((lease.path(), lease.size()), ("/p", 9));
    assert_eq!(lease.released().as_deref(), Some("/p"));
    assert!(ShmLease::new(String::new(), 9).released().is_none());
}

#[test]
fn images_need_as_many_bytes_as_pixels() {
    let id = ImageId::new(7);
    let region = || Ok("/r".to_string());
    let too_large = Image::create_shm_from_rgb(&[], 65536, 65536, region(), id).expect_err("overflow");
    assert_eq!(too_large.message(), "RGB size overflow");
    assert!(matches!(
        Image::create_shm_from_rgb(&[], 40000, 40000, region(), id),
        Err(ImageError::SizeOverflow)
    ));
    let short = Image::create_shm_from_rgb(&[1, 2], 1, 1, region(), id).expect_err("mismatch");
    assert_eq!(short.message(), "RGB buffer size mismatch");
    let rgb = image::RgbImage::from_raw(1, 2, vec![1, 2, 3, 4, 5, 6]).expect("six bytes");
    let img = || image::DynamicImage::ImageRgb8(rgb.clone());
    let long = image::RgbImage::from_raw(1, 1, vec![1, 2, 3, 4]).expect("more than enough");
    assert!(matches!(
        rgb_for_shm(&image::DynamicImage::ImageRgb8(long)),
        Err(ImageError::SizeMismatch)
    ));
    let refused = Image::create_shm_from(img(), Err("no shm".to_string()), id).expect_err("no region");
    assert_eq!(refused.message(), "no shm");
    let (shared, size) = Image::create_shm_from(img(), region(), id).expect("fits");
    assert_eq!(size, 6);
    assert_eq!(shared.dimensions(), Dimensions { width: 1, height: 2 });
    let direct = Image::from_dynamic(img(), id);
    assert_eq!((direct.id, direct.dimensions()), (id, Dimensions { width: 1, height: 2 }));
    match direct.transmission {
        Transmission::Direct { chunk_size, data } => {
            assert_eq!((chunk_size, data), (None, vec![1, 2, 3, 4, 5, 6]));
        }
        Transmission::SharedMemory { .. } => panic!("inline image"),
    }
    let bytes = Image::from_rgb_bytes(vec![9, 9, 9], 1, 1, id);
    assert_eq!(bytes.dimensions(), Dimensions { width: 1, height: 1 });
}

#[test]
fn other_pixels_become_red_green_and_blue() {
    let id = ImageId::new(7);
    let clear = image::RgbaImage::from_raw(2, 1, vec![1, 2, 3, 255, 4, 5, 6, 0]).expect("eight bytes");
    let grey = image::GrayImage::from_raw(1, 1, vec![7]).expect("one byte");
    for (img, width, expected) in [
        (image::DynamicImage::ImageRgba8(clear), 2, vec![1, 2, 3, 4, 5, 6]),
        (image::DynamicImage::ImageLuma8(grey), 1, vec![7, 7, 7]),
    ] {
        let pixels = rgb_for_shm(&img).expect("fits");
        assert_eq!((pixels.width, pixels.height), (width, 1));
        assert_eq!(pixels.data, expected);
        let (_, size) = Image::create_shm_from(img.clone(), Ok("/r".to_string()), id).expect("fits");
        assert_eq!(size, expected.len());
        let direct = Image::from_dynamic(img, id);
        assert_eq!(direct.dimensions(), Dimensions { width, height: 1 });
        match direct.transmission {
            Transmission::Direct { data, .. } => assert_eq!(data, expected),
            Transmission::SharedMemory { .. } => panic!("inline image"),
        }
    }
}

#[test]
fn probe_waits_for_an_answer() {
    assert_eq!((PROBE_TIMEOUT, PROBE_IMAGE_ID), (800_000_000, 1));
    let mut r = ResponseReader::new(PROBE_TIMEOUT, 5);
    let step = r.read_response_with_timeout(ProbeEvent::Clock { now: 5 });
    assert_eq!(step, ProbeStep::Poll { timeout_ms: 800 });
    let step = r.read_response_with_timeout(ProbeEvent::Input { bytes: vec![1, 2] });
    assert_eq!(step, ProbeStep::Parse);
    let step = r.read_response_with_timeout(ProbeEvent::Parsed { answer: None });
    assert_eq!(step, ProbeStep::ReadClock);
    let step = r.read_response_with_timeout(ProbeEvent::Clock { now: 5 + 799_500_000 });
    assert_eq!(step, ProbeStep::Poll { timeout_ms: 0 });
    let step = r.read_response_with_timeout(ProbeEvent::Input { bytes: vec![3] });
    assert_eq!(step, ProbeStep::Parse);
    assert_eq!(r.buffer(), &vec![1, 2, 3]);
    let step = r.read_response_with_timeout(ProbeEvent::Parsed { answer: Some(true) });
    assert_eq!(step, ProbeStep::Done { answer: Some(true) });
    assert_eq!(probe_shared_memory(step), Some(true));
    assert_eq!(probe_capabilities(Some(true)), TransferMode::SharedMemory);
}

#[test]
fn probe_gives_up() {
    let mut r = ResponseReader::new(PROBE_TIMEOUT, 0);
    for event in [
        ProbeEvent::Clock { now: PROBE_TIMEOUT },
        ProbeEvent::NoInput,
        ProbeEvent::Input { bytes: vec![] },
    ] {
        let step = r.read_response_with_timeout(event);
        assert_eq!(step, ProbeStep::Done { answer: None });
        assert_eq!(probe_shared_memory(step), Some(false));
    }
    for event in [ProbeEvent::PollFailed, ProbeEvent::ReadFailed] {
        let step = r.read_response_with_timeout(event);
        assert_eq!(step, ProbeStep::Failed);
        assert_eq!(probe_shared_memory(step), None);
    }
    assert_eq!(probe_shared_memory(ProbeStep::Done { answer: Some(false) }), Some(false));
    assert_eq!(probe_capabilities(Some(false)), TransferMode::Chunked);
    assert_eq!(probe_capabilities(None), TransferMode::Chunked);
    let mut long = ResponseReader::new(u64::MAX, 0);
    assert_eq!(
        long.read_response_with_timeout(ProbeEvent::Clock { now: 0 }),
        ProbeStep::Poll { timeout_ms: i32::MAX }
    );
}
