use luminous::daemon::{
    ConnectStep, DaemonLink, DaemonSession, click_frame, handshake_plan, raster_from_segment,
    set_image_frame, shm_sizes,
};
use luminous::disk_cache::{DiskCacheKey, cache_file_name, disk_cache_key};
use luminous::image_loader::{ThumbSource, run_thumb_job};
use luminous::raster::Raster;

fn png_bytes(width: u32, height: u32, shade: u8) -> Vec<u8> {
    let img = image::RgbaImage::from_pixel(width, height, image::Rgba([shade, shade, shade, 255]));
    let mut cursor = std::io::Cursor::new(Vec::new());
    image::write_buffer_with_format(
        &mut cursor,
        img.as_raw(),
        width,
        height,
        image::ExtendedColorType::Rgba8,
        image::ImageFormat::Png,
    )
    .unwrap();
    cursor.into_inner()
}

#[test]
fn disk_key_is_deterministic() {
    let k1 = disk_cache_key("/pics/cat.png", 1700000000, 200);
    let k2 = disk_cache_key("/pics/cat.png", 1700000000, 200);
    assert_eq!(k1, k2);
    // A changed file (different mtime) or another path misses naturally.
    assert_ne!(k1, disk_cache_key("/pics/cat.png", 1700000001, 200));
    assert_ne!(k1, disk_cache_key("/pics/dog.png", 1700000000, 200));
    // Keys at different resolutions never collide.
    assert_ne!(k1, disk_cache_key("/pics/cat.png", 1700000000, 100));
}

#[test]
fn disk_key_exact_value() {
    // SHA-256 over the path bytes and the little-endian mtime seconds,
    // truncated to its first eight bytes read little-endian.
    let k = disk_cache_key("a", 1, 200);
    assert_eq!(k.fingerprint, 8835715413853470353);
    assert_eq!(k.resolution, 200);
    let name = cache_file_name(&k);
    assert_eq!(name, b"7a9ec45af32dfe91_200.png".to_vec());
}

#[test]
fn disk_cache_round_trip_skips_full_decode() {
    // First request: full decode, and bytes to store in the disk cache.
    let source = png_bytes(40, 30, 9);
    let first = run_thumb_job(None, Some(source.clone()), 20);
    assert!(matches!(first.source, ThumbSource::FullDecode));
    assert_eq!((first.raster.width, first.raster.height), (20, 15));
    let stored = first.disk_write.clone().expect("PNG encoding succeeds");

    // Second request at the same resolution: same key, and the disk-cache
    // file decodes directly — the full decode path is not taken.
    let k1 = disk_cache_key("/pics/same.png", 42, 20);
    let k2 = disk_cache_key("/pics/same.png", 42, 20);
    assert_eq!(cache_file_name(&k1), cache_file_name(&k2));
    let second = run_thumb_job(Some(stored), Some(source), 20);
    assert!(matches!(second.source, ThumbSource::DiskCache));
    assert!(second.disk_write.is_none());
    assert_eq!((second.raster.width, second.raster.height), (20, 15));
    assert_eq!(second.raster.data, first.raster.data);
}

#[test]
fn old_resolution_stays_retrievable_on_disk() {
    // After a resolution change the old disk entry is still keyed and found
    // under the old resolution.
    let old_key = disk_cache_key("/pics/cat.png", 7, 200);
    let _new_key = disk_cache_key("/pics/cat.png", 7, 100);
    let again = disk_cache_key("/pics/cat.png", 7, 200);
    assert_eq!(old_key, again);
    assert_eq!(cache_file_name(&old_key), cache_file_name(&again));

    let source = png_bytes(16, 16, 1);
    let first = run_thumb_job(None, Some(source), 8);
    let stored = first.disk_write.unwrap();
    let hit = run_thumb_job(Some(stored), None, 8);
    assert!(matches!(hit.source, ThumbSource::DiskCache));
}

#[test]
fn daemon_frames_are_exact_json_lines() {
    let frame = set_image_frame("shm_img_7", 640, 480);
    assert_eq!(
        frame,
        b"{\"action\":\"set_image\",\"shm_name\":\"shm_img_7\",\"width\":640,\"height\":480}\n"
            .to_vec()
    );
    let frame = click_frame("shm_mask_7", 12, 0);
    assert_eq!(
        frame,
        b"{\"action\":\"click\",\"shm_name\":\"shm_mask_7\",\"x\":12,\"y\":0}\n".to_vec()
    );
}

#[test]
fn daemon_session_buffers_until_connected() {
    let mut session = DaemonSession::new();
    assert!(matches!(session.link, DaemonLink::Connecting { attempts_left: 20 }));

    // An image handed over while the link is down is buffered, not sent.
    let raster = Raster { width: 2, height: 1, data: vec![1, 2, 3, 4, 5, 6, 7, 8] };
    assert!(!session.set_interactive_image(raster.clone()));

    // A failed attempt spends one retry.
    assert!(matches!(session.on_connect_attempt(false), ConnectStep::Retry));

    // On connection the buffered image is released to be sent.
    match session.on_connect_attempt(true) {
        ConnectStep::SendPending(p) => assert_eq!(p.data, raster.data),
        _ => panic!("expected the buffered image"),
    }
    assert!(matches!(session.link, DaemonLink::Connected));

    // Connected: the next image goes out at once; after the acknowledgment
    // clicks may target it.
    assert!(session.set_interactive_image(raster));
    assert!(session.click_target().is_none());
    session.record_image_sent(2, 1);
    let target = session.click_target().unwrap();
    assert_eq!((target.width, target.height), (2, 1));
}

#[test]
fn daemon_gives_up_after_attempt_budget() {
    let mut session = DaemonSession::new();
    for _ in 0..19 {
        assert!(matches!(session.on_connect_attempt(false), ConnectStep::Retry));
    }
    assert!(matches!(session.on_connect_attempt(false), ConnectStep::GiveUp));
    assert!(matches!(session.link, DaemonLink::Failed));
    // Disabled for the session: clicks have no target.
    assert!(session.click_target().is_none());
}

#[test]
fn subprocess_handshake_is_validated() {
    assert_eq!(handshake_plan("ready", 2, 2, 16), Some(16));
    assert_eq!(handshake_plan("ok", 3, 1, 12), Some(12));
    // Any other status is a decode failure.
    assert_eq!(handshake_plan("error", 2, 2, 16), None);
    // A byte count that is not four per pixel is rejected.
    assert_eq!(handshake_plan("ready", 2, 2, 15), None);
}

#[test]
fn segment_pixels_become_a_raster() {
    let bytes = vec![9u8; 24];
    let raster = raster_from_segment(bytes.clone(), 3, 2).unwrap();
    assert_eq!((raster.width, raster.height), (3, 2));
    assert_eq!(raster.data, bytes);
    assert!(raster_from_segment(vec![9u8; 23], 3, 2).is_none());
}

#[test]
fn shm_sizes_are_four_and_one_byte_per_pixel() {
    assert_eq!(shm_sizes(640, 480), Some((640 * 480 * 4, 640 * 480)));
    assert_eq!(shm_sizes(1, 1), Some((4, 1)));
}

#[test]
fn key_type_is_plain_data() {
    let k = DiskCacheKey { fingerprint: 5, resolution: 7 };
    let same = DiskCacheKey { fingerprint: 5, resolution: 7 };
    assert_eq!(k, same);
}
