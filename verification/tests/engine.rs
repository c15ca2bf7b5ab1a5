use luminous::image_loader::{CommitOutcome, ImageLoader, ThumbSource, run_full_job, run_thumb_job};
use luminous::raster::Raster;

fn sample_raster(width: u32, height: u32, seed: u8) -> Raster {
    let mut data = Vec::new();
    for i in 0..(4 * width as usize * height as usize) {
        data.push(seed.wrapping_add(i as u8));
    }
    Raster { width, height, data }
}

fn ten_paths() -> Vec<String> {
    (0..10).map(|i| format!("img{}.png", i)).collect()
}

fn png_bytes(width: u32, height: u32, shade: u8) -> Vec<u8> {
    let img = image::RgbaImage::from_pixel(width, height, image::Rgba([shade, 0, 255 - shade, 255]));
    let mut cursor = std::io::Cursor::new(Vec::new());
    image::write_buffer_with_format(
        &mut cursor,
        img.as_raw(),
        width,
        height,
        image::ExtendedColorType::Rgba8,
        image::ImageFormat::Png,
    )
    .unwrap();
    cursor.into_inner()
}

#[test]
fn window_wraparound_retained_set() {
    let mut loader = ImageLoader::new(ten_paths(), 2, 200);
    for i in 0..10usize {
        let (_, job) = loader.load_full_progressive(i);
        let job = job.unwrap();
        let outcome = loader.commit_full(job.generation, i, sample_raster(2, 2, i as u8));
        assert!(matches!(outcome, CommitOutcome::Delivered));
    }
    let preloads = loader.update_sliding_window(0);
    // Everything in the window was already cached, so nothing is preloaded.
    assert!(preloads.is_empty());
    for i in 0..10usize {
        let expected = matches!(i, 8 | 9 | 0 | 1 | 2);
        assert_eq!(loader.full(i).is_some(), expected, "index {}", i);
    }
}

#[test]
fn window_preloads_uncached_neighbors() {
    let mut loader = ImageLoader::new(ten_paths(), 2, 200);
    let preloads = loader.update_sliding_window(0);
    let indices: Vec<usize> = preloads.iter().map(|j| j.index).collect();
    assert_eq!(indices, vec![1, 2, 8, 9]);
    assert!(loader.preload_should_run(1));
    assert!(!loader.preload_should_run(5));
    assert!(loader.commit_preload(1, sample_raster(2, 2, 1)));
    assert!(!loader.preload_should_run(1));
    // A preload that drifted out of the window is discarded.
    assert!(!loader.commit_preload(5, sample_raster(2, 2, 5)));
    assert!(loader.full(5).is_none());
}

#[test]
fn generation_cancellation() {
    let mut loader = ImageLoader::new(ten_paths(), 1, 200);
    let (_, j1) = loader.load_full_progressive(3);
    let j1 = j1.unwrap();
    let (_, j2) = loader.load_full_progressive(7);
    let j2 = j2.unwrap();
    assert!(j1.generation < j2.generation);

    // The older job finishes late: its result is neither cached nor shown.
    let outcome = loader.commit_full(j1.generation, 3, sample_raster(4, 4, 3));
    assert!(matches!(outcome, CommitOutcome::Stale));
    assert!(loader.full(3).is_none());

    // The newer job commits and is shown: its index is still on display.
    let outcome = loader.commit_full(j2.generation, 7, sample_raster(4, 4, 7));
    assert!(matches!(outcome, CommitOutcome::Delivered));
    assert!(loader.full(7).is_some());
}

#[test]
fn late_commit_for_undisplayed_index_is_cached_only() {
    let mut loader = ImageLoader::new(ten_paths(), 1, 200);
    let (_, j1) = loader.load_full_progressive(3);
    let j1 = j1.unwrap();
    // Navigation moved on, but no newer full-view request was made for j1's
    // generation to go stale; update_sliding_window changes the display.
    let _ = loader.update_sliding_window(4);
    let outcome = loader.commit_full(j1.generation, 3, sample_raster(4, 4, 3));
    assert!(matches!(outcome, CommitOutcome::CachedOnly));
    assert!(loader.full(3).is_some());
}

#[test]
fn thumbnail_idempotence() {
    let mut loader = ImageLoader::new(ten_paths(), 1, 200);
    let raster = sample_raster(3, 3, 9);
    loader.commit_thumb(4, raster.clone());
    let (first, job1) = loader.load_grid_thumb(4);
    let first = first.unwrap().clone();
    assert!(job1.is_none());
    let (second, job2) = loader.load_grid_thumb(4);
    let second = second.unwrap().clone();
    assert!(job2.is_none());
    assert_eq!(first.width, raster.width);
    assert_eq!(first.data, raster.data);
    assert_eq!(second.width, first.width);
    assert_eq!(second.data, first.data);
}

#[test]
fn grid_miss_schedules_one_job() {
    let loader = ImageLoader::new(ten_paths(), 1, 200);
    let (cached, job) = loader.load_grid_thumb(2);
    assert!(cached.is_none());
    let job = job.unwrap();
    assert_eq!(job.index, 2);
    assert_eq!(job.path, "img2.png");
    assert_eq!(job.resolution, 200);
    // An index outside the catalog yields neither an answer nor a job.
    let (cached, job) = loader.load_grid_thumb(10);
    assert!(cached.is_none() && job.is_none());
}

#[test]
fn resolution_change_invalidates_memory_cache() {
    let mut loader = ImageLoader::new(ten_paths(), 1, 200);
    loader.commit_thumb(0, sample_raster(2, 2, 1));
    loader.commit_thumb(1, sample_raster(2, 2, 2));
    assert!(loader.thumb(0).is_some());

    loader.set_bucket_resolution(100);
    assert!(loader.thumb(0).is_none());
    assert!(loader.thumb(1).is_none());
    // The next request decodes anew, at the new bucket resolution.
    let (cached, job) = loader.load_grid_thumb(0);
    assert!(cached.is_none());
    assert_eq!(job.unwrap().resolution, 100);
    // The full-resolution cache is untouched.
    let (_, j) = loader.load_full_progressive(5);
    let j = j.unwrap();
    loader.commit_full(j.generation, 5, sample_raster(2, 2, 3));
    loader.set_bucket_resolution(50);
    assert!(loader.full(5).is_some());
}

#[test]
fn end_to_end_grid_range() {
    let mut loader = ImageLoader::new(
        (0..5).map(|i| format!("pic{}.png", i)).collect(),
        1,
        200,
    );
    let jobs = loader.request_grid_range(0, 3);
    assert_eq!(jobs.len(), 3);
    let mut delivered: Vec<(usize, Raster)> = Vec::new();
    for job in jobs {
        let source = png_bytes(6, 4, job.index as u8);
        let output = run_thumb_job(None, Some(source), job.resolution);
        assert!(matches!(output.source, ThumbSource::FullDecode));
        loader.commit_thumb(job.index, output.raster.clone());
        delivered.push((job.index, output.raster));
    }
    assert_eq!(delivered.len(), 3);
    for (index, raster) in &delivered {
        // Not the 1-by-1 placeholder: the source files were valid.
        assert_eq!((raster.width, raster.height), (6, 4));
        let cached = loader.thumb(*index).unwrap();
        assert_eq!(cached.width, raster.width);
        assert_eq!(cached.data, raster.data);
    }
    assert!(loader.thumb(3).is_none());
    assert!(loader.thumb(4).is_none());
    // The second request over the same range finds everything cached.
    assert!(loader.request_grid_range(0, 3).is_empty());
}

#[test]
fn decoded_dimensions_are_served_exactly() {
    let bytes = png_bytes(7, 5, 40);
    let decoded = run_thumb_job(None, Some(bytes), 200);
    assert!(matches!(decoded.source, ThumbSource::FullDecode));
    // 7 by 5 fits within the 200 box, so the decode step's dimensions stand.
    assert_eq!((decoded.raster.width, decoded.raster.height), (7, 5));
    let mut loader = ImageLoader::new(ten_paths(), 1, 200);
    let (_, job) = loader.load_full_progressive(2);
    let job = job.unwrap();
    loader.commit_full(job.generation, 2, decoded.raster.clone());
    let served = loader.full(2).unwrap();
    assert_eq!((served.width, served.height), (7, 5));
    assert_eq!(served.data, decoded.raster.data);
}

#[test]
fn full_job_yields_decoded_dimensions_or_placeholder() {
    let raster = run_full_job(Some(png_bytes(9, 6, 77)));
    assert_eq!((raster.width, raster.height), (9, 6));
    let raster = run_full_job(Some(vec![1u8, 2, 3]));
    assert_eq!((raster.width, raster.height), (1, 1));
    let raster = run_full_job(None);
    assert_eq!((raster.width, raster.height), (1, 1));
}

#[test]
fn failed_decode_degrades_to_placeholder() {
    let garbage = vec![1u8, 2, 3, 4, 5];
    let output = run_thumb_job(None, Some(garbage), 200);
    assert!(matches!(output.source, ThumbSource::Failed));
    assert_eq!((output.raster.width, output.raster.height), (1, 1));
    assert!(output.disk_write.is_none());
    let output = run_thumb_job(None, None, 200);
    assert!(matches!(output.source, ThumbSource::Failed));
}

#[test]
fn progressive_fallback_order() {
    let mut loader = ImageLoader::new(ten_paths(), 1, 200);
    // Nothing cached: placeholder.
    let (shown, job) = loader.load_full_progressive(0);
    assert!(job.is_some());
    assert_eq!((shown.width, shown.height), (1, 1));
    // Thumbnail cached: the thumbnail is the fallback.
    let thumb = sample_raster(5, 5, 7);
    loader.commit_thumb(1, thumb.clone());
    let (shown, job) = loader.load_full_progressive(1);
    assert!(job.is_some());
    assert_eq!(shown.data, thumb.data);
    // Full raster cached: it wins, and a refresh job is still scheduled.
    let full = sample_raster(9, 9, 8);
    let (_, j) = loader.load_full_progressive(2);
    loader.commit_full(j.unwrap().generation, 2, full.clone());
    let (shown, job) = loader.load_full_progressive(2);
    assert!(job.is_some());
    assert_eq!(shown.data, full.data);
}

#[test]
fn thumb_prune_keeps_margin() {
    let paths: Vec<String> = (0..100).map(|i| format!("p{}.png", i)).collect();
    let mut loader = ImageLoader::new(paths, 1, 200);
    for i in 0..100usize {
        loader.commit_thumb(i, sample_raster(1, 1, i as u8));
    }
    loader.prune_thumbs(40, 50);
    for i in 0..100usize {
        let kept = i + 30 >= 40 && i <= 50 + 30;
        assert_eq!(loader.thumb(i).is_some(), kept, "index {}", i);
    }
}
