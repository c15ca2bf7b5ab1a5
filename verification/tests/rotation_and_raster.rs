use luminous::image_loader::ImageLoader;
use luminous::raster::{Raster, Rotation, fit_within, mask_overlay};

fn pixel(r: &Raster, x: u32, y: u32) -> [u8; 4] {
    let base = 4 * (y as usize * r.width as usize + x as usize);
    [r.data[base], r.data[base + 1], r.data[base + 2], r.data[base + 3]]
}

fn grid_raster(width: u32, height: u32) -> Raster {
    // Pixel (x, y) holds [x, y, 0, 255]: every pixel is distinct.
    let mut data = Vec::new();
    for y in 0..height {
        for x in 0..width {
            data.extend_from_slice(&[x as u8, y as u8, 0, 255]);
        }
    }
    Raster { width, height, data }
}

#[test]
fn rotate_quarter_turn_maps_pixels() {
    let src = grid_raster(3, 2);
    let out = src.rotate(Rotation::Quarter);
    assert_eq!((out.width, out.height), (2, 3));
    for x in 0..out.width {
        for y in 0..out.height {
            // Clockwise: output (x, y) is source (y, height - 1 - x).
            assert_eq!(pixel(&out, x, y), pixel(&src, y, src.height - 1 - x));
        }
    }
}

#[test]
fn rotate_half_turn_maps_pixels() {
    let src = grid_raster(3, 2);
    let out = src.rotate(Rotation::Half);
    assert_eq!((out.width, out.height), (3, 2));
    for x in 0..out.width {
        for y in 0..out.height {
            assert_eq!(
                pixel(&out, x, y),
                pixel(&src, src.width - 1 - x, src.height - 1 - y)
            );
        }
    }
}

#[test]
fn rotate_counterclockwise_maps_pixels() {
    let src = grid_raster(3, 2);
    let out = src.rotate(Rotation::ThreeQuarter);
    assert_eq!((out.width, out.height), (2, 3));
    for x in 0..out.width {
        for y in 0..out.height {
            assert_eq!(pixel(&out, x, y), pixel(&src, src.width - 1 - y, x));
        }
    }
}

#[test]
fn four_quarter_turns_are_identity() {
    let src = grid_raster(4, 3);
    let once = src.rotate(Rotation::Quarter);
    let twice = once.rotate(Rotation::Quarter);
    let thrice = twice.rotate(Rotation::Quarter);
    let full = thrice.rotate(Rotation::Quarter);
    assert_eq!((full.width, full.height), (src.width, src.height));
    assert_eq!(full.data, src.data);
}

#[test]
fn rotation_overwrites_both_caches_in_place() {
    let paths: Vec<String> = (0..3).map(|i| format!("r{}.png", i)).collect();
    let mut loader = ImageLoader::new(paths, 1, 200);
    let src = grid_raster(3, 2);
    let (_, job) = loader.load_full_progressive(1);
    loader.commit_full(job.unwrap().generation, 1, src.clone());
    loader.commit_thumb(1, grid_raster(1, 1));

    let rotated = loader.apply_rotation(Rotation::Quarter).unwrap();
    assert_eq!((rotated.width, rotated.height), (2, 3));
    let full = loader.full(1).unwrap();
    assert_eq!(full.data, rotated.data);
    let thumb = loader.thumb(1).unwrap();
    assert_eq!(thumb.data, rotated.data);
    // Other entries are untouched, and without a cached full raster nothing
    // is rotated.
    assert!(loader.full(0).is_none());
    let mut empty = ImageLoader::new(vec!["a.png".to_string()], 1, 200);
    assert!(empty.apply_rotation(Rotation::Half).is_none());
}

#[test]
fn placeholder_is_single_transparent_pixel() {
    let p = Raster::placeholder();
    assert_eq!((p.width, p.height), (1, 1));
    assert_eq!(p.data, vec![0, 0, 0, 0]);
}

#[test]
fn fill_sets_every_pixel() {
    let r = Raster::new_filled(2, 2, 10, 20, 30, 40);
    assert_eq!(r.data, vec![10, 20, 30, 40, 10, 20, 30, 40, 10, 20, 30, 40, 10, 20, 30, 40]);
}

#[test]
fn mask_expands_to_red_overlay() {
    let mask = vec![0u8, 3, 0, 255];
    let overlay = mask_overlay(&mask, 2, 2);
    assert_eq!((overlay.width, overlay.height), (2, 2));
    assert_eq!(
        overlay.data,
        vec![0, 0, 0, 0, 255, 0, 0, 255, 0, 0, 0, 0, 255, 0, 0, 255]
    );
}

#[test]
fn fit_within_box() {
    // Downscale, width binding.
    assert_eq!(fit_within(4000, 3000, 200, 200), (200, 150));
    // Downscale, height binding.
    assert_eq!(fit_within(3000, 4000, 200, 200), (150, 200));
    // Already inside the box: unchanged, never upscaled.
    assert_eq!(fit_within(100, 50, 200, 200), (100, 50));
    assert_eq!(fit_within(3, 2, 200, 200), (3, 2));
    // A degenerate ratio still yields at least one pixel.
    assert_eq!(fit_within(10000, 1, 100, 100), (100, 1));
}
