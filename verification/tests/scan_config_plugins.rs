use luminous::Config;
use luminous::config::{CliOptions, FileOptions, Rgba, binding_for, default_bindings, parse_color};
use luminous::fs_scan::{
    ScanEntry, default_extensions, extension_of, is_image, is_img_path, scan_listing,
};
use luminous::image_ring_cache::{ImageRingCache, circular_distance, wrap_index};
use luminous::plugins::{
    PluginCapability, PluginManager, PluginManifest, c_buffer_prefix, default_plugin_type,
    ends_with, find_library_entry,
};

fn strings(items: &[&str]) -> Vec<String> {
    items.iter().map(|s| s.to_string()).collect()
}

#[test]
fn wrap_index_wraps_both_ends() {
    assert_eq!(wrap_index(9, 1, 10), 0);
    assert_eq!(wrap_index(0, -1, 10), 9);
    assert_eq!(wrap_index(4, 3, 10), 7);
    assert_eq!(wrap_index(1, -3, 10), 8);
    assert_eq!(wrap_index(0, 0, 0), 0);
    // Any starting index and any offset are reduced modulo the length.
    assert_eq!(wrap_index(27, 0, 10), 7);
    assert_eq!(wrap_index(3, 25, 10), 8);
    assert_eq!(wrap_index(3, -25, 10), 8);
    // Offsetting by k and then by -k is the identity.
    assert_eq!(wrap_index(wrap_index(6, 13, 10), -13, 10), 6);
}

#[test]
fn circular_distance_is_shortest_way_around() {
    assert_eq!(circular_distance(0, 8, 10), 2);
    assert_eq!(circular_distance(8, 0, 10), 2);
    assert_eq!(circular_distance(0, 2, 10), 2);
    assert_eq!(circular_distance(3, 3, 10), 0);
    assert_eq!(circular_distance(0, 5, 10), 5);
}

#[test]
fn ring_cache_navigates_with_wraparound() {
    let paths = strings(&["a.png", "b.png", "c.png", "d.png", "e.png"]);
    let (mut ring, initial) = ImageRingCache::new(paths, 1, 0);
    // The initial window around index 0 over five entries: 4, 0, 1.
    assert_eq!(initial, vec![0, 1, 4]);
    for &i in &initial {
        ring.insert(i, grid(2, 2, i as u8));
    }
    let (idx, shown, preloads) = ring.get_next();
    assert_eq!(idx, 1);
    assert!(shown.is_some());
    // Index 2 entered the window and is not loaded yet.
    assert_eq!(preloads, vec![2]);

    let (idx, shown, _) = ring.get_prev();
    assert_eq!(idx, 0);
    assert!(shown.is_some());
    let (idx, shown, preloads) = ring.get_prev();
    assert_eq!(idx, 4);
    assert!(shown.is_some());
    assert_eq!(preloads, vec![3]);
    // A miss returns nothing: the caller loads synchronously and inserts.
    let (idx, shown, _) = ring.get_prev();
    assert_eq!(idx, 3);
    assert!(shown.is_none());
    ring.insert(3, grid(2, 2, 3));
    let (idx, shown, _) = ring.get_next();
    assert_eq!(idx, 4);
    assert!(shown.is_some());
}

fn grid(w: u32, h: u32, seed: u8) -> luminous::raster::Raster {
    luminous::raster::Raster { width: w, height: h, data: vec![seed; 4 * (w * h) as usize] }
}

#[test]
fn ring_insert_prunes_outside_window() {
    let paths = strings(&["a", "b", "c", "d", "e", "f", "g", "h", "i", "j"]);
    let (mut ring, _) = ImageRingCache::new(paths, 1, 0);
    ring.insert(0, grid(1, 1, 0));
    ring.insert(5, grid(1, 1, 5));
    // 5 is outside the window around 0 and is pruned at once.
    assert!(ring.entries[0].is_some());
    assert!(ring.entries[5].is_none());
}

#[test]
fn extension_extraction() {
    assert_eq!(extension_of("photo.JPG"), Some("JPG".to_string()));
    assert_eq!(extension_of("dir/photo.png"), Some("png".to_string()));
    assert_eq!(extension_of("archive.tar.gz"), Some("gz".to_string()));
    assert_eq!(extension_of("noext"), None);
    assert_eq!(extension_of(".bashrc"), None);
    assert_eq!(extension_of("dir/.hidden"), None);
    assert_eq!(extension_of("trailing."), Some(String::new()));
}

#[test]
fn image_name_matching_folds_case() {
    let exts = default_extensions();
    assert!(is_image("cat.png", &exts));
    assert!(is_image("cat.PNG", &exts));
    assert!(is_image("shot.JpEg", &exts));
    assert!(!is_image("notes.txt", &exts));
    assert!(!is_image("noext", &exts));
    // An extra extension is honored as declared.
    let extra = strings(&["red"]);
    assert!(is_image("mask.red", &extra));
    assert!(is_image("mask.RED", &extra));
    // A declared upper-case extension matches too: both sides are folded.
    let declared_upper = strings(&["TIFF"]);
    assert!(is_image("scan.tiff", &declared_upper));
    assert!(is_image("scan.TIFF", &declared_upper));
    assert!(!is_image("scan.tif", &declared_upper));
}

#[test]
fn img_path_covers_basic_types() {
    assert!(is_img_path("a.jpg"));
    assert!(is_img_path("a.JPEG"));
    assert!(is_img_path("b/c.PnG"));
    assert!(!is_img_path("a.gif"));
    assert!(!is_img_path("a"));
}

#[test]
fn scan_keeps_ordered_images_and_start_index() {
    let entries = vec![
        ScanEntry { path: "/p".to_string(), is_file: false },
        ScanEntry { path: "/p/a.png".to_string(), is_file: true },
        ScanEntry { path: "/p/b.txt".to_string(), is_file: true },
        ScanEntry { path: "/p/c.JPG".to_string(), is_file: true },
        ScanEntry { path: "/p/d.png".to_string(), is_file: true },
    ];
    let exts = default_extensions();
    // Opened on a single file: its position becomes the start index.
    let r = scan_listing(&entries, &exts, Some("/p/c.JPG"));
    assert_eq!(r.paths, strings(&["/p/a.png", "/p/c.JPG", "/p/d.png"]));
    assert_eq!(r.start_index, 1);
    assert!(!r.is_dir);
    // Opened on a directory: start index zero.
    let r = scan_listing(&entries, &exts, None);
    assert_eq!(r.start_index, 0);
    assert!(r.is_dir);
    // A start file that was filtered out leaves the start at zero.
    let r = scan_listing(&entries, &exts, Some("/p/b.txt"));
    assert_eq!(r.start_index, 0);
}

#[test]
fn config_precedence_cli_over_file_over_default() {
    let cli = CliOptions {
        path: Some("/cli".to_string()),
        log_level: None,
        threads: Some(4),
        window_size: None,
        background: None,
    };
    let file = FileOptions {
        path: Some("/file".to_string()),
        log_level: Some("info".to_string()),
        threads: Some(2),
        window_size: Some(5),
        background: Some("#ff0000".to_string()),
        bindings: Some(vec![("quit".to_string(), "x".to_string())]),
    };
    let c = luminous::config::Config::load(cli, file);
    assert_eq!(c.path, "/cli");
    assert_eq!(c.log_level, "info");
    assert_eq!(c.threads, 4);
    assert_eq!(c.window_size, 5);
    assert_eq!(c.background, Rgba { a: 255, r: 255, g: 0, b: 0 });
    // The user binding shadows the default for the same action.
    assert_eq!(binding_for(&c.bindings, "quit"), Some("x".to_string()));
    assert_eq!(binding_for(&c.bindings, "reset_zoom"), Some("z".to_string()));
    assert_eq!(binding_for(&c.bindings, "no_such_action"), None);
}

#[test]
fn config_defaults() {
    let cli = CliOptions { path: None, log_level: None, threads: None, window_size: None, background: None };
    let file = FileOptions {
        path: None,
        log_level: None,
        threads: None,
        window_size: None,
        background: None,
        bindings: None,
    };
    let c = luminous::config::Config::load(cli, file);
    assert_eq!(c.path, ".");
    assert_eq!(c.log_level, "warn");
    assert!(c.threads >= 1);
    assert_eq!(c.window_size, 3);
    assert_eq!(c.background, Rgba { a: 255, r: 0, g: 0, b: 0 });
    assert_eq!(c.bindings, default_bindings());
}

#[test]
fn invalid_color_defaults_to_black() {
    assert_eq!(parse_color("not-a-color"), Rgba { a: 255, r: 0, g: 0, b: 0 });
    assert_eq!(parse_color("#00ff00"), Rgba { a: 255, r: 0, g: 255, b: 0 });
}

#[test]
fn args_take_one_path_and_a_log_flag() {
    let c = Config::build(strings(&["prog", "pics/"])).unwrap();
    assert_eq!(c.path, "pics/");
    assert_eq!(c.log_level, "debug");
    let c = Config::build(strings(&["prog", "-l", "info", "pics/"])).unwrap();
    assert_eq!(c.log_level, "info");
    let c = Config::build(strings(&["prog", "pics/", "--log", "trace"])).unwrap();
    assert_eq!(c.log_level, "trace");
    assert_eq!(c.path, "pics/");
    match Config::build(strings(&["prog"])) {
        Err(e) => assert_eq!(e, "Didn't get a path"),
        Ok(_) => panic!("a missing path must be an error"),
    }
    match Config::build(strings(&["prog", "a", "b"])) {
        Err(e) => assert_eq!(e, "Invalid option or too many arguments"),
        Ok(_) => panic!("an extra word must be an error"),
    }
}

fn manifest(name: &str, version: &str, backend: &str, exts: &[&str], caps: &[PluginCapability]) -> PluginManifest {
    PluginManifest {
        name: name.to_string(),
        version: version.to_string(),
        backend: backend.to_string(),
        extensions: strings(exts),
        capabilities: caps.to_vec(),
        daemon_port: None,
        interpreter: None,
        executable: None,
    }
}

#[test]
fn registry_skips_version_mismatch() {
    let mut pm = PluginManager::new();
    let rejected = pm.register(manifest("old", "0.0.9", "shared_lib", &["red"], &[PluginCapability::Decoder]), "0.1.0");
    assert!(!rejected);
    assert!(!pm.has_plugin("file.red"));
    let accepted = pm.register(manifest("fresh", "0.1.0", "shared_lib", &["red"], &[PluginCapability::Decoder]), "0.1.0");
    assert!(accepted);
    assert!(pm.has_plugin("file.red"));
}

#[test]
fn registry_dispatch_by_extension() {
    let mut pm = PluginManager::new();
    pm.register(
        manifest("raw", "1.0.0", "shared_lib", &["RAW", "nef"], &[PluginCapability::Decoder, PluginCapability::Encoder]),
        "1.0.0",
    );
    pm.register(
        manifest("seg", "1.0.0", "daemon", &["seg"], &[PluginCapability::Interactive]),
        "1.0.0",
    );
    // Extensions meet in any letter case.
    assert_eq!(pm.decoder_for("shot.raw"), Some(0));
    assert_eq!(pm.decoder_for("shot.NEF"), Some(0));
    // The interactive plugin has no decoder capability: it declines.
    assert!(pm.has_plugin("mask.seg"));
    assert_eq!(pm.decoder_for("mask.seg"), None);
    assert_eq!(pm.decoder_for("plain.txt"), None);
    assert_eq!(pm.get_interactive_plugin(), Some(1));
    let exts = pm.get_supported_extensions();
    assert_eq!(exts, strings(&["RAW", "nef", "seg"]));
    // A later registration shadows an earlier claim of the same extension.
    pm.register(
        manifest("raw2", "1.0.0", "shared_lib", &["raw"], &[PluginCapability::Decoder]),
        "1.0.0",
    );
    assert_eq!(pm.decoder_for("shot.raw"), Some(2));
    // Encoding needs the encoder capability: only the first plugin declared
    // it, but its claim of "raw" is shadowed; "nef" still reaches it.
    assert_eq!(pm.encoder_for("shot.NEF"), Some(0));
    assert_eq!(pm.encoder_for("shot.raw"), None);
    assert_eq!(pm.encoder_for("mask.seg"), None);
}

#[test]
fn single_entry_ring_wraps_to_itself() {
    let (mut ring, initial) = ImageRingCache::new(strings(&["only.png"]), 2, 0);
    assert_eq!(initial, vec![0]);
    ring.insert(0, grid(1, 1, 0));
    let (idx, shown, preloads) = ring.get_next();
    assert_eq!(idx, 0);
    assert!(shown.is_some());
    assert!(preloads.is_empty());
    let (idx, _, _) = ring.get_prev();
    assert_eq!(idx, 0);
}

#[test]
fn library_file_selection_and_info_buffers() {
    let listing = strings(&["plugin.json", "notes.txt", "libdecode.so", "other.so"]);
    assert_eq!(find_library_entry(&listing, ".so"), Some(2));
    assert_eq!(find_library_entry(&listing, ".dll"), None);
    assert!(ends_with("libdecode.so", ".so"));
    assert!(!ends_with(".so", "lib.so"));

    let buf = vec![b'r', b'a', b'w', 0, 0, 7];
    assert_eq!(c_buffer_prefix(&buf), b"raw".to_vec());
    let unterminated = vec![b'a', b'b'];
    assert_eq!(c_buffer_prefix(&unterminated), b"ab".to_vec());
}

#[test]
fn default_backend_is_shared_lib() {
    assert_eq!(default_plugin_type(), "shared_lib");
}
