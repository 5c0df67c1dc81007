use look_everyting::media::{all_supported_filter, classify_extension, extensions_for, MediaKind};
use look_everyting::settings::{default_true, AppSettings, FileAssociations, ThemePreference, UiDensity};
use look_everyting::loader::{next_generation, paths_equal, GenerationCounter};
use look_everyting::cache::ImageCache;
use look_everyting::raster::DecodedImage;

#[test]
fn classifies_common_extensions() {
    assert_eq!(classify_extension("photo.JPG"), Some(MediaKind::Image));
    assert_eq!(classify_extension("clip.mp4"), Some(MediaKind::Video));
    assert_eq!(classify_extension("mesh.glb"), Some(MediaKind::Model));
    assert_eq!(classify_extension("readme.txt"), None);
}

#[test]
fn classification_uses_the_last_component_and_extension() {
    assert_eq!(classify_extension("/photos.mp4/readme"), None);
    assert_eq!(classify_extension("/a/b/archive.tar.STL"), Some(MediaKind::Model));
    assert_eq!(classify_extension("/a/.png"), None);
    assert_eq!(classify_extension("/a/b.png/"), Some(MediaKind::Image));
    assert_eq!(classify_extension("/a/b.png/."), Some(MediaKind::Image));
    assert_eq!(classify_extension("/a/b.png/.."), None);
    assert_eq!(classify_extension("raw.Cr2"), Some(MediaKind::Image));
    assert_eq!(classify_extension("noext"), None);
}

#[test]
fn from_path_and_labels() {
    assert_eq!(MediaKind::from_path("scene.3MF"), MediaKind::Model);
    assert_eq!(MediaKind::from_path("notes.md"), MediaKind::Unknown);
    assert_eq!(MediaKind::Image.label(), "image");
    assert_eq!(MediaKind::Video.label(), "video");
    assert_eq!(MediaKind::Model.label(), "model");
    assert_eq!(MediaKind::Unknown.label(), "unknown");
}

#[test]
fn extension_lists_and_filter() {
    assert_eq!(extensions_for(MediaKind::Image).len(), 20);
    assert_eq!(extensions_for(MediaKind::Video)[0], "mp4");
    assert_eq!(extensions_for(MediaKind::Model).last(), Some(&"max"));
    assert!(extensions_for(MediaKind::Unknown).is_empty());
    let (title, exts) = all_supported_filter();
    assert_eq!(title, "Supported files");
    assert_eq!(exts.len(), 20 + 10 + 9);
    assert_eq!(exts[20], "mp4");
    assert_eq!(exts[30], "glb");
}

#[test]
fn settings_defaults() {
    let s = AppSettings::default();
    assert_eq!(s.locale, "zh-Hans");
    assert_eq!(s.theme, ThemePreference::Dark);
    assert_eq!(s.density, UiDensity::Comfortable);
    assert!(s.toolbar_auto_hide);
    assert!(s.last_directory.is_none());
    assert!(s.prefer_hw_decode);
    assert!(s.show_subtitles);
    let f = FileAssociations::default();
    assert!(!f.images && !f.videos && !f.models);
    assert!(default_true());
}

#[test]
fn generations_increase_and_wrap() {
    let mut c = GenerationCounter::new();
    assert_eq!(next_generation(&mut c), 1);
    assert_eq!(next_generation(&mut c), 2);
    assert_eq!(next_generation(&mut c), 3);
}

#[test]
fn paths_equal_compares_components() {
    assert!(paths_equal("/a/b", "/a//b/", false));
    assert!(paths_equal("/a/./b", "/a/b", false));
    assert!(!paths_equal("/a/b", "a/b", false));
    assert!(!paths_equal("/A/b", "/a/b", false));
    assert!(paths_equal("C:\\Photos\\A.JPG", "c:\\photos\\a.jpg", true));
    assert!(!paths_equal("/a/b", "/a/c", true));
    // reflexive and symmetric
    assert!(paths_equal("./x/../y", "./x/../y", false));
    assert_eq!(paths_equal("a/b", "a//b", false), paths_equal("a//b", "a/b", false));
}

fn image(w: u32, h: u32) -> DecodedImage {
    DecodedImage::from_dynamic(w, h, vec![0u8; (w * h * 4) as usize])
}

#[test]
fn cache_reads_back_and_evicts_oldest() {
    let mut cache = ImageCache::new(2);
    assert!(cache.insert("a.png".to_string(), image(1, 1)).is_empty());
    assert!(cache.insert("b.png".to_string(), image(2, 1)).is_empty());
    assert_eq!(cache.get("a.png").map(|i| i.width), Some(1));
    // re-inserting refreshes a.png; c.png then evicts b.png, the oldest
    assert!(cache.insert("a.png".to_string(), image(3, 1)).is_empty());
    let evicted = cache.insert("c.png".to_string(), image(4, 1));
    assert_eq!(evicted, vec!["b.png".to_string()]);
    assert!(cache.get("b.png").is_none());
    assert_eq!(cache.get("a.png").map(|i| i.width), Some(3));
    assert_eq!(cache.get("c.png").map(|i| i.width), Some(4));
}

#[test]
fn cache_capacity_is_at_least_one() {
    let mut cache = ImageCache::new(0);
    assert!(cache.insert("a".to_string(), image(1, 1)).is_empty());
    assert_eq!(cache.insert("b".to_string(), image(1, 1)), vec!["a".to_string()]);
    let mut d = ImageCache::default();
    for i in 0..12 {
        assert!(d.insert(format!("f{i}"), image(1, 1)).is_empty());
    }
    assert_eq!(d.insert("x".to_string(), image(1, 1)), vec!["f0".to_string()]);
}

#[test]
fn cache_keys_compare_as_paths() {
    let mut cache = ImageCache::new(3);
    assert!(cache.insert("dir//b.png".to_string(), image(1, 1)).is_empty());
    assert_eq!(cache.get("dir/b.png").map(|i| i.width), Some(1));
    assert!(cache.insert("dir/./b.png".to_string(), image(2, 1)).is_empty());
    assert_eq!(cache.get("dir//b.png").map(|i| i.width), Some(2));
    assert!(cache.insert("x.png".to_string(), image(3, 1)).is_empty());
    assert!(cache.insert("y.png".to_string(), image(4, 1)).is_empty());
    // the refreshed entry for dir/b.png is the oldest, and leaves under its latest text
    assert_eq!(cache.insert("z.png".to_string(), image(5, 1)), vec!["dir/./b.png".to_string()]);
    assert!(cache.get("./dir/b.png").is_none());
}
