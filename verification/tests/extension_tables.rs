use look_everyting::media::{classify_extension, extensions_for, MediaKind};

#[test]
fn listed_extensions_classify_back_to_their_kind() {
    for kind in [MediaKind::Image, MediaKind::Video, MediaKind::Model] {
        for e in extensions_for(kind) {
            assert_eq!(*e, e.to_ascii_lowercase());
            assert_eq!(classify_extension(&format!("f.{e}")), Some(kind));
            assert_eq!(classify_extension(&format!("/d/f.{}", e.to_ascii_uppercase())), Some(kind));
        }
    }
    assert!(extensions_for(MediaKind::Unknown).is_empty());
}
