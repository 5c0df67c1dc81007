use look_everyting::browse::{media_entries, open_step, OpenStep};
use look_everyting::media::MediaKind;

fn names(list: &[&str]) -> Vec<String> {
    list.iter().map(|s| s.to_string()).collect()
}

#[test]
fn media_entries_keep_media_in_order() {
    let listing = names(&["/d/a.txt", "/d/b.JPG", "/d/c.mp4", "/d/notes", "/d/d.glb", "/d/e.md"]);
    assert_eq!(media_entries(&listing), names(&["/d/b.JPG", "/d/c.mp4", "/d/d.glb"]));
    assert!(media_entries(&[]).is_empty());
}

#[test]
fn opening_the_open_file_changes_nothing() {
    let folder = names(&["/d/a.png", "/d/b.png"]);
    assert_eq!(open_step(Some("/d/a.png"), "/d/a.png", &folder, false), OpenStep::Unchanged);
    assert_eq!(open_step(Some("/d/./a.png"), "/d/a.png", &folder, false), OpenStep::Unchanged);
    assert_eq!(
        open_step(Some("/d/A.PNG"), "/d/a.png", &folder, true),
        OpenStep::Unchanged
    );
}

#[test]
fn opening_finds_the_place_in_the_folder() {
    let folder = names(&["/d/a.png", "/d/b.mp4", "/d/c.png"]);
    assert_eq!(
        open_step(Some("/d/a.png"), "/d/b.mp4", &folder, false),
        OpenStep::Open { index: 1, kind: Some(MediaKind::Video) }
    );
    assert_eq!(
        open_step(None, "/d/c.png", &folder, false),
        OpenStep::Open { index: 2, kind: Some(MediaKind::Image) }
    );
    assert_eq!(
        open_step(None, "/e/z.txt", &folder, false),
        OpenStep::Open { index: 0, kind: None }
    );
    assert_eq!(
        open_step(Some("/d/a.png"), "/d/C.PNG", &folder, true),
        OpenStep::Open { index: 2, kind: Some(MediaKind::Image) }
    );
}
