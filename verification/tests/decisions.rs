use look_everyting::loader::{preview_applies, ready_disposition, ReadyDisposition, PREFETCH_GENERATION};
use look_everyting::shortcuts::{shortcut_actions, PressedKeys, ShortcutAction, ShortcutScene};
use look_everyting::viewer::{
    clock_label, neighbor_indices, rename_pattern_usable, rename_summary, renamed_file_name,
};

fn scene() -> ShortcutScene {
    ShortcutScene {
        is_image: true,
        is_video: false,
        folder_len: 5,
        info_open: false,
        settings_open: false,
        fullscreen: false,
    }
}

#[test]
fn shortcut_keys_map_to_actions() {
    let right = PressedKeys { right: true, ..Default::default() };
    assert_eq!(shortcut_actions(right, scene()), vec![ShortcutAction::NavigateNext]);
    let end = PressedKeys { end: true, ..Default::default() };
    assert_eq!(shortcut_actions(end, scene()), vec![ShortcutAction::NavigateTo(4)]);
    let empty = ShortcutScene { folder_len: 0, ..scene() };
    assert!(shortcut_actions(end, empty).is_empty());
    let zoom = PressedKeys { plus: true, minus: true, ..Default::default() };
    assert_eq!(shortcut_actions(zoom, scene()), vec![ShortcutAction::ZoomIn, ShortcutAction::ZoomOut]);
}

#[test]
fn video_shortcuts_and_escape_order() {
    let video = ShortcutScene { is_image: false, is_video: true, ..scene() };
    let step = PressedKeys { shift: true, left: true, ..Default::default() };
    assert_eq!(shortcut_actions(step, video), vec![ShortcutAction::StepFrame(false)]);
    assert_eq!(shortcut_actions(step, scene()), vec![ShortcutAction::NavigatePrev]);
    // F11 enters fullscreen, so Escape in the same frame leaves it again
    let both = PressedKeys { f11: true, escape: true, ..Default::default() };
    assert_eq!(
        shortcut_actions(both, scene()),
        vec![ShortcutAction::ToggleFullscreen, ShortcutAction::ToggleFullscreen]
    );
    let esc = PressedKeys { escape: true, ..Default::default() };
    let open_panels = ShortcutScene { settings_open: true, info_open: true, ..scene() };
    assert_eq!(shortcut_actions(esc, open_panels), vec![ShortcutAction::CloseSettings]);
    let info = ShortcutScene { info_open: true, ..scene() };
    assert_eq!(shortcut_actions(esc, info), vec![ShortcutAction::CloseInfo]);
    let ctrl_comma = PressedKeys { ctrl: true, comma: true, ..Default::default() };
    assert_eq!(
        shortcut_actions(ctrl_comma, video),
        vec![ShortcutAction::StepFrame(false), ShortcutAction::ToggleSettings]
    );
}

#[test]
fn finished_loads_are_routed_by_generation() {
    assert_eq!(ready_disposition(3, 4, true, true), ReadyDisposition::Ignore);
    assert_eq!(ready_disposition(4, 4, true, false), ReadyDisposition::Apply);
    assert_eq!(ready_disposition(4, 4, false, true), ReadyDisposition::Cache);
    assert_eq!(ready_disposition(4, 4, false, false), ReadyDisposition::Ignore);
    assert_eq!(ready_disposition(PREFETCH_GENERATION, 4, true, true), ReadyDisposition::Cache);
    assert!(preview_applies(4, 4, true, false));
    assert!(!preview_applies(4, 4, true, true));
    assert!(!preview_applies(3, 4, true, false));
}

#[test]
fn batch_rename_names() {
    assert!(!rename_pattern_usable("  \t"));
    assert!(rename_pattern_usable(" x "));
    assert_eq!(renamed_file_name("trip_{i}_{name}", 4, "/p/IMG_1.JPG"), "trip_004_IMG_1.JPG");
    assert_eq!(renamed_file_name("{n}-{n}", 0, "/p/.hidden"), "1-1");
    assert_eq!(renamed_file_name("{name}", 1234, "/p/a.b.png"), "a.b.png");
    assert_eq!(renamed_file_name("x{i}", 1234, "/"), "x1234");
    assert_eq!(renamed_file_name("{name}", 0, "/"), "file");
    assert_eq!(rename_summary(3, 1), "Renamed 3, errors 1");
}

#[test]
fn prefetch_neighbours_wrap() {
    assert_eq!(neighbor_indices(0, 5), [1, 4, 2, 3]);
    assert_eq!(neighbor_indices(4, 5), [0, 3, 1, 2]);
    assert_eq!(neighbor_indices(0, 1), [0, 0, 0, 0]);
}

use look_everyting::schedule::{animation_step, thumbnail_jobs, thumbnail_order, AnimationStep, THUMBS_PER_FRAME};

#[test]
fn animation_pacing() {
    assert_eq!(animation_step(0, 1, 100, 5000), AnimationStep::Still);
    assert_eq!(animation_step(0, 4, 100, 99), AnimationStep::Wait);
    assert_eq!(animation_step(0, 4, 100, 100), AnimationStep::Show(1));
    // frames that fell due meanwhile are skipped
    assert_eq!(animation_step(3, 4, 100, 250), AnimationStep::Show(1));
    // delays below 20 ms are stretched
    assert_eq!(animation_step(0, 4, 0, 19), AnimationStep::Wait);
    assert_eq!(animation_step(0, 4, 5, 40), AnimationStep::Show(2));
    assert_eq!(animation_step(2, 3, 20, u64::MAX), AnimationStep::Show(((2 + (u64::MAX / 20) % 3) % 3) as usize));
}

#[test]
fn thumbnails_are_queued_nearest_first() {
    assert_eq!(thumbnail_order(2, 5), vec![2, 3, 1, 4, 0]);
    assert_eq!(thumbnail_order(0, 4), vec![0, 1, 3, 2]);
    assert_eq!(thumbnail_order(0, 1), vec![0]);
    let order = thumbnail_order(3, 7);
    let mut sorted = order.clone();
    sorted.sort();
    assert_eq!(sorted, (0..7).collect::<Vec<_>>());
    let wanted = [false, true, true, false, true];
    assert_eq!(thumbnail_jobs(&[2, 3, 1, 4, 0], &wanted, THUMBS_PER_FRAME), vec![2, 1]);
    assert_eq!(thumbnail_jobs(&[3, 0], &wanted, 2), Vec::<usize>::new());
}

#[test]
fn clock_label_formats_playback_time() {
    assert_eq!(clock_label(0), "0:00");
    assert_eq!(clock_label(65), "1:05");
    assert_eq!(clock_label(599), "9:59");
    assert_eq!(clock_label(3600), "1:00:00");
    assert_eq!(clock_label(3725), "1:02:05");
    assert_eq!(clock_label(36_610), "10:10:10");
}
