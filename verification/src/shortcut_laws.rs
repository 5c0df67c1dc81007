//! What the navigation keys do, whatever else is on screen.

use vstd::prelude::*;

use crate::shortcuts::{shortcut_plan, PressedKeys, ShortcutAction, ShortcutScene};

verus! {

/// No key pressed and no modifier held.
pub open spec fn no_keys() -> PressedKeys {
    PressedKeys {
        ctrl: false,
        shift: false,
        o: false,
        left: false,
        right: false,
        up: false,
        down: false,
        page_up: false,
        page_down: false,
        home: false,
        end: false,
        space: false,
        comma: false,
        period: false,
        i: false,
        f11: false,
        escape: false,
        num0: false,
        f: false,
        num1: false,
        r: false,
        plus: false,
        equals: false,
        minus: false,
    }
}

/// Law: the left and up arrows ask for the previous file, the right and down arrows for the
/// next one, Home for the first and End for the last, in any scene; with Shift held on a
/// video, the left and right arrows step one frame back and forward instead.
pub proof fn law_navigation_keys(s: ShortcutScene)
    ensures
        shortcut_plan(PressedKeys { left: true, ..no_keys() }, s) == seq![ShortcutAction::NavigatePrev],
        shortcut_plan(PressedKeys { right: true, ..no_keys() }, s) == seq![ShortcutAction::NavigateNext],
        shortcut_plan(PressedKeys { up: true, ..no_keys() }, s) == seq![ShortcutAction::NavigatePrev],
        shortcut_plan(PressedKeys { down: true, ..no_keys() }, s) == seq![ShortcutAction::NavigateNext],
        s.folder_len > 0 ==> shortcut_plan(PressedKeys { home: true, ..no_keys() }, s) == seq![ShortcutAction::NavigateTo(0)],
        s.folder_len > 0 ==> shortcut_plan(PressedKeys { end: true, ..no_keys() }, s) == seq![
            ShortcutAction::NavigateTo((s.folder_len - 1) as usize),
        ],
        s.is_video ==> shortcut_plan(PressedKeys { left: true, shift: true, ..no_keys() }, s) == seq![
            ShortcutAction::StepFrame(false),
        ],
        s.is_video ==> shortcut_plan(PressedKeys { right: true, shift: true, ..no_keys() }, s) == seq![
            ShortcutAction::StepFrame(true),
        ],
{
    let l = PressedKeys { left: true, ..no_keys() };
    let r = PressedKeys { right: true, ..no_keys() };
    let u = PressedKeys { up: true, ..no_keys() };
    let d = PressedKeys { down: true, ..no_keys() };
    let hm = PressedKeys { home: true, ..no_keys() };
    let en = PressedKeys { end: true, ..no_keys() };
    let sl = PressedKeys { left: true, shift: true, ..no_keys() };
    let sr = PressedKeys { right: true, shift: true, ..no_keys() };
    assert(shortcut_plan(l, s) =~= seq![ShortcutAction::NavigatePrev]);
    assert(shortcut_plan(r, s) =~= seq![ShortcutAction::NavigateNext]);
    assert(shortcut_plan(u, s) =~= seq![ShortcutAction::NavigatePrev]);
    assert(shortcut_plan(d, s) =~= seq![ShortcutAction::NavigateNext]);
    if s.folder_len > 0 {
        assert(shortcut_plan(hm, s) =~= seq![ShortcutAction::NavigateTo(0)]);
        assert(shortcut_plan(en, s) =~= seq![ShortcutAction::NavigateTo((s.folder_len - 1) as usize)]);
    }
    if s.is_video {
        assert(shortcut_plan(sl, s) =~= seq![ShortcutAction::StepFrame(false)]);
        assert(shortcut_plan(sr, s) =~= seq![ShortcutAction::StepFrame(true)]);
    }
}

} // verus!
