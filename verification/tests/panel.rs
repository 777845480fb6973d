use win_night_shift::autostart::run_command;
use win_night_shift::flyout::{
    dismiss_on_activate, kelvin_text, new_panel, new_throttle, on_capture_lost, on_external_change,
    on_value_changed, place, placement_ok, refresh, toggle_at, PanelAction, PanelRect, SliderStep,
    WorkArea,
    PANEL_H,
};
use win_night_shift::preview::{
    applied, disengage, engaged, external_change, init, is_echo, new_state, record_written, restore_system,
    set_preview, set_system_state, shutdown, switched, system_expected_kelvin, FlagChange,
    PreviewEffect,
};
use win_night_shift::theme::{is_dark, set_dark};
use win_night_shift::tray::icon_rgba;

const MS: u64 = 1_000_000;

#[test]
fn panel_toggle_sequence() {
    let mut p = new_panel();
    assert_eq!(toggle_at(&mut p, 0), PanelAction::Show);
    win_night_shift::flyout::mark_shown(&mut p);
    assert_eq!(toggle_at(&mut p, 1_000 * MS), PanelAction::Hide);
    assert!(!p.visible);
    // The click that made the panel lose focus arrives right after: ignored.
    assert_eq!(toggle_at(&mut p, 1_100 * MS), PanelAction::Ignore);
    assert_eq!(toggle_at(&mut p, 1_300 * MS), PanelAction::Show);
    win_night_shift::flyout::hide_panel(&mut p, 2_000 * MS);
    assert_eq!(p.hidden_at, Some(2_000 * MS));
    let plan = on_external_change(&p, false);
    assert!(!plan.sync && plan.settle_preview);
    win_night_shift::flyout::mark_shown(&mut p);
    let plan = on_external_change(&p, false);
    assert!(plan.sync && plan.settle_preview);
    let plan = on_external_change(&p, true);
    assert!(!plan.sync && !plan.settle_preview);
}

#[test]
fn kelvin_labels() {
    assert_eq!(kelvin_text(0), "6500K");
    assert_eq!(kelvin_text(50), "3850K");
    assert_eq!(kelvin_text(100), "1200K");
    let v = refresh(None, None, true);
    assert!(!v.night && v.dark);
    assert_eq!(v.strength, 50);
    assert_eq!(v.kelvin_text, "3850K");
    let v = refresh(Some(true), Some(75), false);
    assert!(v.night && !v.dark);
    assert_eq!(v.kelvin_text, "2525K");
}

#[test]
fn strength_write_throttle() {
    let mut t = new_throttle(0);
    // Keyboard changes (slider not held): spaced writes, nothing lost.
    let quiet = SliderStep { preview: None, write: None };
    assert_eq!(on_value_changed(&mut t, 100 * MS, 10, false), quiet);
    assert_eq!(on_value_changed(&mut t, 200 * MS, 20, false), quiet);
    assert_eq!(
        on_value_changed(&mut t, 300 * MS, 30, false),
        SliderStep { preview: None, write: Some(30) }
    );
    assert_eq!(t.pending, None);
    assert_eq!(on_value_changed(&mut t, 400 * MS, 40, false), quiet);
    assert_eq!(on_capture_lost(&mut t, 450 * MS), Some(40));
    assert_eq!(t.last_write, 450 * MS);
    assert_eq!(on_capture_lost(&mut t, 500 * MS), None);
}

#[test]
fn drag_previews_then_writes_once() {
    let mut t = new_throttle(0);
    // A long drag: every step is previewed, none is written.
    for (i, p) in [10u32, 35, 60, 80].iter().enumerate() {
        let step = on_value_changed(&mut t, (i as u64 + 1) * 1_000 * MS, *p, true);
        assert_eq!(step, SliderStep { preview: Some(*p), write: None });
    }
    assert_eq!(t.last_write, 0);
    // Release: the value it ended on is written, once.
    assert_eq!(on_capture_lost(&mut t, 5_000 * MS), Some(80));
    assert_eq!(on_capture_lost(&mut t, 5_100 * MS), None);
}

#[test]
fn placement_values() {
    assert_eq!(PANEL_H, 218);
    let wa = WorkArea { left: 0, top: 0, right: 1920, bottom: 1040 };
    // 96 dpi, icon at (1800, 1050) 24 wide: right edge 1824, bottom 8 above.
    let r = place(96, 1800, 1050, 24, None);
    assert_eq!(r, PanelRect { x: 1504, y: 824, width: 320, height: 218 });
    // 144 dpi scales by 1.5 and clamps into the work area.
    assert!(placement_ok(144, 1900, 1050, 24, Some(wa)));
    let r = place(144, 1900, 1050, 24, Some(wa));
    assert_eq!(r, PanelRect { x: 1440, y: 711, width: 480, height: 327 });
    // Below 96 dpi counts as 96.
    assert_eq!(place(10, 1800, 1050, 24, None), place(96, 1800, 1050, 24, None));
    assert!(!placement_ok(7_000_000, 0, 0, 0, None));
    assert!(!placement_ok(96, i32::MAX, 0, 1, None));
}

#[test]
fn dismiss_rule() {
    assert!(dismiss_on_activate(0x0006, 0, false));
    assert!(dismiss_on_activate(0x0006, 0x1_0000, false));
    assert!(!dismiss_on_activate(0x0006, 1, false));
    assert!(!dismiss_on_activate(0x0006, 0, true));
    assert!(!dismiss_on_activate(0x0007, 0, false));
}

#[test]
fn preview_flag_follows_engagement() {
    let mut st = new_state();
    // Night Light off: no preview.
    let e = set_preview(&mut st, 40, true);
    assert_eq!(e, PreviewEffect { set_kelvin: None, flag: FlagChange::Keep });
    set_system_state(&mut st, true, Some(30));
    assert_eq!(applied(&st), Some(30));
    // Channel not ready: no preview either.
    assert_eq!(set_preview(&mut st, 40, false).set_kelvin, None);
    let e = set_preview(&mut st, 40, true);
    assert_eq!(e, PreviewEffect { set_kelvin: Some(4380), flag: FlagChange::Raise });
    assert!(engaged(&st));
    let e = set_preview(&mut st, 60, true);
    assert_eq!(e.flag, FlagChange::Keep);
    assert_eq!(disengage(&mut st), FlagChange::Clear);
    assert!(!engaged(&st));
    assert_eq!(disengage(&mut st), FlagChange::Keep);
}

#[test]
fn preview_restore_and_echo() {
    let mut st = new_state();
    set_system_state(&mut st, true, Some(30));
    set_preview(&mut st, 50, true);
    // The system already shows 3850 K: no display change, flag cleared.
    let e = restore_system(&mut st, Some(3850));
    assert_eq!(e, PreviewEffect { set_kelvin: None, flag: FlagChange::Clear });
    set_preview(&mut st, 50, true);
    let e = shutdown(&mut st, Some(5000));
    assert_eq!(e, PreviewEffect { set_kelvin: Some(5000), flag: FlagChange::Clear });
    assert_eq!(restore_system(&mut st, Some(5000)), PreviewEffect { set_kelvin: None, flag: FlagChange::Keep });
    record_written(&mut st, 50);
    assert!(is_echo(&st, true, Some(50)));
    assert!(!is_echo(&st, false, Some(50)));
    assert!(!is_echo(&st, true, None));
    set_system_state(&mut st, true, Some(50));
    assert!(!is_echo(&st, true, Some(50)));
    set_system_state(&mut st, false, Some(50));
    assert_eq!(applied(&st), None);
}

#[test]
fn preview_switch_and_outside_change() {
    let mut st = new_state();
    set_system_state(&mut st, true, Some(30));
    set_preview(&mut st, 70, true);
    assert!(engaged(&st));
    // Switching Night Light drops the preview without touching the displays.
    assert_eq!(switched(&mut st, false, Some(30)), FlagChange::Clear);
    assert!(!engaged(&st));
    assert_eq!(applied(&st), None);

    // Our own write echoes back: the preview stays.
    set_system_state(&mut st, true, Some(30));
    set_preview(&mut st, 70, true);
    record_written(&mut st, 70);
    let e = external_change(&mut st, Some(true), Some(70));
    assert_eq!(e, PreviewEffect { set_kelvin: None, flag: FlagChange::Keep });
    assert!(engaged(&st));

    // Someone else's change: the preview ends and the displays go back to
    // what the system now shows (strength 10 -> 5970 K).
    let e = external_change(&mut st, Some(true), Some(10));
    assert_eq!(e, PreviewEffect { set_kelvin: Some(5970), flag: FlagChange::Clear });
    assert!(!engaged(&st));
    assert_eq!(applied(&st), Some(10));
    // With no preview in effect an outside change touches nothing.
    let e = external_change(&mut st, Some(false), None);
    assert_eq!(e, PreviewEffect { set_kelvin: None, flag: FlagChange::Keep });
    assert_eq!(applied(&st), None);
}

#[test]
fn preview_start_up() {
    assert_eq!(system_expected_kelvin(Some(true), Some(100)), Some(1200));
    assert_eq!(system_expected_kelvin(Some(true), None), None);
    assert_eq!(system_expected_kelvin(Some(false), None), Some(6500));
    assert_eq!(system_expected_kelvin(None, Some(10)), Some(6500));
    let (st, e) = init(Some(1), Some(6500), Some(true), Some(20));
    assert_eq!(e, PreviewEffect { set_kelvin: Some(6500), flag: FlagChange::Clear });
    assert_eq!(applied(&st), Some(20));
    assert!(!engaged(&st));
    let (st, e) = init(None, Some(6500), None, Some(20));
    assert_eq!(e, PreviewEffect { set_kelvin: None, flag: FlagChange::Keep });
    assert_eq!(applied(&st), None);
}

#[test]
fn theme_values() {
    assert!(is_dark(Some(0)));
    assert!(!is_dark(Some(1)));
    assert!(!is_dark(None));
    assert_eq!(set_dark(true, true), None);
    assert_eq!(set_dark(false, true), Some(0));
    assert_eq!(set_dark(true, false), Some(1));
}

#[test]
fn autostart_command_is_quoted() {
    assert_eq!(run_command(r"C:\Program Files\wns.exe"), "\"C:\\Program Files\\wns.exe\"");
}

#[test]
fn icon_pixels() {
    // Two BGRA pixels with zero alpha, one trailing byte.
    let color = vec![1, 2, 3, 0, 4, 5, 6, 0, 9];
    assert_eq!(icon_rgba(color.clone(), None), vec![3, 2, 1, 255, 6, 5, 4, 255, 9]);
    let mask = vec![0, 0, 0, 0, 7, 0, 0, 0];
    assert_eq!(icon_rgba(color.clone(), Some(mask)), vec![3, 2, 1, 255, 6, 5, 4, 0, 9]);
    // A short mask covers only the first pixel.
    assert_eq!(icon_rgba(color, Some(vec![5, 0, 0, 0])), vec![3, 2, 1, 0, 6, 5, 4, 0, 9]);
    // Some alpha present: kept as is.
    assert_eq!(icon_rgba(vec![1, 2, 3, 9], None), vec![3, 2, 1, 9]);
}
