use mouse_cursor_mover::tray::{
    start_enabled, stop_enabled, toggle_text, tooltip, StartStopTray, ToggleTray, TrayCommand,
    DEBOUNCE_NANOS, POLL_INTERVAL_MILLIS,
};

const MS: u64 = 1_000_000;

fn show(running: bool, spawn_mover: bool, generation: u64) -> TrayCommand {
    TrayCommand::Show { running, spawn_mover, generation }
}

#[test]
fn texts_follow_state() {
    assert_eq!(toggle_text(false), "Start");
    assert_eq!(toggle_text(true), "Stop");
    assert_eq!(tooltip(false), "Mouse Cursor Mover \u{2013} Stopped");
    assert_eq!(tooltip(true), "Mouse Cursor Mover \u{2013} Running");
    assert!(start_enabled(false) && !start_enabled(true));
    assert!(stop_enabled(true) && !stop_enabled(false));
    assert_eq!(DEBOUNCE_NANOS, 250 * MS);
    assert_eq!(POLL_INTERVAL_MILLIS, 100);
}

#[test]
fn new_tray_is_stopped_and_built_once() {
    let mut t = ToggleTray::new();
    assert!(!t.running);
    assert_eq!(t.generation, 0);
    assert!(t.needs_hotkey());
    assert!(t.begin_setup());
    assert!(!t.begin_setup());
    t.hotkey_registered(7);
    assert!(!t.needs_hotkey());
    assert_eq!(t.hotkey_id, Some(7));
}

#[test]
fn toggle_starts_mover_of_new_generation_only_when_turning_on() {
    let mut t = ToggleTray::new();
    assert_eq!(t.toggle_running(), show(true, true, 1));
    assert!(t.running);
    assert_eq!(t.toggle_running(), show(false, false, 1));
    assert!(!t.running);
    assert_eq!(t.toggle_running(), show(true, true, 2));
}

#[test]
fn generation_wraps_after_the_largest() {
    let mut t = ToggleTray::new();
    t.generation = u64::MAX;
    assert_eq!(t.toggle_running(), show(true, true, 0));
}

#[test]
fn set_running_never_starts_a_mover() {
    let mut t = ToggleTray::new();
    assert_eq!(t.set_running(true), show(true, false, 0));
    assert!(t.running);
}

#[test]
fn toggles_within_window_are_ignored() {
    let mut t = ToggleTray::new();
    assert_eq!(t.toggle_running_debounced(1000 * MS), show(true, true, 1));
    assert_eq!(t.toggle_running_debounced(1000 * MS + 249 * MS), TrayCommand::Nothing);
    assert!(t.running);
    assert_eq!(t.last_toggle_at, Some(1000 * MS));
    assert_eq!(t.toggle_running_debounced(1000 * MS + DEBOUNCE_NANOS - 1), TrayCommand::Nothing);
    assert_eq!(t.toggle_running_debounced(1000 * MS + DEBOUNCE_NANOS), show(false, false, 1));
    assert_eq!(t.last_toggle_at, Some(1000 * MS + DEBOUNCE_NANOS));
}

#[test]
fn burst_of_toggles_acts_as_one() {
    let mut t = ToggleTray::new();
    let mut shows = 0;
    for k in 0..20u64 {
        if t.toggle_running_debounced(3000 * MS + k * 12 * MS) != TrayCommand::Nothing {
            shows += 1;
        }
    }
    assert_eq!(shows, 1);
    assert!(t.running);
    assert_eq!(t.last_toggle_at, Some(3000 * MS));
    assert_eq!(t.generation, 1);
}

#[test]
fn earlier_timestamp_counts_as_no_time_elapsed() {
    let mut t = ToggleTray::new();
    t.toggle_running_debounced(5000 * MS);
    assert_eq!(t.toggle_running_debounced(0), TrayCommand::Nothing);
    assert!(t.running);
}

#[test]
fn two_accepted_toggles_restore_state() {
    let mut t = ToggleTray::new();
    t.toggle_running_debounced(0);
    t.toggle_running_debounced(300 * MS);
    assert!(!t.running);
}

#[test]
fn only_pressed_registered_hotkey_toggles() {
    let mut t = ToggleTray::new();
    assert_eq!(t.on_hotkey_event(true, 5, 0), TrayCommand::Nothing);
    t.hotkey_registered(5);
    assert_eq!(t.on_hotkey_event(false, 5, 0), TrayCommand::Nothing);
    assert_eq!(t.on_hotkey_event(true, 6, 0), TrayCommand::Nothing);
    assert!(!t.running);
    assert_eq!(t.on_hotkey_event(true, 5, 0), show(true, true, 1));
    assert_eq!(t.on_hotkey_event(true, 5, 100 * MS), TrayCommand::Nothing);
}

#[test]
fn menu_choices_in_order() {
    let mut t = ToggleTray::new();
    assert_eq!(t.on_menu_event(false, true, false, 0), TrayCommand::OpenSupportPage);
    assert_eq!(t.on_menu_event(false, false, true, 0), TrayCommand::Exit);
    assert_eq!(t.on_menu_event(false, false, false, 0), TrayCommand::Nothing);
    assert_eq!(t.on_menu_event(true, true, true, 0), show(true, true, 1));
    assert_eq!(t.on_menu_event(false, true, true, 1), TrayCommand::OpenSupportPage);
    assert!(t.running);
}

#[test]
fn start_stop_menu() {
    let mut t = StartStopTray::new();
    assert!(!t.running);
    assert!(t.begin_setup());
    assert!(!t.begin_setup());
    assert_eq!(t.on_menu_event(true, false, false), show(true, true, 1));
    assert!(t.running);
    assert_eq!(t.on_menu_event(false, true, false), show(false, false, 1));
    assert!(!t.running);
    assert_eq!(t.on_menu_event(false, false, true), TrayCommand::Exit);
    assert!(!t.running);
    assert_eq!(t.on_menu_event(false, false, false), TrayCommand::Nothing);
    assert_eq!(t.on_menu_event(true, true, false), show(true, true, 2));
    assert_eq!(t.set_running(false), show(false, false, 2));
}
