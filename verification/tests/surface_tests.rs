use toggle_mode_widget::commands::{broadcast_theme_change, read_registry, set_registry};
use toggle_mode_widget::hive::Root;
use toggle_mode_widget::notify::{broadcast_plan, SignalKind};
use toggle_mode_widget::store::Store;
use toggle_mode_widget::tray::{
    handle_tray_event, TrayAction, TrayButton, TrayEvent, TrayVisibility,
};

fn segs(parts: &[&str]) -> Vec<String> {
    parts.iter().map(|s| s.to_string()).collect()
}

#[test]
fn command_round_trip_through_surface() {
    let mut s = Store::new(vec![Root::CurrentUser]);
    let path = segs(&["Software", "Theme"]);
    let name = "AppsUseLightTheme".to_string();
    assert_eq!(set_registry(&mut s, "hkcu", &path, &name, 1), Ok(()));
    assert_eq!(read_registry(&s, "HKCU", &path, &name), Ok(1));
}

#[test]
fn command_rejects_unknown_hive_with_text() {
    let mut s = Store::new(vec![Root::CurrentUser]);
    let path = segs(&["Software"]);
    let name = "Mode".to_string();
    assert_eq!(
        read_registry(&s, "HKXY", &path, &name),
        Err("Unknown hive: HKXY".to_string())
    );
    assert_eq!(
        set_registry(&mut s, "", &path, &name, 1),
        Err("Unknown hive: ".to_string())
    );
    // The rejected identifier never reached the store.
    assert_eq!(
        read_registry(&s, "hkcu", &path, &name),
        Err("path not found".to_string())
    );
}

#[test]
fn command_maps_store_failures_to_descriptive_strings() {
    let mut s = Store::new(vec![Root::CurrentUser]);
    let path = segs(&["Software"]);
    let name = "Mode".to_string();
    assert_eq!(
        read_registry(&s, "hkcu", &path, &name),
        Err("path not found".to_string())
    );
    assert_eq!(set_registry(&mut s, "hkcu", &path, &name, 4), Ok(()));
    assert_eq!(
        read_registry(&s, "hkcu", &path, &"Other".to_string()),
        Err("value not found".to_string())
    );
    assert_eq!(
        set_registry(&mut s, "hklm", &path, &name, 4),
        Err("access denied".to_string())
    );
}

#[test]
fn notify_always_succeeds_without_listeners() {
    // Fire-and-forget: planning the broadcast never fails, listener or not,
    // and every dispatch is bounded per target.
    let plan = broadcast_theme_change().expect("broadcast must succeed");
    assert_eq!(plan.len(), 2);
    for sig in &plan {
        assert_eq!(sig.timeout_ms, 100);
    }
}

#[test]
fn notify_sends_settings_change_before_theme_change() {
    let plan = broadcast_plan();
    assert_eq!(plan.len(), 2);
    assert_eq!(plan[0].kind, SignalKind::SettingsChanged);
    assert_eq!(plan[1].kind, SignalKind::ThemeChanged);
    assert!(plan[1].payload.is_empty());
}

#[test]
fn notify_payload_is_nul_terminated_area_identifier() {
    let plan = broadcast_plan();
    let mut expected: Vec<u16> = "ImmersiveColorSet".encode_utf16().collect();
    expected.push(0);
    assert_eq!(plan[0].payload, expected);
    assert_eq!(*plan[0].payload.last().unwrap(), 0u16);
    assert!(plan[0].payload[..plan[0].payload.len() - 1]
        .iter()
        .all(|&u| u != 0));
}

#[test]
fn tray_left_click_toggles_visibility() {
    let step = handle_tray_event(
        TrayVisibility::Visible,
        &TrayEvent::Click { button: TrayButton::Left },
    );
    assert_eq!(step.next, TrayVisibility::Hidden);
    assert_eq!(step.action, TrayAction::HideWindow);

    let step2 = handle_tray_event(step.next, &TrayEvent::Click { button: TrayButton::Left });
    assert_eq!(step2.next, TrayVisibility::Visible);
    assert_eq!(step2.action, TrayAction::ShowAndFocus);
}

#[test]
fn tray_other_buttons_are_no_ops() {
    for state in [TrayVisibility::Visible, TrayVisibility::Hidden] {
        for button in [TrayButton::Right, TrayButton::Middle] {
            let step = handle_tray_event(state, &TrayEvent::Click { button });
            assert_eq!(step.next, state);
            assert_eq!(step.action, TrayAction::NoOp);
        }
    }
}

#[test]
fn tray_quit_exits_with_code_zero_from_either_state() {
    for state in [TrayVisibility::Visible, TrayVisibility::Hidden] {
        let step = handle_tray_event(
            state,
            &TrayEvent::MenuSelect { id: "quit".to_string() },
        );
        assert_eq!(step.next, state);
        assert_eq!(step.action, TrayAction::ExitProcess { code: 0 });
    }
}

#[test]
fn tray_other_menu_selection_is_no_op() {
    let step = handle_tray_event(
        TrayVisibility::Visible,
        &TrayEvent::MenuSelect { id: "about".to_string() },
    );
    assert_eq!(step.next, TrayVisibility::Visible);
    assert_eq!(step.action, TrayAction::NoOp);
}
