use openfortivpn_tui::actions::{Key, KeyCode, Modifiers};
use openfortivpn_tui::config::VpnProfile;
use openfortivpn_tui::state::{App, AppEvent, Focus, UiMode, VpnState};

fn key(code: KeyCode) -> Key {
    Key {
        code,
        modifiers: Modifiers { shift: false, control: false, alt: false, super_key: false, hyper: false, meta: false },
    }
}

fn profile(name: &str) -> VpnProfile {
    VpnProfile {
        name: name.to_string(),
        host: format!("{}.example.com", name),
        port: 443,
        username: "u".to_string(),
        save_password: true,
        password: "p".to_string(),
        trusted_cert: None,
        use_sudo_password: false,
        sudo_password: String::new(),
    }
}

fn assert_sessions_invariant(app: &App) {
    for (i, a) in app.sessions.iter().enumerate() {
        assert!(a.id < app.next_session_id);
        for b in app.sessions.iter().skip(i + 1) {
            assert_ne!(a.id, b.id);
            assert_ne!(a.profile_name, b.profile_name);
        }
    }
    if let Some(i) = app.active_session_index {
        assert!(i < app.sessions.len());
    }
}

#[test]
fn the_session_invariant_holds_through_a_session_lifecycle() {
    let mut app = App::new(false);
    app.load_profiles(vec![profile("a"), profile("b"), profile("c")]);
    let script = [
        KeyCode::Enter,
        KeyCode::Esc,
        KeyCode::Down,
        KeyCode::Enter,
        KeyCode::Esc,
        KeyCode::Up,
        KeyCode::Enter,
        KeyCode::Esc,
        KeyCode::Down,
        KeyCode::Down,
        KeyCode::Enter,
    ];
    for code in script {
        app.handle_key(key(code));
        assert_sessions_invariant(&app);
    }
    assert_eq!(app.sessions.len(), 3);
    let ids: Vec<u64> = app.sessions.iter().map(|s| s.id).collect();
    assert_eq!(ids, vec![1, 2, 3]);
    for id in 1..=3 {
        app.apply_event(AppEvent::StateChanged { session_id: id, state: VpnState::Disconnected });
        assert_sessions_invariant(&app);
    }
    app.activate_session(1);
    app.close_active_session();
    assert_sessions_invariant(&app);
    assert_eq!(app.sessions.iter().map(|s| s.id).collect::<Vec<_>>(), vec![1, 3]);
    assert_eq!(app.active_session_index, Some(1));
    // Re-opening the closed profile makes a new session with a fresh id.
    app.handle_key(key(KeyCode::Esc));
    app.selected_profile_index = 1;
    app.handle_key(key(KeyCode::Enter));
    assert_sessions_invariant(&app);
    assert_eq!(app.sessions.last().unwrap().id, 4);
    assert_eq!(app.sessions.last().unwrap().profile_name, "b");
    app.close_all_sessions();
    assert_sessions_invariant(&app);
    assert_eq!(app.sessions.len(), 1);
}

#[test]
fn the_active_session_can_be_changed_in_place() {
    let mut app = App::new(false);
    app.load_profiles(vec![profile("a")]);
    assert!(app.active_session_mut().is_none());
    assert_eq!(app.ensure_session_for_selected_profile(), Some(1));
    assert_eq!(app.ensure_session_for_selected_profile(), Some(1));
    assert_eq!(app.ui_mode, UiMode::Connect);
    assert_eq!(app.focus, Focus::Connect);
    if let Some(s) = app.active_session_mut() {
        s.username = "changed".to_string();
    }
    assert_eq!(app.sessions[0].username, "changed");
    assert_eq!(app.active_session().unwrap().username, "changed");
}

#[test]
fn closing_the_last_session_returns_to_the_list() {
    let mut app = App::new(false);
    app.load_profiles(vec![profile("a")]);
    app.ensure_session_for_selected_profile();
    app.close_active_session();
    assert!(app.sessions.is_empty());
    assert_eq!(app.active_session_index, None);
    assert_eq!(app.ui_mode, UiMode::ProfileList);
    assert_eq!(app.focus, Focus::ProfileList);
    assert_eq!(app.active_session_label(), "NO SESSION");
    assert_eq!(app.active_session_state(), VpnState::Disconnected);
}
