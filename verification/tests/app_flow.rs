use openfortivpn_tui::actions::{handle_text_input, host_port_text, parse_host_port, Key, KeyCode, Modifiers};
use openfortivpn_tui::config::{Config, VpnProfile};
use openfortivpn_tui::profile_form::{start_edit, start_new};
use openfortivpn_tui::runtime::debug_flag;
use openfortivpn_tui::state::{
    App, AppEvent, CertInfo, ConfigOutcome, ConnectionSession, Effect, Focus, NotifLevel,
    PendingAction, UiMode, VpnState, NOTIFICATION_TICKS,
};

const HASH: &str = "0123456789abcdef0123456789abcdef0123456789abcdef0123456789abcdef";

fn mods() -> Modifiers {
    Modifiers { shift: false, control: false, alt: false, super_key: false, hyper: false, meta: false }
}

fn key(code: KeyCode) -> Key {
    Key { code, modifiers: mods() }
}

fn ctrl(c: char) -> Key {
    Key { code: KeyCode::Char(c), modifiers: Modifiers { control: true, ..mods() } }
}

fn ctrl_shift(c: char) -> Key {
    Key { code: KeyCode::Char(c), modifiers: Modifiers { control: true, shift: true, ..mods() } }
}

fn profile(name: &str, host: &str) -> VpnProfile {
    VpnProfile {
        name: name.to_string(),
        host: host.to_string(),
        port: 443,
        username: "alice".to_string(),
        save_password: true,
        password: "secret".to_string(),
        trusted_cert: None,
        use_sudo_password: false,
        sudo_password: String::new(),
    }
}

fn app_with(profiles: Vec<VpnProfile>) -> App {
    let mut app = App::new(false);
    app.load_profiles(profiles);
    app
}

fn all_log_lines(app: &App) -> Vec<String> {
    let mut v = app.logs.clone();
    for s in &app.sessions {
        v.extend(s.logs.iter().cloned());
    }
    v
}

/// Opens the selected profile with Enter and returns the effects.
fn open(app: &mut App) -> Vec<Effect> {
    app.handle_key(key(KeyCode::Enter))
}

#[test]
fn labels_and_titles() {
    assert_eq!(VpnState::Disconnected.label(), "DISCONNECTED");
    assert_eq!(VpnState::Connecting.label(), "CONNECTING...");
    assert_eq!(VpnState::WaitingCert.label(), "CERT UNTRUSTED");
    assert_eq!(VpnState::WaitingToken.label(), "WAITING TOKEN");
    assert_eq!(VpnState::Connected.label(), "CONNECTED");
    assert_eq!(VpnState::Disconnecting.label(), "DISCONNECTING...");
    assert_eq!(VpnState::Error("x".to_string()).label(), "ERROR");
    assert!(VpnState::Disconnected.is_idle());
    assert!(VpnState::Error("x".to_string()).is_idle());
    assert!(!VpnState::Connected.is_idle());
    assert_eq!(PendingAction::DisconnectActive.title(), "DISCONNECT SESSION");
    assert_eq!(PendingAction::DisconnectAll.title(), "DISCONNECT ALL SESSIONS");
    assert_eq!(PendingAction::CloseActive.title(), "CLOSE SESSION TAB");
    assert_eq!(PendingAction::CloseAllIdle.title(), "CLOSE IDLE TABS");
}

#[test]
fn a_session_copies_its_profile_and_logs_lines() {
    let mut s = ConnectionSession::new(9, &profile("office", "vpn.example.com"));
    assert_eq!(s.id, 9);
    assert_eq!(s.profile_name, "office");
    assert_eq!(s.host, "vpn.example.com");
    assert_eq!(s.password, "secret");
    assert_eq!(s.vpn_state, VpnState::Disconnected);
    assert!(s.logs.is_empty());
    s.push_log("one".to_string());
    s.push_log("two".to_string());
    assert_eq!(s.logs, vec!["one", "two"]);
    assert_eq!(s.log_scroll, 1);
}

#[test]
fn host_and_port_text() {
    assert_eq!(parse_host_port("vpn.example.com:8443"), ("vpn.example.com".to_string(), 8443));
    assert_eq!(parse_host_port("vpn.example.com"), ("vpn.example.com".to_string(), 443));
    assert_eq!(parse_host_port("vpn:"), ("vpn".to_string(), 443));
    assert_eq!(parse_host_port("vpn:99999"), ("vpn".to_string(), 443));
    assert_eq!(parse_host_port("::1:10443"), ("::1".to_string(), 10443));
    assert_eq!(host_port_text("h", 443), "h:443");
    let (h, p) = parse_host_port(&host_port_text("a:b", 65535));
    assert_eq!((h.as_str(), p), ("a:b", 65535));
}

#[test]
fn text_fields_follow_keys() {
    let mut field = String::from("ab");
    handle_text_input(&mut field, key(KeyCode::Char('c')));
    assert_eq!(field, "abc");
    handle_text_input(&mut field, key(KeyCode::Backspace));
    handle_text_input(&mut field, key(KeyCode::Backspace));
    assert_eq!(field, "a");
    handle_text_input(&mut field, key(KeyCode::Up));
    assert_eq!(field, "a");
    handle_text_input(&mut field, key(KeyCode::Delete));
    assert_eq!(field, "");
    handle_text_input(&mut field, key(KeyCode::Backspace));
    assert_eq!(field, "");
}

#[test]
fn modifiers() {
    assert!(ctrl('c').modifiers.is_only_control());
    assert!(!ctrl_shift('K').modifiers.is_only_control());
    assert!(Modifiers { shift: true, ..mods() }.is_only_shift());
    assert!(!mods().is_only_shift());
}

#[test]
fn debug_flag_on_the_command_line() {
    let args = |v: &[&str]| v.iter().map(|s| s.to_string()).collect::<Vec<String>>();
    assert!(debug_flag(&args(&["prog", "-d"])));
    assert!(debug_flag(&args(&["prog", "x", "--debug"])));
    assert!(!debug_flag(&args(&["prog", "-dd"])));
    assert!(!debug_flag(&args(&[])));
}

#[test]
fn start_from_configuration() {
    let app = App::from_config(true, &Config::default());
    assert!(app.debug_enabled);
    assert_eq!(app.ui_mode, UiMode::NewProfile);
    assert_eq!(app.focus, Focus::ProfileName);
    assert_eq!(app.profile_port, "443");

    let cfg = Config { profiles: vec![profile("a", "1"), profile("b", "2")], selected_profile: Some("b".to_string()) };
    let app = App::from_config(false, &cfg);
    assert_eq!(app.ui_mode, UiMode::ProfileList);
    assert_eq!(app.selected_profile_index, 1);
    assert_eq!(app.focus, Focus::ProfileItem(1));
    assert_eq!(app.get_current_profile().unwrap().name, "b");
    let back = app.current_config();
    assert_eq!(back.selected_profile.as_deref(), Some("b"));
    assert_eq!(back.profiles.len(), 2);
}

#[test]
fn opening_a_profile_connects_it() {
    let mut app = app_with(vec![profile("office", "vpn.example.com")]);
    let effects = open(&mut app);
    assert_eq!(app.sessions.len(), 1);
    assert_eq!(app.active_session_index, Some(0));
    assert_eq!(app.ui_mode, UiMode::Connect);
    assert_eq!(app.next_session_id, 2);
    let s = &app.sessions[0];
    assert_eq!(s.id, 1);
    assert_eq!(s.vpn_state, VpnState::Connecting);
    assert_eq!(
        s.logs,
        vec!["[APP] Menggunakan profile: office", "[APP] Menghubungkan ke vpn.example.com:443..."]
    );
    assert_eq!(app.notification, Some(("Menghubungkan ke VPN...".to_string(), NotifLevel::Info)));
    assert_eq!(effects.len(), 1);
    match &effects[0] {
        Effect::Connect { request, reconnect } => {
            assert!(!reconnect);
            assert_eq!(request.session_id, 1);
            assert_eq!(request.host, "vpn.example.com");
            assert_eq!(request.port, 443);
            assert_eq!(request.username, "alice");
            assert_eq!(request.password, "secret");
            assert_eq!(request.sudo_password, None);
            assert_eq!(request.trusted_cert, None);
        }
        other => panic!("unexpected {:?}", other),
    }
    assert!(all_log_lines(&app).iter().all(|l| !l.contains("secret")));
}

#[test]
fn opening_a_profile_twice_reuses_its_session() {
    let mut app = app_with(vec![profile("office", "h")]);
    open(&mut app);
    app.handle_key(key(KeyCode::Esc));
    assert_eq!(app.ui_mode, UiMode::ProfileList);
    let effects = open(&mut app);
    assert!(effects.is_empty());
    assert_eq!(app.sessions.len(), 1);
    assert_eq!(app.ui_mode, UiMode::Connect);
    assert_eq!(app.sessions[0].logs.last().unwrap(), "[APP] Membuka session existing: office");
    assert_eq!(app.notification, Some(("Membuka session 'office'".to_string(), NotifLevel::Info)));
}

#[test]
fn missing_fields_block_the_connection() {
    let mut p = profile("office", "h");
    p.password = String::new();
    let mut app = app_with(vec![p]);
    let effects = open(&mut app);
    assert!(effects.is_empty());
    assert_eq!(app.sessions[0].vpn_state, VpnState::Disconnected);
    assert_eq!(
        app.notification,
        Some(("Host, Username, dan Password harus diisi".to_string(), NotifLevel::Error))
    );
}

#[test]
fn events_reach_only_their_session() {
    let mut app = app_with(vec![profile("a", "h1"), profile("b", "h2")]);
    open(&mut app);
    app.handle_key(key(KeyCode::Esc));
    app.handle_key(key(KeyCode::Down));
    open(&mut app);
    assert_eq!(app.sessions.len(), 2);
    let before_b = app.sessions[1].logs.clone();
    let effects = app.apply_event(AppEvent::StateChanged { session_id: 1, state: VpnState::Connected });
    assert_eq!(app.sessions[0].vpn_state, VpnState::Connected);
    assert_eq!(app.sessions[1].logs, before_b);
    assert_eq!(app.sessions[1].vpn_state, VpnState::Connecting);
    assert!(matches!(effects[..], [Effect::SetWaitingFlag { session_id: 1, waiting: false }]));
    assert_eq!(app.sessions[0].logs.last().unwrap(), "[APP] ✔ Koneksi VPN berhasil");
    assert_eq!(app.notification, Some(("✔ VPN 'a' terhubung!".to_string(), NotifLevel::Success)));

    app.apply_event(AppEvent::LogLine { session_id: 2, line: "hello".to_string() });
    assert_eq!(app.sessions[1].logs.last().unwrap(), "hello");
    assert_ne!(app.sessions[0].logs.last().unwrap(), "hello");

    app.apply_event(AppEvent::DebugLog("raw".to_string()));
    app.apply_event(AppEvent::SpeedUpdate {
        session_id: 1,
        interface: "ppp0".to_string(),
        rx_bps: 1,
        tx_bps: 2,
        rx_total: 3,
        tx_total: 4,
    });
    assert!(all_log_lines(&app).iter().all(|l| l != "raw"));

    // An unknown session's state change is dropped.
    let effects = app.apply_event(AppEvent::StateChanged { session_id: 77, state: VpnState::Connected });
    assert!(effects.is_empty());
    assert_eq!(app.sessions[1].vpn_state, VpnState::Connecting);
}

#[test]
fn dropped_and_failed_connections_are_announced() {
    let mut app = app_with(vec![profile("a", "h")]);
    open(&mut app);
    app.apply_event(AppEvent::StateChanged { session_id: 1, state: VpnState::Connected });
    app.apply_event(AppEvent::StateChanged { session_id: 1, state: VpnState::Disconnected });
    assert_eq!(app.notification, Some(("VPN 'a' terputus".to_string(), NotifLevel::Warning)));
    assert_eq!(app.sessions[0].logs.last().unwrap(), "[APP] VPN terputus");
    let n = app.sessions[0].logs.len();
    // From disconnected to disconnected: nothing announced.
    app.apply_event(AppEvent::StateChanged { session_id: 1, state: VpnState::Disconnected });
    assert_eq!(app.sessions[0].logs.len(), n);
    app.apply_event(AppEvent::StateChanged { session_id: 1, state: VpnState::Error("boom".to_string()) });
    assert_eq!(app.notification, Some(("Error 'a': boom".to_string(), NotifLevel::Error)));
    assert_eq!(app.sessions[0].logs.last().unwrap(), "[APP] Error: boom");
}

#[test]
fn the_token_is_sent_and_never_logged() {
    let mut app = app_with(vec![profile("a", "h")]);
    open(&mut app);
    let effects = app.apply_event(AppEvent::NeedToken(1));
    assert!(matches!(effects[..], [Effect::SetWaitingFlag { session_id: 1, waiting: true }]));
    assert_eq!(app.sessions[0].vpn_state, VpnState::WaitingToken);
    assert_eq!(app.focus, Focus::TokenInput);
    assert_eq!(
        app.notification,
        Some(("Masukkan token OTP untuk 'a'".to_string(), NotifLevel::Info))
    );
    // A second request while waiting changes nothing.
    assert!(app.apply_event(AppEvent::NeedToken(1)).is_empty());

    let effects = app.handle_key(key(KeyCode::Enter));
    assert!(effects.is_empty());
    assert_eq!(app.notification, Some(("Token tidak boleh kosong!".to_string(), NotifLevel::Error)));

    for c in " 987654 ".chars() {
        assert!(app.handle_key(key(KeyCode::Char(c))).is_empty());
    }
    assert_eq!(app.sessions[0].token_input, " 987654 ");
    let effects = app.handle_key(key(KeyCode::Enter));
    match &effects[..] {
        [Effect::SendToken { session_id, token }] => {
            assert_eq!(*session_id, 1);
            assert_eq!(token, "987654");
        }
        other => panic!("unexpected {:?}", other),
    }
    assert_eq!(app.sessions[0].token_input, "");
    assert_eq!(app.sessions[0].vpn_state, VpnState::Connecting);
    assert_eq!(app.focus, Focus::Disconnect);
    assert_eq!(app.sessions[0].logs.last().unwrap(), "[TOKEN] Mengirim token OTP...");
    assert!(all_log_lines(&app).iter().all(|l| !l.contains("987654")));
}

#[test]
fn cancelling_the_token_disconnects() {
    let mut app = app_with(vec![profile("a", "h")]);
    open(&mut app);
    app.apply_event(AppEvent::NeedToken(1));
    app.handle_key(key(KeyCode::Char('1')));
    let effects = app.handle_key(key(KeyCode::Esc));
    assert!(matches!(
        effects[..],
        [
            Effect::SetWaitingFlag { session_id: 1, waiting: false },
            Effect::SetWaitingFlag { session_id: 1, waiting: false },
            Effect::Disconnect { session_id: 1 }
        ]
    ));
    assert_eq!(app.sessions[0].vpn_state, VpnState::Disconnecting);
    assert_eq!(app.sessions[0].token_input, "");
    assert!(app.sessions[0].logs.iter().any(|l| l == "[TOKEN] ❌ Token dibatalkan"));
}

fn cert() -> CertInfo {
    CertInfo {
        hash: HASH.to_string(),
        subject_cn: "vpn.example.com".to_string(),
        subject_org: "Example".to_string(),
        issuer_cn: "CA".to_string(),
    }
}

#[test]
fn accepting_a_certificate_trusts_it_and_reconnects() {
    let mut app = app_with(vec![profile("a", "h")]);
    open(&mut app);
    app.apply_event(AppEvent::CertError { session_id: 1, cert: cert() });
    assert_eq!(app.sessions[0].vpn_state, VpnState::WaitingCert);
    assert_eq!(app.focus, Focus::CertAccept);
    assert_eq!(
        app.sessions[0].logs.last().unwrap(),
        "[CERT] ⚠ Certificate tidak dipercaya: CN=vpn.example.com"
    );
    app.handle_key(key(KeyCode::Tab));
    assert_eq!(app.focus, Focus::CertDeny);
    app.handle_key(key(KeyCode::Left));
    assert_eq!(app.focus, Focus::CertAccept);
    let effects = app.handle_key(key(KeyCode::Char('y')));
    assert_eq!(effects.len(), 2);
    match &effects[0] {
        Effect::SaveConfig { config, report } => {
            assert!(!report);
            assert_eq!(config.profiles[0].trusted_cert.as_deref(), Some(HASH));
        }
        other => panic!("unexpected {:?}", other),
    }
    match &effects[1] {
        Effect::Connect { request, reconnect } => {
            assert!(reconnect);
            assert_eq!(request.trusted_cert.as_deref(), Some(HASH));
            assert_eq!(request.session_id, 1);
        }
        other => panic!("unexpected {:?}", other),
    }
    assert_eq!(app.profiles[0].trusted_cert.as_deref(), Some(HASH));
    assert_eq!(app.sessions[0].trusted_cert.as_deref(), Some(HASH));
    assert!(app.sessions[0].pending_cert.is_none());
    assert_eq!(app.sessions[0].vpn_state, VpnState::Connecting);
    assert_eq!(app.focus, Focus::Disconnect);
}

#[test]
fn refusing_a_certificate_disconnects() {
    let mut app = app_with(vec![profile("a", "h")]);
    open(&mut app);
    app.apply_event(AppEvent::CertError { session_id: 1, cert: cert() });
    let effects = app.handle_key(key(KeyCode::Esc));
    assert!(matches!(effects[..], [Effect::SetWaitingFlag { session_id: 1, waiting: false }]));
    assert_eq!(app.sessions[0].vpn_state, VpnState::Disconnected);
    assert!(app.sessions[0].pending_cert.is_none());
    assert_eq!(
        app.notification,
        Some(("Certificate ditolak. Koneksi dibatalkan.".to_string(), NotifLevel::Warning))
    );
    assert!(app.sessions[0].logs.iter().any(|l| l == "[CERT] ✖ Certificate ditolak: vpn.example.com"));
}

#[test]
fn help_screen_opens_and_closes() {
    let mut app = app_with(vec![profile("a", "h")]);
    open(&mut app);
    app.handle_key(key(KeyCode::F(1)));
    assert_eq!(app.ui_mode, UiMode::Help);
    assert_eq!(app.previous_ui_mode, Some(UiMode::Connect));
    assert!(app.has_modal());
    // Other keys are ignored on the help screen.
    assert!(app.handle_key(key(KeyCode::Char('x'))).is_empty());
    assert_eq!(app.ui_mode, UiMode::Help);
    assert!(!app.should_quit);
    app.handle_key(key(KeyCode::Esc));
    assert_eq!(app.ui_mode, UiMode::Connect);
    assert_eq!(app.previous_ui_mode, None);
    assert_eq!(app.focus, Focus::ProfileList);
}

#[test]
fn ctrl_b_closes_the_help_screen() {
    let mut app = app_with(vec![profile("a", "h")]);
    open(&mut app);
    app.handle_key(key(KeyCode::F(1)));
    assert_eq!(app.ui_mode, UiMode::Help);
    assert!(app.handle_key(ctrl('b')).is_empty());
    assert_eq!(app.ui_mode, UiMode::Connect);
    assert_eq!(app.previous_ui_mode, None);
    assert!(!app.should_quit);
    assert_eq!(app.sessions.len(), 1);
}

#[test]
fn quit_keys_work_on_the_help_screen() {
    for c in ['q', 'c'] {
        let mut app = app_with(vec![profile("a", "h")]);
        app.handle_key(key(KeyCode::F(1)));
        assert_eq!(app.ui_mode, UiMode::Help);
        assert!(app.handle_key(ctrl(c)).is_empty());
        assert!(app.should_quit);
        assert_eq!(app.ui_mode, UiMode::Help);
    }
}

#[test]
fn a_line_for_a_closed_session_goes_to_the_app_log() {
    let mut app = app_with(vec![profile("a", "h1")]);
    open(&mut app);
    let before = app.sessions[0].logs.clone();
    let app_before = app.logs.len();
    app.apply_event(AppEvent::LogLine { session_id: 99, line: "late".to_string() });
    assert_eq!(app.sessions[0].logs, before);
    assert_eq!(app.logs.len(), app_before + 1);
    assert_eq!(app.logs.last().unwrap(), "late");
    assert_eq!(app.log_scroll, app.logs.len() - 1);
}

#[test]
fn quit_keys() {
    let mut app = app_with(vec![]);
    app.handle_key(ctrl('q'));
    assert!(app.should_quit);
    let mut app = app_with(vec![]);
    app.handle_key(ctrl('c'));
    assert!(app.should_quit);
}

#[test]
fn moving_between_sessions_wraps_around() {
    let mut app = app_with(vec![profile("a", "1"), profile("b", "2"), profile("c", "3")]);
    for _ in 0..3 {
        open(&mut app);
        app.handle_key(key(KeyCode::Esc));
        app.handle_key(key(KeyCode::Down));
    }
    assert_eq!(app.sessions.len(), 3);
    app.activate_session(0);
    app.handle_key(key(KeyCode::Left));
    assert_eq!(app.active_session_index, Some(2));
    app.handle_key(key(KeyCode::Right));
    assert_eq!(app.active_session_index, Some(0));
    app.activate_next_session();
    app.activate_prev_session();
    assert_eq!(app.active_session_index, Some(0));
    assert_eq!(app.find_session_index_by_id(3), Some(2));
    assert_eq!(app.find_session_by_profile_name("b"), Some(1));
    assert_eq!(app.find_session_by_profile_name("zzz"), None);
    assert_eq!(app.active_session_label(), "a");
}

#[test]
fn confirmed_disconnect_and_cancel() {
    let mut app = app_with(vec![profile("a", "h")]);
    open(&mut app);
    app.handle_key(ctrl('k'));
    assert_eq!(app.pending_action, Some(PendingAction::DisconnectActive));
    assert_eq!(app.focus, Focus::ActionConfirmAccept);
    app.handle_key(key(KeyCode::Char('n')));
    assert_eq!(app.pending_action, None);
    assert_eq!(app.notification, Some(("Aksi dibatalkan".to_string(), NotifLevel::Info)));

    app.handle_key(ctrl('k'));
    let effects = app.handle_key(key(KeyCode::Enter));
    assert!(matches!(
        effects[..],
        [Effect::SetWaitingFlag { session_id: 1, waiting: false }, Effect::Disconnect { session_id: 1 }]
    ));
    assert_eq!(app.sessions[0].vpn_state, VpnState::Disconnecting);
    assert_eq!(app.sessions[0].logs.last().unwrap(), "[APP] Memutuskan koneksi VPN...");
}

#[test]
fn disconnect_all_stops_every_live_session() {
    let mut app = app_with(vec![profile("a", "1"), profile("b", "2"), profile("c", "3")]);
    for _ in 0..3 {
        open(&mut app);
        app.handle_key(key(KeyCode::Esc));
        app.handle_key(key(KeyCode::Down));
    }
    app.apply_event(AppEvent::StateChanged { session_id: 2, state: VpnState::Disconnected });
    app.activate_session(0);
    app.handle_key(ctrl_shift('K'));
    assert_eq!(app.pending_action, Some(PendingAction::DisconnectAll));
    let effects = app.handle_key(key(KeyCode::Char('y')));
    assert_eq!(effects.len(), 4);
    assert!(matches!(effects[1], Effect::Disconnect { session_id: 1 }));
    assert!(matches!(effects[3], Effect::Disconnect { session_id: 3 }));
    assert_eq!(app.sessions[1].vpn_state, VpnState::Disconnected);
    assert_eq!(app.sessions[0].vpn_state, VpnState::Disconnecting);
    assert_eq!(app.notification, Some(("Memutuskan 2 session...".to_string(), NotifLevel::Warning)));

    let effects = app.disconnect_all_sessions();
    assert!(effects.is_empty());
    assert_eq!(
        app.notification,
        Some(("Tidak ada session aktif untuk diputus".to_string(), NotifLevel::Info))
    );
}

#[test]
fn closing_tabs() {
    let mut app = app_with(vec![profile("a", "1"), profile("b", "2")]);
    open(&mut app);
    app.handle_key(key(KeyCode::Esc));
    app.handle_key(key(KeyCode::Down));
    open(&mut app);
    // The active session (b) is connecting: it cannot be closed.
    app.handle_key(ctrl('w'));
    app.handle_key(key(KeyCode::Char('y')));
    assert_eq!(app.sessions.len(), 2);
    assert_eq!(
        app.notification,
        Some(("Disconnect session aktif dulu sebelum close tab".to_string(), NotifLevel::Warning))
    );
    app.apply_event(AppEvent::StateChanged { session_id: 2, state: VpnState::Disconnected });
    app.handle_key(ctrl('w'));
    app.handle_key(key(KeyCode::Char('y')));
    assert_eq!(app.sessions.len(), 1);
    assert_eq!(app.active_session_index, Some(0));
    assert_eq!(app.notification, Some(("Session 'b' ditutup".to_string(), NotifLevel::Info)));

    app.apply_event(AppEvent::StateChanged { session_id: 1, state: VpnState::Disconnected });
    app.handle_key(ctrl_shift('W'));
    app.handle_key(key(KeyCode::Char('y')));
    assert!(app.sessions.is_empty());
    assert_eq!(app.active_session_index, None);
    assert_eq!(app.ui_mode, UiMode::ProfileList);
    assert_eq!(app.notification, Some(("1 session ditutup".to_string(), NotifLevel::Info)));
}

#[test]
fn notifications_expire() {
    let mut app = app_with(vec![]);
    app.notify("hi".to_string(), NotifLevel::Info);
    for _ in 0..NOTIFICATION_TICKS - 1 {
        app.tick_notification();
    }
    assert_eq!(app.notification, Some(("hi".to_string(), NotifLevel::Info)));
    app.tick_notification();
    assert_eq!(app.notification, None);
    app.tick_notification();
    assert_eq!(app.notification_ttl, 0);
}

#[test]
fn log_scrolling_stays_in_range() {
    let mut app = app_with(vec![profile("a", "h")]);
    open(&mut app);
    for i in 0..5 {
        app.apply_event(AppEvent::LogLine { session_id: 1, line: format!("l{}", i) });
    }
    let last = app.sessions[0].logs.len() - 1;
    assert_eq!(app.sessions[0].log_scroll, last);
    app.scroll_logs_down();
    assert_eq!(app.sessions[0].log_scroll, last);
    app.scroll_logs_up();
    assert_eq!(app.sessions[0].log_scroll, last - 1);
    app.handle_key(key(KeyCode::PageUp));
    assert_eq!(app.sessions[0].log_scroll, 0);
    app.handle_key(key(KeyCode::PageDown));
    assert_eq!(app.sessions[0].log_scroll, last);
}

#[test]
fn focus_ring_on_the_connection_screen() {
    let mut app = app_with(vec![profile("a", "h")]);
    open(&mut app);
    app.focus = Focus::Logs;
    app.handle_key(key(KeyCode::Tab));
    assert_eq!(app.focus, Focus::Host);
    app.handle_key(Key { code: KeyCode::BackTab, modifiers: Modifiers { shift: true, ..mods() } });
    assert_eq!(app.focus, Focus::Logs);
}

#[test]
fn editing_connection_fields() {
    let mut app = app_with(vec![profile("a", "h")]);
    open(&mut app);
    app.apply_event(AppEvent::StateChanged { session_id: 1, state: VpnState::Disconnected });
    app.focus = Focus::Host;
    app.handle_key(key(KeyCode::Backspace));
    app.handle_key(key(KeyCode::Backspace));
    app.handle_key(key(KeyCode::Char('8')));
    assert_eq!(app.sessions[0].host, "h");
    assert_eq!(app.sessions[0].port, 48);
    app.focus = Focus::Username;
    app.handle_key(key(KeyCode::Char('x')));
    assert_eq!(app.sessions[0].username, "alicex");
    app.handle_key(ctrl('p'));
    assert!(app.show_password);
    let effects = app.handle_key(ctrl('s'));
    assert!(matches!(&effects[..], [Effect::SaveConfig { report: true, .. }]));
}

#[test]
fn profile_list_navigation_and_delete() {
    let mut app = app_with(vec![profile("a", "1"), profile("b", "2")]);
    app.handle_key(key(KeyCode::Up));
    assert_eq!(app.selected_profile_index, 0);
    app.handle_key(key(KeyCode::Down));
    assert_eq!(app.selected_profile_index, 1);
    assert_eq!(app.focus, Focus::ProfileItem(1));
    app.handle_key(key(KeyCode::Down));
    assert_eq!(app.selected_profile_index, 1);

    assert!(app.handle_key(key(KeyCode::Char('d'))).is_empty());
    assert_eq!(app.delete_confirmation.as_deref(), Some("b"));
    let effects = app.handle_key(key(KeyCode::F(4)));
    match &effects[..] {
        [Effect::DeleteProfile { name }] => assert_eq!(name, "b"),
        other => panic!("unexpected {:?}", other),
    }
    app.finish_profile_delete("b", ConfigOutcome::Saved(vec![profile("a", "1")]));
    assert_eq!(app.profiles.len(), 1);
    assert_eq!(app.selected_profile_index, 0);
    assert_eq!(app.delete_confirmation, None);
    assert_eq!(app.notification, Some(("Profile 'b' dihapus".to_string(), NotifLevel::Success)));

    app.handle_key(key(KeyCode::Char('d')));
    app.finish_profile_delete("a", ConfigOutcome::SaveFailed("disk".to_string()));
    assert_eq!(app.notification, Some(("Gagal hapus: disk".to_string(), NotifLevel::Error)));
    assert_eq!(app.profiles.len(), 1);
    app.finish_profile_delete("a", ConfigOutcome::LoadFailed("bad".to_string()));
    assert_eq!(
        app.notification,
        Some(("Hapus profile dibatalkan: bad".to_string(), NotifLevel::Error))
    );
}

#[test]
fn new_profile_form() {
    let mut app = app_with(vec![]);
    app.handle_key(key(KeyCode::F(2)));
    assert_eq!(app.ui_mode, UiMode::NewProfile);
    assert_eq!(app.focus, Focus::ProfileName);
    let effects = app.handle_key(key(KeyCode::Enter));
    assert!(effects.is_empty());
    assert_eq!(
        app.notification,
        Some(("Nama profile tidak boleh kosong!".to_string(), NotifLevel::Error))
    );
    for c in "home".chars() {
        app.handle_key(key(KeyCode::Char(c)));
    }
    app.handle_key(key(KeyCode::Enter));
    assert_eq!(app.notification, Some(("Host tidak boleh kosong!".to_string(), NotifLevel::Error)));
    app.handle_key(key(KeyCode::Tab));
    for c in "gw".chars() {
        app.handle_key(key(KeyCode::Char(c)));
    }
    app.handle_key(key(KeyCode::Tab));
    app.handle_key(key(KeyCode::Delete));
    for c in "10443".chars() {
        app.handle_key(key(KeyCode::Char(c)));
    }
    app.handle_key(key(KeyCode::Tab));
    app.handle_key(key(KeyCode::Char('u')));
    app.handle_key(key(KeyCode::Tab));
    app.handle_key(key(KeyCode::Char('p')));
    // The password is not kept unless the form saves passwords.
    assert_eq!(app.form_profile().password, "");
    app.focus = Focus::SavePassword;
    app.handle_key(key(KeyCode::Char(' ')));
    assert!(app.profile_save_password);
    let effects = app.handle_key(key(KeyCode::Enter));
    let saved = match &effects[..] {
        [Effect::SaveProfile { profile, replace }] => {
            assert_eq!(*replace, None);
            assert_eq!(profile.name, "home");
            assert_eq!(profile.host, "gw");
            assert_eq!(profile.port, 10443);
            assert_eq!(profile.username, "u");
            assert_eq!(profile.password, "p");
            assert_eq!(profile.trusted_cert, None);
            profile.clone()
        }
        other => panic!("unexpected {:?}", other),
    };
    let mut cfg = Config::default();
    cfg.store_profile(saved, None);
    app.finish_profile_save(ConfigOutcome::Saved(cfg.profiles));
    assert_eq!(app.ui_mode, UiMode::ProfileList);
    assert_eq!(app.profiles.len(), 1);
    assert_eq!(app.selected_profile_index, 0);
    assert_eq!(app.notification, Some(("Profile 'home' tersimpan!".to_string(), NotifLevel::Success)));
    assert_eq!(app.logs.last().unwrap(), "[APP] Profile 'home' tersimpan");
}

#[test]
fn edit_profile_form_replaces_the_edited_profile() {
    let mut app = app_with(vec![profile("a", "1")]);
    app.handle_key(key(KeyCode::Char('e')));
    assert_eq!(app.ui_mode, UiMode::EditProfile);
    assert_eq!(app.editing_profile_name.as_deref(), Some("a"));
    assert_eq!(app.profile_port, "443");
    app.handle_key(key(KeyCode::Char('2')));
    let effects = app.handle_key(key(KeyCode::Enter));
    match &effects[..] {
        [Effect::SaveProfile { profile, replace }] => {
            assert_eq!(replace.as_deref(), Some("a"));
            assert_eq!(profile.name, "a2");
        }
        other => panic!("unexpected {:?}", other),
    }
    app.handle_key(key(KeyCode::Esc));
    assert_eq!(app.ui_mode, UiMode::ProfileList);
    assert_eq!(app.logs.last().unwrap(), "[APP] Kembali ke daftar profile");
}

#[test]
fn forms_open_empty_or_filled() {
    let mut app = app_with(vec![]);
    let mut p = profile("x", "gw");
    p.port = 8443;
    start_edit(&mut app, &p);
    assert_eq!(app.profile_port, "8443");
    assert_eq!(app.profile_host, "gw");
    start_new(&mut app);
    assert_eq!(app.profile_port, "443");
    assert_eq!(app.profile_name, "");
    assert_eq!(app.editing_profile_name, None);
}

#[test]
fn trusted_certificate_reaches_profile_and_sessions() {
    let mut app = app_with(vec![profile("a", "1"), profile("b", "2")]);
    open(&mut app);
    app.update_profile_trusted_cert("a", HASH);
    assert_eq!(app.profiles[0].trusted_cert.as_deref(), Some(HASH));
    assert_eq!(app.profiles[1].trusted_cert, None);
    assert_eq!(app.sessions[0].trusted_cert.as_deref(), Some(HASH));
}

#[test]
fn eight_tabs_go_once_around_the_profile_form() {
    let mut app = app_with(vec![profile("a", "h")]);
    app.handle_key(key(KeyCode::F(2)));
    assert_eq!(app.ui_mode, UiMode::NewProfile);
    let start = app.focus;
    let mut seen = vec![start];
    for _ in 0..8 {
        app.handle_key(key(KeyCode::Tab));
        seen.push(app.focus);
    }
    assert_eq!(app.focus, start);
    seen.pop();
    for i in 0..seen.len() {
        for j in i + 1..seen.len() {
            assert_ne!(seen[i], seen[j]);
        }
    }
}
