use openfortivpn_tui::config::VpnProfile;
use openfortivpn_tui::display::{
    buttons_enabled, digest_text, log_tone, log_window, mode_label, state_icon, status_hints, tab_mark,
    token_field_text, tone_of_state, LogTone, Tone,
};
use openfortivpn_tui::state::{App, PendingAction, UiMode, VpnState};

#[test]
fn log_lines_are_classed() {
    assert_eq!(log_tone("[ERR] boom"), LogTone::Error);
    assert_eq!(log_tone("ERROR: x [WARN]"), LogTone::Error);
    assert_eq!(log_tone("[WARN] careful"), LogTone::Warning);
    assert_eq!(log_tone("[TOKEN] Mengirim token OTP..."), LogTone::Token);
    assert_eq!(log_tone("Connected to gateway"), LogTone::Success);
    assert_eq!(log_tone("[VPN] tunnel is up"), LogTone::Success);
    assert_eq!(log_tone("[APP] hello"), LogTone::Info);
}

#[test]
fn the_log_window_never_leaves_empty_rows() {
    assert_eq!(log_window(100, 99, 10), (90, 100));
    assert_eq!(log_window(100, 5, 10), (5, 15));
    assert_eq!(log_window(5, 4, 10), (0, 5));
    assert_eq!(log_window(0, 0, 10), (0, 0));
    assert_eq!(log_window(10, 3, 0), (3, 3));
}

#[test]
fn marks_and_labels() {
    assert_eq!(tab_mark(&VpnState::Connected), "●");
    assert_eq!(tab_mark(&VpnState::Disconnected), "○");
    assert_eq!(tab_mark(&VpnState::WaitingCert), "◎");
    assert_eq!(state_icon(&VpnState::Disconnected), "● ");
    assert_eq!(state_icon(&VpnState::Error("x".to_string())), "✖ ");
    assert_eq!(tone_of_state(&VpnState::Connecting), Tone::Busy);
    assert_eq!(tone_of_state(&VpnState::Connected), Tone::Good);
    assert_eq!(mode_label(UiMode::Connect), "🔌 CONNECT");
    assert_eq!(mode_label(UiMode::Help), "🛈 HELP");
    assert_eq!(status_hints(UiMode::Help), vec![("ESC / F1", "Tutup Help")]);
    assert_eq!(status_hints(UiMode::Connect).len(), 12);
    assert_eq!(status_hints(UiMode::EditProfile)[3], ("Enter", "Save"));
}

#[test]
fn confirmation_targets() {
    let mut app = App::new(false);
    assert_eq!(app.confirm_target(PendingAction::CloseActive), "Session aktif");
    assert_eq!(app.confirm_target(PendingAction::DisconnectAll), "Semua session aktif (0)");
    app.load_profiles(vec![VpnProfile {
        name: "office".to_string(),
        host: "h".to_string(),
        port: 443,
        username: "u".to_string(),
        save_password: false,
        password: String::new(),
        trusted_cert: None,
        use_sudo_password: false,
        sudo_password: String::new(),
    }]);
    app.ensure_session_for_selected_profile();
    assert_eq!(app.confirm_target(PendingAction::DisconnectActive), "Session 'office'");
    assert_eq!(app.confirm_target(PendingAction::DisconnectAll), "Semua session aktif (1)");
    assert_eq!(app.confirm_target(PendingAction::CloseAllIdle), "Semua tab session idle");
}

#[test]
fn the_token_field_never_shows_the_token() {
    assert_eq!(token_field_text(""), None);
    assert_eq!(token_field_text("123456"), Some("••••••".to_string()));
    assert_eq!(token_field_text("é1"), Some("••".to_string()));
    assert!(!token_field_text("424242").unwrap().contains('4'));
}

#[test]
fn the_certificate_digest_is_cut_to_the_row() {
    let hash = "0123456789abcdef0123456789abcdef0123456789abcdef0123456789abcdef";
    assert_eq!(digest_text(hash, 70), format!("  {} ", hash));
    assert_eq!(digest_text(hash, 68), format!("  {} ", hash));
    assert_eq!(digest_text(hash, 67), "  0123456789abcdef0123456789abcdef0123456789abcdef0123456789a... ");
    assert_eq!(digest_text(hash, 20), "  0123456789ab... ");
    assert_eq!(digest_text(hash, 3), "  ... ");
    assert_eq!(digest_text("", 0), "   ");
}

#[test]
fn the_buttons_follow_the_state() {
    assert_eq!(buttons_enabled(&VpnState::Disconnected), (true, false));
    assert_eq!(buttons_enabled(&VpnState::Error("x".to_string())), (true, false));
    assert_eq!(buttons_enabled(&VpnState::Connected), (false, true));
    assert_eq!(buttons_enabled(&VpnState::Connecting), (false, true));
    assert_eq!(buttons_enabled(&VpnState::WaitingToken), (false, true));
    assert_eq!(buttons_enabled(&VpnState::WaitingCert), (false, true));
    assert_eq!(buttons_enabled(&VpnState::Disconnecting), (false, false));
}
