use openfortivpn_tui::state::{AppEvent, CertInfo, VpnState};
use openfortivpn_tui::vpn::{
    build_command, check_connect_fields, common_binary_path_list, connecting_line,
    detect_install_hint, exit_reaction, i32_to_decimal, method_line, missing_binary_message,
    package_manager_names, plan_stdin, privilege_method, privilege_probe_line, react_to_line,
    resolve_openfortivpn_path, sudoers_hint, token_delivery, unavailable_message, utf8_len_at_least,
    CertBuffer, ConnectAction, ConnectInput, ConnectState, ConnectStep, StopAction, StopInput, StopState,
    PrivilegeMethod, ProcessExit, ReaderFlags,
};
use openfortivpn_tui::state::ConnectRequest;

const HASH: &str = "0123456789abcdef0123456789abcdef0123456789abcdef0123456789abcdef";

fn cert_output() -> Vec<String> {
    vec![
        "Connected to gateway.".to_string(),
        "ERROR:  Gateway certificate validation failed, and the certificate digest is not in the local whitelist.".to_string(),
        "ERROR:  If you trust it, rerun with:".to_string(),
        format!("ERROR:      --trusted-cert {}", HASH),
        "ERROR:  or add this line to your config file:".to_string(),
        format!("ERROR:      trusted-cert = {}", HASH),
        "ERROR:  Gateway certificate:".to_string(),
        "    subject:".to_string(),
        "        C=US".to_string(),
        "        O=Example Corp".to_string(),
        "        CN=vpn.example.com".to_string(),
        "    issuer:".to_string(),
        "        CN=Example CA".to_string(),
        "        O=Example Trust".to_string(),
        "INFO:   Closed connection to gateway.".to_string(),
        "        CN=after close".to_string(),
    ]
}

#[test]
fn privilege_method_prefers_root_then_nopasswd_then_sudo() {
    assert_eq!(privilege_method(true, true, true), PrivilegeMethod::AlreadyRoot);
    assert_eq!(privilege_method(false, true, true), PrivilegeMethod::SudoNoPassword);
    assert_eq!(privilege_method(false, false, true), PrivilegeMethod::SudoWithPassword);
    assert_eq!(privilege_method(false, false, false), PrivilegeMethod::Unavailable);
}

#[test]
fn privilege_labels_and_lines() {
    assert_eq!(PrivilegeMethod::AlreadyRoot.label(), "root (langsung)");
    assert_eq!(PrivilegeMethod::SudoNoPassword.label(), "sudo NOPASSWD");
    assert_eq!(PrivilegeMethod::SudoWithPassword.label(), "sudo -S (dengan password)");
    assert_eq!(PrivilegeMethod::Unavailable.label(), "tidak tersedia");
    assert_eq!(method_line(PrivilegeMethod::SudoNoPassword), "[PRIV] Metode: sudo NOPASSWD");
    assert_eq!(
        privilege_probe_line(PrivilegeMethod::SudoNoPassword, "/usr/bin/openfortivpn"),
        "[PRIV] sudo NOPASSWD tersedia untuk /usr/bin/openfortivpn ✔"
    );
    assert_eq!(
        privilege_probe_line(PrivilegeMethod::AlreadyRoot, "x"),
        "[PRIV] Berjalan sebagai root ✔"
    );
}

#[test]
fn hints_and_messages() {
    assert_eq!(
        sudoers_hint("/usr/sbin/openfortivpn"),
        "Tambahkan via visudo: <username> ALL=(root) NOPASSWD: /usr/sbin/openfortivpn"
    );
    assert_eq!(
        unavailable_message("/usr/bin/openfortivpn"),
        "openfortivpn memerlukan root, tapi akses sudo tidak tersedia. Tambahkan via visudo: <username> ALL=(root) NOPASSWD: /usr/bin/openfortivpn"
    );
    let base = "Binary openfortivpn tidak ditemukan. Install openfortivpn terlebih dahulu (contoh path: /usr/bin/openfortivpn atau /usr/sbin/openfortivpn).";
    assert_eq!(missing_binary_message(None), base);
    assert_eq!(missing_binary_message(Some("hint")), format!("{} hint", base));
}

#[test]
fn install_hint_follows_manager_order() {
    assert_eq!(package_manager_names(), vec!["apt", "dnf", "pacman", "zypper", "apk"]);
    assert_eq!(
        detect_install_hint(&[true, true, false, false, false]),
        Some("Install contoh: sudo apt update && sudo apt install openfortivpn")
    );
    assert_eq!(
        detect_install_hint(&[false, false, true, false, true]),
        Some("Install contoh: sudo pacman -S openfortivpn")
    );
    assert_eq!(
        detect_install_hint(&[false, false, false, false, true]),
        Some("Install contoh: sudo apk add openfortivpn")
    );
    assert_eq!(detect_install_hint(&[false; 5]), None);
}

#[test]
fn binary_path_prefers_common_places() {
    assert_eq!(common_binary_path_list(), vec!["/usr/bin/openfortivpn", "/usr/sbin/openfortivpn"]);
    assert_eq!(
        resolve_openfortivpn_path(&[true, true], Some("/opt/x".to_string())).as_deref(),
        Some("/usr/bin/openfortivpn")
    );
    assert_eq!(
        resolve_openfortivpn_path(&[false, true], None).as_deref(),
        Some("/usr/sbin/openfortivpn")
    );
    assert_eq!(
        resolve_openfortivpn_path(&[false, false], Some("/opt/bin/openfortivpn".to_string())).as_deref(),
        Some("/opt/bin/openfortivpn")
    );
    assert_eq!(resolve_openfortivpn_path(&[false, false], None), None);
}

#[test]
fn connect_fields_must_be_filled() {
    assert!(check_connect_fields("h", "u", "p").is_ok());
    assert_eq!(
        check_connect_fields("h", "", "p").unwrap_err(),
        "Host, username, dan password tidak boleh kosong"
    );
    assert!(check_connect_fields("", "u", "p").is_err());
    assert!(check_connect_fields("h", "u", "").is_err());
}

#[test]
fn connecting_line_never_shows_the_password() {
    assert_eq!(
        connecting_line("vpn.example.com", 443, "alice", false),
        "[VPN] Menghubungkan ke vpn.example.com:443 sebagai alice"
    );
    assert_eq!(
        connecting_line("h", 10443, "bob", true),
        "[VPN] Menghubungkan ke h:10443 sebagai bob (cert trusted)"
    );
}

#[test]
fn command_lines_for_each_method() {
    let c = build_command("/usr/bin/openfortivpn", "h", 443, "u", None, PrivilegeMethod::AlreadyRoot);
    assert_eq!(c.program, "/usr/bin/openfortivpn");
    assert_eq!(c.args, vec!["h:443", "-u", "u"]);
    let c = build_command("/bin/ofv", "h", 8443, "u", Some(HASH), PrivilegeMethod::SudoNoPassword);
    assert_eq!(c.program, "sudo");
    assert_eq!(c.args, vec!["-n", "/bin/ofv", "h:8443", "-u", "u", "--trusted-cert", HASH]);
    let c = build_command("/bin/ofv", "h", 1, "u", None, PrivilegeMethod::SudoWithPassword);
    assert_eq!(c.program, "sudo");
    assert_eq!(c.args, vec!["-S", "/bin/ofv", "h:1", "-u", "u"]);
}

#[test]
fn stdin_plan() {
    let plan = plan_stdin(PrivilegeMethod::SudoWithPassword, Some("root"), "pw").unwrap();
    assert_eq!(plan.sudo_line.as_deref(), Some("root\n"));
    assert_eq!(plan.password_line, "pw\n");
    let plan = plan_stdin(PrivilegeMethod::SudoNoPassword, Some("root"), "pw").unwrap();
    assert_eq!(plan.sudo_line, None);
    assert_eq!(plan.password_line, "pw\n");
    assert_eq!(
        plan_stdin(PrivilegeMethod::SudoWithPassword, None, "pw").unwrap_err(),
        "Sudo password diperlukan untuk metode sudo -S"
    );
    assert!(plan_stdin(PrivilegeMethod::SudoWithPassword, Some(""), "pw").is_err());
}

#[test]
fn utf8_length_bound() {
    let s: Vec<char> = "é".repeat(16).chars().collect();
    assert!(utf8_len_at_least(&s, 32));
    assert!(!utf8_len_at_least(&s, 33));
    assert!(utf8_len_at_least(&[], 0));
}

#[test]
fn cert_buffer_reads_the_gateway_report() {
    let mut buf = CertBuffer::new();
    assert!(buf.try_emit().is_none());
    for line in cert_output() {
        buf.feed(&line);
    }
    assert!(buf.collecting);
    assert_eq!(buf.raw_lines.len(), cert_output().len() - 1);
    assert_eq!(buf.raw_lines[0], cert_output()[1].trim());
    let cert = buf.try_emit().unwrap();
    assert_eq!(cert.hash, HASH);
    assert_eq!(cert.subject_cn, "vpn.example.com");
    assert_eq!(cert.subject_org, "Example Corp");
    assert_eq!(cert.issuer_cn, "Example CA");
    // Handed out once only.
    assert!(buf.try_emit().is_none());
    buf.feed(&format!("--trusted-cert {}", HASH));
    assert!(buf.try_emit().is_none());
}

#[test]
fn cert_buffer_ignores_output_before_the_failure_and_short_hashes() {
    let mut buf = CertBuffer::new();
    buf.feed("subject:");
    buf.feed("CN=ignored");
    assert!(!buf.collecting);
    assert!(buf.raw_lines.is_empty());
    buf.feed("Gateway certificate validation failed");
    buf.feed("--trusted-cert abc");
    assert_eq!(buf.hash, "");
    assert!(buf.try_emit().is_none());
    buf.feed("SUBJECT:");
    buf.feed("  cn = spaced ");
    assert_eq!(buf.subject_cn, "spaced");
}

#[test]
fn cert_hash_length_counts_bytes() {
    let mut buf = CertBuffer::new();
    buf.feed("gateway certificate validation failed");
    let hash = "é".repeat(16);
    buf.feed(&format!("--trusted-cert {}", hash));
    assert_eq!(buf.hash, hash);
}

#[test]
fn output_lines_drive_the_session() {
    let mut flags = ReaderFlags::new();
    let r = react_to_line(&mut flags, 3, "  Connected to gateway. ");
    assert_eq!(r.waiting, Some(true));
    assert!(!r.start_speed_monitor);
    assert_eq!(r.events.len(), 4);
    assert!(matches!(&r.events[0], AppEvent::DebugLog(l) if l == "[VPN] Connected to gateway."));
    assert!(matches!(&r.events[1], AppEvent::LogLine { session_id: 3, line } if line == "[VPN] 🔐 Menunggu token OTP..."));
    assert!(matches!(r.events[2], AppEvent::NeedToken(3)));
    assert!(matches!(r.events[3], AppEvent::StateChanged { session_id: 3, state: VpnState::WaitingToken }));
    assert!(flags.gateway_connected && flags.token_requested);

    // A second "connected" line asks for nothing.
    let r = react_to_line(&mut flags, 3, "connected to gateway");
    assert!(r.events.iter().all(|e| !matches!(e, AppEvent::NeedToken(_))));
    assert!(r.events.iter().all(|e| matches!(e, AppEvent::DebugLog(_))));

    let r = react_to_line(&mut flags, 3, "INFO: Tunnel is up and running.");
    assert_eq!(r.waiting, Some(false));
    assert!(r.start_speed_monitor);
    assert!(matches!(&r.events[0], AppEvent::DebugLog(l) if l == "[VPN] ✅ INFO: Tunnel is up and running."));
    assert!(matches!(r.events[1], AppEvent::StateChanged { session_id: 3, state: VpnState::Connected }));
    let r = react_to_line(&mut flags, 3, "tunnel is up");
    assert!(!r.start_speed_monitor);
}

#[test]
fn plain_output_goes_to_the_debug_log_with_a_prefix() {
    let mut flags = ReaderFlags::new();
    let r = react_to_line(&mut flags, 1, "ERROR: something");
    assert!(matches!(&r.events[..], [AppEvent::DebugLog(l)] if l == "[ERR] ERROR: something"));
    let r = react_to_line(&mut flags, 1, "WARN: careful");
    assert!(matches!(&r.events[..], [AppEvent::DebugLog(l)] if l == "[WARN] WARN: careful"));
    let r = react_to_line(&mut flags, 1, "hello");
    assert!(matches!(&r.events[..], [AppEvent::DebugLog(l)] if l == "[VPN] hello"));
    assert!(react_to_line(&mut flags, 1, "   ").events.is_empty());
    assert!(react_to_line(&mut flags, 1, "Two-factor authentication").events.is_empty());
    assert!(react_to_line(&mut flags, 1, "VPN account password:").events.is_empty());
    assert_eq!(flags, ReaderFlags::new());
}

#[test]
fn exit_reports() {
    let cert = CertInfo {
        hash: HASH.to_string(),
        subject_cn: "vpn".to_string(),
        subject_org: String::new(),
        issuer_cn: String::new(),
    };
    let (events, clear) = exit_reaction(5, Some(cert), true, ProcessExit::Exited { success: false, code: Some(1) });
    assert!(!clear);
    assert_eq!(events.len(), 2);
    assert!(matches!(&events[0], AppEvent::DebugLog(l) if l == "[CERT] Untrusted: CN=vpn"));
    assert!(matches!(&events[1], AppEvent::CertError { session_id: 5, cert } if cert.hash == HASH));

    let (events, clear) = exit_reaction(5, None, true, ProcessExit::Exited { success: false, code: Some(1) });
    assert!(clear);
    assert!(matches!(&events[0], AppEvent::DebugLog(l) if l == "[VPN] ⚠️ Koneksi terputus saat menunggu token"));
    assert!(matches!(events[1], AppEvent::StateChanged { session_id: 5, state: VpnState::Disconnected }));

    let (events, _) = exit_reaction(5, None, false, ProcessExit::Exited { success: true, code: Some(0) });
    assert!(matches!(&events[0], AppEvent::DebugLog(l) if l == "[VPN] Koneksi ditutup"));
    let (events, _) = exit_reaction(5, None, false, ProcessExit::Exited { success: false, code: Some(-2) });
    assert!(matches!(&events[0], AppEvent::DebugLog(l) if l == "[VPN] Exit code: -2"));
    let (events, _) = exit_reaction(5, None, false, ProcessExit::Exited { success: false, code: None });
    assert!(matches!(&events[0], AppEvent::DebugLog(l) if l == "[VPN] Exit code: -1"));
    let (events, clear) = exit_reaction(5, None, false, ProcessExit::WaitFailed("boom".to_string()));
    assert!(!clear);
    assert!(matches!(&events[0], AppEvent::DebugLog(l) if l == "[VPN] Error: boom"));
    assert!(matches!(events[1], AppEvent::StateChanged { session_id: 5, state: VpnState::Disconnected }));
}

#[test]
fn signed_decimals() {
    assert_eq!(i32_to_decimal(i32::MIN), "-2147483648");
    assert_eq!(i32_to_decimal(0), "0");
    assert_eq!(i32_to_decimal(42), "42");
}

#[test]
fn token_delivery_plan_names_the_process_not_the_token() {
    let plan = token_delivery(Some(4242), "123456").unwrap();
    assert_eq!(plan.announce, "[TOKEN] Mengirim token ke PID 4242...");
    assert!(!plan.announce.contains("123456"));
    assert_eq!(plan.tee_target, "/proc/4242/fd/0");
    assert_eq!(plan.token_line, "123456\n");
    assert_eq!(plan.temp_file, "/tmp/fortivpn_token_4242.txt");
    assert_eq!(plan.shell_command, "sudo cat /tmp/fortivpn_token_4242.txt > /proc/4242/fd/0 2>/dev/null");
    assert_eq!(token_delivery(None, "1").unwrap_err(), "Tidak ada proses VPN aktif");
}

fn request(password: &str, sudo: Option<&str>) -> ConnectRequest {
    ConnectRequest {
        session_id: 1,
        host: "vpn.example.com".to_string(),
        port: 443,
        username: "alice".to_string(),
        password: password.to_string(),
        sudo_password: sudo.map(|s| s.to_string()),
        trusted_cert: None,
    }
}

fn located(common: [bool; 2], from_path: Option<&str>) -> ConnectInput {
    ConnectInput::Located {
        managers_found: vec![false, false, false, false, false],
        common_is_file: common.to_vec(),
        from_path: from_path.map(|s| s.to_string()),
    }
}

fn finish_err(step: &ConnectStep) -> String {
    match &step.action {
        ConnectAction::Finish(Err(e)) => e.clone(),
        other => panic!("expected an error, got {:?}", other),
    }
}

#[test]
fn connecting_with_an_empty_field_does_nothing() {
    let req = request("", None);
    let step = openfortivpn_tui::vpn::connect(&req, ConnectState::Begin, ConnectInput::Start);
    assert_eq!(finish_err(&step), "Host, username, dan password tidak boleh kosong");
    assert!(step.events.is_empty());
    assert_eq!(step.record_pid, None);
}

#[test]
fn connecting_without_the_binary_stops_after_the_announcement() {
    let req = request("pw", None);
    let step = openfortivpn_tui::vpn::connect(&req, ConnectState::Begin, ConnectInput::Start);
    assert!(matches!(step.action, ConnectAction::Locate));
    assert!(matches!(
        &step.events[..],
        [AppEvent::LogLine { session_id: 1, line }] if line == "[VPN] Menghubungkan ke vpn.example.com:443 sebagai alice"
    ));
    let step = openfortivpn_tui::vpn::connect(&req, step.state, located([false, false], None));
    let e = finish_err(&step);
    assert!(e.starts_with("Binary openfortivpn tidak ditemukan"));
    assert!(e.contains("/usr/bin/openfortivpn") && e.contains("/usr/sbin/openfortivpn"));
    assert_eq!(step.record_pid, None);
}

#[test]
fn connecting_without_privilege_stops_before_the_process() {
    let req = request("pw", None);
    let step = openfortivpn_tui::vpn::connect(&req, ConnectState::Begin, ConnectInput::Start);
    let step = openfortivpn_tui::vpn::connect(&req, step.state, located([true, false], None));
    assert!(matches!(&step.action, ConnectAction::Probe { binary } if binary == "/usr/bin/openfortivpn"));
    let step = openfortivpn_tui::vpn::connect(
        &req,
        step.state,
        ConnectInput::Probed { is_root: false, sudo_nopass: false, has_sudo: false },
    );
    assert_eq!(finish_err(&step), unavailable_message("/usr/bin/openfortivpn"));
    assert_eq!(step.record_pid, None);
}

#[test]
fn a_missing_sudo_password_stops_before_the_process() {
    let req = request("pw", Some(""));
    let step = openfortivpn_tui::vpn::connect(&req, ConnectState::Begin, ConnectInput::Start);
    let step = openfortivpn_tui::vpn::connect(&req, step.state, located([false, true], None));
    let step = openfortivpn_tui::vpn::connect(
        &req,
        step.state,
        ConnectInput::Probed { is_root: false, sudo_nopass: false, has_sudo: true },
    );
    assert_eq!(finish_err(&step), "Sudo password diperlukan untuk metode sudo -S");
    assert_eq!(step.record_pid, None);
    assert!(matches!(step.state, ConnectState::Done));
}

#[test]
fn a_connection_attempt_in_order() {
    let req = request("pw", Some("root-pw"));
    let step = openfortivpn_tui::vpn::connect(&req, ConnectState::Begin, ConnectInput::Start);
    let step = openfortivpn_tui::vpn::connect(&req, step.state, located([false, false], Some("/opt/bin/openfortivpn")));
    assert!(matches!(&step.action, ConnectAction::Probe { binary } if binary == "/opt/bin/openfortivpn"));
    let step = openfortivpn_tui::vpn::connect(
        &req,
        step.state,
        ConnectInput::Probed { is_root: false, sudo_nopass: false, has_sudo: true },
    );
    match &step.action {
        ConnectAction::Spawn { command } => {
            assert_eq!(command.program, "sudo");
            assert_eq!(
                command.args,
                vec!["-S", "/opt/bin/openfortivpn", "vpn.example.com:443", "-u", "alice"]
            );
        }
        other => panic!("expected a spawn, got {:?}", other),
    }
    assert_eq!(step.record_pid, None);
    let step = openfortivpn_tui::vpn::connect(&req, step.state, ConnectInput::Spawned(Ok(Some(4242))));
    assert_eq!(step.record_pid, Some(4242));
    assert!(matches!(&step.events[..], [AppEvent::DebugLog(l)] if l == "[VPN] PID: 4242"));
    assert!(matches!(&step.action, ConnectAction::WriteSudo { line } if line == "root-pw\n"));
    let step = openfortivpn_tui::vpn::connect(&req, step.state, ConnectInput::Written(Ok(())));
    assert!(matches!(&step.action, ConnectAction::WritePassword { line } if line == "pw\n"));
    assert_eq!(step.record_pid, None);
    let step = openfortivpn_tui::vpn::connect(&req, step.state, ConnectInput::Written(Ok(())));
    assert!(matches!(step.action, ConnectAction::Finish(Ok(()))));
}

#[test]
fn a_failed_spawn_ends_the_attempt() {
    let req = request("pw", None);
    let step = openfortivpn_tui::vpn::connect(&req, ConnectState::Begin, ConnectInput::Start);
    let step = openfortivpn_tui::vpn::connect(&req, step.state, located([true, true], None));
    let step = openfortivpn_tui::vpn::connect(
        &req,
        step.state,
        ConnectInput::Probed { is_root: true, sudo_nopass: false, has_sudo: false },
    );
    assert!(matches!(&step.action, ConnectAction::Spawn { command } if command.program == "/usr/bin/openfortivpn"));
    let step = openfortivpn_tui::vpn::connect(&req, step.state, ConnectInput::Spawned(Err("no such file".to_string())));
    assert_eq!(finish_err(&step), "no such file");
    assert_eq!(step.record_pid, None);
}

#[test]
fn stopping_without_a_process_does_nothing() {
    let step = openfortivpn_tui::vpn::stop(1, StopState::Begin, StopInput::Start { pid: None });
    assert!(step.events.is_empty());
    assert_eq!(step.action, StopAction::Finish { kill: None, clear_pid: false });
    assert_eq!(step.state, StopState::Done);
}

#[test]
fn stopping_sends_sigterm_then_sigkill_when_still_alive() {
    let step = openfortivpn_tui::vpn::stop(3, StopState::Begin, StopInput::Start { pid: Some(77) });
    assert_eq!(step.action, StopAction::Terminate { pid: 77 });
    assert!(matches!(&step.events[..], [AppEvent::LogLine { session_id: 3, line }] if line == "[VPN] Menghentikan PID 77..."));
    let alive = openfortivpn_tui::vpn::stop(3, step.state, StopInput::Checked { alive: true });
    assert_eq!(alive.action, StopAction::Finish { kill: Some(77), clear_pid: true });
    assert!(matches!(&alive.events[..], [AppEvent::LogLine { line, .. }] if line == "[VPN] Force kill dengan SIGKILL"));
    let gone = openfortivpn_tui::vpn::stop(3, step.state, StopInput::Checked { alive: false });
    assert_eq!(gone.action, StopAction::Finish { kill: None, clear_pid: true });
    assert!(matches!(&gone.events[..], [AppEvent::LogLine { line, .. }] if line == "[VPN] Proses berhenti"));
}

#[test]
fn a_whole_run_of_output_asks_for_the_token_once() {
    let mut flags = ReaderFlags::new();
    let lines = [
        "INFO: Connecting to gateway",
        "Connected to gateway.",
        "connected to gateway",
        "CONNECTED TO GATEWAY again",
        "INFO: Tunnel is up and running.",
        "Connected to gateway.",
    ];
    let mut asked = 0;
    for l in lines {
        let r = react_to_line(&mut flags, 5, l);
        asked += r.events.iter().filter(|e| matches!(e, AppEvent::NeedToken(5))).count();
    }
    assert_eq!(asked, 1);
    assert!(flags.token_requested);

    let mut flags = ReaderFlags::new();
    for l in ["INFO: Connecting", "Tunnel is up"] {
        let r = react_to_line(&mut flags, 5, l);
        assert!(r.events.iter().all(|e| !matches!(e, AppEvent::NeedToken(_))));
    }
    assert!(!flags.token_requested);
}
