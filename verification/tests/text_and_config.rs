use openfortivpn_tui::config::{Config, VpnProfile};
use openfortivpn_tui::state::AppEvent;
use openfortivpn_tui::text::{contains_str, parse_unsigned_chars, split_words, to_chars, trim_str, u64_to_decimal};
use openfortivpn_tui::vpn::{react_to_line, CertBuffer, ReaderFlags};

fn profile(name: &str, host: &str) -> VpnProfile {
    VpnProfile {
        name: name.to_string(),
        host: host.to_string(),
        port: 443,
        username: "user".to_string(),
        save_password: false,
        password: "secret".to_string(),
        trusted_cert: None,
        use_sudo_password: false,
        sudo_password: String::new(),
    }
}

#[test]
fn trim_removes_unicode_whitespace_on_both_ends() {
    assert_eq!(trim_str("  \t abc def \n"), "abc def");
    assert_eq!(trim_str("\u{3000}x\u{a0}"), "x");
    assert_eq!(trim_str("   "), "");
    assert_eq!(trim_str(""), "");
}

#[test]
fn split_words_matches_split_whitespace() {
    let s = "  a  bb\tccc \n d ";
    let words: Vec<String> = split_words(&to_chars(s)).iter().map(|w| w.iter().collect()).collect();
    let expected: Vec<String> = s.split_whitespace().map(|w| w.to_string()).collect();
    assert_eq!(words, expected);
    assert!(split_words(&to_chars("   ")).is_empty());
}

#[test]
fn output_matching_ignores_case() {
    let mut flags = ReaderFlags::new();
    let r = react_to_line(&mut flags, 1, "Tunnel IS Up");
    assert!(r.start_speed_monitor);
    assert!(matches!(&r.events[0], AppEvent::DebugLog(l) if l == "[VPN] ✅ Tunnel IS Up"));
    let r = react_to_line(&mut flags, 1, "CONNECTED TO GATEWAY");
    assert_eq!(r.events.len(), 4);
}

#[test]
fn certificate_keys_match_in_any_case() {
    let mut buf = CertBuffer::new();
    buf.feed("GATEWAY CERTIFICATE VALIDATION FAILED");
    assert!(buf.collecting);
    buf.feed("Subject:");
    buf.feed("cn=lower");
    assert_eq!(buf.subject_cn, "lower");
    buf.feed("o = Org");
    assert_eq!(buf.subject_org, "Org");
    buf.feed("ISSUER:");
    buf.feed("Cn=Issuer");
    assert_eq!(buf.issuer_cn, "Issuer");
}

#[test]
fn decimal_rendering_and_parsing() {
    assert_eq!(u64_to_decimal(0), "0");
    assert_eq!(u64_to_decimal(443), "443");
    assert_eq!(u64_to_decimal(u64::MAX), u64::MAX.to_string());
    assert_eq!(parse_unsigned_chars(&to_chars("8443"), u16::MAX as u64), Some(8443));
    assert_eq!(parse_unsigned_chars(&to_chars("+7"), u16::MAX as u64), Some(7));
    assert_eq!(parse_unsigned_chars(&to_chars("65536"), u16::MAX as u64), None);
    assert_eq!(parse_unsigned_chars(&to_chars(""), u16::MAX as u64), None);
    assert_eq!(parse_unsigned_chars(&to_chars("+"), u16::MAX as u64), None);
    assert_eq!(parse_unsigned_chars(&to_chars("12a"), u16::MAX as u64), None);
    assert_eq!(
        parse_unsigned_chars(&to_chars("18446744073709551615"), u64::MAX),
        Some(u64::MAX)
    );
    assert_eq!(parse_unsigned_chars(&to_chars("18446744073709551616"), u64::MAX), None);
}

#[test]
fn contains_finds_substrings() {
    let hay = to_chars("error: gateway certificate validation failed");
    assert!(contains_str(&hay, "validation failed"));
    assert!(contains_str(&hay, ""));
    assert!(!contains_str(&hay, "tunnel is up"));
}

#[test]
fn config_add_get_update_delete() {
    let mut cfg = Config::default();
    cfg.add_profile(profile("office", "vpn.example.com"));
    cfg.add_profile(profile("lab", "lab.example.com"));
    assert_eq!(cfg.profiles.len(), 2);
    assert_eq!(cfg.get_profile("lab").unwrap().host, "lab.example.com");
    assert!(cfg.get_profile("home").is_none());

    cfg.update_profile("office", profile("office", "new.example.com"));
    assert_eq!(cfg.get_profile("office").unwrap().host, "new.example.com");
    cfg.update_profile("missing", profile("missing", "x"));
    assert_eq!(cfg.profiles.len(), 2);

    cfg.selected_profile = Some("lab".to_string());
    cfg.delete_profile("lab");
    assert!(cfg.get_profile("lab").is_none());
    assert_eq!(cfg.profiles.len(), 1);
    assert_eq!(cfg.selected_profile, None);
}

#[test]
fn delete_removes_every_profile_of_the_name_and_keeps_other_selection() {
    let mut cfg = Config::default();
    cfg.add_profile(profile("a", "1"));
    cfg.add_profile(profile("b", "2"));
    cfg.add_profile(profile("a", "3"));
    cfg.selected_profile = Some("b".to_string());
    cfg.delete_profile("a");
    assert_eq!(cfg.profiles.len(), 1);
    assert_eq!(cfg.profiles[0].name, "b");
    assert_eq!(cfg.selected_profile.as_deref(), Some("b"));
}

#[test]
fn get_profile_returns_the_first_of_a_name() {
    let mut cfg = Config::default();
    cfg.add_profile(profile("a", "first"));
    cfg.add_profile(profile("a", "second"));
    assert_eq!(cfg.get_profile("a").unwrap().host, "first");
}

#[test]
fn disk_form_drops_passwords_unless_saved() {
    let mut cfg = Config::default();
    let mut kept = profile("kept", "h");
    kept.save_password = true;
    kept.sudo_password = "root".to_string();
    let mut dropped = profile("dropped", "h");
    dropped.sudo_password = "root".to_string();
    dropped.trusted_cert = Some("abcd".to_string());
    cfg.add_profile(kept);
    cfg.add_profile(dropped);
    let disk = cfg.for_disk();
    assert_eq!(disk.profiles[0].password, "secret");
    assert_eq!(disk.profiles[0].sudo_password, "root");
    assert_eq!(disk.profiles[1].password, "");
    assert_eq!(disk.profiles[1].sudo_password, "");
    assert_eq!(disk.profiles[1].trusted_cert.as_deref(), Some("abcd"));
    // The disk form of the disk form is the same.
    let again = disk.for_disk();
    assert_eq!(again.profiles[1].password, "");
    assert_eq!(again.profiles[0].password, "secret");
}

#[test]
fn store_profile_replaces_the_edited_one() {
    let mut cfg = Config::default();
    cfg.add_profile(profile("a", "1"));
    cfg.add_profile(profile("b", "2"));
    cfg.selected_profile = Some("a".to_string());
    cfg.store_profile(profile("a2", "9"), Some("a"));
    let names: Vec<&str> = cfg.profiles.iter().map(|p| p.name.as_str()).collect();
    assert_eq!(names, vec!["b", "a2"]);
    assert_eq!(cfg.selected_profile, None);
    cfg.store_profile(profile("c", "3"), None);
    assert_eq!(cfg.get_profile("c").unwrap().host, "3");
}
