use openfortivpn_tui::netstats::{
    detect_vpn_interface, format_speed, is_likely_vpn_interface, parse_net_dev,
    parse_net_dev_line, saturating_add, saturating_sub, split_lines, NetStats, NetTable,
    MonitorAction, MonitorInput, SpeedMonitor,
};
use openfortivpn_tui::state::AppEvent;
use openfortivpn_tui::text::to_chars;

/// The rate text as floating point produces it.
fn float_speed(bytes_per_sec: u64) -> String {
    let units = ["B", "KB", "MB", "GB"];
    let mut value = bytes_per_sec as f64;
    let mut unit = units[0];
    for next in units.iter().skip(1) {
        if value < 1024.0 {
            break;
        }
        value /= 1024.0;
        unit = next;
    }
    if unit == "B" {
        format!("{} {}", bytes_per_sec, unit)
    } else {
        format!("{:.1} {}", value, unit)
    }
}

fn table(entries: &[(&str, u64, u64)]) -> NetTable {
    let mut t = NetTable::new();
    for (name, rx, tx) in entries {
        t.insert(to_chars(name), NetStats { rx_bytes: *rx, tx_bytes: *tx });
    }
    t
}

const NET_DEV: &str = "Inter-|   Receive                                                |  Transmit
 face |bytes    packets errs drop fifo frame compressed multicast|bytes    packets errs drop fifo colls carrier compressed
    lo:  123456     100    0    0    0     0          0         0   123456     100    0    0    0     0       0          0
  eth0: 9876543   5000    0    0    0     0          0        10  1234567    4000    0    0    0     0       0          0
  ppp0:    2048     10    0    0    0     0          0         0     1024       8    0    0    0     0       0          0
";

#[test]
fn speed_text_exact_values() {
    assert_eq!(format_speed(0), "0 B");
    assert_eq!(format_speed(1023), "1023 B");
    assert_eq!(format_speed(1024), "1.0 KB");
    assert_eq!(format_speed(1536), "1.5 KB");
    assert_eq!(format_speed(1048576), "1.0 MB");
    assert_eq!(format_speed(1073741824), "1.0 GB");
    assert_eq!(format_speed(5 * 1073741824 * 1024), "5120.0 GB");
}

#[test]
fn speed_text_rounds_ties_to_even() {
    // 1.05 KB is not exactly representable; 1.25 KB is, and rounds to 1.2.
    assert_eq!(format_speed(1280), float_speed(1280));
    assert_eq!(format_speed(1280), "1.2 KB");
    assert_eq!(format_speed(1344), float_speed(1344));
    assert_eq!(format_speed(1075), float_speed(1075));
}

#[test]
fn speed_text_agrees_with_floating_point() {
    let mut x: u64 = 0x2545_F491_4F6C_DD1D;
    for _ in 0..20000 {
        x ^= x << 13;
        x ^= x >> 7;
        x ^= x << 17;
        let shift = (x % 64) as u32;
        let v = x >> shift;
        assert_eq!(format_speed(v), float_speed(v), "value {}", v);
    }
    for v in [
        u64::MAX,
        u64::MAX - 1,
        1u64 << 53,
        (1u64 << 53) + 1,
        (1u64 << 63) + 1,
        1024 * 1024 - 1,
        1024 * 1024 * 1024 - 1,
        1048064,
        1048063,
        1048115,
    ] {
        assert_eq!(format_speed(v), float_speed(v), "value {}", v);
    }
    for v in 0..5000u64 {
        assert_eq!(format_speed(v * 103), float_speed(v * 103));
    }
}

#[test]
fn tunnel_names() {
    for name in ["ppp0", "tun1", "tap0", "utun3", "vpn-office"] {
        assert!(is_likely_vpn_interface(name));
    }
    for name in ["eth0", "lo", "wlan0", "", "xppp0"] {
        assert!(!is_likely_vpn_interface(name));
    }
}

#[test]
fn saturating_arithmetic() {
    assert_eq!(saturating_sub(5, 7), 0);
    assert_eq!(saturating_sub(7, 5), 2);
    assert_eq!(saturating_add(u64::MAX, 1), u64::MAX);
    assert_eq!(saturating_add(2, 3), 5);
}

#[test]
fn lines_split_like_str_lines() {
    let text = "a\r\nb\n\nc";
    let got: Vec<String> = split_lines(&to_chars(text)).iter().map(|l| l.iter().collect()).collect();
    let expected: Vec<String> = text.lines().map(|l| l.to_string()).collect();
    assert_eq!(got, expected);
}

#[test]
fn one_net_dev_line() {
    let line = to_chars("  ppp0:    2048     10    0    0    0     0          0         0     1024       8    0    0    0     0       0          0");
    let (name, st) = parse_net_dev_line(&line).unwrap();
    assert_eq!(name.iter().collect::<String>(), "ppp0");
    assert_eq!(st, NetStats { rx_bytes: 2048, tx_bytes: 1024 });
    assert!(parse_net_dev_line(&to_chars("no colon here")).is_none());
    assert!(parse_net_dev_line(&to_chars("eth0: 1 2 3")).is_none());
    let bad = to_chars("x: abc 0 0 0 0 0 0 0 7 0 0 0 0 0 0 0");
    let (_, st) = parse_net_dev_line(&bad).unwrap();
    assert_eq!(st, NetStats { rx_bytes: 0, tx_bytes: 7 });
}

#[test]
fn whole_net_dev_file() {
    let t = parse_net_dev(NET_DEV);
    assert_eq!(t.entries.len(), 3);
    assert_eq!(t.get(&to_chars("eth0")), Some(NetStats { rx_bytes: 9876543, tx_bytes: 1234567 }));
    assert_eq!(t.get(&to_chars("ppp0")), Some(NetStats { rx_bytes: 2048, tx_bytes: 1024 }));
    assert!(t.get(&to_chars("face |bytes")).is_none());
    assert!(parse_net_dev("").entries.is_empty());
    assert!(parse_net_dev("header\nheader2").entries.is_empty());
}

#[test]
fn vpn_interface_is_the_busiest_tunnel() {
    let initial = table(&[("eth0", 0, 0), ("ppp0", 100, 100)]);
    let previous = table(&[("eth0", 10, 10), ("ppp0", 150, 150), ("tun0", 0, 0)]);
    let current = table(&[("eth0", 9999, 9999), ("ppp0", 300, 300), ("tun0", 10, 10)]);
    assert_eq!(detect_vpn_interface(&initial, &previous, &current).as_deref(), Some("ppp0"));
}

#[test]
fn idle_old_tunnel_is_not_reported_but_a_new_one_is() {
    let initial = table(&[("ppp0", 100, 100)]);
    let previous = table(&[("ppp0", 100, 100)]);
    let current = table(&[("ppp0", 100, 100)]);
    assert_eq!(detect_vpn_interface(&initial, &previous, &current), None);

    let initial = table(&[("eth0", 1, 1)]);
    let current = table(&[("eth0", 5, 5), ("tun3", 0, 0)]);
    assert_eq!(detect_vpn_interface(&initial, &current, &current).as_deref(), Some("tun3"));
    assert_eq!(detect_vpn_interface(&initial, &current, &table(&[("eth0", 9, 9)])), None);
}

#[test]
fn speed_monitor_reports_rates_and_totals() {
    let initial = table(&[("eth0", 0, 0)]);
    let mut monitor = SpeedMonitor::new(initial.clone());
    let now = table(&[("eth0", 10, 10), ("ppp0", 1000, 500)]);
    let events = monitor.step(7, now, &initial);
    assert_eq!(monitor.selected_iface.as_deref(), Some("ppp0"));
    // The new interface is announced; it had no earlier sample, so no rate yet.
    assert_eq!(events.len(), 1);
    match &events[0] {
        AppEvent::LogLine { session_id, line } => {
            assert_eq!(*session_id, 7);
            assert_eq!(line, "[SPEED] Monitor aktif di interface ppp0");
        }
        other => panic!("unexpected {:?}", other),
    }
    let later = table(&[("eth0", 20, 20), ("ppp0", 1000 + 5 * 2048, 500 + 5 * 100)]);
    let events = monitor.step(7, later, &initial);
    assert_eq!(events.len(), 2);
    match &events[0] {
        AppEvent::LogLine { line, .. } => assert_eq!(line, "[SPEED] ↓ 2.0 KB/s ↑ 100 B/s (ppp0)"),
        other => panic!("unexpected {:?}", other),
    }
    match &events[1] {
        AppEvent::SpeedUpdate { session_id, interface, rx_bps, tx_bps, rx_total, tx_total } => {
            assert_eq!(*session_id, 7);
            assert_eq!(interface, "ppp0");
            assert_eq!((*rx_bps, *tx_bps), (2048, 100));
            assert_eq!((*rx_total, *tx_total), (1000 + 5 * 2048, 500 + 5 * 100));
        }
        other => panic!("unexpected {:?}", other),
    }
}

#[test]
fn speed_monitor_without_tunnel_reports_nothing() {
    let initial = table(&[("eth0", 0, 0)]);
    let mut monitor = SpeedMonitor::new(initial.clone());
    let events = monitor.step(1, table(&[("eth0", 50, 50)]), &initial);
    assert!(events.is_empty());
    assert!(monitor.selected_iface.is_none());
    assert_eq!(monitor.previous_stats.get(&to_chars("eth0")), Some(NetStats { rx_bytes: 50, tx_bytes: 50 }));
}

#[test]
fn inserting_a_known_name_replaces_its_counters() {
    let mut t = NetTable::new();
    t.insert(to_chars("ppp0"), NetStats { rx_bytes: 1, tx_bytes: 2 });
    t.insert(to_chars("eth0"), NetStats { rx_bytes: 3, tx_bytes: 4 });
    t.insert(to_chars("ppp0"), NetStats { rx_bytes: 5, tx_bytes: 6 });
    assert_eq!(t.entries.len(), 2);
    assert_eq!(t.get(&to_chars("ppp0")), Some(NetStats { rx_bytes: 5, tx_bytes: 6 }));
    assert_eq!(t.get(&to_chars("eth0")), Some(NetStats { rx_bytes: 3, tx_bytes: 4 }));
    let names: Vec<&str> = t.entries.iter().map(|(n, _)| n.as_str()).collect();
    assert_eq!(names, vec!["ppp0", "eth0"]);
}

#[test]
fn a_parsed_table_lists_each_interface_once() {
    let text = "Inter-|   Receive\n face |bytes\n  ppp0: 10 0 0 0 0 0 0 0 20 0 0 0 0 0 0 0\n  ppp0: 30 0 0 0 0 0 0 0 40 0 0 0 0 0 0 0\n";
    let t = parse_net_dev(text);
    assert_eq!(t.entries.len(), 1);
    assert_eq!(t.get(&to_chars("ppp0")), Some(NetStats { rx_bytes: 30, tx_bytes: 40 }));
}

#[test]
fn the_monitor_loop_stops_when_asked_or_when_reading_fails() {
    let initial = table(&[("eth0", 100, 100)]);
    let mut monitor = SpeedMonitor::new(initial.clone());
    let (events, next) = monitor.tick(1, MonitorInput::Woke { stop: false }, &initial);
    assert!(events.is_empty());
    assert_eq!(next, MonitorAction::ReadStats);
    let (_, next) = monitor.tick(1, MonitorInput::Read(Ok(table(&[("eth0", 200, 200)]))), &initial);
    assert_eq!(next, MonitorAction::Sleep);
    let (events, next) = monitor.tick(1, MonitorInput::Woke { stop: true }, &initial);
    assert!(events.is_empty());
    assert_eq!(next, MonitorAction::Stop);
    let (events, next) = monitor.tick(1, MonitorInput::Read(Err("gone".to_string())), &initial);
    assert_eq!(next, MonitorAction::Stop);
    assert!(matches!(&events[..], [AppEvent::DebugLog(l)] if l == "[SPEED] Gagal membaca statistik interface: gone"));
}

#[test]
fn the_monitor_loop_reports_a_sample() {
    let initial = table(&[("eth0", 0, 0)]);
    let mut monitor = SpeedMonitor::new(initial.clone());
    let (_, next) = monitor.tick(2, MonitorInput::Read(Ok(table(&[("eth0", 0, 0), ("ppp0", 0, 0)]))), &initial);
    assert_eq!(next, MonitorAction::Sleep);
    let (events, next) =
        monitor.tick(2, MonitorInput::Read(Ok(table(&[("eth0", 0, 0), ("ppp0", 5120, 1000)]))), &initial);
    assert_eq!(next, MonitorAction::Sleep);
    assert!(events.iter().any(|e| matches!(e,
        AppEvent::SpeedUpdate { session_id: 2, interface, rx_bps: 1024, tx_bps: 200, rx_total: 5120, tx_total: 1000 }
        if interface == "ppp0")));
}
