use netconfig_toggle::addr::{candidate_hosts, host_address, router_host, shuffled_candidates};
use netconfig_toggle::apply::{ApplyState, Step, Subnet};
use netconfig_toggle::net::{parse_network_info, NetworkInfo};
use netconfig_toggle::store::stored_address;
use netconfig_toggle::tray::{icon_rgba, App, ToggleAction};

fn subnet() -> Subnet {
    Subnet { base: "192.168.50".to_string(), router: "192.168.50.222".to_string() }
}

fn probe_of(step: &Step) -> String {
    match step {
        Step::Probe(ip) => ip.clone(),
        _ => panic!("expected a probe"),
    }
}

fn host_of(ip: &str) -> u8 {
    let rest = ip.strip_prefix("192.168.50.").expect("address in the subnet");
    rest.parse::<u8>().expect("host number")
}

#[test]
fn parse_dhcp_output() {
    let out = "DHCP Configuration\nIP address: 192.168.50.17\nSubnet mask: 255.255.255.0\nRouter: 192.168.50.222\n";
    let info = parse_network_info(out);
    assert!(info.is_dhcp);
    assert_eq!(info.ip.as_deref(), Some("192.168.50.17"));
}

#[test]
fn parse_manual_output_with_crlf() {
    let out = "Manual Configuration\r\nIP address: 192.168.50.50\r\nSubnet mask: 255.255.255.0\r\n";
    let info = parse_network_info(out);
    assert!(!info.is_dhcp);
    assert_eq!(info.ip.as_deref(), Some("192.168.50.50"));
}

#[test]
fn parse_lowercase_dhcp_marker() {
    let info = parse_network_info("Client ID: dhcp-client\n");
    assert!(info.is_dhcp);
    assert!(info.ip.is_none());
}

#[test]
fn parse_empty_address_is_none() {
    let info = parse_network_info("Manual Configuration\nIP address:   \nRouter: none");
    assert!(!info.is_dhcp);
    assert!(info.ip.is_none());
}

#[test]
fn parse_keeps_last_address_line() {
    let out = "IP address: 10.0.0.1\nIP address: \nIP address:  10.0.0.2  \nIPv6: Automatic";
    let info = parse_network_info(out);
    assert_eq!(info.ip.as_deref(), Some("10.0.0.2"));
}

#[test]
fn parse_address_on_last_line_without_newline() {
    let info = parse_network_info("Manual Configuration\nIP address: 192.168.50.9");
    assert_eq!(info.ip.as_deref(), Some("192.168.50.9"));
}

#[test]
fn parse_prefix_only_at_line_start() {
    let info = parse_network_info("Old IP address: 10.1.1.1\n");
    assert!(info.ip.is_none());
}

#[test]
fn host_address_formats_decimal() {
    assert_eq!(host_address("192.168.50", 7), "192.168.50.7");
    assert_eq!(host_address("192.168.50", 50), "192.168.50.50");
    assert_eq!(host_address("192.168.50", 100), "192.168.50.100");
    assert_eq!(host_address("192.168.50", 222), "192.168.50.222");
    assert_eq!(host_address("10.0.0", 0), "10.0.0.0");
}

#[test]
fn router_host_reads_last_octet() {
    assert_eq!(router_host("192.168.50.222"), 222);
    assert_eq!(router_host("10.0.0.1"), 1);
    assert_eq!(router_host("10.0.0.+5"), 5);
    assert_eq!(router_host("10.0.0.007"), 7);
    assert_eq!(router_host("42"), 42);
}

#[test]
fn router_host_falls_back_to_default() {
    assert_eq!(router_host("10.0.0.x"), 222);
    assert_eq!(router_host("10.0.0.300"), 222);
    assert_eq!(router_host("10.0.0."), 222);
    assert_eq!(router_host("10.0.0.+"), 222);
    assert_eq!(router_host("10.0.0.-1"), 222);
    assert_eq!(router_host(""), 222);
}

#[test]
fn candidates_exclude_one_and_router() {
    let c = candidate_hosts(222);
    assert_eq!(c.len(), 252);
    assert!(!c.contains(&0));
    assert!(!c.contains(&1));
    assert!(!c.contains(&222));
    assert!(!c.contains(&255));
    assert!(c.contains(&2));
    assert!(c.contains(&254));
    assert!(c.windows(2).all(|w| w[0] < w[1]));
}

#[test]
fn candidates_with_router_outside_range() {
    let c = candidate_hosts(1);
    assert_eq!(c.len(), 253);
    assert_eq!(c[0], 2);
    assert_eq!(c[252], 254);
}

#[test]
fn shuffled_candidates_are_a_permutation() {
    let s = shuffled_candidates(222);
    let mut sorted = s.clone();
    sorted.sort();
    assert_eq!(sorted, candidate_hosts(222));
    // 252 elements: coming back in ascending order is practically impossible
    assert_ne!(s, candidate_hosts(222));
}

#[test]
fn reuse_persisted_address_that_is_free() {
    let net = subnet();
    let (st, step) = ApplyState::begin(&net, Some("192.168.50.50".to_string()));
    assert!(matches!(st, ApplyState::Reusing { .. }));
    assert_eq!(probe_of(&step), "192.168.50.50");
    let (st, step) = st.on_probe(&net, false);
    assert!(matches!(st, ApplyState::Applying { .. }));
    assert!(matches!(&step, Step::SetManual(ip) if ip == "192.168.50.50"));
    let (st, step) = st.on_command(true);
    assert!(matches!(st, ApplyState::Finished));
    assert!(matches!(&step, Step::Persist(ip) if ip == "192.168.50.50"));
}

#[test]
fn persisted_router_address_is_replaced() {
    let net = subnet();
    let (st, step) = ApplyState::begin(&net, Some("192.168.50.222".to_string()));
    assert_eq!(probe_of(&step), "192.168.50.222");
    // the router answers the probe
    let (st, step) = st.on_probe(&net, true);
    assert!(matches!(st, ApplyState::Searching { tried: 0, .. }));
    let ip = probe_of(&step);
    let host = host_of(&ip);
    assert!(host >= 2 && host <= 254 && host != 222);
    let (_, step) = st.on_probe(&net, false);
    assert!(matches!(&step, Step::SetManual(a) if *a == ip));
}

#[test]
fn persisted_address_outside_subnet_is_not_probed() {
    let net = subnet();
    for last in ["10.0.0.5", "192.168.500.1", "192.168.50", "192.168.50.", ""] {
        let (st, step) = ApplyState::begin(&net, Some(last.to_string()));
        assert!(matches!(st, ApplyState::Searching { tried: 0, .. }));
        assert_ne!(probe_of(&step), last);
    }
    let (st, _) = ApplyState::begin(&net, None);
    assert!(matches!(st, ApplyState::Searching { tried: 0, .. }));
}

#[test]
fn search_gives_up_after_limit() {
    let net = subnet();
    let (mut st, mut step) = ApplyState::begin(&net, None);
    let mut probed: Vec<String> = Vec::new();
    while let Step::Probe(ip) = &step {
        probed.push(ip.clone());
        let (s, p) = st.on_probe(&net, true);
        st = s;
        step = p;
    }
    assert_eq!(probed.len(), 100);
    assert!(matches!(step, Step::Exhausted));
    assert!(matches!(st, ApplyState::Finished));
    let mut hosts: Vec<u8> = probed.iter().map(|ip| host_of(ip)).collect();
    hosts.sort();
    hosts.dedup();
    assert_eq!(hosts.len(), 100);
    assert!(!hosts.contains(&222) && !hosts.contains(&1));
}

#[test]
fn failed_command_is_not_persisted() {
    let net = subnet();
    let (st, _) = ApplyState::begin(&net, Some("192.168.50.50".to_string()));
    let (st, _) = st.on_probe(&net, false);
    let (st, step) = st.on_command(false);
    assert!(matches!(st, ApplyState::Finished));
    assert!(matches!(step, Step::CommandFailed));
}

#[test]
fn stored_address_is_trimmed() {
    assert_eq!(stored_address("  192.168.50.50\n").as_deref(), Some("192.168.50.50"));
    assert_eq!(stored_address("192.168.50.7").as_deref(), Some("192.168.50.7"));
    assert_eq!(stored_address("\u{a0}10.0.0.1\u{3000}").as_deref(), Some("10.0.0.1"));
    assert!(stored_address("").is_none());
    assert!(stored_address(" \t\r\n").is_none());
}

#[test]
fn stored_address_round_trip() {
    let written = "192.168.50.50";
    let read = stored_address(written).expect("an address");
    assert_eq!(read, written);
    assert_eq!(stored_address(&read).as_deref(), Some(written));
}

#[test]
fn app_starts_ready() {
    let app = App::new();
    assert!(!app.applied);
    assert_eq!(app.status, "Ready.");
    assert!(app.current_ip.is_none());
    assert_eq!(app.tooltip(), "Ready.");
    assert_eq!(app.toggle_label(), "Apply");
    assert_eq!(app.title(), "DHCP");
}

#[test]
fn app_init_from_detected_state() {
    let mut app = App::new();
    app.init(Some(NetworkInfo { is_dhcp: false, ip: Some("192.168.50.50".to_string()) }));
    assert!(app.applied);
    assert_eq!(app.status, "PROXY");
    assert_eq!(app.tooltip(), "PROXY (192.168.50.50)");
    assert_eq!(app.toggle_label(), "Stop");
    assert_eq!(app.title(), "PROXY");

    app.init(None);
    assert!(!app.applied);
    assert_eq!(app.status, "Unknown");
    assert!(app.current_ip.is_none());
}

#[test]
fn app_toggle_outcomes() {
    let mut app = App::new();
    app.finish_toggle(&Ok(Some("192.168.50.60".to_string())));
    assert!(app.applied);
    assert_eq!(app.tooltip(), "PROXY (192.168.50.60)");

    app.finish_toggle(&Err("boom".to_string()));
    assert!(app.applied);
    assert_eq!(app.status, "Failed: boom. Try running with sudo.");
    assert_eq!(app.current_ip.as_deref(), Some("192.168.50.60"));

    app.finish_toggle(&Ok(None));
    assert!(!app.applied);
    assert_eq!(app.status, "DHCP");
    assert!(app.current_ip.is_none());
    assert_eq!(app.tooltip(), "DHCP");
}

#[test]
fn icon_pixels_follow_state() {
    let on = icon_rgba(true);
    assert_eq!(on.len(), 18 * 18 * 4);
    assert_eq!(&on[0..4], &[46, 204, 113, 255]);
    assert_eq!(&on[on.len() - 4..], &[46, 204, 113, 255]);
    let off = icon_rgba(false);
    assert_eq!(&off[8..12], &[149, 165, 166, 255]);
}

#[test]
fn persisted_address_must_be_a_dotted_quad() {
    let net = subnet();
    for last in [
        "192.168.50.x",
        "192.168.50.300",
        "192.168.50.256",
        "192.168.50.050",
        "192.168.50.5.1",
        "192.168.50.+5",
        "192.168.50.1000",
        "192.168.50. 5",
    ] {
        let (st, step) = ApplyState::begin(&net, Some(last.to_string()));
        assert!(matches!(st, ApplyState::Searching { tried: 0, .. }), "{last}");
        assert_ne!(probe_of(&step), last);
    }
    for last in ["192.168.50.0", "192.168.50.9", "192.168.50.99", "192.168.50.255"] {
        let (st, step) = ApplyState::begin(&net, Some(last.to_string()));
        assert!(matches!(st, ApplyState::Reusing { .. }), "{last}");
        assert_eq!(probe_of(&step), last);
    }
}

#[test]
fn toggle_runs_exactly_one_command() {
    let mut app = App::new();
    assert!(matches!(app.toggle_action(), ToggleAction::ApplyStatic));
    app.finish_toggle(&Ok(Some("192.168.50.60".to_string())));
    assert!(matches!(app.toggle_action(), ToggleAction::RestoreDhcp));
    app.finish_toggle(&Err("boom".to_string()));
    assert!(matches!(app.toggle_action(), ToggleAction::RestoreDhcp));
    app.finish_toggle(&Ok(None));
    assert!(matches!(app.toggle_action(), ToggleAction::ApplyStatic));
}
