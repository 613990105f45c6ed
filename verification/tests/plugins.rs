use http::header::{HeaderMap, HeaderValue};
use tunnel_plugins::action::PluginAction;
use tunnel_plugins::header_filter::HeaderFilterPlugin;
use tunnel_plugins::headers::HeaderError;
use tunnel_plugins::ip_blocklist::{IpAddress, IpBlocklistPlugin};
use tunnel_plugins::metrics::MetricsPlugin;
use tunnel_plugins::path_blocker::{starts_with, PathBlockerPlugin};

fn v4(a: u8, b: u8, c: u8, d: u8) -> IpAddress {
    IpAddress::V4(u32::from_be_bytes([a, b, c, d]))
}

#[test]
fn metrics_starts_at_zero() {
    let m = MetricsPlugin::new();
    assert_eq!(m.count(), 0);
    assert_eq!(MetricsPlugin::default().count(), 0);
    assert_eq!(m.name(), "metrics");
    assert_eq!(m.version(), "1.0.0");
    assert!(!m.needs_response_body());
}

#[test]
fn metrics_counts_each_request_once() {
    let mut m = MetricsPlugin::new();
    for expected in 1..=3u64 {
        assert_eq!(m.on_request(), PluginAction::Continue);
        assert_eq!(m.count(), expected);
    }
    let mut h = HeaderMap::new();
    assert_eq!(m.on_response(&mut h, 42), PluginAction::Continue);
    assert_eq!(m.count(), 3);
}

#[test]
fn metrics_adds_timing_header() {
    let m = MetricsPlugin::default();
    let mut h = HeaderMap::new();
    h.insert("Content-Type", HeaderValue::from_static("text/plain"));
    h.append("x-response-time", HeaderValue::from_static("old"));
    h.append("x-response-time", HeaderValue::from_static("older"));
    assert_eq!(m.on_response(&mut h, 1234), PluginAction::Continue);
    let times: Vec<_> = h.get_all("x-response-time").iter().collect();
    assert_eq!(times, vec![&HeaderValue::from_static("1234ms")]);
    assert_eq!(h.get("content-type").unwrap(), "text/plain");
    assert_eq!(m.on_response(&mut h, 0), PluginAction::Continue);
    assert_eq!(h.get("X-Response-Time").unwrap(), "0ms");
    assert_eq!(m.on_response(&mut h, u64::MAX), PluginAction::Continue);
    assert_eq!(h.get("X-Response-Time").unwrap(), "18446744073709551615ms");
    assert_eq!(m.count(), 0);
}

fn blocker() -> PathBlockerPlugin {
    PathBlockerPlugin::new(vec!["/admin".to_string(), "/api/internal".to_string()])
}

#[test]
fn path_blocker_lets_other_paths_through() {
    let p = blocker();
    assert_eq!(p.name(), "path-blocker");
    assert_eq!(p.on_request("/api/users"), PluginAction::Continue);
    assert_eq!(p.on_request("/api/data"), PluginAction::Continue);
    assert_eq!(p.on_request("/adm"), PluginAction::Continue);
    assert_eq!(p.on_request(""), PluginAction::Continue);
}

#[test]
fn path_blocker_refuses_blocked_prefixes() {
    let p = blocker();
    assert_eq!(
        p.on_request("/admin/settings"),
        PluginAction::Reject { status: 403, reason: "Access to /admin/settings is forbidden".to_string() }
    );
    assert_eq!(
        p.on_request("/api/internal"),
        PluginAction::Reject { status: 403, reason: "Access to /api/internal is forbidden".to_string() }
    );
    // Blocking is by prefix, so "/administrator" is blocked as well.
    assert_eq!(
        p.on_request("/administrator"),
        PluginAction::Reject { status: 403, reason: "Access to /administrator is forbidden".to_string() }
    );
}

#[test]
fn path_blocker_blocks_extensions_of_blocked_paths() {
    let p = blocker();
    for suffix in ["", "/x", "?q=1", "/deep/er"] {
        let path = format!("/api/internal{suffix}");
        assert!(matches!(p.on_request(&path), PluginAction::Reject { status: 403, .. }));
    }
}

#[test]
fn empty_path_blocker_blocks_nothing_and_empty_prefix_blocks_all() {
    assert_eq!(PathBlockerPlugin::new(vec![]).on_request("/admin"), PluginAction::Continue);
    let all = PathBlockerPlugin::new(vec![String::new()]);
    assert!(matches!(all.on_request("/anything"), PluginAction::Reject { status: 403, .. }));
}

#[test]
fn prefix_check_is_by_characters() {
    assert!(starts_with("/äbc", "/ä"));
    assert!(!starts_with("/a", "/ab"));
    assert!(starts_with("x", ""));
}

fn request_headers() -> HeaderMap {
    let mut h = HeaderMap::new();
    h.insert("X-Internal-Secret", HeaderValue::from_static("super-secret-value"));
    h.insert("User-Agent", HeaderValue::from_static("Mozilla/5.0"));
    h
}

#[test]
fn header_filter_removes_secret_and_adds_scan() {
    let f = HeaderFilterPlugin::new();
    assert_eq!(f.name(), "header-filter");
    let mut h = request_headers();
    let (action, removed) = f.on_request(&mut h).unwrap();
    assert_eq!(action, PluginAction::Continue);
    assert_eq!(removed, vec!["X-Internal-Secret".to_string()]);
    assert!(h.get("X-Internal-Secret").is_none());
    assert_eq!(h.get("X-Security-Scan").unwrap().as_bytes(), b"Pass");
    assert_eq!(h.get("user-agent").unwrap(), "Mozilla/5.0");
    assert_eq!(h.keys_len(), 2);
}

#[test]
fn header_filter_removes_every_value_in_any_case() {
    let f = HeaderFilterPlugin::default();
    let mut h = HeaderMap::new();
    h.append("server", HeaderValue::from_static("nginx/1.0"));
    h.append("SERVER", HeaderValue::from_static("apache"));
    h.append("x-internal-secret", HeaderValue::from_static("a"));
    h.insert("X-Security-Scan", HeaderValue::from_static("Fail"));
    h.append("x-security-scan", HeaderValue::from_static("Other"));
    let (_, removed) = f.on_request(&mut h).unwrap();
    assert_eq!(removed, vec!["X-Internal-Secret".to_string(), "Server".to_string()]);
    assert!(!h.contains_key("server"));
    assert!(!h.contains_key("x-internal-secret"));
    let scans: Vec<_> = h.get_all("x-security-scan").iter().collect();
    assert_eq!(scans, vec![&HeaderValue::from_static("Pass")]);
    assert_eq!(h.keys_len(), 1);
}

#[test]
fn header_filter_twice_is_filter_once() {
    let f = HeaderFilterPlugin::new();
    let mut once = request_headers();
    f.on_request(&mut once).unwrap();
    let mut twice = once.clone();
    let (_, removed) = f.on_request(&mut twice).unwrap();
    assert!(removed.is_empty());
    assert_eq!(once, twice);
}

#[test]
fn header_filter_on_empty_headers_only_adds_scan() {
    let f = HeaderFilterPlugin::new();
    let mut h = HeaderMap::new();
    let (action, removed) = f.on_request(&mut h).unwrap();
    assert_eq!(action, PluginAction::Continue);
    assert!(removed.is_empty());
    assert_eq!(h.keys_len(), 1);
    assert_eq!(h.get("x-security-scan").unwrap(), "Pass");
}

fn many_headers(count: usize) -> HeaderMap {
    let mut h = HeaderMap::new();
    for i in 0..count {
        let name = http::header::HeaderName::from_bytes(format!("h{i}").as_bytes()).unwrap();
        if h.try_insert(name, HeaderValue::from_static("v")).is_err() {
            break;
        }
    }
    h
}

#[test]
fn header_filter_handles_large_maps() {
    let f = HeaderFilterPlugin::new();
    let mut h = many_headers(6553);
    h.insert("Server", HeaderValue::from_static("nginx"));
    let (_, removed) = f.on_request(&mut h).unwrap();
    assert_eq!(removed, vec!["Server".to_string()]);
    assert_eq!(h.keys_len(), 6554);
    let before = h.clone();
    // A second pass leaves the map as the first left it, whatever it answers.
    let _ = f.on_request(&mut h);
    assert_eq!(h, before);
}

#[test]
fn header_filter_reports_full_map() {
    let f = HeaderFilterPlugin::new();
    let mut h = many_headers(40000);
    assert!(h.keys_len() >= 6554);
    let before = h.clone();
    match f.on_request(&mut h) {
        Err(HeaderError::MapFull(_)) => assert_eq!(h, before),
        Ok(_) => assert_eq!(h.get("x-security-scan").unwrap(), "Pass"),
        Err(e) => panic!("unexpected error {e:?}"),
    }
}

#[test]
fn ip_blocklist_refuses_listed_address() {
    let p = IpBlocklistPlugin::new(vec![v4(192, 168, 1, 100)]);
    assert_eq!(p.name(), "ip-blocklist");
    assert_eq!(
        p.on_request(v4(192, 168, 1, 100)),
        PluginAction::Reject { status: 403, reason: "IP Address Blocked".to_string() }
    );
    assert_eq!(p.on_request(v4(127, 0, 0, 1)), PluginAction::Continue);
}

#[test]
fn ip_blocklist_ignores_repeats_and_order() {
    let a = IpBlocklistPlugin::new(vec![v4(10, 0, 0, 1), v4(10, 0, 0, 2), v4(10, 0, 0, 1)]);
    let b = IpBlocklistPlugin::new(vec![v4(10, 0, 0, 2), v4(10, 0, 0, 1)]);
    for ip in [v4(10, 0, 0, 1), v4(10, 0, 0, 2), v4(10, 0, 0, 3)] {
        assert_eq!(a.is_blocked(ip), b.is_blocked(ip));
    }
    assert!(a.is_blocked(v4(10, 0, 0, 1)));
    assert!(!a.is_blocked(v4(10, 0, 0, 3)));
}

#[test]
fn ip_blocklist_keeps_families_apart() {
    let mapped: u128 = 0xffff_c0a8_0164; // ::ffff:192.168.1.100
    let p = IpBlocklistPlugin::new(vec![v4(192, 168, 1, 100)]);
    assert_eq!(p.on_request(IpAddress::V6(mapped)), PluginAction::Continue);
    let q = IpBlocklistPlugin::new(vec![IpAddress::V6(1)]);
    assert!(q.is_blocked(IpAddress::V6(1)));
    assert!(!q.is_blocked(IpAddress::V4(1)));
    assert!(!IpBlocklistPlugin::new(vec![]).is_blocked(IpAddress::V4(0)));
}

#[test]
fn metrics_lets_response_through_when_map_is_full() {
    let m = MetricsPlugin::new();
    let mut h = many_headers(40000);
    let before = h.clone();
    assert_eq!(m.on_response(&mut h, 5), PluginAction::Continue);
    if h != before {
        assert_eq!(h.get("x-response-time").unwrap(), "5ms");
        assert_eq!(h.keys_len(), before.keys_len() + 1);
    }
}
