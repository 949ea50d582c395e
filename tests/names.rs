use network_watchdog::{
    profile_names, ssid_to_string, visible_network_names, wide_to_string, AvailableNetwork,
};

fn wide(s: &str) -> [u16; 256] {
    let mut buf = [0u16; 256];
    for (i, u) in s.encode_utf16().enumerate() {
        buf[i] = u;
    }
    buf
}

fn ssid(s: &str) -> (u32, [u8; 32]) {
    let mut buf = [0u8; 32];
    buf[..s.len()].copy_from_slice(s.as_bytes());
    (s.len() as u32, buf)
}

fn network(profile: &str, ssid_name: &str) -> AvailableNetwork {
    let (ssid_len, ssid) = ssid(ssid_name);
    AvailableNetwork { profile_name: wide(profile), ssid_len, ssid }
}

#[test]
fn wide_name_stops_at_nul() {
    assert_eq!(wide_to_string(&wide("Home")), "Home");
    assert_eq!(wide_to_string(&wide("Café ☕")), "Café ☕");
}

#[test]
fn wide_name_empty() {
    assert_eq!(wide_to_string(&[0u16; 256]), "");
}

#[test]
fn wide_name_without_nul_uses_whole_buffer() {
    let buf = [u16::from(b'a'); 256];
    assert_eq!(wide_to_string(&buf), "a".repeat(256));
}

#[test]
fn wide_name_replaces_lone_surrogate() {
    let mut buf = [0u16; 256];
    buf[0] = u16::from(b'x');
    buf[1] = 0xD800;
    assert_eq!(wide_to_string(&buf), "x\u{FFFD}");
}

#[test]
fn ssid_uses_stated_length() {
    let (len, buf) = ssid("HomeNet");
    assert_eq!(ssid_to_string(len, &buf), "HomeNet");
    assert_eq!(ssid_to_string(4, &buf), "Home");
    assert_eq!(ssid_to_string(0, &buf), "");
}

#[test]
fn ssid_length_is_capped_at_buffer() {
    let buf = [b'z'; 32];
    assert_eq!(ssid_to_string(200, &buf), "z".repeat(32));
}

#[test]
fn ssid_replaces_invalid_bytes() {
    let mut buf = [0u8; 32];
    buf[0] = b'A';
    buf[1] = 0xFF;
    assert_eq!(ssid_to_string(2, &buf), "A\u{FFFD}");
}

#[test]
fn profile_names_keep_order() {
    let raw = vec![wide("Office"), wide("Home"), wide("Guest")];
    assert_eq!(profile_names(&raw), vec!["Office", "Home", "Guest"]);
    assert!(profile_names(&Vec::new()).is_empty());
}

#[test]
fn visible_names_collect_profiles_and_ssids_once() {
    let nets = vec![
        network("Home", "HomeNet"),
        network("", "Neighbour"),
        network("Home", "HomeNet"),
        network("", ""),
        network("Guest", "Guest"),
    ];
    let mut got = visible_network_names(&nets);
    got.sort();
    assert_eq!(got, vec!["Guest", "Home", "HomeNet", "Neighbour"]);
}

#[test]
fn visible_names_of_no_networks_is_empty() {
    assert!(visible_network_names(&Vec::new()).is_empty());
}
