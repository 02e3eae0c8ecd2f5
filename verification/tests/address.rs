use wavefront::address::{client_url, join_url, normalize_relay_addr, strip_scheme};

fn normalized(input: &str) -> (String, String) {
    normalize_relay_addr(input)
}

#[test]
fn bare_host_gets_the_default_port() {
    let (public, uplink) = normalized(" 157.173.100.145/ ");
    assert_eq!(public, "http://157.173.100.145:8927");
    assert_eq!(uplink, "ws://157.173.100.145:8927/source");
}

#[test]
fn named_port_is_kept() {
    let (public, uplink) = normalized("relay.local:9000");
    assert_eq!(public, "http://relay.local:9000");
    assert_eq!(uplink, "ws://relay.local:9000/source");
}

#[test]
fn http_host_without_port_gets_the_default_port() {
    let (public, uplink) = normalized("http://relay.local");
    assert_eq!(public, "http://relay.local:8927");
    assert_eq!(uplink, "ws://relay.local:8927/source");
    assert_eq!(normalized("http://relay.local:80/").0, "http://relay.local:80");
}

#[test]
fn https_host_is_left_as_it_is() {
    let (public, uplink) = normalized("https://relay.example.com//");
    assert_eq!(public, "https://relay.example.com");
    assert_eq!(uplink, "wss://relay.example.com/source");
    assert_eq!(normalized("https://relay.example.com:8443").0, "https://relay.example.com:8443");
}

#[test]
fn port_is_made_of_digits_behind_the_last_colon() {
    assert_eq!(normalized("host:").0, "http://host::8927");
    assert_eq!(normalized("host:80a").0, "http://host:80a:8927");
    assert_eq!(normalized("a:1:b").0, "http://a:1:b:8927");
    assert_eq!(normalized("::1:80").0, "http://::1:80");
    assert_eq!(normalized("8927").0, "http://8927:8927");
    assert_eq!(normalized("").0, "http://:8927");
    assert_eq!(normalized("").1, "ws://:8927/source");
}

#[test]
fn white_space_of_every_kind_is_trimmed() {
    assert_eq!(normalized("\u{3000}\t host \u{a0}\n").0, "http://host:8927");
    assert_eq!(normalized("\u{200b}host").0, "http://\u{200b}host:8927");
}

#[test]
fn shared_addresses_lead_back_to_themselves() {
    for input in ["host", "http://host", "host:80/", "https://host/", " https://host:1 "] {
        let (public, uplink) = normalized(input);
        assert_eq!(normalized(&public), (public.clone(), uplink));
    }
}

#[test]
fn ragged_secure_address_is_not_stable() {
    let (public, _) = normalized("https://host /");
    assert_eq!(public, "https://host ");
    assert_eq!(normalized(&public).0, "https://host");
}

#[test]
fn speakers_dial_hosts_with_and_without_port() {
    assert_eq!(client_url("192.168.1.5"), "ws://192.168.1.5:8927/ws");
    assert_eq!(client_url("192.168.1.5:80"), "ws://192.168.1.5:80/ws");
    assert_eq!(client_url(""), "ws://:8927/ws");
}

#[test]
fn join_address_names_the_port() {
    assert_eq!(join_url("10.0.0.2"), "http://10.0.0.2:8927");
}

#[test]
fn schemes_are_taken_off() {
    assert_eq!(strip_scheme("http://host:8927"), "host:8927");
    assert_eq!(strip_scheme("https://host"), "host");
    assert_eq!(strip_scheme("https://http://host"), "host");
    assert_eq!(strip_scheme("http://https://host"), "https://host");
    assert_eq!(strip_scheme("host"), "host");
}

#[test]
fn own_playback_dials_the_relay() {
    let (public, uplink) = normalized("host");
    assert_eq!(client_url(&strip_scheme(&public)), "ws://host:8927/ws");
    assert_eq!(uplink, "ws://host:8927/source");
}
