use dostr::relay::{parse_network, proxy_target, Broadcast, Network};

#[test]
fn network_argument() {
    assert_eq!(parse_network("--clearnet"), Some(Network::Clearnet));
    assert_eq!(parse_network("--tor"), Some(Network::Tor));
    assert_eq!(parse_network("--other"), None);
    assert_eq!(parse_network(""), None);
}

#[test]
fn proxy_target_is_host_part() {
    assert_eq!(proxy_target("ws://abc.onion:80/path"), Some("abc.onion:80".to_string()));
    assert_eq!(proxy_target("wss://relay.example"), Some("relay.example".to_string()));
    assert_eq!(proxy_target("relay.example"), None);
}

#[test]
fn broadcast_goes_on_past_a_closed_connection() {
    let outcomes = [true, false, true];
    let mut b = Broadcast::new(3);
    let mut tried = Vec::new();
    while let Some(i) = b.next_target() {
        tried.push(i);
        b.record(outcomes[i]);
    }
    assert_eq!(tried, vec![0, 1, 2]);
    assert_eq!(b.delivered_to(), vec![0, 2]);
}

#[test]
fn broadcast_to_no_connection_tries_nothing() {
    let b = Broadcast::new(0);
    assert_eq!(b.next_target(), None);
    assert!(b.delivered_to().is_empty());
}
