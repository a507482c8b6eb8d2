use ssh_migrator::address::PeerAddr;
use ssh_migrator::receive::{
    confirmation_prompt, direct_banner, is_affirmative, mask_ip, relay_banner, relay_label,
    RateLimit, RATE_WINDOW_NANOS,
};

fn v4(a: u8, b: u8, c: u8, d: u8) -> PeerAddr {
    PeerAddr::V4(u32::from_be_bytes([a, b, c, d]))
}

#[test]
fn masks_addresses() {
    assert_eq!(mask_ip(v4(192, 168, 1, 42)), "192.168.x.x");
    assert_eq!(mask_ip(v4(10, 0, 0, 1)), "10.0.x.x");
    let v6: u128 = 0xfe80_0001_0000_0000_0000_0000_0000_0001;
    assert_eq!(mask_ip(PeerAddr::V6(v6)), "fe80:1:x:x:x:x:x:x");
}

#[test]
fn mask_hides_the_host_part() {
    assert_eq!(mask_ip(v4(192, 168, 1, 42)), mask_ip(v4(192, 168, 200, 7)));
}

#[test]
fn labels_and_prompt() {
    assert_eq!(relay_label("relay.example.fr:8443"), "relay:relay.example.fr:8443");
    assert_eq!(
        confirmation_prompt("192.168.x.x", "482915"),
        "\n▶ 192.168.x.x authenticated with code 48... Receive SSH config? [y/N] "
    );
}

#[test]
fn answers() {
    assert!(is_affirmative("y\n"));
    assert!(is_affirmative("  Y \r\n"));
    assert!(!is_affirmative("yes\n"));
    assert!(!is_affirmative("n\n"));
    assert!(!is_affirmative("\n"));
    assert!(!is_affirmative("ý\n"));
}

#[test]
fn banners() {
    assert_eq!(
        direct_banner("482915", "192.168.1.42", 8444),
        vec![
            "SSH Migrator - RECEIVE MODE".to_string(),
            "Pairing code: 482915".to_string(),
            "Local IP: 192.168.1.42".to_string(),
            "Run on source machine:".to_string(),
            "  sshmigrate send --to 192.168.1.42:8444 --code 482915".to_string(),
        ]
    );
    assert_eq!(
        relay_banner("482915", "relay.example.fr:8443", "731042985"),
        vec![
            "SSH Migrator - RELAY RECEIVE MODE".to_string(),
            "Pairing code: 482915".to_string(),
            "Relay: relay.example.fr:8443".to_string(),
            "Relay room: 731042985".to_string(),
            "Run on source machine:".to_string(),
            "  sshmigrate send --relay relay.example.fr:8443 --to relay.example.fr:8443 --room 731042985 --code 482915"
                .to_string(),
        ]
    );
    assert!(direct_banner("000001", "127.0.0.1", 0)[4].ends_with(":0 --code 000001"));
}

#[test]
fn three_attempts_per_window() {
    let mut rl = RateLimit::new();
    let ip = v4(1, 2, 3, 4);
    let t0 = 5_000_000_000u64;
    assert!(rl.check_and_record(ip, t0));
    assert!(rl.check_and_record(ip, t0 + 1));
    assert!(rl.check_and_record(ip, t0 + 2));
    assert!(!rl.check_and_record(ip, t0 + 3));
    assert!(!rl.check_and_record(ip, t0 + RATE_WINDOW_NANOS - 1));
    assert!(rl.check_and_record(ip, t0 + RATE_WINDOW_NANOS));
}

#[test]
fn refused_attempt_changes_nothing() {
    let mut rl = RateLimit::new();
    let ip = v4(9, 9, 9, 9);
    for t in 0..3u64 {
        assert!(rl.check_and_record(ip, t * 10));
    }
    // Refusals do not extend the window: it still ends 60 s after the first attempt.
    assert!(!rl.check_and_record(ip, RATE_WINDOW_NANOS - 1));
    assert!(rl.check_and_record(ip, RATE_WINDOW_NANOS));
}

#[test]
fn addresses_are_limited_separately() {
    let mut rl = RateLimit::new();
    let a = v4(1, 2, 3, 4);
    let b = v4(1, 2, 3, 5);
    let c = PeerAddr::V6(u32::from_be_bytes([1, 2, 3, 4]) as u128);
    for t in 0..3u64 {
        assert!(rl.check_and_record(a, t));
    }
    assert!(!rl.check_and_record(a, 3));
    assert!(rl.check_and_record(b, 4));
    assert!(rl.check_and_record(c, 5));
}
