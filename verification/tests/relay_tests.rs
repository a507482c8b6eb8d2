use ssh_migrator::address::PeerAddr;
use ssh_migrator::relay::{
    code_prefix, hello_line, mask_ip, parse_hello, random_room, Arrival, PairTable, MAX_HELLO_LEN,
    ROOM_SPACE,
};

#[test]
fn hello_line_format() {
    assert_eq!(hello_line("482915"), "HELLO 482915\n");
}

#[test]
fn relay_reads_back_the_code() {
    assert_eq!(parse_hello(&hello_line("482915")), Some("482915".to_string()));
    assert_eq!(parse_hello("  HELLO abc \r\n"), Some("abc".to_string()));
}

#[test]
fn relay_refuses_bad_greetings() {
    assert_eq!(parse_hello(""), None);
    assert_eq!(parse_hello("HI 123456\n"), None);
    assert_eq!(parse_hello("HELLO\n"), None);
    assert_eq!(parse_hello("hello 123456\n"), None);
    let long = format!("HELLO {}\n", "1".repeat(MAX_HELLO_LEN));
    assert_eq!(parse_hello(&long), None);
    let fits = format!("HELLO {}", "1".repeat(MAX_HELLO_LEN - 6));
    assert_eq!(parse_hello(&fits), Some("1".repeat(MAX_HELLO_LEN - 6)));
}

#[test]
fn code_prefix_is_two_bytes_at_most() {
    assert_eq!(code_prefix("482915"), "48");
    assert_eq!(code_prefix("4"), "4");
    assert_eq!(code_prefix(""), "");
}

#[test]
fn relay_masks_addresses() {
    assert_eq!(mask_ip(PeerAddr::V4(u32::from_be_bytes([192, 168, 1, 42]))), "192.168.x.42");
    assert_eq!(mask_ip(PeerAddr::V4(0)), "0.0.x.0");
    let v6: u128 = 0x2001_0db8_0000_0000_0000_0000_0000_0001;
    assert_eq!(mask_ip(PeerAddr::V6(v6)), "2001:db8:x:x:x:x:x:x");
}

#[test]
fn rooms_are_nine_digits() {
    for _ in 0..100 {
        let room = random_room();
        assert_eq!(room.len(), 9);
        assert!(room.chars().all(|c| c.is_ascii_digit()));
        assert!(room.parse::<u32>().unwrap() < ROOM_SPACE);
    }
}

#[test]
fn greeting_carries_the_room_not_the_key() {
    let room = random_room();
    assert_eq!(hello_line(&room), format!("HELLO {}\n", room));
    assert_eq!(parse_hello(&hello_line(&room)), Some(room));
}

#[test]
fn first_waits_second_pairs() {
    let mut table: PairTable<u32> = PairTable::new();
    assert!(matches!(table.arrive("room-a".to_string(), 1), Arrival::Waiting));
    assert!(matches!(table.arrive("room-b".to_string(), 2), Arrival::Waiting));
    assert!(matches!(table.arrive("room-a".to_string(), 3), Arrival::Paired(1)));
    // The room is free again: the next peer waits.
    assert!(matches!(table.arrive("room-a".to_string(), 4), Arrival::Waiting));
}

#[test]
fn timeout_frees_the_room() {
    let mut table: PairTable<u32> = PairTable::new();
    assert!(matches!(table.arrive("r".to_string(), 7), Arrival::Waiting));
    assert_eq!(table.expire(&"r".to_string()), Some(7));
    assert_eq!(table.expire(&"r".to_string()), None);
    assert!(matches!(table.arrive("r".to_string(), 8), Arrival::Waiting));
}
