use relay_pool::text::{join, decimal, starts_with};

#[test]
fn decimal_of_single_digits() {
    assert_eq!(decimal(0), "0");
    assert_eq!(decimal(7), "7");
    assert_eq!(decimal(9), "9");
}

#[test]
fn decimal_of_ports() {
    assert_eq!(decimal(10), "10");
    assert_eq!(decimal(443), "443");
    assert_eq!(decimal(8080), "8080");
    assert_eq!(decimal(65535), "65535");
}

#[test]
fn decimal_of_largest_number() {
    assert_eq!(decimal(u32::MAX), "4294967295");
    assert_eq!(decimal(1_000_000_000), "1000000000");
}

#[test]
fn decimal_agrees_with_std_on_a_range() {
    let mut n: u32 = 0;
    while n < 2000 {
        assert_eq!(decimal(n), n.to_string());
        n += 1;
    }
}

#[test]
fn join_puts_one_text_after_the_other() {
    assert_eq!(join("Bearer ", "abc"), "Bearer abc");
    assert_eq!(join("", "abc"), "abc");
    assert_eq!(join("abc", ""), "abc");
    assert_eq!(join("", ""), "");
}

#[test]
fn starts_with_compares_bytes() {
    assert!(starts_with(b"text/event-stream; charset=utf-8", b"text/event-stream"));
    assert!(starts_with(b"text/event-stream", b"text/event-stream"));
    assert!(!starts_with(b"text/event-strea", b"text/event-stream"));
    assert!(!starts_with(b"Text/event-stream", b"text/event-stream"));
    assert!(starts_with(b"anything", b""));
    assert!(starts_with(b"", b""));
    assert!(!starts_with(b"", b"a"));
}
