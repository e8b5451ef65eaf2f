use chat_server::message::{
    format_connected, format_decimal, format_quorum, format_ready, format_relay, format_start,
};

#[test]
fn decimal_of_single_digits() {
    assert_eq!(format_decimal(0), "0");
    assert_eq!(format_decimal(1), "1");
    assert_eq!(format_decimal(2), "2");
    assert_eq!(format_decimal(3), "3");
    assert_eq!(format_decimal(4), "4");
    assert_eq!(format_decimal(5), "5");
    assert_eq!(format_decimal(6), "6");
    assert_eq!(format_decimal(7), "7");
    assert_eq!(format_decimal(8), "8");
    assert_eq!(format_decimal(9), "9");
}

#[test]
fn decimal_of_longer_numbers() {
    assert_eq!(format_decimal(10), "10");
    assert_eq!(format_decimal(32), "32");
    assert_eq!(format_decimal(109), "109");
    assert_eq!(format_decimal(4001), "4001");
    assert_eq!(format_decimal(1234567890), "1234567890");
}

#[test]
fn decimal_agrees_with_std() {
    let mut n: usize = 1;
    for _ in 0..18 {
        assert_eq!(format_decimal(n), n.to_string());
        assert_eq!(format_decimal(n - 1), (n - 1).to_string());
        n = n * 10 + 7;
    }
    assert_eq!(format_decimal(usize::MAX), usize::MAX.to_string());
}

#[test]
fn ready_is_the_literal() {
    assert_eq!(format_ready(), "ready");
}

#[test]
fn relay_joins_name_and_text() {
    assert_eq!(format_relay("A", "hi"), "A: hi");
    assert_eq!(format_relay("", ""), ": ");
    assert_eq!(format_relay("a: b", ": c"), "a: b: : c");
    assert_eq!(format_relay("bob", " padded "), "bob:  padded ");
}

#[test]
fn connected_line_reports_name_and_remaining() {
    assert_eq!(format_connected("C", 0), "C connected (0 remain)");
    assert_eq!(format_connected("alice", 31), "alice connected (31 remain)");
    assert_eq!(format_connected("", 100), " connected (100 remain)");
}

#[test]
fn quorum_lines_are_the_literals() {
    assert_eq!(format_quorum(), "All clients connected");
    assert_eq!(format_start(), "Starting benchmark by sending 'ready' message");
}
