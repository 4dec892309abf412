use chessnet::codec::{encode_line, encode_move, parse_line, trim_line};

#[test]
fn encode_two_digit_squares() {
    assert_eq!(encode_move(12, 28), "12 28");
    assert_eq!(encode_line(12, 28), "12 28\n");
}

#[test]
fn encode_single_digit_squares() {
    assert_eq!(encode_move(0, 7), "0 7");
    assert_eq!(encode_line(9, 0), "9 0\n");
}

#[test]
fn encode_three_digit_values() {
    assert_eq!(encode_move(255, 63), "255 63");
    assert_eq!(encode_move(100, 101), "100 101");
}

#[test]
fn parse_plain_line() {
    assert_eq!(parse_line("12 28"), Some((12, 28)));
}

#[test]
fn parse_terminated_line() {
    assert_eq!(parse_line("12 28\n"), Some((12, 28)));
}

#[test]
fn parse_tolerates_surrounding_whitespace() {
    assert_eq!(parse_line("  12\t 28 \r\n"), Some((12, 28)));
}

#[test]
fn parse_accepts_leading_zeros() {
    assert_eq!(parse_line("012 007"), Some((12, 7)));
}

#[test]
fn parse_rejects_one_token() {
    assert_eq!(parse_line("12"), None);
    assert_eq!(parse_line("12\n"), None);
}

#[test]
fn parse_rejects_three_tokens() {
    assert_eq!(parse_line("12 28 44"), None);
}

#[test]
fn parse_rejects_non_numeric_tokens() {
    assert_eq!(parse_line("a b"), None);
    assert_eq!(parse_line("12 a"), None);
    assert_eq!(parse_line("e2 e4"), None);
    assert_eq!(parse_line("12 2x"), None);
    assert_eq!(parse_line("-1 5"), None);
}

#[test]
fn parse_rejects_empty_and_blank_lines() {
    assert_eq!(parse_line(""), None);
    assert_eq!(parse_line(" \t\r\n"), None);
}

#[test]
fn parse_rejects_values_out_of_byte_range() {
    assert_eq!(parse_line("256 0"), None);
    assert_eq!(parse_line("0 999999999999"), None);
    assert_eq!(parse_line("255 0"), Some((255, 0)));
}

#[test]
fn round_trip_every_square_pair_edge() {
    // every square index against the two board corners
    for s in 0..=63u8 {
        assert_eq!(parse_line(&encode_line(s, 63 - s)), Some((s, 63 - s)));
        assert_eq!(parse_line(&encode_move(0, s)), Some((0, s)));
        assert_eq!(parse_line(&encode_line(s, 0)), Some((s, 0)));
    }
}

#[test]
fn trim_strips_both_ends() {
    assert_eq!(trim_line(" 12 28 \r\n"), "12 28");
    assert_eq!(trim_line("12 28"), "12 28");
}

#[test]
fn trim_of_blank_is_empty() {
    assert_eq!(trim_line(""), "");
    assert_eq!(trim_line(" \t\n"), "");
}
