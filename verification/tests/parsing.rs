use cache_sim::parse::{parse_address, parse_trace_line, LineParse};
use cache_sim::trace::{AccessKind, TraceAccess};

#[test]
fn address_radix_prefixes() {
    assert_eq!(parse_address(b"0x1F"), Some(31));
    assert_eq!(parse_address(b"0X1f"), Some(31));
    assert_eq!(parse_address(b"0b101"), Some(5));
    assert_eq!(parse_address(b"0o17"), Some(15));
}

#[test]
fn bare_address_reads_as_hexadecimal() {
    assert_eq!(parse_address(b"10"), Some(16));
    assert_eq!(parse_address(b"ff"), Some(255));
    assert_eq!(parse_address(b"+ff"), Some(255));
    assert_eq!(parse_address(b"0"), Some(0));
}

#[test]
fn oversized_hexadecimal_falls_back_to_decimal() {
    // Twenty decimal digits overflow as hexadecimal but fit as decimal.
    assert_eq!(parse_address(b"18446744073709551615"), Some(u64::MAX));
}

#[test]
fn unparseable_addresses_are_rejected() {
    assert_eq!(parse_address(b""), None);
    assert_eq!(parse_address(b"zz"), None);
    assert_eq!(parse_address(b"0x"), None);
    assert_eq!(parse_address(b"0b2"), None);
    assert_eq!(parse_address(b"0o8"), None);
    assert_eq!(parse_address(b"+"), None);
    // Seventeen hex digits overflow, and `f` is no decimal digit.
    assert_eq!(parse_address(b"fffffffffffffffff"), None);
}

#[test]
fn lines_parse_kind_and_address() {
    assert_eq!(
        parse_trace_line(b"r 0x10"),
        LineParse::Entry(TraceAccess { kind: AccessKind::Read, address: 16 })
    );
    assert_eq!(
        parse_trace_line(b"  W 8  "),
        LineParse::Entry(TraceAccess { kind: AccessKind::Write, address: 8 })
    );
    assert_eq!(
        parse_trace_line(b"write 0b11 trailing junk"),
        LineParse::Entry(TraceAccess { kind: AccessKind::Write, address: 3 })
    );
    // An unknown kind token reads.
    assert_eq!(
        parse_trace_line(b"x 5"),
        LineParse::Entry(TraceAccess { kind: AccessKind::Read, address: 5 })
    );
}

#[test]
fn blank_and_comment_lines_are_skipped() {
    assert_eq!(parse_trace_line(b""), LineParse::Blank);
    assert_eq!(parse_trace_line(b"   \t"), LineParse::Blank);
    assert_eq!(parse_trace_line(b"# a comment"), LineParse::Blank);
    assert_eq!(parse_trace_line(b"   # indented comment"), LineParse::Blank);
}

#[test]
fn incomplete_lines_are_malformed() {
    assert_eq!(parse_trace_line(b"r"), LineParse::Malformed);
    assert_eq!(parse_trace_line(b"w   "), LineParse::Malformed);
    assert_eq!(parse_trace_line(b"w 0xZZ"), LineParse::Malformed);
}
