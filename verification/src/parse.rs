//! Parsing of trace lines, over bytes of ASCII text: an access kind token
//! followed by an address token, with blank lines and `#` comments
//! skipped. The accepted address forms mirror the trace format: a `0x`,
//! `0b` or `0o` prefix selects the radix; a bare number is read as
//! hexadecimal, or as decimal if it has digits beyond the hex range.

use vstd::prelude::*;
use crate::trace::AccessKind;
use crate::trace::TraceAccess;

verus! {

/// ASCII whitespace, as the trace format knows it.
pub open spec fn is_space(b: u8) -> bool {
    b == 32 || (9 <= b <= 13)
}

/// The value of one digit byte: `0`-`9`, `a`-`f`, `A`-`F`; anything else
/// is no digit at all.
pub open spec fn digit_value(b: u8) -> int {
    if 48 <= b <= 57 {
        b - 48
    } else if 97 <= b <= 102 {
        b - 97 + 10
    } else if 65 <= b <= 70 {
        b - 65 + 10
    } else {
        -1
    }
}

/// The number the digit bytes denote in the given radix: none for an empty
/// sequence, a digit outside the radix, or a value beyond `u64`.
pub open spec fn parse_digits(s: Seq<u8>, radix: int) -> Option<u64>
    recommends
        2 <= radix <= 16,
    decreases s.len(),
{
    if s.len() == 0 {
        Option::None
    } else {
        let d = digit_value(s.last());
        if !(0 <= d < radix) {
            Option::None
        } else if s.len() == 1 {
            Option::Some(d as u64)
        } else {
            match parse_digits(s.drop_last(), radix) {
                Option::None => Option::None,
                Option::Some(hi) => if hi * radix + d <= u64::MAX {
                    Option::Some((hi * radix + d) as u64)
                } else {
                    Option::None
                },
            }
        }
    }
}

/// A number token: an optional leading `+`, then digits.
pub open spec fn parse_radix(s: Seq<u8>, radix: int) -> Option<u64>
    recommends
        2 <= radix <= 16,
{
    if s.len() > 0 && s[0] == 43 {
        parse_digits(s.drop_first(), radix)
    } else {
        parse_digits(s, radix)
    }
}

/// An address token: a `0x`/`0b`/`0o` prefix selects the radix; a bare
/// token is read as hexadecimal, falling back to decimal.
pub open spec fn spec_parse_address(s: Seq<u8>) -> Option<u64> {
    if s.len() >= 2 && s[0] == 48 && (s[1] == 120 || s[1] == 88) {
        parse_radix(s.skip(2), 16)
    } else if s.len() >= 2 && s[0] == 48 && (s[1] == 98 || s[1] == 66) {
        parse_radix(s.skip(2), 2)
    } else if s.len() >= 2 && s[0] == 48 && (s[1] == 111 || s[1] == 79) {
        parse_radix(s.skip(2), 8)
    } else {
        match parse_radix(s, 16) {
            Option::Some(v) => Option::Some(v),
            Option::None => parse_radix(s, 10),
        }
    }
}

/// First position at or after `i` that holds no whitespace (or the end).
pub open spec fn skip_spaces(s: Seq<u8>, i: int) -> int
    decreases s.len() - i,
{
    if i < 0 || i >= s.len() {
        i
    } else if is_space(s[i]) {
        skip_spaces(s, i + 1)
    } else {
        i
    }
}

/// First position at or after `i` that holds whitespace (or the end).
pub open spec fn token_end(s: Seq<u8>, i: int) -> int
    decreases s.len() - i,
{
    if i < 0 || i >= s.len() {
        i
    } else if is_space(s[i]) {
        i
    } else {
        token_end(s, i + 1)
    }
}

/// What one line of a trace file means.
#[derive(Debug, Clone, Copy, PartialEq, Eq, Structural)]
pub enum LineParse {
    /// Nothing to simulate: the line is blank or a `#` comment.
    Blank,
    /// One access.
    Entry(TraceAccess),
    /// The line is not in the trace format.
    Malformed,
}

/// The meaning of one line: skip blanks and comments; else read an access
/// kind (a token starting `r`/`R` reads, `w`/`W` writes, anything else
/// reads) and an address token; anything unparseable is malformed.
pub open spec fn spec_parse_line(s: Seq<u8>) -> LineParse {
    let a = skip_spaces(s, 0);
    if a == s.len() {
        LineParse::Blank
    } else if s[a] == 35 {
        LineParse::Blank
    } else {
        let e1 = token_end(s, a);
        let kind = if s[a] == 119 || s[a] == 87 {
            AccessKind::Write
        } else {
            AccessKind::Read
        };
        let a2 = skip_spaces(s, e1);
        if a2 == s.len() {
            LineParse::Malformed
        } else {
            let e2 = token_end(s, a2);
            match spec_parse_address(s.subrange(a2, e2)) {
                Option::Some(addr) => LineParse::Entry(TraceAccess { kind, address: addr }),
                Option::None => LineParse::Malformed,
            }
        }
    }
}

/// A failed digit run stays failed however it is extended.
proof fn lemma_parse_none_extends(s: Seq<u8>, radix: int, from: int, k: int, to: int)
    requires
        0 <= from < k <= to <= s.len(),
        parse_digits(s.subrange(from, k), radix) is None,
    ensures
        parse_digits(s.subrange(from, to), radix) is None,
    decreases to - k,
{
    if to > k {
        lemma_parse_none_extends(s, radix, from, k, to - 1);
        assert(s.subrange(from, to).drop_last() =~= s.subrange(from, to - 1));
        assert(s.subrange(from, to).last() == s[to - 1]);
    }
}

/// The value of one digit byte; 255 marks a non-digit.
fn digit_of(b: u8) -> (d: u8)
    ensures
        digit_value(b) >= 0 ==> d as int == digit_value(b),
        digit_value(b) < 0 ==> d == 255,
{
    if 48 <= b && b <= 57 {
        b - 48
    } else if 97 <= b && b <= 102 {
        b - 97 + 10
    } else if 65 <= b && b <= 70 {
        b - 65 + 10
    } else {
        255
    }
}

/// Reads the digit run `s[from..to]` in the given radix.
fn parse_digits_range(s: &[u8], from: usize, to: usize, radix: u64) -> (r: Option<u64>)
    requires
        from <= to <= s@.len(),
        2 <= radix <= 16,
    ensures
        r == parse_digits(s@.subrange(from as int, to as int), radix as int),
{
    if from == to {
        return Option::None;
    }
    let mut acc: u64 = 0;
    let mut i: usize = from;
    while i < to
        invariant
            from <= i <= to <= s@.len(),
            2 <= radix <= 16,
            i > from ==> Option::Some(acc) == parse_digits(
                s@.subrange(from as int, i as int),
                radix as int,
            ),
            i == from ==> acc == 0,
        decreases to - i,
    {
        let ghost prefix = s@.subrange(from as int, i as int);
        let ghost cur = s@.subrange(from as int, i + 1 as int);
        proof {
            assert(cur.drop_last() =~= prefix);
            assert(cur.last() == s@[i as int]);
        }
        let d = digit_of(s[i]);
        if (d as u64) >= radix {
            proof {
                assert(parse_digits(cur, radix as int) is None);
                if i + 1 < to {
                    lemma_parse_none_extends(s@, radix as int, from as int, i + 1, to as int);
                }
            }
            return Option::None;
        }
        let next = match acc.checked_mul(radix) {
            Option::Some(m) => m.checked_add(d as u64),
            Option::None => Option::None,
        };
        match next {
            Option::Some(v) => {
                proof {
                    assert(parse_digits(cur, radix as int) == Option::Some(v));
                }
                acc = v;
            },
            Option::None => {
                proof {
                    assert(parse_digits(cur, radix as int) is None);
                    if i + 1 < to {
                        lemma_parse_none_extends(s@, radix as int, from as int, i + 1, to as int);
                    }
                }
                return Option::None;
            },
        }
        i = i + 1;
    }
    Option::Some(acc)
}

/// Reads the number token `s[from..to]`: an optional `+`, then digits.
fn parse_radix_range(s: &[u8], from: usize, to: usize, radix: u64) -> (r: Option<u64>)
    requires
        from <= to <= s@.len(),
        2 <= radix <= 16,
    ensures
        r == parse_radix(s@.subrange(from as int, to as int), radix as int),
{
    let ghost whole = s@.subrange(from as int, to as int);
    if from < to && s[from] == 43 {
        proof {
            assert(whole.drop_first() =~= s@.subrange(from + 1 as int, to as int));
        }
        parse_digits_range(s, from + 1, to, radix)
    } else {
        parse_digits_range(s, from, to, radix)
    }
}

/// Reads the address token `s[from..to]`.
fn parse_address_range(s: &[u8], from: usize, to: usize) -> (r: Option<u64>)
    requires
        from <= to <= s@.len(),
    ensures
        r == spec_parse_address(s@.subrange(from as int, to as int)),
{
    let ghost whole = s@.subrange(from as int, to as int);
    if to - from >= 2 && s[from] == 48 {
        let p = s[from + 1];
        proof {
            assert(whole.skip(2) =~= s@.subrange(from + 2 as int, to as int));
        }
        if p == 120 || p == 88 {
            return parse_radix_range(s, from + 2, to, 16);
        }
        if p == 98 || p == 66 {
            return parse_radix_range(s, from + 2, to, 2);
        }
        if p == 111 || p == 79 {
            return parse_radix_range(s, from + 2, to, 8);
        }
    }
    match parse_radix_range(s, from, to, 16) {
        Option::Some(v) => Option::Some(v),
        Option::None => parse_radix_range(s, from, to, 10),
    }
}

/// Reads one whole address token.
pub fn parse_address(token: &[u8]) -> (r: Option<u64>)
    ensures
        r == spec_parse_address(token@),
{
    proof {
        assert(token@.subrange(0, token@.len() as int) =~= token@);
    }
    parse_address_range(token, 0, token.len())
}

/// Whether a byte is trace-format whitespace.
fn is_space_byte(b: u8) -> (r: bool)
    ensures
        r == is_space(b),
{
    b == 32 || (9 <= b && b <= 13)
}

/// First non-whitespace position at or after `i`.
fn skip_spaces_from(s: &[u8], i: usize) -> (r: usize)
    requires
        i <= s@.len(),
    ensures
        r == skip_spaces(s@, i as int),
        i <= r <= s@.len(),
        r < s@.len() ==> !is_space(s@[r as int]),
{
    let n = s.len();
    let mut j: usize = i;
    while j < n && is_space_byte(s[j])
        invariant
            i <= j <= n == s@.len(),
            skip_spaces(s@, i as int) == skip_spaces(s@, j as int),
        decreases n - j,
    {
        j = j + 1;
    }
    j
}

/// First whitespace position at or after `i`.
fn token_end_from(s: &[u8], i: usize) -> (r: usize)
    requires
        i <= s@.len(),
    ensures
        r == token_end(s@, i as int),
        i <= r <= s@.len(),
{
    let n = s.len();
    let mut j: usize = i;
    while j < n && !is_space_byte(s[j])
        invariant
            i <= j <= n == s@.len(),
            token_end(s@, i as int) == token_end(s@, j as int),
        decreases n - j,
    {
        j = j + 1;
    }
    j
}

/// Reads one line of a trace file.
pub fn parse_trace_line(line: &[u8]) -> (r: LineParse)
    ensures
        r == spec_parse_line(line@),
{
    let n = line.len();
    let a = skip_spaces_from(line, 0);
    if a == n {
        return LineParse::Blank;
    }
    if line[a] == 35 {
        return LineParse::Blank;
    }
    let e1 = token_end_from(line, a);
    let kind = if line[a] == 119 || line[a] == 87 {
        AccessKind::Write
    } else {
        AccessKind::Read
    };
    let a2 = skip_spaces_from(line, e1);
    if a2 == n {
        return LineParse::Malformed;
    }
    let e2 = token_end_from(line, a2);
    match parse_address_range(line, a2, e2) {
        Option::Some(addr) => LineParse::Entry(TraceAccess { kind, address: addr }),
        Option::None => LineParse::Malformed,
    }
}

} // verus!
