//! Parsing of unsigned 32-bit numbers written as `0x`-prefixed hexadecimal
//! or plain decimal text, and recognition of 256-bit hex digests.

use vstd::prelude::*;
use vstd::string::StringSliceAdditionalSpecFns;

verus! {

/// Malformed wire input.
#[derive(Debug, Clone, PartialEq, Eq)]
pub enum DecodeError {
    /// The text is not a number of the given radix that fits in 32 bits.
    InvalidNumber(String, u32),
    /// The text is neither a number, a 256-bit digest nor a known tag.
    UnrecognizedBlockReference(String),
    /// A mandatory field was absent.
    MissingField(String),
}

/// The value of ASCII byte `c` as a digit of `radix` (10 or 16), if it is one.
pub open spec fn digit_of(c: u8, radix: nat) -> Option<nat> {
    if 0x30 <= c <= 0x39 && (c - 0x30) < radix {
        Some((c - 0x30) as nat)
    } else if radix == 16 && 0x61 <= c <= 0x66 {
        Some((c - 0x61 + 10) as nat)
    } else if radix == 16 && 0x41 <= c <= 0x46 {
        Some((c - 0x41 + 10) as nat)
    } else {
        None
    }
}

pub open spec fn all_digits(s: Seq<u8>, radix: nat) -> bool {
    forall|i: int| 0 <= i < s.len() ==> (#[trigger] digit_of(s[i], radix)) is Some
}

/// The number that the digit sequence `s` denotes, most significant first.
pub open spec fn digits_value(s: Seq<u8>, radix: nat) -> nat
    decreases s.len(),
{
    if s.len() == 0 {
        0
    } else {
        digits_value(s.drop_last(), radix) * radix + match digit_of(s.last(), radix) {
            Some(d) => d,
            None => 0,
        }
    }
}

/// An unsigned 32-bit number in `radix`: at least one digit and nothing
/// else, with a value that fits in 32 bits.
pub open spec fn unsigned_text(s: Seq<u8>, radix: nat) -> Option<u32> {
    if s.len() > 0 && all_digits(s, radix) && digits_value(s, radix) <= u32::MAX {
        Some(digits_value(s, radix) as u32)
    } else {
        None
    }
}

/// The text starts with `0x`.
pub open spec fn has_hex_prefix(s: Seq<u8>) -> bool {
    s.len() >= 2 && s[0] == 0x30 && s[1] == 0x78
}

/// The radix that numeric text is read in: 16 after a `0x` prefix, else 10.
pub open spec fn radix_of(s: Seq<u8>) -> u32 {
    if has_hex_prefix(s) {
        16
    } else {
        10
    }
}

/// The 32-bit number that the text denotes, if any.
pub open spec fn number_text(s: Seq<u8>) -> Option<u32> {
    if has_hex_prefix(s) {
        unsigned_text(s.subrange(2, s.len() as int), 16)
    } else {
        unsigned_text(s, 10)
    }
}

/// The text with one leading `0x` removed, if it has one.
pub open spec fn hex_body(s: Seq<u8>) -> Seq<u8> {
    if has_hex_prefix(s) {
        s.subrange(2, s.len() as int)
    } else {
        s
    }
}

/// Exactly 64 hexadecimal digits, after an optional `0x`.
pub open spec fn is_hash_text(s: Seq<u8>) -> bool {
    hex_body(s).len() == 64 && all_digits(hex_body(s), 16)
}

pub open spec fn hex_value(c: u8) -> nat {
    match digit_of(c, 16) {
        Some(d) => d,
        None => 0,
    }
}

/// The 32 bytes that a hash text encodes, two digits per byte, high nibble first.
pub open spec fn hash_bytes(s: Seq<u8>) -> Seq<u8> {
    Seq::new(
        32,
        |i: int| (hex_value(hex_body(s)[2 * i]) * 16 + hex_value(hex_body(s)[2 * i + 1])) as u8,
    )
}

fn digit(c: u8, radix: u32) -> (r: Option<u32>)
    requires
        radix == 10 || radix == 16,
    ensures
        match digit_of(c, radix as nat) {
            Some(d) => r == Some(d as u32),
            None => r is None,
        },
        r matches Some(d) ==> d < radix,
{
    if 0x30 <= c && c <= 0x39 && ((c - 0x30) as u32) < radix {
        Some((c - 0x30) as u32)
    } else if radix == 16 && 0x61 <= c && c <= 0x66 {
        Some((c - 0x61 + 10) as u32)
    } else if radix == 16 && 0x41 <= c && c <= 0x46 {
        Some((c - 0x41 + 10) as u32)
    } else {
        None
    }
}

/// Reads `b[start..]` as an unsigned 32-bit number in `radix`.
fn parse_unsigned(b: &[u8], start: usize, radix: u32) -> (r: Option<u32>)
    requires
        start <= b@.len(),
        radix == 10 || radix == 16,
    ensures
        r == unsigned_text(b@.subrange(start as int, b@.len() as int), radix as nat),
{
    let ghost body = b@.subrange(start as int, b@.len() as int);
    let mut i: usize = start;
    if i == b.len() {
        return None;
    }
    let mut acc: u64 = 0;
    let mut overflow: bool = false;
    while i < b.len()
        invariant
            start <= i <= b@.len(),
            body == b@.subrange(start as int, b@.len() as int),
            radix == 10 || radix == 16,
            all_digits(b@.subrange(start as int, i as int), radix as nat),
            overflow ==> digits_value(b@.subrange(start as int, i as int), radix as nat)
                > u32::MAX,
            !overflow ==> acc == digits_value(b@.subrange(start as int, i as int), radix as nat)
                && acc <= u32::MAX,
        decreases b@.len() - i,
    {
        let ghost pre = b@.subrange(start as int, i as int);
        let ghost next = b@.subrange(start as int, i + 1);
        assert(next.drop_last() =~= pre);
        assert(next.last() == b@[i as int]);
        match digit(b[i], radix) {
            None => {
                assert(body[i - start] == b@[i as int]);
                assert(digit_of(body[i - start], radix as nat) is None);
                return None;
            },
            Some(d) => {
                assert(next == pre.push(b@[i as int]));
                assert forall|k: int| 0 <= k < next.len() implies (#[trigger] digit_of(
                    next[k],
                    radix as nat,
                )) is Some by {
                    if k < pre.len() {
                        assert(next[k] == pre[k]);
                    }
                }
                if !overflow {
                    assert(acc * (radix as u64) <= 0xffff_ffff * 16) by (nonlinear_arith)
                        requires
                            acc <= 0xffff_ffff,
                            radix <= 16,
                    ;
                    let v: u64 = acc * (radix as u64) + (d as u64);
                    if v > 0xffff_ffff {
                        overflow = true;
                    } else {
                        acc = v;
                    }
                } else {
                    let ghost pv = digits_value(pre, radix as nat);
                    assert(pv * (radix as nat) >= pv) by (nonlinear_arith)
                        requires
                            radix >= 1,
                    ;
                }
                i = i + 1;
            },
        }
    }
    assert(b@.subrange(start as int, i as int) =~= body);
    if overflow {
        None
    } else {
        Some(acc as u32)
    }
}

/// Reads numeric text: `0x` followed by at least one hexadecimal digit, or
/// at least one decimal digit, and nothing else; the value must fit in 32 bits.
pub fn deserialize_u32_0x(text: &str) -> (r: Result<u32, DecodeError>)
    ensures
        match number_text(text.spec_bytes()) {
            Some(n) => r == Ok::<u32, DecodeError>(n),
            None => r matches Err(DecodeError::InvalidNumber(t, radix)) && t@ == text@ && radix
                == radix_of(text.spec_bytes()),
        },
{
    let b = text.as_bytes();
    let (parsed, radix) = if b.len() >= 2 && b[0] == 0x30 && b[1] == 0x78 {
        (parse_unsigned(b, 2, 16), 16u32)
    } else {
        assert(b@.subrange(0, b@.len() as int) =~= b@);
        (parse_unsigned(b, 0, 10), 10u32)
    };
    match parsed {
        Some(n) => Ok(n),
        None => Err(DecodeError::InvalidNumber(text.to_owned(), radix)),
    }
}

} // verus!
