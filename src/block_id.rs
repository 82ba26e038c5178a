//! Block references: a height, a 256-bit hash or a symbolic tag, resolved
//! from untagged wire text in a fixed order.

use std::str::FromStr;
use vstd::prelude::*;
use vstd::string::StringSliceAdditionalSpecFns;

use crate::codec::{
    all_digits, deserialize_u32_0x, digit_of, digits_value, hash_bytes, has_hex_prefix, hex_body,
    is_hash_text, number_text, unsigned_text, DecodeError,
};

verus! {

/// A symbolic block position.
#[derive(Copy, Clone, PartialEq, Eq, Structural, Debug)]
pub enum RequestBlockTag {
    Earliest,
    Latest,
    Pending,
}

/// A block addressed by height, by hash or by tag; exactly one is present.
#[derive(Copy, Clone, PartialEq, Eq, Debug)]
pub enum RequestBlockId {
    Number(u32),
    Hash([u8; 32]),
    Tag(RequestBlockTag),
}

/// ASCII lower case of one byte; other bytes are unchanged.
pub open spec fn ascii_lower(c: u8) -> u8 {
    if 0x41 <= c <= 0x5a {
        (c + 0x20) as u8
    } else {
        c
    }
}

/// `s` equals the lower-case `word` when ASCII case is ignored.
pub open spec fn eq_ignore_case(s: Seq<u8>, word: Seq<u8>) -> bool {
    s.len() == word.len() && forall|i: int| 0 <= i < s.len() ==> ascii_lower(s[i]) == word[i]
}

/// The wire name of a tag, in lower case.
pub open spec fn tag_word(t: RequestBlockTag) -> Seq<u8> {
    match t {
        RequestBlockTag::Earliest => seq![0x65u8, 0x61, 0x72, 0x6c, 0x69, 0x65, 0x73, 0x74],
        RequestBlockTag::Latest => seq![0x6cu8, 0x61, 0x74, 0x65, 0x73, 0x74],
        RequestBlockTag::Pending => seq![0x70u8, 0x65, 0x6e, 0x64, 0x69, 0x6e, 0x67],
    }
}

/// The tag that the text names, in any ASCII case.
pub open spec fn tag_text(s: Seq<u8>) -> Option<RequestBlockTag> {
    if eq_ignore_case(s, tag_word(RequestBlockTag::Earliest)) {
        Some(RequestBlockTag::Earliest)
    } else if eq_ignore_case(s, tag_word(RequestBlockTag::Latest)) {
        Some(RequestBlockTag::Latest)
    } else if eq_ignore_case(s, tag_word(RequestBlockTag::Pending)) {
        Some(RequestBlockTag::Pending)
    } else {
        None
    }
}

/// The text denotes a block reference of some kind.
pub open spec fn is_block_ref_text(s: Seq<u8>) -> bool {
    number_text(s) is Some || is_hash_text(s) || tag_text(s) is Some
}

/// `id` is what the text resolves to: a number first, then a hash, then a tag.
pub open spec fn resolves_to(s: Seq<u8>, id: RequestBlockId) -> bool {
    match number_text(s) {
        Some(n) => id == RequestBlockId::Number(n),
        None => if is_hash_text(s) {
            id matches RequestBlockId::Hash(h) && h@ == hash_bytes(s)
        } else {
            match tag_text(s) {
                Some(t) => id == RequestBlockId::Tag(t),
                None => false,
            }
        },
    }
}

/// Relies on `ethereum_types::H256::from_str` (fixed-hash over rustc-hex):
/// after an optional `0x`, 64 hexadecimal digits of either case decode to the
/// 32 bytes they spell, high nibble first.
#[verifier::external_body]
fn h256_from_hex(raw: &str) -> (r: Option<[u8; 32]>)
    requires
        is_hash_text(raw.spec_bytes()),
    ensures
        r is Some,
        r is Some ==> r->0@ == hash_bytes(raw.spec_bytes()),
{
    ethereum_types::H256::from_str(raw).ok().map(|h| h.0)
}

fn is_hash(b: &[u8]) -> (r: bool)
    ensures
        r == is_hash_text(b@),
{
    let start: usize = if b.len() >= 2 && b[0] == 0x30 && b[1] == 0x78 {
        2
    } else {
        0
    };
    let ghost body = hex_body(b@);
    assert(body =~= b@.subrange(start as int, b@.len() as int));
    if b.len() - start != 64 {
        return false;
    }
    let mut i: usize = start;
    while i < b.len()
        invariant
            start <= i <= b@.len(),
            body == b@.subrange(start as int, b@.len() as int),
            body == hex_body(b@),
            forall|k: int| start <= k < i ==> (#[trigger] digit_of(b@[k], 16)) is Some,
        decreases b@.len() - i,
    {
        let c = b[i];
        let ok = (0x30 <= c && c <= 0x39) || (0x61 <= c && c <= 0x66) || (0x41 <= c && c <= 0x46);
        if !ok {
            assert(body[i - start] == c);
            assert(digit_of(body[i - start], 16) is None);
            return false;
        }
        i = i + 1;
    }
    assert forall|k: int| 0 <= k < body.len() implies (#[trigger] digit_of(body[k], 16)) is Some by {
        assert(body[k] == b@[k + start]);
    }
    true
}

fn eq_word(b: &[u8], word: &[u8]) -> (r: bool)
    ensures
        r == eq_ignore_case(b@, word@),
{
    if b.len() != word.len() {
        return false;
    }
    let mut i: usize = 0;
    while i < b.len()
        invariant
            b@.len() == word@.len(),
            i <= b@.len(),
            forall|k: int| 0 <= k < i ==> ascii_lower(b@[k]) == word@[k],
        decreases b@.len() - i,
    {
        let c = b[i];
        let lower: u8 = if 0x41 <= c && c <= 0x5a {
            c + 0x20
        } else {
            c
        };
        if lower != word[i] {
            return false;
        }
        i = i + 1;
    }
    true
}

fn tag_from_bytes(b: &[u8]) -> (r: Option<RequestBlockTag>)
    ensures
        r == tag_text(b@),
{
    let earliest: [u8; 8] = [0x65, 0x61, 0x72, 0x6c, 0x69, 0x65, 0x73, 0x74];
    let latest: [u8; 6] = [0x6c, 0x61, 0x74, 0x65, 0x73, 0x74];
    let pending: [u8; 7] = [0x70, 0x65, 0x6e, 0x64, 0x69, 0x6e, 0x67];
    assert(earliest@ =~= tag_word(RequestBlockTag::Earliest));
    assert(latest@ =~= tag_word(RequestBlockTag::Latest));
    assert(pending@ =~= tag_word(RequestBlockTag::Pending));
    if eq_word(b, earliest.as_slice()) {
        Some(RequestBlockTag::Earliest)
    } else if eq_word(b, latest.as_slice()) {
        Some(RequestBlockTag::Latest)
    } else if eq_word(b, pending.as_slice()) {
        Some(RequestBlockTag::Pending)
    } else {
        None
    }
}

impl RequestBlockId {
    /// Resolves wire text to a block reference: a 32-bit number (hex after
    /// `0x`, else decimal), else a 64-digit hex hash, else a tag in any case.
    pub fn resolve(raw: &str) -> (r: Result<RequestBlockId, DecodeError>)
        ensures
            match r {
                Ok(id) => resolves_to(raw.spec_bytes(), id),
                Err(e) => !is_block_ref_text(raw.spec_bytes()) && (e matches DecodeError::UnrecognizedBlockReference(t) && t@ == raw@),
            },
    {
        if let Ok(n) = deserialize_u32_0x(raw) {
            return Ok(RequestBlockId::Number(n));
        }
        let b = raw.as_bytes();
        if is_hash(b) {
            match h256_from_hex(raw) {
                Some(h) => {
                    return Ok(RequestBlockId::Hash(h));
                },
                None => {
                    return Err(DecodeError::UnrecognizedBlockReference(raw.to_owned()));
                },
            }
        }
        match tag_from_bytes(b) {
            Some(t) => Ok(RequestBlockId::Tag(t)),
            None => Err(DecodeError::UnrecognizedBlockReference(raw.to_owned())),
        }
    }
}

/// The lower-case ASCII digit for `d`, below 16.
pub open spec fn digit_char(d: nat) -> u8 {
    if d < 10 {
        (0x30 + d) as u8
    } else {
        (0x61 + d - 10) as u8
    }
}

/// The shortest decimal digit text of `n`, most significant first.
pub open spec fn decimal_digits(n: nat) -> Seq<u8>
    decreases n,
{
    if n < 10 {
        seq![digit_char(n)]
    } else {
        decimal_digits(n / 10).push(digit_char(n % 10))
    }
}

/// The shortest lower-case hexadecimal digit text of `n`, most significant first.
pub open spec fn hex_digits(n: nat) -> Seq<u8>
    decreases n,
{
    if n < 16 {
        seq![digit_char(n)]
    } else {
        hex_digits(n / 16).push(digit_char(n % 16))
    }
}

pub open spec fn digits_of(n: nat, radix: nat) -> Seq<u8> {
    if radix == 16 {
        hex_digits(n)
    } else {
        decimal_digits(n)
    }
}

proof fn lemma_digits_of_unfold(n: nat, radix: nat)
    requires
        radix == 10 || radix == 16,
    ensures
        n < radix ==> digits_of(n, radix) == seq![digit_char(n)],
        n >= radix ==> digits_of(n, radix) == digits_of(n / radix, radix).push(
            digit_char(n % radix),
        ),
{
}

/// The decimal text of `n`.
pub open spec fn decimal_text(n: nat) -> Seq<u8> {
    digits_of(n, 10)
}

/// The `0x`-prefixed lower-case hexadecimal text of `n`.
pub open spec fn hex_text(n: nat) -> Seq<u8> {
    seq![0x30u8, 0x78] + digits_of(n, 16)
}

proof fn lemma_digit_char(d: nat, radix: nat)
    requires
        radix == 10 || radix == 16,
        d < radix,
    ensures
        digit_of(digit_char(d), radix) == Some(d),
{
}

proof fn lemma_digits_of(n: nat, radix: nat)
    requires
        radix == 10 || radix == 16,
    ensures
        digits_of(n, radix).len() > 0,
        all_digits(digits_of(n, radix), radix),
        digits_value(digits_of(n, radix), radix) == n,
    decreases n,
{
    let s = digits_of(n, radix);
    lemma_digits_of_unfold(n, radix);
    if n < radix {
        lemma_digit_char(n, radix);
        assert(s.drop_last() =~= Seq::<u8>::empty());
        assert(digits_value(Seq::<u8>::empty(), radix) == 0);
        assert(digits_value(s, radix) == 0 * radix + n);
    } else {
        let q = n / radix;
        let pre = digits_of(q, radix);
        lemma_digits_of(q, radix);
        lemma_digit_char(n % radix, radix);
        assert(s.drop_last() =~= pre);
        assert(s.last() == digit_char(n % radix));
        assert(digits_value(s, radix) == digits_value(pre, radix) * radix + n % radix);
        assert forall|i: int| 0 <= i < s.len() implies (#[trigger] digit_of(s[i], radix)) is Some by {
            if i < pre.len() {
                assert(s[i] == pre[i]);
            }
        }
        assert(q * radix + n % radix == n) by (nonlinear_arith)
            requires
                q == n / radix,
                radix > 0,
        ;
    }
}

proof fn lemma_unsigned_digits(n: u32, radix: nat)
    requires
        radix == 10 || radix == 16,
    ensures
        unsigned_text(digits_of(n as nat, radix), radix) == Some(n),
{
    lemma_digits_of(n as nat, radix);
}

/// Every 32-bit number resolves to itself, written in `0x` hexadecimal or
/// in decimal.
pub proof fn lemma_numbers_resolve(n: u32)
    ensures
        resolves_to(hex_text(n as nat), RequestBlockId::Number(n)),
        resolves_to(decimal_text(n as nat), RequestBlockId::Number(n)),
{
    let h = hex_text(n as nat);
    let d = decimal_text(n as nat);
    lemma_unsigned_digits(n, 16);
    lemma_unsigned_digits(n, 10);
    lemma_digits_of(n as nat, 10);
    assert(h.subrange(2, h.len() as int) =~= digits_of(n as nat, 16));
    assert(has_hex_prefix(h));
    if d.len() > 1 {
        assert(digit_of(d[1], 10) is Some);
    }
    assert(!has_hex_prefix(d));
}

/// A text of 64 hexadecimal digits (after an optional `0x`) that is not a
/// 32-bit number resolves to exactly the hash those digits spell.
pub proof fn lemma_hash_text_resolves(s: Seq<u8>, id: RequestBlockId)
    requires
        is_hash_text(s),
        number_text(s) is None,
    ensures
        resolves_to(s, id) <==> (id matches RequestBlockId::Hash(h) && h@ == hash_bytes(s)),
{
}

/// Each tag name, in any mix of ASCII case, resolves to its tag.
pub proof fn lemma_tags_resolve(s: Seq<u8>, t: RequestBlockTag)
    requires
        eq_ignore_case(s, tag_word(t)),
    ensures
        resolves_to(s, RequestBlockId::Tag(t)),
{
    let w = tag_word(t);
    assert(ascii_lower(s[0]) == w[0]);
    assert(digit_of(s[0], 10) is None);
    assert(!has_hex_prefix(s));
    assert(number_text(s) is None);
    assert(!is_hash_text(s));
    assert(tag_text(s) == Some(t));
}

} // verus!
