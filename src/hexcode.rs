//! Hexadecimal text of bytecode.
use vstd::prelude::*;
use vstd::string::*;

verus! {

pub open spec fn is_hex_digit(c: char) -> bool {
    ('0' <= c && c <= '9') || ('a' <= c && c <= 'f') || ('A' <= c && c <= 'F')
}

pub open spec fn hex_value(c: char) -> nat {
    if '0' <= c && c <= '9' {
        (c as u32 - '0' as u32) as nat
    } else if 'a' <= c && c <= 'f' {
        (c as u32 - 'a' as u32 + 10) as nat
    } else {
        (c as u32 - 'A' as u32 + 10) as nat
    }
}

/// The bytes written as pairs of hex digits in `s`, when `s` is such text.
pub open spec fn hex_bytes(s: Seq<char>) -> Option<Seq<u8>> {
    if s.len() % 2 == 0 && forall|i: int| 0 <= i < s.len() ==> is_hex_digit(#[trigger] s[i]) {
        Some(Seq::new(s.len() / 2, |i: int| (hex_value(s[2 * i]) * 16 + hex_value(s[2 * i + 1])) as u8))
    } else {
        None
    }
}

/// Whether `s` starts with `0x`.
pub open spec fn has_hex_prefix(s: Seq<char>) -> bool {
    s.len() >= 2 && s[0] == '0' && s[1] == 'x'
}

/// `s` without all of its leading `0x` prefixes.
pub open spec fn strip_hex_prefixes(s: Seq<char>) -> Seq<char>
    decreases s.len(),
{
    if has_hex_prefix(s) {
        strip_hex_prefixes(s.subrange(2, s.len() as int))
    } else {
        s
    }
}

/// The bytes of bytecode text, after any number of leading `0x` prefixes.
pub open spec fn code_bytes(s: Seq<char>) -> Option<Seq<u8>> {
    hex_bytes(strip_hex_prefixes(s))
}

/// Relies on `hex::decode`: accepts an even number of digits `0-9`, `a-f`,
/// `A-F` and turns each pair into a byte, high digit first.
#[verifier::external_body]
fn decode_hex(s: &str) -> (r: Option<Vec<u8>>)
    ensures
        match r {
            Some(v) => hex_bytes(s@) == Some(v@),
            None => hex_bytes(s@).is_none(),
        },
{
    hex::decode(s).ok()
}

/// Decodes bytecode text, after stripping every leading `0x`.
pub fn decode_code(s: &str) -> (r: Option<Vec<u8>>)
    ensures
        match r {
            Some(v) => code_bytes(s@) == Some(v@),
            None => code_bytes(s@).is_none(),
        },
{
    let n = s.unicode_len();
    let mut from: usize = 0;
    assert(s@.subrange(0, n as int) =~= s@);
    while n - from >= 2 && s.get_char(from) == '0' && s.get_char(from + 1) == 'x'
        invariant
            n == s@.len(),
            from <= n,
            strip_hex_prefixes(s@.subrange(from as int, n as int)) == strip_hex_prefixes(s@),
        decreases n - from,
    {
        let ghost rest = s@.subrange(from as int, n as int);
        assert(has_hex_prefix(rest));
        assert(rest.subrange(2, rest.len() as int) =~= s@.subrange(from + 2, n as int));
        from = from + 2;
    }
    let ghost rest = s@.subrange(from as int, n as int);
    assert(!has_hex_prefix(rest));
    let rest_str = s.substring_char(from, n);
    decode_hex(rest_str)
}

} // verus!
