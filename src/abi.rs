//! Interface descriptions of compiled contracts, and the mapping of their
//! type tags onto the value kinds that bindings handle.
use vstd::prelude::*;
use crate::text::{has_prefix, is_digit, digit_value, same_text, starts_with};

verus! {

/// What kind of item an interface entry describes.
#[derive(Clone, Copy, Debug, PartialEq, Eq, Structural)]
pub enum EntryKind {
    Function,
    Constructor,
    Event,
    Error,
    Fallback,
    Receive,
}

/// Declared state mutability of a function.
#[derive(Clone, Copy, Debug, PartialEq, Eq, Structural)]
pub enum Mutability {
    Pure,
    View,
    NonPayable,
    Payable,
}

/// One named, typed parameter of an entry.
#[derive(Clone, Debug)]
pub struct AbiParam {
    pub name: String,
    pub type_tag: String,
}

/// One entry of a contract's interface description.
#[derive(Clone, Debug)]
pub struct AbiEntry {
    pub name: String,
    pub inputs: Vec<AbiParam>,
    pub outputs: Vec<AbiParam>,
    pub state_mutability: Mutability,
    pub entry_type: EntryKind,
}

/// The value kinds that a type tag maps to.
#[derive(Clone, Copy, Debug, PartialEq, Eq, Structural)]
pub enum AbiType {
    /// Unsigned integer of the given bit width.
    Uint(u32),
    /// Signed integer of the given bit width.
    Int(u32),
    Address,
    Bool,
    /// Fixed-size byte string of the given length.
    FixedBytes(u32),
}

/// Value of a string of decimal digits.
pub open spec fn number_value(d: Seq<char>) -> nat
    decreases d.len(),
{
    if d.len() == 0 {
        0
    } else {
        number_value(d.drop_last()) * 10 + digit_value(d.last())
    }
}

/// A non-empty string of decimal digits with no leading zero.
pub open spec fn canonical_number(d: Seq<char>) -> bool {
    &&& d.len() >= 1
    &&& forall|i: int| 0 <= i < d.len() ==> is_digit(#[trigger] d[i])
    &&& (d.len() == 1 || d[0] != '0')
}

/// The width written after a prefix of `p` characters, when there is one.
pub open spec fn width_after(s: Seq<char>, p: nat) -> Option<nat> {
    let rest = s.subrange(p as int, s.len() as int);
    if canonical_number(rest) {
        Some(number_value(rest))
    } else {
        None
    }
}

pub open spec fn integer_width(n: nat) -> bool {
    8 <= n <= 256 && n % 8 == 0
}

/// The value kind named by a type tag; `None` for the tags that bindings do not
/// support (dynamic arrays, tuples, strings, dynamic bytes, ...).
pub open spec fn type_of_tag(s: Seq<char>) -> Option<AbiType> {
    if s == "address"@ {
        Some(AbiType::Address)
    } else if s == "bool"@ {
        Some(AbiType::Bool)
    } else if s == "uint"@ {
        Some(AbiType::Uint(256))
    } else if s == "int"@ {
        Some(AbiType::Int(256))
    } else if has_prefix(s, "uint"@) {
        match width_after(s, 4) {
            Some(n) => if integer_width(n) { Some(AbiType::Uint(n as u32)) } else { None },
            None => None,
        }
    } else if has_prefix(s, "int"@) {
        match width_after(s, 3) {
            Some(n) => if integer_width(n) { Some(AbiType::Int(n as u32)) } else { None },
            None => None,
        }
    } else if has_prefix(s, "bytes"@) {
        match width_after(s, 5) {
            Some(n) => if 1 <= n <= 32 { Some(AbiType::FixedBytes(n as u32)) } else { None },
            None => None,
        }
    } else {
        None
    }
}

proof fn lemma_value_prefix(d: Seq<char>, k: int)
    requires
        0 <= k <= d.len(),
    ensures
        number_value(d.subrange(0, k)) <= number_value(d),
    decreases d.len(),
{
    if k < d.len() {
        lemma_value_prefix(d.drop_last(), k);
        assert(d.drop_last().subrange(0, k) =~= d.subrange(0, k));
    } else {
        assert(d.subrange(0, k) =~= d);
    }
}

/// Reads the width written in `s` from position `from` on, if it is canonical
/// and at most 256.
fn read_width(s: &str, from: usize) -> (r: Option<u32>)
    requires
        from <= s@.len(),
    ensures
        ({
            let rest = s@.subrange(from as int, s@.len() as int);
            match r {
                Some(v) => canonical_number(rest) && v as nat == number_value(rest) && v <= 256,
                None => !(canonical_number(rest) && number_value(rest) <= 256),
            }
        }),
{
    let n = s.unicode_len();
    let ghost rest = s@.subrange(from as int, s@.len() as int);
    if from == n {
        return None;
    }
    let first = s.get_char(from);
    if n - from > 1 && first == '0' {
        return None;
    }
    let mut v: u32 = 0;
    let mut i: usize = from;
    while i < n
        invariant
            n == s@.len(),
            from <= i <= n,
            from < n,
            rest == s@.subrange(from as int, n as int),
            rest[0] == first,
            n - from > 1 ==> first != '0',
            forall|k: int| from <= k < i ==> is_digit(#[trigger] s@[k]),
            v as nat == number_value(rest.subrange(0, i - from)),
            v <= 256,
        decreases n - i,
    {
        let c = s.get_char(i);
        if c < '0' || c > '9' {
            assert(rest[i - from] == c);
            return None;
        }
        let ghost pre = rest.subrange(0, i - from);
        assert(rest.subrange(0, i + 1 - from).drop_last() =~= pre);
        v = v * 10 + (c as u32 - '0' as u32);
        if v > 256 {
            proof { lemma_value_prefix(rest, i + 1 - from); }
            return None;
        }
        i = i + 1;
    }
    assert(rest.subrange(0, n - from) =~= rest);
    assert forall|k: int| 0 <= k < rest.len() implies is_digit(#[trigger] rest[k]) by {
        assert(rest[k] == s@[from + k]);
    }
    Some(v)
}

/// Maps a type tag to the value kind it names, or `None` where bindings do not
/// support it.
pub fn map_type(tag: &str) -> (r: Option<AbiType>)
    ensures
        r == type_of_tag(tag@),
{
    proof {
        reveal_strlit("address");
        reveal_strlit("bool");
        reveal_strlit("uint");
        reveal_strlit("int");
        reveal_strlit("bytes");
    }
    if same_text(tag, "address") {
        Some(AbiType::Address)
    } else if same_text(tag, "bool") {
        Some(AbiType::Bool)
    } else if same_text(tag, "uint") {
        Some(AbiType::Uint(256))
    } else if same_text(tag, "int") {
        Some(AbiType::Int(256))
    } else if starts_with(tag, "uint") {
        match read_width(tag, 4) {
            Some(n) => if 8 <= n && n % 8 == 0 { Some(AbiType::Uint(n)) } else { None },
            None => None,
        }
    } else if starts_with(tag, "int") {
        match read_width(tag, 3) {
            Some(n) => if 8 <= n && n % 8 == 0 { Some(AbiType::Int(n)) } else { None },
            None => None,
        }
    } else if starts_with(tag, "bytes") {
        match read_width(tag, 5) {
            Some(n) => if 1 <= n && n <= 32 { Some(AbiType::FixedBytes(n)) } else { None },
            None => None,
        }
    } else {
        None
    }
}

} // verus!
