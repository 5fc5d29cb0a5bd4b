//! Conversion between word-delimited naming conventions: underscore-delimited
//! source identifiers become medial-capitalized target identifiers.

use vstd::prelude::*;

verus! {

/// Uppercases one ASCII byte; any other byte is left alone.
pub open spec fn spec_upper(b: u8) -> u8 {
    if 'a' as u8 <= b <= 'z' as u8 {
        (b - 32) as u8
    } else {
        b
    }
}

/// The camel-case transform, one byte at a time: an underscore is dropped and
/// asks that the next kept byte be uppercased.
pub open spec fn camel_from(s: Seq<u8>, cap: bool) -> Seq<u8>
    decreases s.len(),
{
    if s.len() == 0 {
        Seq::<u8>::empty()
    } else if s[0] == '_' as u8 {
        camel_from(s.skip(1), true)
    } else if cap {
        seq![spec_upper(s[0])] + camel_from(s.skip(1), false)
    } else {
        seq![s[0]] + camel_from(s.skip(1), false)
    }
}

/// Underscore-delimited words to camelCase: delimiters are dropped, the byte
/// after each delimiter is uppercased, the first byte is kept as it is.
pub open spec fn spec_camel_case(s: Seq<u8>) -> Seq<u8> {
    camel_from(s, false)
}

/// Underscore-delimited words to PascalCase: camelCase with the first kept
/// byte uppercased as well.
pub open spec fn spec_pascal_case(s: Seq<u8>) -> Seq<u8> {
    camel_from(s, true)
}

fn upper_byte(b: u8) -> (r: u8)
    ensures
        r == spec_upper(b),
{
    if 'a' as u8 <= b && b <= 'z' as u8 {
        b - 32
    } else {
        b
    }
}

fn convert_case(s: &[u8], cap0: bool) -> (r: Vec<u8>)
    ensures
        r@ == camel_from(s@, cap0),
{
    let mut out: Vec<u8> = Vec::new();
    let mut cap = cap0;
    let mut i: usize = 0;
    assert(s@.skip(0) =~= s@);
    while i < s.len()
        invariant
            i <= s@.len(),
            camel_from(s@, cap0) == out@ + camel_from(s@.skip(i as int), cap),
        decreases s@.len() - i,
    {
        let b = s[i];
        assert(s@.skip(i as int).skip(1) =~= s@.skip(i as int + 1));
        if b == '_' as u8 {
            cap = true;
        } else if cap {
            out.push(upper_byte(b));
            cap = false;
        } else {
            out.push(b);
        }
        i = i + 1;
    }
    assert(s@.skip(i as int) =~= Seq::<u8>::empty());
    assert(out@ + camel_from(s@.skip(i as int), cap) =~= out@);
    out
}

/// Serialization name of a field or style property: camelCase.
pub fn to_camel_case(s: &[u8]) -> (r: Vec<u8>)
    ensures
        r@ == spec_camel_case(s@),
{
    convert_case(s, false)
}

/// Declared property name in the target language: PascalCase.
pub fn to_pascal_case(s: &[u8]) -> (r: Vec<u8>)
    ensures
        r@ == spec_pascal_case(s@),
{
    convert_case(s, true)
}

} // verus!
