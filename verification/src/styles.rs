//! Extracts the flat list of style properties from the one fixed style macro
//! invocation in a stylesheet file. The scan is deliberately forgiving: a
//! missing file is the caller's concern, a missing macro token or an
//! unterminated invocation yields an empty list, never an error — styling is
//! optional decoration for generation purposes.

use vstd::prelude::*;

use crate::bytes::{
    find_match_from, first_byte_from, first_match_from, lit, rfind_byte, rfind_last, spec_lit,
    split_lines, split_to_lines, starts_with_spec, starts_with, strip_trailing,
    strip_trailing_byte, subvec, trim, trim_spec, find_byte_from,
};
use crate::ir::{StyleProperty, StylePropertyV};
use crate::mapper::{spec_map_style_type, style_rust_type_to_csharp};

verus! {

/// Index of the byte that closes the parenthesis nesting opened `depth` deep
/// before position `i`; the length when the nesting never closes.
pub open spec fn paren_close(s: Seq<u8>, i: int, depth: int) -> int
    decreases s.len() - i,
    when 0 <= i <= s.len()
{
    if i >= s.len() {
        s.len() as int
    } else if s[i] == '(' as u8 {
        paren_close(s, i + 1, depth + 1)
    } else if s[i] == ')' as u8 {
        if depth == 1 {
            i
        } else {
            paren_close(s, i + 1, depth - 1)
        }
    } else {
        paren_close(s, i + 1, depth)
    }
}

proof fn lemma_paren_close_bounds(s: Seq<u8>, i: int, depth: int)
    requires
        0 <= i <= s.len(),
    ensures
        i <= paren_close(s, i, depth) <= s.len(),
    decreases s.len() - i,
{
    if i < s.len() && !(s[i] == ')' as u8 && depth == 1) {
        if s[i] == '(' as u8 {
            lemma_paren_close_bounds(s, i + 1, depth + 1);
        } else if s[i] == ')' as u8 {
            lemma_paren_close_bounds(s, i + 1, depth - 1);
        } else {
            lemma_paren_close_bounds(s, i + 1, depth);
        }
    }
}

fn find_paren_close(s: &[u8], from: usize, depth0: i128) -> (r: usize)
    requires
        from <= s@.len(),
        -0x8000_0000_0000_0000 <= depth0 <= 0x7fff_ffff_ffff_ffff,
    ensures
        r as int == paren_close(s@, from as int, depth0 as int),
        from <= r <= s@.len(),
{
    let mut i: usize = from;
    let mut d: i128 = depth0;
    while i < s.len()
        invariant
            from <= i <= s@.len(),
            -0x8000_0000_0000_0000 - (i - from) <= d <= 0x7fff_ffff_ffff_ffff + (i - from),
            paren_close(s@, from as int, depth0 as int) == paren_close(s@, i as int, d as int),
        decreases s@.len() - i,
    {
        let b = s[i];
        if b == '(' as u8 {
            d = d + 1;
        } else if b == ')' as u8 {
            if d == 1 {
                return i;
            }
            d = d - 1;
        }
        i = i + 1;
    }
    i
}

/// The style property one body line declares, if any: the name before the
/// first colon, then the signature up to a conditional clause, else up to the
/// last comma, else to the end of the line.
pub open spec fn spec_style_prop_of_line(raw: Seq<u8>) -> Option<StylePropertyV> {
    let t = trim_spec(raw);
    if t.len() == 0 || starts_with_spec(t, spec_lit("//")) || starts_with_spec(t, spec_lit("#")) {
        None
    } else {
        let ci = first_byte_from(t, ':' as u8, 0);
        if ci == t.len() {
            None
        } else {
            let name = trim_spec(t.take(ci));
            if name.len() == 0 {
                None
            } else {
                let rest = t.skip(ci + 1);
                let wi = first_match_from(rest, spec_lit(" where"), 0);
                let te = if wi < rest.len() {
                    wi
                } else if rfind_last(rest, ',' as u8) >= 0 {
                    rfind_last(rest, ',' as u8)
                } else {
                    rest.len() as int
                };
                let ty = strip_trailing(trim_spec(rest.take(te)), ',' as u8);
                if ty.len() == 0 {
                    None
                } else {
                    Some(
                        StylePropertyV {
                            name: name,
                            rust_type: ty,
                            csharp_type: spec_map_style_type(ty),
                        },
                    )
                }
            }
        }
    }
}

/// The properties that a sequence of body lines declares, in line order.
pub open spec fn spec_style_props_of_lines(lines: Seq<Seq<u8>>) -> Seq<StylePropertyV>
    decreases lines.len(),
{
    if lines.len() == 0 {
        Seq::<StylePropertyV>::empty()
    } else {
        (match spec_style_prop_of_line(lines.first()) {
            Some(p) => seq![p],
            None => Seq::<StylePropertyV>::empty(),
        }) + spec_style_props_of_lines(lines.drop_first())
    }
}

/// The style properties of a whole stylesheet text: the lines of the first
/// style macro invocation's body, each read as a property line; an absent
/// token or an unterminated invocation yields no properties.
pub open spec fn spec_style_properties(content: Seq<u8>) -> Seq<StylePropertyV> {
    let m = first_match_from(content, spec_lit("define_style!("), 0);
    if m == content.len() {
        Seq::<StylePropertyV>::empty()
    } else {
        let close = paren_close(content, m + 14, 1);
        if close == content.len() {
            Seq::<StylePropertyV>::empty()
        } else {
            spec_style_props_of_lines(split_lines(content.subrange(m + 14, close)))
        }
    }
}

fn style_prop_of_line(raw: &[u8]) -> (r: Option<StyleProperty>)
    ensures
        match r {
            Some(p) => spec_style_prop_of_line(raw@) == Some(p@),
            None => spec_style_prop_of_line(raw@) is None,
        },
{
    proof {
        reveal_strlit("//");
        reveal_strlit("#");
        reveal_strlit(" where");
    }
    let t = trim(raw);
    let slash = lit("//");
    let hash = lit("#");
    if t.len() == 0 || starts_with(t.as_slice(), slash.as_slice()) || starts_with(
        t.as_slice(),
        hash.as_slice(),
    ) {
        return None;
    }
    let ci = find_byte_from(t.as_slice(), ':' as u8, 0);
    if ci == t.len() {
        return None;
    }
    let name = trim(subvec(t.as_slice(), 0, ci).as_slice());
    proof {
        assert(t@.subrange(0, ci as int) =~= t@.take(ci as int));
    }
    if name.len() == 0 {
        return None;
    }
    let rest = subvec(t.as_slice(), ci + 1, t.len());
    proof {
        assert(rest@ =~= t@.skip(ci + 1));
    }
    let where_tok = lit(" where");
    let wi = find_match_from(rest.as_slice(), where_tok.as_slice(), 0);
    let te: usize = if wi < rest.len() {
        wi
    } else {
        match rfind_byte(rest.as_slice(), ',' as u8) {
            Some(li) => li,
            None => rest.len(),
        }
    };
    let ty = strip_trailing_byte(trim(subvec(rest.as_slice(), 0, te).as_slice()), ',' as u8);
    proof {
        assert(rest@.subrange(0, te as int) =~= rest@.take(te as int));
    }
    if ty.len() == 0 {
        return None;
    }
    let csharp = style_rust_type_to_csharp(ty.as_slice());
    Some(StyleProperty { name, rust_type: ty, csharp_type: csharp })
}

/// Reads the style property list out of stylesheet text, as the style macro's
/// body declares it.
pub fn parse_style_properties(content: &[u8]) -> (r: Vec<StyleProperty>)
    ensures
        r@.map_values(|p: StyleProperty| p@) == spec_style_properties(content@),
{
    proof {
        reveal_strlit("define_style!(");
    }
    let token = lit("define_style!(");
    let m = find_match_from(content, token.as_slice(), 0);
    let mut out: Vec<StyleProperty> = Vec::new();
    if m == content.len() {
        proof {
            assert(out@.map_values(|p: StyleProperty| p@) =~= spec_style_properties(content@));
        }
        return out;
    }
    proof {
        crate::bytes::lemma_first_match_hit(content@, token@, 0);
        lemma_paren_close_bounds(content@, m + 14, 1);
    }
    let close = find_paren_close(content, m + 14, 1);
    if close == content.len() {
        proof {
            assert(out@.map_values(|p: StyleProperty| p@) =~= spec_style_properties(content@));
        }
        return out;
    }
    let body = subvec(content, m + 14, close);
    let lines = split_to_lines(body.as_slice());
    let ghost glines = split_lines(body@);
    let mut i: usize = 0;
    proof {
        assert(lines@.map_values(|l: Vec<u8>| l@) == glines);
        assert(glines.skip(0) =~~= glines);
        assert(out@.map_values(|p: StyleProperty| p@) + spec_style_props_of_lines(glines)
            =~= spec_style_props_of_lines(glines));
    }
    while i < lines.len()
        invariant
            i <= lines@.len(),
            lines@.map_values(|l: Vec<u8>| l@) == glines,
            spec_style_props_of_lines(glines) =~= out@.map_values(|p: StyleProperty| p@)
                + spec_style_props_of_lines(glines.skip(i as int)),
        decreases lines@.len() - i,
    {
        proof {
            assert(glines.skip(i as int).drop_first() =~~= glines.skip(i + 1));
            assert(glines.skip(i as int).first() == lines@[i as int]@);
        }
        let ghost pre = out@.map_values(|p: StyleProperty| p@);
        match style_prop_of_line(lines[i].as_slice()) {
            Some(p) => {
                out.push(p);
                proof {
                    assert(out@.map_values(|p: StyleProperty| p@) =~= pre.push(p@));
                    assert(pre + spec_style_props_of_lines(glines.skip(i as int)) =~= pre.push(p@)
                        + spec_style_props_of_lines(glines.skip(i + 1)));
                }
            },
            None => {
                proof {
                    assert(pre + spec_style_props_of_lines(glines.skip(i as int)) =~= pre
                        + spec_style_props_of_lines(glines.skip(i + 1)));
                }
            },
        }
        i = i + 1;
    }
    proof {
        assert(glines.skip(i as int) =~~= Seq::<Seq<u8>>::empty());
        assert(spec_style_props_of_lines(glines.skip(i as int)) =~= Seq::<StylePropertyV>::empty());
        assert(out@.map_values(|p: StyleProperty| p@) =~= spec_style_properties(content@));
    }
    out
}

} // verus!
