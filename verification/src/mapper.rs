//! Maps a source type signature (written without whitespace) to the target
//! language's type name. Wrappers unwrap in a fixed priority: optional first,
//! then either spelling of a dynamic list, then a primitive lookup table, then
//! a small allow-list of known model types, and finally an opaque fallback.
//!
//! Nullability rides on the mapped name as a trailing question mark; unwrapping
//! an optional strips any such marks before adding exactly one, so nested
//! optionals collapse.

use vstd::prelude::*;

use crate::bytes::{
    append_bytes, ends_with_spec, eq_bytes, lit, spec_lit, starts_with_spec, starts_with, subvec,
};

verus! {

/// Drops every trailing question mark.
pub open spec fn strip_q(s: Seq<u8>) -> Seq<u8>
    decreases s.len(),
{
    if s.len() > 0 && s.last() == '?' as u8 {
        strip_q(s.drop_last())
    } else {
        s
    }
}

/// `s` is `pre`, then an inner signature, then `suf`.
pub open spec fn wraps_in(pre: Seq<u8>, suf: Seq<u8>, s: Seq<u8>) -> bool {
    1 <= pre.len() && starts_with_spec(s, pre) && ends_with_spec(s.skip(pre.len() as int), suf)
}

/// The inner signature between `pre` and `suf`.
pub open spec fn inner_in(pre: Seq<u8>, suf: Seq<u8>, s: Seq<u8>) -> Seq<u8> {
    s.subrange(pre.len() as int, s.len() - suf.len())
}

/// The mapped target type of a record field's signature. Leaf primitives map
/// to their non-nullable target spelling; optional wrapping adds the single
/// nullability mark.
pub open spec fn spec_map_node_type(ty: Seq<u8>) -> Seq<u8>
    decreases ty.len(),
{
    if wraps_in(spec_lit("Option<"), spec_lit(">"), ty) {
        strip_q(spec_map_node_type(inner_in(spec_lit("Option<"), spec_lit(">"), ty))) + spec_lit(
            "?",
        )
    } else if wraps_in(spec_lit("Box<["), spec_lit("]>"), ty) {
        spec_lit("List<") + strip_q(
            spec_map_node_type(inner_in(spec_lit("Box<["), spec_lit("]>"), ty)),
        ) + spec_lit(">")
    } else if wraps_in(spec_lit("Vec<"), spec_lit(">"), ty) {
        spec_lit("List<") + strip_q(spec_map_node_type(inner_in(spec_lit("Vec<"), spec_lit(">"), ty)))
            + spec_lit(">")
    } else if ty == spec_lit("Arc<str>") {
        spec_lit("string")
    } else if ty == spec_lit("String") || ty == spec_lit("str") {
        spec_lit("string")
    } else if ty == spec_lit("f32") {
        spec_lit("float")
    } else if ty == spec_lit("f64") {
        spec_lit("double")
    } else if ty == spec_lit("i32") {
        spec_lit("int")
    } else if ty == spec_lit("i64") {
        spec_lit("long")
    } else if ty == spec_lit("u32") {
        spec_lit("uint")
    } else if ty == spec_lit("u64") {
        spec_lit("ulong")
    } else if ty == spec_lit("bool") {
        spec_lit("bool")
    } else if ty == spec_lit("Style") || ty == spec_lit("TailwindValues") {
        ty
    } else {
        spec_lit("object")
    }
}

/// The mapped target type of a style property's signature: as the field
/// mapping, but every leaf is nullable, since an absent style property means
/// "inherit or unset".
pub open spec fn spec_map_style_type(ty: Seq<u8>) -> Seq<u8>
    decreases ty.len(),
{
    if wraps_in(spec_lit("Option<"), spec_lit(">"), ty) {
        strip_q(spec_map_style_type(inner_in(spec_lit("Option<"), spec_lit(">"), ty))) + spec_lit(
            "?",
        )
    } else if wraps_in(spec_lit("Vec<"), spec_lit(">"), ty) {
        spec_lit("List<") + strip_q(
            spec_map_style_type(inner_in(spec_lit("Vec<"), spec_lit(">"), ty)),
        ) + spec_lit(">?")
    } else if wraps_in(spec_lit("Box<["), spec_lit("]>"), ty) {
        spec_lit("List<") + strip_q(
            spec_map_style_type(inner_in(spec_lit("Box<["), spec_lit("]>"), ty)),
        ) + spec_lit(">?")
    } else if ty == spec_lit("f32") {
        spec_lit("float?")
    } else if ty == spec_lit("f64") {
        spec_lit("double?")
    } else if ty == spec_lit("i32") {
        spec_lit("int?")
    } else if ty == spec_lit("i64") {
        spec_lit("long?")
    } else if ty == spec_lit("u32") {
        spec_lit("uint?")
    } else if ty == spec_lit("u64") {
        spec_lit("ulong?")
    } else if ty == spec_lit("bool") {
        spec_lit("bool?")
    } else if ty == spec_lit("String") || ty == spec_lit("str") {
        spec_lit("string?")
    } else {
        spec_lit("object?")
    }
}

/// If `ty` is `pre` + inner + `suf`, hands the inner part back.
fn wrap_parts(ty: &[u8], pre: &Vec<u8>, suf: &Vec<u8>) -> (r: Option<Vec<u8>>)
    requires
        pre@.len() >= 1,
    ensures
        match r {
            Some(inner) => wraps_in(pre@, suf@, ty@) && inner@ == inner_in(pre@, suf@, ty@),
            None => !wraps_in(pre@, suf@, ty@),
        },
{
    if !starts_with(ty, pre.as_slice()) {
        return None;
    }
    if suf.len() > ty.len() - pre.len() {
        return None;
    }
    proof {
        assert(ty@.skip(pre@.len() as int).subrange(
            ty@.len() - pre@.len() - suf@.len(),
            ty@.len() - pre@.len(),
        ) =~= ty@.subrange(ty@.len() - suf@.len(), ty@.len() as int));
    }
    if !ends_with(ty, suf.as_slice()) {
        return None;
    }
    Some(subvec(ty, pre.len(), ty.len() - suf.len()))
}

fn strip_question(v: Vec<u8>) -> (r: Vec<u8>)
    ensures
        r@ == strip_q(v@),
{
    let ghost orig = v@;
    let mut v = v;
    while v.len() > 0 && v[v.len() - 1] == '?' as u8
        invariant
            strip_q(v@) == strip_q(orig),
        decreases v@.len(),
    {
        let ghost before = v@;
        v.pop();
        proof {
            assert(v@ =~= before.drop_last());
        }
    }
    v
}

fn ends_with(s: &[u8], p: &[u8]) -> (r: bool)
    ensures
        r == ends_with_spec(s@, p@),
{
    crate::bytes::ends_with(s, p)
}

/// Maps one record field's source signature to its target type name.
pub fn rust_type_to_csharp(ty: &[u8]) -> (r: Vec<u8>)
    ensures
        r@ == spec_map_node_type(ty@),
    decreases ty@.len(),
{
    proof {
        reveal_strlit("Option<");
        reveal_strlit(">");
        reveal_strlit("?");
        reveal_strlit("Box<[");
        reveal_strlit("]>");
        reveal_strlit("Vec<");
        reveal_strlit("List<");
    }
    let opt_pre = lit("Option<");
    let gt = lit(">");
    if let Some(inner) = wrap_parts(ty, &opt_pre, &gt) {
        let m = rust_type_to_csharp(inner.as_slice());
        let mut r = strip_question(m);
        let q = lit("?");
        append_bytes(&mut r, q.as_slice());
        return r;
    }
    let box_pre = lit("Box<[");
    let box_suf = lit("]>");
    if let Some(inner) = wrap_parts(ty, &box_pre, &box_suf) {
        let m = rust_type_to_csharp(inner.as_slice());
        let mut r = lit("List<");
        append_bytes(&mut r, strip_question(m).as_slice());
        append_bytes(&mut r, gt.as_slice());
        proof {
            assert(r@ =~= spec_lit("List<") + strip_q(
                spec_map_node_type(inner_in(spec_lit("Box<["), spec_lit("]>"), ty@)),
            ) + spec_lit(">"));
        }
        return r;
    }
    let vec_pre = lit("Vec<");
    if let Some(inner) = wrap_parts(ty, &vec_pre, &gt) {
        let m = rust_type_to_csharp(inner.as_slice());
        let mut r = lit("List<");
        append_bytes(&mut r, strip_question(m).as_slice());
        append_bytes(&mut r, gt.as_slice());
        proof {
            assert(r@ =~= spec_lit("List<") + strip_q(
                spec_map_node_type(inner_in(spec_lit("Vec<"), spec_lit(">"), ty@)),
            ) + spec_lit(">"));
        }
        return r;
    }
    proof {
        reveal_strlit("Arc<str>");
        reveal_strlit("String");
        reveal_strlit("str");
        reveal_strlit("string");
        reveal_strlit("f32");
        reveal_strlit("float");
        reveal_strlit("f64");
        reveal_strlit("double");
        reveal_strlit("i32");
        reveal_strlit("int");
        reveal_strlit("i64");
        reveal_strlit("long");
        reveal_strlit("u32");
        reveal_strlit("uint");
        reveal_strlit("u64");
        reveal_strlit("ulong");
        reveal_strlit("bool");
        reveal_strlit("Style");
        reveal_strlit("TailwindValues");
        reveal_strlit("object");
    }
    if eq_bytes(ty, lit("Arc<str>").as_slice()) {
        return lit("string");
    }
    if eq_bytes(ty, lit("String").as_slice()) || eq_bytes(ty, lit("str").as_slice()) {
        return lit("string");
    }
    if eq_bytes(ty, lit("f32").as_slice()) {
        return lit("float");
    }
    if eq_bytes(ty, lit("f64").as_slice()) {
        return lit("double");
    }
    if eq_bytes(ty, lit("i32").as_slice()) {
        return lit("int");
    }
    if eq_bytes(ty, lit("i64").as_slice()) {
        return lit("long");
    }
    if eq_bytes(ty, lit("u32").as_slice()) {
        return lit("uint");
    }
    if eq_bytes(ty, lit("u64").as_slice()) {
        return lit("ulong");
    }
    if eq_bytes(ty, lit("bool").as_slice()) {
        return lit("bool");
    }
    if eq_bytes(ty, lit("Style").as_slice()) || eq_bytes(ty, lit("TailwindValues").as_slice()) {
        return subvec(ty, 0, ty.len());
    }
    lit("object")
}

/// Maps one style property's source signature to its target type name.
pub fn style_rust_type_to_csharp(ty: &[u8]) -> (r: Vec<u8>)
    ensures
        r@ == spec_map_style_type(ty@),
    decreases ty@.len(),
{
    proof {
        reveal_strlit("Option<");
        reveal_strlit(">");
        reveal_strlit("?");
        reveal_strlit("Box<[");
        reveal_strlit("]>");
        reveal_strlit("Vec<");
        reveal_strlit("List<");
        reveal_strlit(">?");
    }
    let opt_pre = lit("Option<");
    let gt = lit(">");
    if let Some(inner) = wrap_parts(ty, &opt_pre, &gt) {
        let m = style_rust_type_to_csharp(inner.as_slice());
        let mut r = strip_question(m);
        let q = lit("?");
        append_bytes(&mut r, q.as_slice());
        return r;
    }
    let vec_pre = lit("Vec<");
    if let Some(inner) = wrap_parts(ty, &vec_pre, &gt) {
        let m = style_rust_type_to_csharp(inner.as_slice());
        let mut r = lit("List<");
        append_bytes(&mut r, strip_question(m).as_slice());
        append_bytes(&mut r, lit(">?").as_slice());
        proof {
            assert(r@ =~= spec_lit("List<") + strip_q(
                spec_map_style_type(inner_in(spec_lit("Vec<"), spec_lit(">"), ty@)),
            ) + spec_lit(">?"));
        }
        return r;
    }
    let box_pre = lit("Box<[");
    let box_suf = lit("]>");
    if let Some(inner) = wrap_parts(ty, &box_pre, &box_suf) {
        let m = style_rust_type_to_csharp(inner.as_slice());
        let mut r = lit("List<");
        append_bytes(&mut r, strip_question(m).as_slice());
        append_bytes(&mut r, lit(">?").as_slice());
        proof {
            assert(r@ =~= spec_lit("List<") + strip_q(
                spec_map_style_type(inner_in(spec_lit("Box<["), spec_lit("]>"), ty@)),
            ) + spec_lit(">?"));
        }
        return r;
    }
    proof {
        reveal_strlit("String");
        reveal_strlit("str");
        reveal_strlit("string?");
        reveal_strlit("f32");
        reveal_strlit("float?");
        reveal_strlit("f64");
        reveal_strlit("double?");
        reveal_strlit("i32");
        reveal_strlit("int?");
        reveal_strlit("i64");
        reveal_strlit("long?");
        reveal_strlit("u32");
        reveal_strlit("uint?");
        reveal_strlit("u64");
        reveal_strlit("ulong?");
        reveal_strlit("bool");
        reveal_strlit("bool?");
        reveal_strlit("object?");
    }
    if eq_bytes(ty, lit("f32").as_slice()) {
        return lit("float?");
    }
    if eq_bytes(ty, lit("f64").as_slice()) {
        return lit("double?");
    }
    if eq_bytes(ty, lit("i32").as_slice()) {
        return lit("int?");
    }
    if eq_bytes(ty, lit("i64").as_slice()) {
        return lit("long?");
    }
    if eq_bytes(ty, lit("u32").as_slice()) {
        return lit("uint?");
    }
    if eq_bytes(ty, lit("u64").as_slice()) {
        return lit("ulong?");
    }
    if eq_bytes(ty, lit("bool").as_slice()) {
        return lit("bool?");
    }
    if eq_bytes(ty, lit("String").as_slice()) || eq_bytes(ty, lit("str").as_slice()) {
        return lit("string?");
    }
    lit("object?")
}

/// A signature wrapped in the optional marker.
pub open spec fn optional_of(y: Seq<u8>) -> Seq<u8> {
    spec_lit("Option<") + y + spec_lit(">")
}

/// A signature wrapped in the growable-list marker.
pub open spec fn growable_list_of(y: Seq<u8>) -> Seq<u8> {
    spec_lit("Vec<") + y + spec_lit(">")
}

/// A signature wrapped in the boxed-slice marker.
pub open spec fn boxed_slice_of(y: Seq<u8>) -> Seq<u8> {
    spec_lit("Box<[") + y + spec_lit("]>")
}

/// `n` optional wrappers around a signature.
pub open spec fn optional_depth(y: Seq<u8>, n: nat) -> Seq<u8>
    decreases n,
{
    if n == 0 {
        y
    } else {
        optional_of(optional_depth(y, (n - 1) as nat))
    }
}

/// The fixed nullable target of each primitive in the base set, without its
/// nullability mark; any other signature has none.
pub open spec fn primitive_target(p: Seq<u8>) -> Option<Seq<u8>> {
    if p == spec_lit("f32") {
        Some(spec_lit("float"))
    } else if p == spec_lit("f64") {
        Some(spec_lit("double"))
    } else if p == spec_lit("i32") {
        Some(spec_lit("int"))
    } else if p == spec_lit("i64") {
        Some(spec_lit("long"))
    } else if p == spec_lit("u32") {
        Some(spec_lit("uint"))
    } else if p == spec_lit("u64") {
        Some(spec_lit("ulong"))
    } else if p == spec_lit("bool") {
        Some(spec_lit("bool"))
    } else if p == spec_lit("String") || p == spec_lit("str") {
        Some(spec_lit("string"))
    } else {
        None
    }
}

proof fn lemma_not_prefix(s: Seq<u8>, pre: Seq<u8>, i: int)
    requires
        0 <= i < pre.len(),
        pre.len() <= s.len() ==> s[i] != pre[i],
    ensures
        !starts_with_spec(s, pre),
{
    if pre.len() <= s.len() && s.subrange(0, pre.len() as int) == pre {
        assert(s.subrange(0, pre.len() as int)[i] == s[i]);
    }
}

proof fn lemma_neq_at(a: Seq<u8>, b: Seq<u8>, i: int)
    requires
        0 <= i < a.len(),
        0 <= i < b.len(),
        a[i] != b[i],
    ensures
        a != b,
{
}

proof fn lemma_wrap_parts(pre: Seq<u8>, suf: Seq<u8>, y: Seq<u8>)
    requires
        1 <= pre.len(),
    ensures
        wraps_in(pre, suf, pre + y + suf),
        inner_in(pre, suf, pre + y + suf) == y,
{
    let s = pre + y + suf;
    assert(s.subrange(0, pre.len() as int) =~= pre);
    assert(s.skip(pre.len() as int) =~= y + suf);
    assert((y + suf).subrange((y + suf).len() - suf.len(), (y + suf).len() as int) =~= suf);
    assert(s.subrange(pre.len() as int, s.len() - suf.len()) =~= y);
}

/// A trailing nullability mark is absorbed by the strip.
proof fn lemma_strip_q_drop(t: Seq<u8>)
    ensures
        strip_q(t + spec_lit("?")) == strip_q(t),
{
    reveal_strlit("?");
    assert((t + spec_lit("?")).last() == '?' as u8);
    assert((t + spec_lit("?")).drop_last() =~= t);
}

/// The strip leaves nothing to strip.
proof fn lemma_strip_q_no_trailing(t: Seq<u8>)
    ensures
        strip_q(t).len() == 0 || strip_q(t).last() != '?' as u8,
    decreases t.len(),
{
    if t.len() > 0 && t.last() == '?' as u8 {
        lemma_strip_q_no_trailing(t.drop_last());
    }
}

/// Unwrapping one optional strips old nullability marks and adds one, in
/// either mapping mode.
pub proof fn lemma_optional_unwraps(y: Seq<u8>)
    ensures
        spec_map_node_type(optional_of(y)) == strip_q(spec_map_node_type(y)) + spec_lit("?"),
        spec_map_style_type(optional_of(y)) == strip_q(spec_map_style_type(y)) + spec_lit("?"),
{
    reveal_strlit("Option<");
    lemma_wrap_parts(spec_lit("Option<"), spec_lit(">"), y);
}

/// Law: mapping "optional of optional of X" yields the same target type as
/// mapping "optional of X", for every signature X and in both mapping modes —
/// nullability collapses, it never double-wraps.
pub proof fn lemma_optional_collapses(x: Seq<u8>)
    ensures
        spec_map_node_type(optional_of(optional_of(x))) == spec_map_node_type(optional_of(x)),
        spec_map_style_type(optional_of(optional_of(x))) == spec_map_style_type(optional_of(x)),
{
    lemma_optional_unwraps(x);
    lemma_optional_unwraps(optional_of(x));
    lemma_strip_q_drop(strip_q(spec_map_node_type(x)));
    lemma_strip_q_drop(strip_q(spec_map_style_type(x)));
    lemma_strip_q_no_trailing(spec_map_node_type(x));
    lemma_strip_q_no_trailing(spec_map_style_type(x));
}

/// Law: the growable-list wrapper and the boxed-slice wrapper map to the same
/// target shape for the same inner signature, in both mapping modes.
pub proof fn lemma_list_spellings_agree(x: Seq<u8>)
    ensures
        spec_map_node_type(growable_list_of(x)) == spec_map_node_type(boxed_slice_of(x)),
        spec_map_style_type(growable_list_of(x)) == spec_map_style_type(boxed_slice_of(x)),
{
    reveal_strlit("Option<");
    reveal_strlit("Vec<");
    reveal_strlit("Box<[");
    reveal_strlit(">");
    reveal_strlit("]>");
    let v = growable_list_of(x);
    let b = boxed_slice_of(x);
    lemma_wrap_parts(spec_lit("Vec<"), spec_lit(">"), x);
    lemma_wrap_parts(spec_lit("Box<["), spec_lit("]>"), x);
    assert(v[0] == 'V' as u8);
    assert(b[0] == 'B' as u8);
    lemma_not_prefix(v, spec_lit("Option<"), 0);
    lemma_not_prefix(v, spec_lit("Box<["), 0);
    lemma_not_prefix(b, spec_lit("Option<"), 0);
    lemma_not_prefix(b, spec_lit("Vec<"), 0);
}

/// The base-set targets under the field mapping, with no wrapper present.
proof fn lemma_node_primitive_base(p: Seq<u8>)
    requires
        primitive_target(p) is Some,
    ensures
        spec_map_node_type(p) == primitive_target(p)->Some_0,
        strip_q(primitive_target(p)->Some_0) == primitive_target(p)->Some_0,
{
    reveal_strlit("Option<");
    reveal_strlit("Vec<");
    reveal_strlit("Box<[");
    reveal_strlit("Arc<str>");
    reveal_strlit("String");
    reveal_strlit("str");
    reveal_strlit("string");
    reveal_strlit("f32");
    reveal_strlit("float");
    reveal_strlit("f64");
    reveal_strlit("double");
    reveal_strlit("i32");
    reveal_strlit("int");
    reveal_strlit("i64");
    reveal_strlit("long");
    reveal_strlit("u32");
    reveal_strlit("uint");
    reveal_strlit("u64");
    reveal_strlit("ulong");
    reveal_strlit("bool");
    if p.len() >= 1 {
        lemma_not_prefix(p, spec_lit("Option<"), 0);
        lemma_not_prefix(p, spec_lit("Vec<"), 0);
        lemma_not_prefix(p, spec_lit("Box<["), 0);
    }
    lemma_neq_at(spec_lit("f64"), spec_lit("f32"), 1);
    lemma_neq_at(spec_lit("i32"), spec_lit("f32"), 0);
    lemma_neq_at(spec_lit("i32"), spec_lit("f64"), 0);
    lemma_neq_at(spec_lit("i64"), spec_lit("f32"), 0);
    lemma_neq_at(spec_lit("i64"), spec_lit("f64"), 0);
    lemma_neq_at(spec_lit("i64"), spec_lit("i32"), 1);
    lemma_neq_at(spec_lit("u32"), spec_lit("f32"), 0);
    lemma_neq_at(spec_lit("u32"), spec_lit("f64"), 0);
    lemma_neq_at(spec_lit("u32"), spec_lit("i32"), 0);
    lemma_neq_at(spec_lit("u32"), spec_lit("i64"), 0);
    lemma_neq_at(spec_lit("u64"), spec_lit("f32"), 0);
    lemma_neq_at(spec_lit("u64"), spec_lit("f64"), 0);
    lemma_neq_at(spec_lit("u64"), spec_lit("i32"), 0);
    lemma_neq_at(spec_lit("u64"), spec_lit("i64"), 0);
    lemma_neq_at(spec_lit("u64"), spec_lit("u32"), 1);
    lemma_neq_at(spec_lit("str"), spec_lit("f32"), 0);
    lemma_neq_at(spec_lit("str"), spec_lit("f64"), 0);
    lemma_neq_at(spec_lit("str"), spec_lit("i32"), 0);
    lemma_neq_at(spec_lit("str"), spec_lit("i64"), 0);
    lemma_neq_at(spec_lit("str"), spec_lit("u32"), 0);
    lemma_neq_at(spec_lit("str"), spec_lit("u64"), 0);
}

/// The base-set targets under the style mapping, with no wrapper present.
proof fn lemma_style_primitive_base(p: Seq<u8>)
    requires
        primitive_target(p) is Some,
    ensures
        spec_map_style_type(p) == primitive_target(p)->Some_0 + spec_lit("?"),
{
    reveal_strlit("?");
    reveal_strlit("float");
    reveal_strlit("double");
    reveal_strlit("int");
    reveal_strlit("long");
    reveal_strlit("uint");
    reveal_strlit("ulong");
    reveal_strlit("bool");
    reveal_strlit("string");
    reveal_strlit("float?");
    reveal_strlit("double?");
    reveal_strlit("int?");
    reveal_strlit("long?");
    reveal_strlit("uint?");
    reveal_strlit("ulong?");
    reveal_strlit("bool?");
    reveal_strlit("string?");
    reveal_strlit("Option<");
    reveal_strlit("Vec<");
    reveal_strlit("Box<[");
    reveal_strlit("String");
    reveal_strlit("str");
    reveal_strlit("f32");
    reveal_strlit("f64");
    reveal_strlit("i32");
    reveal_strlit("i64");
    reveal_strlit("u32");
    reveal_strlit("u64");
    if p.len() >= 1 {
        lemma_not_prefix(p, spec_lit("Option<"), 0);
        lemma_not_prefix(p, spec_lit("Vec<"), 0);
        lemma_not_prefix(p, spec_lit("Box<["), 0);
    }
    lemma_neq_at(spec_lit("f64"), spec_lit("f32"), 1);
    lemma_neq_at(spec_lit("i32"), spec_lit("f32"), 0);
    lemma_neq_at(spec_lit("i32"), spec_lit("f64"), 0);
    lemma_neq_at(spec_lit("i64"), spec_lit("f32"), 0);
    lemma_neq_at(spec_lit("i64"), spec_lit("f64"), 0);
    lemma_neq_at(spec_lit("i64"), spec_lit("i32"), 1);
    lemma_neq_at(spec_lit("u32"), spec_lit("f32"), 0);
    lemma_neq_at(spec_lit("u32"), spec_lit("f64"), 0);
    lemma_neq_at(spec_lit("u32"), spec_lit("i32"), 0);
    lemma_neq_at(spec_lit("u32"), spec_lit("i64"), 0);
    lemma_neq_at(spec_lit("u64"), spec_lit("f32"), 0);
    lemma_neq_at(spec_lit("u64"), spec_lit("f64"), 0);
    lemma_neq_at(spec_lit("u64"), spec_lit("i32"), 0);
    lemma_neq_at(spec_lit("u64"), spec_lit("i64"), 0);
    lemma_neq_at(spec_lit("u64"), spec_lit("u32"), 1);
    lemma_neq_at(spec_lit("str"), spec_lit("f32"), 0);
    lemma_neq_at(spec_lit("str"), spec_lit("f64"), 0);
    lemma_neq_at(spec_lit("str"), spec_lit("i32"), 0);
    lemma_neq_at(spec_lit("str"), spec_lit("i64"), 0);
    lemma_neq_at(spec_lit("str"), spec_lit("u32"), 0);
    lemma_neq_at(spec_lit("str"), spec_lit("u64"), 0);
    assert(spec_lit("float?") =~= spec_lit("float") + spec_lit("?"));
    assert(spec_lit("double?") =~= spec_lit("double") + spec_lit("?"));
    assert(spec_lit("int?") =~= spec_lit("int") + spec_lit("?"));
    assert(spec_lit("long?") =~= spec_lit("long") + spec_lit("?"));
    assert(spec_lit("uint?") =~= spec_lit("uint") + spec_lit("?"));
    assert(spec_lit("ulong?") =~= spec_lit("ulong") + spec_lit("?"));
    assert(spec_lit("bool?") =~= spec_lit("bool") + spec_lit("?"));
    assert(spec_lit("string?") =~= spec_lit("string") + spec_lit("?"));
}

/// Law: every primitive in the fixed base set maps to its fixed nullable
/// target regardless of how many optional wrappers surround it — at any depth
/// in style mode, and from the first wrapper on in field mode, where the bare
/// primitive itself maps to the non-nullable spelling.
pub proof fn lemma_primitive_nullable(p: Seq<u8>, n: nat)
    requires
        primitive_target(p) is Some,
    ensures
        spec_map_style_type(optional_depth(p, n)) == primitive_target(p)->Some_0 + spec_lit("?"),
        n >= 1 ==> spec_map_node_type(optional_depth(p, n)) == primitive_target(p)->Some_0
            + spec_lit("?"),
    decreases n,
{
    let t = primitive_target(p)->Some_0;
    if n == 0 {
        lemma_style_primitive_base(p);
    } else {
        lemma_primitive_nullable(p, (n - 1) as nat);
        lemma_optional_unwraps(optional_depth(p, (n - 1) as nat));
        lemma_node_primitive_base(p);
        lemma_strip_q_drop(t);
        if n == 1 {
            assert(spec_map_node_type(optional_depth(p, 1)) == strip_q(spec_map_node_type(p))
                + spec_lit("?"));
        }
    }
}

} // verus!

