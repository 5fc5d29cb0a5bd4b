//! Reads one declaration file into record and tagged-union entries. The
//! scanner is line-oriented: a declaration's opening brace stands on its
//! header line, one field or variant per body line, and brace depth is
//! counted textually (a brace inside a string literal would miscount — the
//! declaration files this tool reads contain none).
//!
//! Only record declarations whose name ends in the node suffix and union
//! declarations whose name ends in the discriminant suffix are captured;
//! everything else is skipped by depth tracking. A file whose nesting never
//! closes, or closes too often, fails as a whole and is skipped by the caller
//! — scanning other files goes on.

use vstd::prelude::*;

use crate::bytes::{
    count_byte, count_byte_occurrences, ends_with, ends_with_spec, find_byte_from,
    find_match_from, first_byte_from, first_match_from, is_ws, lemma_first_match_hit, lit,
    spec_lit, split_lines, split_to_lines, starts_with, starts_with_spec, strip_spaces, strip_ws,
    strip_trailing, strip_trailing_byte, subvec, trim, trim_spec,
};
use crate::ir::{
    EnumDef, EnumV, EnumVariant, EnumVariantV, FieldDef, FieldV, SerdeAttrs, SerdeAttrsV,
    StructDef, StructV,
};
use crate::mapper::{rust_type_to_csharp, spec_map_node_type};

verus! {

/// The deepest textual brace nesting the scanner follows.
pub const MAX_NESTING: u64 = 0xffff_ffff;

#[verifier::ext_equal]
pub ghost enum ParseModeV {
    Top,
    InStruct { name: Seq<u8>, fields: Seq<FieldV>, attrs: SerdeAttrsV },
    InEnum { name: Seq<u8>, variants: Seq<EnumVariantV>, attrs: SerdeAttrsV },
}

/// The scanner's state between lines.
#[verifier::ext_equal]
pub ghost struct ParseStateV {
    pub failed: bool,
    pub depth: int,
    pub mode: ParseModeV,
    pub pending: SerdeAttrsV,
    pub structs: Seq<StructV>,
    pub enums: Seq<EnumV>,
}

pub open spec fn no_attrs() -> SerdeAttrsV {
    SerdeAttrsV { tag: None, rename_all: None }
}

pub open spec fn init_state() -> ParseStateV {
    ParseStateV {
        failed: false,
        depth: 0,
        mode: ParseModeV::Top,
        pending: no_attrs(),
        structs: Seq::<StructV>::empty(),
        enums: Seq::<EnumV>::empty(),
    }
}

pub open spec fn fail_state(st: ParseStateV) -> ParseStateV {
    ParseStateV { failed: true, ..st }
}

/// The value of one quoted attribute key, if the line carries it.
pub open spec fn attr_value(t: Seq<u8>, pat: Seq<u8>) -> Option<Seq<u8>> {
    let m = first_match_from(t, pat, 0);
    if m == t.len() {
        None
    } else {
        let vs = m + pat.len();
        let e = first_byte_from(t, '"' as u8, vs);
        if e == t.len() {
            None
        } else {
            Some(t.subrange(vs, e))
        }
    }
}

/// Folds one serialization attribute line into the pending attributes.
pub open spec fn serde_merge(p: SerdeAttrsV, t: Seq<u8>) -> SerdeAttrsV {
    if starts_with_spec(t, spec_lit("#[serde(")) {
        SerdeAttrsV {
            tag: if attr_value(t, spec_lit("tag = \"")) is Some {
                attr_value(t, spec_lit("tag = \""))
            } else {
                p.tag
            },
            rename_all: if attr_value(t, spec_lit("rename_all = \"")) is Some {
                attr_value(t, spec_lit("rename_all = \""))
            } else {
                p.rename_all
            },
        }
    } else {
        p
    }
}

/// A leading visibility marker dropped.
pub open spec fn strip_vis(t: Seq<u8>) -> Seq<u8> {
    if starts_with_spec(t, spec_lit("pub(crate) ")) {
        t.skip(11)
    } else if starts_with_spec(t, spec_lit("pub ")) {
        t.skip(4)
    } else {
        t
    }
}

pub open spec fn is_ident_break(b: u8) -> bool {
    is_ws(b) || b == '<' as u8 || b == '{' as u8 || b == '(' as u8 || b == ';' as u8 || b
        == ':' as u8
}

/// First index at or after `i` that ends an identifier; the length when none
/// does.
pub open spec fn ident_end(s: Seq<u8>, i: int) -> int
    decreases s.len() - i,
    when 0 <= i <= s.len()
{
    if i >= s.len() {
        s.len() as int
    } else if is_ident_break(s[i]) {
        i
    } else {
        ident_end(s, i + 1)
    }
}

/// The declared name, when the line opens a declaration of the given keyword.
pub open spec fn header_name(t: Seq<u8>, kw: Seq<u8>) -> Option<Seq<u8>> {
    let u = strip_vis(t);
    if starts_with_spec(u, kw) {
        let nm = u.subrange(kw.len() as int, ident_end(u, kw.len() as int));
        if nm.len() > 0 {
            Some(nm)
        } else {
            None
        }
    } else {
        None
    }
}

/// The field one record body line declares, if any: the name before the first
/// colon, the signature after it with whitespace and the trailing comma
/// removed, and the signature's mapped target type.
pub open spec fn field_of_line(t: Seq<u8>) -> Option<FieldV> {
    let ci = first_byte_from(t, ':' as u8, 0);
    if ci == t.len() {
        None
    } else {
        let name = strip_vis(trim_spec(t.take(ci)));
        let ty = strip_trailing(strip_ws(t.skip(ci + 1)), ',' as u8);
        if name.len() == 0 || ty.len() == 0 || name != strip_ws(name) {
            None
        } else {
            Some(FieldV { name: name, ty: ty, csharp_ty: spec_map_node_type(ty) })
        }
    }
}

/// Whether a comma stands outside every angle-bracket nesting level.
pub open spec fn has_top_comma(s: Seq<u8>, i: int, d: int) -> bool
    decreases s.len() - i,
    when 0 <= i <= s.len()
{
    if i >= s.len() {
        false
    } else if s[i] == ',' as u8 && d == 0 {
        true
    } else if s[i] == '<' as u8 {
        has_top_comma(s, i + 1, d + 1)
    } else if s[i] == '>' as u8 {
        has_top_comma(s, i + 1, d - 1)
    } else {
        has_top_comma(s, i + 1, d)
    }
}

/// Last index holding `b` at or before the end; the length when none does.
/// (A simple forward scan that remembers the final hit.)
pub open spec fn last_byte_at(s: Seq<u8>, b: u8) -> int {
    crate::bytes::rfind_last(s, b)
}

/// The variant one union body line declares, if any. An inner signature is
/// kept only when the parentheses hold exactly one positional field; named
/// or empty fields record the variant with no inner type.
pub open spec fn variant_of_line(t: Seq<u8>) -> Option<EnumVariantV> {
    let t2 = strip_trailing(t, ',' as u8);
    if t2.len() == 0 {
        None
    } else {
        let bi = first_byte_from(t2, '{' as u8, 0);
        if bi < t2.len() {
            let name = trim_spec(t2.take(bi));
            if name.len() > 0 && name == strip_ws(name) {
                Some(EnumVariantV { name: name, inner_type: None })
            } else {
                None
            }
        } else {
            let pi = first_byte_from(t2, '(' as u8, 0);
            if pi == t2.len() {
                if t2 == strip_ws(t2) {
                    Some(EnumVariantV { name: t2, inner_type: None })
                } else {
                    None
                }
            } else {
                let name = trim_spec(t2.take(pi));
                let ri = last_byte_at(t2, ')' as u8);
                if name.len() == 0 || name != strip_ws(name) {
                    None
                } else if ri <= pi {
                    None
                } else {
                    let raw = t2.subrange(pi + 1, ri);
                    if has_top_comma(raw, 0, 0) {
                        Some(EnumVariantV { name: name, inner_type: None })
                    } else {
                        let inner = strip_ws(raw);
                        if inner.len() == 0 {
                            Some(EnumVariantV { name: name, inner_type: None })
                        } else {
                            Some(EnumVariantV { name: name, inner_type: Some(inner) })
                        }
                    }
                }
            }
        }
    }
}

/// Index of the entry with the given name, or the length when there is none.
pub open spec fn find_struct_at(ss: Seq<StructV>, name: Seq<u8>, i: int) -> int
    decreases ss.len() - i,
    when 0 <= i <= ss.len()
{
    if i >= ss.len() {
        ss.len() as int
    } else if ss[i].name == name {
        i
    } else {
        find_struct_at(ss, name, i + 1)
    }
}

/// Replaces the entry of the same name, or appends: the last declaration of a
/// name wins, entries keep their first position.
pub open spec fn upsert_struct(ss: Seq<StructV>, x: StructV) -> Seq<StructV> {
    let i = find_struct_at(ss, x.name, 0);
    if i < ss.len() {
        ss.update(i, x)
    } else {
        ss.push(x)
    }
}

pub open spec fn find_enum_at(es: Seq<EnumV>, name: Seq<u8>, i: int) -> int
    decreases es.len() - i,
    when 0 <= i <= es.len()
{
    if i >= es.len() {
        es.len() as int
    } else if es[i].name == name {
        i
    } else {
        find_enum_at(es, name, i + 1)
    }
}

pub open spec fn upsert_enum(es: Seq<EnumV>, x: EnumV) -> Seq<EnumV> {
    let i = find_enum_at(es, x.name, 0);
    if i < es.len() {
        es.update(i, x)
    } else {
        es.push(x)
    }
}

pub open spec fn step_top(st: ParseStateV, t: Seq<u8>, nd: int) -> ParseStateV {
    if st.depth > 0 {
        if nd < 0 || nd > MAX_NESTING as int {
            fail_state(st)
        } else {
            ParseStateV { depth: nd, ..st }
        }
    } else if header_name(t, spec_lit("struct ")) is Some {
        let name = header_name(t, spec_lit("struct "))->Some_0;
        if nd == 0 {
            let st2 = if ends_with_spec(name, spec_lit("Node")) {
                ParseStateV {
                    structs: upsert_struct(
                        st.structs,
                        StructV { name: name, fields: Seq::<FieldV>::empty(), serde_attrs: st.pending },
                    ),
                    ..st
                }
            } else {
                st
            };
            ParseStateV { pending: no_attrs(), ..st2 }
        } else if nd == 1 {
            if ends_with_spec(name, spec_lit("Node")) {
                ParseStateV {
                    depth: 1,
                    mode: ParseModeV::InStruct {
                        name: name,
                        fields: Seq::<FieldV>::empty(),
                        attrs: st.pending,
                    },
                    pending: no_attrs(),
                    ..st
                }
            } else {
                ParseStateV { depth: 1, pending: no_attrs(), ..st }
            }
        } else {
            fail_state(st)
        }
    } else if header_name(t, spec_lit("enum ")) is Some {
        let name = header_name(t, spec_lit("enum "))->Some_0;
        if nd == 0 {
            let st2 = if ends_with_spec(name, spec_lit("Kind")) {
                ParseStateV {
                    enums: upsert_enum(
                        st.enums,
                        EnumV {
                            name: name,
                            variants: Seq::<EnumVariantV>::empty(),
                            serde_attrs: st.pending,
                        },
                    ),
                    ..st
                }
            } else {
                st
            };
            ParseStateV { pending: no_attrs(), ..st2 }
        } else if nd == 1 {
            if ends_with_spec(name, spec_lit("Kind")) {
                ParseStateV {
                    depth: 1,
                    mode: ParseModeV::InEnum {
                        name: name,
                        variants: Seq::<EnumVariantV>::empty(),
                        attrs: st.pending,
                    },
                    pending: no_attrs(),
                    ..st
                }
            } else {
                ParseStateV { depth: 1, pending: no_attrs(), ..st }
            }
        } else {
            fail_state(st)
        }
    } else {
        if nd < 0 || nd > MAX_NESTING as int {
            fail_state(st)
        } else {
            ParseStateV { depth: nd, pending: no_attrs(), ..st }
        }
    }
}

pub open spec fn step_struct(
    st: ParseStateV,
    t: Seq<u8>,
    nd: int,
    name: Seq<u8>,
    fields: Seq<FieldV>,
    attrs: SerdeAttrsV,
) -> ParseStateV {
    if nd < 0 {
        fail_state(st)
    } else if nd == 0 {
        ParseStateV {
            depth: 0,
            mode: ParseModeV::Top,
            structs: upsert_struct(
                st.structs,
                StructV { name: name, fields: fields, serde_attrs: attrs },
            ),
            ..st
        }
    } else if nd > MAX_NESTING as int {
        fail_state(st)
    } else {
        let fs = if st.depth == 1 && nd == 1 && field_of_line(t) is Some {
            fields.push(field_of_line(t)->Some_0)
        } else {
            fields
        };
        ParseStateV {
            depth: nd,
            mode: ParseModeV::InStruct { name: name, fields: fs, attrs: attrs },
            ..st
        }
    }
}

pub open spec fn step_enum(
    st: ParseStateV,
    t: Seq<u8>,
    nd: int,
    name: Seq<u8>,
    variants: Seq<EnumVariantV>,
    attrs: SerdeAttrsV,
) -> ParseStateV {
    if nd < 0 {
        fail_state(st)
    } else if nd == 0 {
        ParseStateV {
            depth: 0,
            mode: ParseModeV::Top,
            enums: upsert_enum(st.enums, EnumV { name: name, variants: variants, serde_attrs: attrs }),
            ..st
        }
    } else if nd > MAX_NESTING as int {
        fail_state(st)
    } else {
        let vs = if st.depth == 1 && nd == 1 && variant_of_line(t) is Some {
            variants.push(variant_of_line(t)->Some_0)
        } else if st.depth == 1 && nd > 1 {
            let bi = first_byte_from(t, '{' as u8, 0);
            let nm = trim_spec(t.take(bi));
            if nm.len() > 0 && nm == strip_ws(nm) {
                variants.push(EnumVariantV { name: nm, inner_type: None })
            } else {
                variants
            }
        } else {
            variants
        };
        ParseStateV {
            depth: nd,
            mode: ParseModeV::InEnum { name: name, variants: vs, attrs: attrs },
            ..st
        }
    }
}

/// How one line advances the scanner.
pub open spec fn spec_step(st: ParseStateV, raw: Seq<u8>) -> ParseStateV {
    if st.failed {
        st
    } else {
        let t = trim_spec(raw);
        if t.len() == 0 || starts_with_spec(t, spec_lit("//")) {
            st
        } else if starts_with_spec(t, spec_lit("#")) {
            if st.mode is Top && st.depth == 0 {
                ParseStateV { pending: serde_merge(st.pending, t), ..st }
            } else {
                st
            }
        } else {
            let nd = st.depth + count_byte(t, '{' as u8) - count_byte(t, '}' as u8);
            match st.mode {
                ParseModeV::Top => step_top(st, t, nd),
                ParseModeV::InStruct { name, fields, attrs } => step_struct(
                    st,
                    t,
                    nd,
                    name,
                    fields,
                    attrs,
                ),
                ParseModeV::InEnum { name, variants, attrs } => step_enum(
                    st,
                    t,
                    nd,
                    name,
                    variants,
                    attrs,
                ),
            }
        }
    }
}

/// The scanner folded over a sequence of lines.
pub open spec fn spec_run(st: ParseStateV, lines: Seq<Seq<u8>>) -> ParseStateV
    decreases lines.len(),
{
    if lines.len() == 0 {
        st
    } else {
        spec_run(spec_step(st, lines.first()), lines.drop_first())
    }
}

/// What one file contributes: its record and union entries in declaration
/// order, or nothing when the file does not scan.
pub open spec fn spec_parse(content: Seq<u8>) -> Option<(Seq<StructV>, Seq<EnumV>)> {
    let f = spec_run(init_state(), split_lines(content));
    if f.failed || f.depth != 0 || !(f.mode is Top) {
        None
    } else {
        Some((f.structs, f.enums))
    }
}

/// The ghost image of a list of record entries.
pub open spec fn structs_view(l: Seq<StructDef>) -> Seq<StructV> {
    l.map_values(|s: StructDef| s@)
}

/// The ghost image of a list of union entries.
pub open spec fn enums_view(l: Seq<EnumDef>) -> Seq<EnumV> {
    l.map_values(|e: EnumDef| e@)
}

enum ScanMode {
    Top,
    Struct,
    Enum,
}

/// The executable scanner; its view is the spec state.
pub struct FileScan {
    failed: bool,
    depth: u64,
    mode: ScanMode,
    cur_name: Vec<u8>,
    cur_fields: Vec<FieldDef>,
    cur_variants: Vec<EnumVariant>,
    cur_attrs: SerdeAttrs,
    pending: SerdeAttrs,
    structs: Vec<StructDef>,
    enums: Vec<EnumDef>,
}

impl View for FileScan {
    type V = ParseStateV;

    closed spec fn view(&self) -> ParseStateV {
        ParseStateV {
            failed: self.failed,
            depth: self.depth as int,
            mode: match self.mode {
                ScanMode::Top => ParseModeV::Top,
                ScanMode::Struct => ParseModeV::InStruct {
                    name: self.cur_name@,
                    fields: self.cur_fields@.map_values(|f: FieldDef| f@),
                    attrs: self.cur_attrs@,
                },
                ScanMode::Enum => ParseModeV::InEnum {
                    name: self.cur_name@,
                    variants: self.cur_variants@.map_values(|v: EnumVariant| v@),
                    attrs: self.cur_attrs@,
                },
            },
            pending: self.pending@,
            structs: structs_view(self.structs@),
            enums: enums_view(self.enums@),
        }
    }
}

fn attr_value_exec(t: &[u8], pat: &Vec<u8>) -> (r: Option<Vec<u8>>)
    ensures
        match r {
            Some(v) => attr_value(t@, pat@) == Some(v@),
            None => attr_value(t@, pat@) is None,
        },
{
    let m = find_match_from(t, pat.as_slice(), 0);
    if m == t.len() {
        return None;
    }
    proof {
        lemma_first_match_hit(t@, pat@, 0);
    }
    let vs = m + pat.len();
    let e = find_byte_from(t, '"' as u8, vs);
    if e == t.len() {
        None
    } else {
        Some(subvec(t, vs, e))
    }
}

fn serde_merge_exec(p: SerdeAttrs, t: &[u8]) -> (r: SerdeAttrs)
    ensures
        r@ == serde_merge(p@, t@),
{
    proof {
        reveal_strlit("#[serde(");
        reveal_strlit("tag = \"");
        reveal_strlit("rename_all = \"");
    }
    if !starts_with(t, lit("#[serde(").as_slice()) {
        return p;
    }
    let tag = attr_value_exec(t, &lit("tag = \""));
    let ren = attr_value_exec(t, &lit("rename_all = \""));
    let SerdeAttrs { tag: old_tag, rename_all: old_ren } = p;
    SerdeAttrs {
        tag: match tag {
            Some(v) => Some(v),
            None => old_tag,
        },
        rename_all: match ren {
            Some(v) => Some(v),
            None => old_ren,
        },
    }
}

fn strip_vis_exec(t: &[u8]) -> (r: Vec<u8>)
    ensures
        r@ == strip_vis(t@),
{
    proof {
        reveal_strlit("pub(crate) ");
        reveal_strlit("pub ");
    }
    let crate_vis = lit("pub(crate) ");
    let plain_vis = lit("pub ");
    if starts_with(t, crate_vis.as_slice()) {
        let r = subvec(t, 11, t.len());
        proof {
            assert(r@ =~= t@.skip(11));
        }
        r
    } else if starts_with(t, plain_vis.as_slice()) {
        let r = subvec(t, 4, t.len());
        proof {
            assert(r@ =~= t@.skip(4));
        }
        r
    } else {
        subvec(t, 0, t.len())
    }
}

fn is_ident_break_exec(b: u8) -> (r: bool)
    ensures
        r == is_ident_break(b),
{
    b == 32 || b == 9 || b == 13 || b == 10 || b == '<' as u8 || b == '{' as u8 || b == '(' as u8
        || b == ';' as u8 || b == ':' as u8
}

fn ident_end_exec(s: &[u8], from: usize) -> (r: usize)
    requires
        from <= s@.len(),
    ensures
        r as int == ident_end(s@, from as int),
        from <= r <= s@.len(),
{
    let mut i: usize = from;
    while i < s.len()
        invariant
            from <= i <= s@.len(),
            ident_end(s@, from as int) == ident_end(s@, i as int),
        decreases s@.len() - i,
    {
        if is_ident_break_exec(s[i]) {
            return i;
        }
        i = i + 1;
    }
    i
}

fn header_name_exec(t: &[u8], kw: &Vec<u8>) -> (r: Option<Vec<u8>>)
    ensures
        match r {
            Some(v) => header_name(t@, kw@) == Some(v@),
            None => header_name(t@, kw@) is None,
        },
{
    let u = strip_vis_exec(t);
    if !starts_with(u.as_slice(), kw.as_slice()) {
        return None;
    }
    let e = ident_end_exec(u.as_slice(), kw.len());
    let nm = subvec(u.as_slice(), kw.len(), e);
    if nm.len() > 0 {
        Some(nm)
    } else {
        None
    }
}

fn field_of_line_exec(t: &[u8]) -> (r: Option<FieldDef>)
    ensures
        match r {
            Some(f) => field_of_line(t@) == Some(f@),
            None => field_of_line(t@) is None,
        },
{
    let ci = find_byte_from(t, ':' as u8, 0);
    if ci == t.len() {
        return None;
    }
    let head = subvec(t, 0, ci);
    proof {
        assert(head@ =~= t@.take(ci as int));
    }
    let name = strip_vis_exec(trim(head.as_slice()).as_slice());
    let tail = subvec(t, ci + 1, t.len());
    proof {
        assert(tail@ =~= t@.skip(ci + 1));
    }
    let ty = strip_trailing_byte(strip_spaces(tail.as_slice()), ',' as u8);
    if name.len() == 0 || ty.len() == 0 {
        return None;
    }
    if !crate::bytes::eq_bytes(name.as_slice(), strip_spaces(name.as_slice()).as_slice()) {
        return None;
    }
    let cs = rust_type_to_csharp(ty.as_slice());
    Some(FieldDef { name, ty, csharp_ty: cs })
}

fn has_top_comma_exec(s: &[u8]) -> (r: bool)
    ensures
        r == has_top_comma(s@, 0, 0),
{
    let mut i: usize = 0;
    let mut d: i128 = 0;
    while i < s.len()
        invariant
            i <= s@.len(),
            -(i as i128) <= d <= i as i128,
            has_top_comma(s@, 0, 0) == has_top_comma(s@, i as int, d as int),
        decreases s@.len() - i,
    {
        let b = s[i];
        if b == ',' as u8 && d == 0 {
            return true;
        }
        if b == '<' as u8 {
            d = d + 1;
        } else if b == '>' as u8 {
            d = d - 1;
        }
        i = i + 1;
    }
    false
}

fn variant_of_line_exec(t: &[u8]) -> (r: Option<EnumVariant>)
    ensures
        match r {
            Some(v) => variant_of_line(t@) == Some(v@),
            None => variant_of_line(t@) is None,
        },
{
    let whole = subvec(t, 0, t.len());
    proof {
        assert(whole@ =~= t@);
    }
    let t2 = strip_trailing_byte(whole, ',' as u8);
    if t2.len() == 0 {
        return None;
    }
    let bi = find_byte_from(t2.as_slice(), '{' as u8, 0);
    if bi < t2.len() {
        let name = trim(subvec(t2.as_slice(), 0, bi).as_slice());
        proof {
            assert(t2@.subrange(0, bi as int) =~= t2@.take(bi as int));
        }
        if name.len() > 0 && crate::bytes::eq_bytes(
            name.as_slice(),
            strip_spaces(name.as_slice()).as_slice(),
        ) {
            return Some(EnumVariant { name, inner_type: None });
        }
        return None;
    }
    let pi = find_byte_from(t2.as_slice(), '(' as u8, 0);
    if pi == t2.len() {
        if crate::bytes::eq_bytes(t2.as_slice(), strip_spaces(t2.as_slice()).as_slice()) {
            return Some(EnumVariant { name: t2, inner_type: None });
        }
        return None;
    }
    let name = trim(subvec(t2.as_slice(), 0, pi).as_slice());
    proof {
        assert(t2@.subrange(0, pi as int) =~= t2@.take(pi as int));
    }
    if name.len() == 0 || !crate::bytes::eq_bytes(
        name.as_slice(),
        strip_spaces(name.as_slice()).as_slice(),
    ) {
        return None;
    }
    let ri = match crate::bytes::rfind_byte(t2.as_slice(), ')' as u8) {
        Some(i) => i,
        None => {
            return None;
        },
    };
    if ri <= pi {
        return None;
    }
    let raw = subvec(t2.as_slice(), pi + 1, ri);
    if has_top_comma_exec(raw.as_slice()) {
        return Some(EnumVariant { name, inner_type: None });
    }
    let inner = strip_spaces(raw.as_slice());
    if inner.len() == 0 {
        return Some(EnumVariant { name, inner_type: None });
    }
    Some(EnumVariant { name, inner_type: Some(inner) })
}

pub(crate) fn upsert_struct_exec(list: &mut Vec<StructDef>, x: StructDef)
    ensures
        structs_view(final(list)@) == upsert_struct(structs_view(old(list)@), x@),
{
    let ghost ss = structs_view(list@);
    let mut i: usize = 0;
    while i < list.len()
        invariant
            i <= list@.len(),
            ss == structs_view(list@),
            ss == structs_view(old(list)@),
            find_struct_at(ss, x@.name, 0) == find_struct_at(ss, x@.name, i as int),
        decreases list@.len() - i,
    {
        if crate::bytes::eq_bytes(list[i].name.as_slice(), x.name.as_slice()) {
            proof {
                assert(ss[i as int] == list@[i as int]@);
                assert(find_struct_at(ss, x@.name, 0) == i as int);
            }
            list.remove(i);
            list.insert(i, x);
            proof {
                assert(structs_view(list@) =~~= ss.update(i as int, x@));
            }
            return;
        }
        i = i + 1;
    }
    list.push(x);
    proof {
        assert(structs_view(list@) =~~= ss.push(x@));
    }
}

pub(crate) fn upsert_enum_exec(list: &mut Vec<EnumDef>, x: EnumDef)
    ensures
        enums_view(final(list)@) == upsert_enum(enums_view(old(list)@), x@),
{
    let ghost es = enums_view(list@);
    let mut i: usize = 0;
    while i < list.len()
        invariant
            i <= list@.len(),
            es == enums_view(list@),
            es == enums_view(old(list)@),
            find_enum_at(es, x@.name, 0) == find_enum_at(es, x@.name, i as int),
        decreases list@.len() - i,
    {
        if crate::bytes::eq_bytes(list[i].name.as_slice(), x.name.as_slice()) {
            proof {
                assert(es[i as int] == list@[i as int]@);
                assert(find_enum_at(es, x@.name, 0) == i as int);
            }
            list.remove(i);
            list.insert(i, x);
            proof {
                assert(enums_view(list@) =~~= es.update(i as int, x@));
            }
            return;
        }
        i = i + 1;
    }
    list.push(x);
    proof {
        assert(enums_view(list@) =~~= es.push(x@));
    }
}

impl FileScan {
    fn new() -> (r: FileScan)
        ensures
            r@ == init_state(),
    {
        let r = FileScan {
            failed: false,
            depth: 0,
            mode: ScanMode::Top,
            cur_name: Vec::new(),
            cur_fields: Vec::new(),
            cur_variants: Vec::new(),
            cur_attrs: SerdeAttrs::none(),
            pending: SerdeAttrs::none(),
            structs: Vec::new(),
            enums: Vec::new(),
        };
        proof {
            assert(r@ =~~= init_state());
        }
        r
    }

    fn step(self, raw: &[u8]) -> (r: FileScan)
        ensures
            r@ == spec_step(self@, raw@),
    {
        proof {
            reveal_strlit("//");
            reveal_strlit("#");
            reveal_strlit("struct ");
            reveal_strlit("enum ");
            reveal_strlit("Node");
            reveal_strlit("Kind");
        }
        let ghost st0 = self@;
        if self.failed {
            return self;
        }
        let t = trim(raw);
        let ts = t.as_slice();
        if t.len() == 0 || starts_with(ts, lit("//").as_slice()) {
            return self;
        }
        if starts_with(ts, lit("#").as_slice()) {
            let at_top = match self.mode {
                ScanMode::Top => true,
                _ => false,
            };
            if at_top && self.depth == 0 {
                let FileScan {
                    failed,
                    depth,
                    mode,
                    cur_name,
                    cur_fields,
                    cur_variants,
                    cur_attrs,
                    pending,
                    structs,
                    enums,
                } = self;
                let pending2 = serde_merge_exec(pending, ts);
                let r = FileScan {
                    failed,
                    depth,
                    mode,
                    cur_name,
                    cur_fields,
                    cur_variants,
                    cur_attrs,
                    pending: pending2,
                    structs,
                    enums,
                };
                proof {
                    assert(r@ =~~= spec_step(st0, raw@));
                }
                return r;
            }
            return self;
        }
        let o = count_byte_occurrences(ts, '{' as u8);
        let c = count_byte_occurrences(ts, '}' as u8);
        let nd: i128 = self.depth as i128 + o as i128 - c as i128;
        let FileScan {
            failed,
            depth,
            mode,
            cur_name,
            cur_fields,
            cur_variants,
            cur_attrs,
            pending,
            structs,
            enums,
        } = self;
        match mode {
            ScanMode::Top => {
                if depth > 0 {
                    if nd < 0 || nd > MAX_NESTING as i128 {
                        let r = FileScan {
                            failed: true,
                            depth,
                            mode: ScanMode::Top,
                            cur_name,
                            cur_fields,
                            cur_variants,
                            cur_attrs,
                            pending,
                            structs,
                            enums,
                        };
                        proof {
                            assert(r@ =~~= spec_step(st0, raw@));
                        }
                        return r;
                    }
                    let r = FileScan {
                        failed,
                        depth: nd as u64,
                        mode: ScanMode::Top,
                        cur_name,
                        cur_fields,
                        cur_variants,
                        cur_attrs,
                        pending,
                        structs,
                        enums,
                    };
                    proof {
                        assert(r@ =~~= spec_step(st0, raw@));
                    }
                    return r;
                }
                let node_suffix = lit("Node");
                let kind_suffix = lit("Kind");
                if let Some(name) = header_name_exec(ts, &lit("struct ")) {
                    if nd == 0 {
                        let mut structs = structs;
                        if ends_with(name.as_slice(), node_suffix.as_slice()) {
                            let sd = StructDef { name, fields: Vec::new(), serde_attrs: pending };
                            proof {
                                assert(sd@ =~~= (StructV {
                                    name: sd.name@,
                                    fields: Seq::<FieldV>::empty(),
                                    serde_attrs: sd.serde_attrs@,
                                }));
                            }
                            upsert_struct_exec(&mut structs, sd);
                        }
                        let r = FileScan {
                            failed,
                            depth,
                            mode: ScanMode::Top,
                            cur_name,
                            cur_fields,
                            cur_variants,
                            cur_attrs,
                            pending: SerdeAttrs::none(),
                            structs,
                            enums,
                        };
                        proof {
                            assert(r@ =~~= spec_step(st0, raw@));
                        }
                        return r;
                    }
                    if nd == 1 {
                        if ends_with(name.as_slice(), node_suffix.as_slice()) {
                            let r = FileScan {
                                failed,
                                depth: 1,
                                mode: ScanMode::Struct,
                                cur_name: name,
                                cur_fields: Vec::new(),
                                cur_variants,
                                cur_attrs: pending,
                                pending: SerdeAttrs::none(),
                                structs,
                                enums,
                            };
                            proof {
                                assert(r@ =~~= spec_step(st0, raw@));
                            }
                            return r;
                        }
                        let r = FileScan {
                            failed,
                            depth: 1,
                            mode: ScanMode::Top,
                            cur_name,
                            cur_fields,
                            cur_variants,
                            cur_attrs,
                            pending: SerdeAttrs::none(),
                            structs,
                            enums,
                        };
                        proof {
                            assert(r@ =~~= spec_step(st0, raw@));
                        }
                        return r;
                    }
                    let r = FileScan {
                        failed: true,
                        depth,
                        mode: ScanMode::Top,
                        cur_name,
                        cur_fields,
                        cur_variants,
                        cur_attrs,
                        pending,
                        structs,
                        enums,
                    };
                    proof {
                        assert(r@ =~~= spec_step(st0, raw@));
                    }
                    return r;
                }
                if let Some(name) = header_name_exec(ts, &lit("enum ")) {
                    if nd == 0 {
                        let mut enums = enums;
                        if ends_with(name.as_slice(), kind_suffix.as_slice()) {
                            let ed = EnumDef { name, variants: Vec::new(), serde_attrs: pending };
                            proof {
                                assert(ed@ =~~= (EnumV {
                                    name: ed.name@,
                                    variants: Seq::<EnumVariantV>::empty(),
                                    serde_attrs: ed.serde_attrs@,
                                }));
                            }
                            upsert_enum_exec(&mut enums, ed);
                        }
                        let r = FileScan {
                            failed,
                            depth,
                            mode: ScanMode::Top,
                            cur_name,
                            cur_fields,
                            cur_variants,
                            cur_attrs,
                            pending: SerdeAttrs::none(),
                            structs,
                            enums,
                        };
                        proof {
                            assert(r@ =~~= spec_step(st0, raw@));
                        }
                        return r;
                    }
                    if nd == 1 {
                        if ends_with(name.as_slice(), kind_suffix.as_slice()) {
                            let r = FileScan {
                                failed,
                                depth: 1,
                                mode: ScanMode::Enum,
                                cur_name: name,
                                cur_fields,
                                cur_variants: Vec::new(),
                                cur_attrs: pending,
                                pending: SerdeAttrs::none(),
                                structs,
                                enums,
                            };
                            proof {
                                assert(r@ =~~= spec_step(st0, raw@));
                            }
                            return r;
                        }
                        let r = FileScan {
                            failed,
                            depth: 1,
                            mode: ScanMode::Top,
                            cur_name,
                            cur_fields,
                            cur_variants,
                            cur_attrs,
                            pending: SerdeAttrs::none(),
                            structs,
                            enums,
                        };
                        proof {
                            assert(r@ =~~= spec_step(st0, raw@));
                        }
                        return r;
                    }
                    let r = FileScan {
                        failed: true,
                        depth,
                        mode: ScanMode::Top,
                        cur_name,
                        cur_fields,
                        cur_variants,
                        cur_attrs,
                        pending,
                        structs,
                        enums,
                    };
                    proof {
                        assert(r@ =~~= spec_step(st0, raw@));
                    }
                    return r;
                }
                if nd < 0 || nd > MAX_NESTING as i128 {
                    let r = FileScan {
                        failed: true,
                        depth,
                        mode: ScanMode::Top,
                        cur_name,
                        cur_fields,
                        cur_variants,
                        cur_attrs,
                        pending,
                        structs,
                        enums,
                    };
                    proof {
                        assert(r@ =~~= spec_step(st0, raw@));
                    }
                    return r;
                }
                let r = FileScan {
                    failed,
                    depth: nd as u64,
                    mode: ScanMode::Top,
                    cur_name,
                    cur_fields,
                    cur_variants,
                    cur_attrs,
                    pending: SerdeAttrs::none(),
                    structs,
                    enums,
                };
                proof {
                    assert(r@ =~~= spec_step(st0, raw@));
                }
                return r;
            },
            ScanMode::Struct => {
                if nd < 0 {
                    let r = FileScan {
                        failed: true,
                        depth,
                        mode: ScanMode::Struct,
                        cur_name,
                        cur_fields,
                        cur_variants,
                        cur_attrs,
                        pending,
                        structs,
                        enums,
                    };
                    proof {
                        assert(r@ =~~= spec_step(st0, raw@));
                    }
                    return r;
                }
                if nd == 0 {
                    let mut structs = structs;
                    upsert_struct_exec(
                        &mut structs,
                        StructDef { name: cur_name, fields: cur_fields, serde_attrs: cur_attrs },
                    );
                    let r = FileScan {
                        failed,
                        depth: 0,
                        mode: ScanMode::Top,
                        cur_name: Vec::new(),
                        cur_fields: Vec::new(),
                        cur_variants,
                        cur_attrs: SerdeAttrs::none(),
                        pending,
                        structs,
                        enums,
                    };
                    proof {
                        assert(r@ =~~= spec_step(st0, raw@));
                    }
                    return r;
                }
                if nd > MAX_NESTING as i128 {
                    let r = FileScan {
                        failed: true,
                        depth,
                        mode: ScanMode::Struct,
                        cur_name,
                        cur_fields,
                        cur_variants,
                        cur_attrs,
                        pending,
                        structs,
                        enums,
                    };
                    proof {
                        assert(r@ =~~= spec_step(st0, raw@));
                    }
                    return r;
                }
                let mut cur_fields = cur_fields;
                if depth == 1 && nd == 1 {
                    let ghost fs0 = cur_fields@.map_values(|f: FieldDef| f@);
                    if let Some(f) = field_of_line_exec(ts) {
                        cur_fields.push(f);
                        proof {
                            assert(cur_fields@.map_values(|f: FieldDef| f@) =~~= fs0.push(
                                field_of_line(trim_spec(raw@))->Some_0,
                            ));
                        }
                    }
                }
                let r = FileScan {
                    failed,
                    depth: nd as u64,
                    mode: ScanMode::Struct,
                    cur_name,
                    cur_fields,
                    cur_variants,
                    cur_attrs,
                    pending,
                    structs,
                    enums,
                };
                proof {
                    assert(r@ =~~= spec_step(st0, raw@));
                }
                return r;
            },
            ScanMode::Enum => {
                if nd < 0 {
                    let r = FileScan {
                        failed: true,
                        depth,
                        mode: ScanMode::Enum,
                        cur_name,
                        cur_fields,
                        cur_variants,
                        cur_attrs,
                        pending,
                        structs,
                        enums,
                    };
                    proof {
                        assert(r@ =~~= spec_step(st0, raw@));
                    }
                    return r;
                }
                if nd == 0 {
                    let mut enums = enums;
                    upsert_enum_exec(
                        &mut enums,
                        EnumDef { name: cur_name, variants: cur_variants, serde_attrs: cur_attrs },
                    );
                    let r = FileScan {
                        failed,
                        depth: 0,
                        mode: ScanMode::Top,
                        cur_name: Vec::new(),
                        cur_fields,
                        cur_variants: Vec::new(),
                        cur_attrs: SerdeAttrs::none(),
                        pending,
                        structs,
                        enums,
                    };
                    proof {
                        assert(r@ =~~= spec_step(st0, raw@));
                    }
                    return r;
                }
                if nd > MAX_NESTING as i128 {
                    let r = FileScan {
                        failed: true,
                        depth,
                        mode: ScanMode::Enum,
                        cur_name,
                        cur_fields,
                        cur_variants,
                        cur_attrs,
                        pending,
                        structs,
                        enums,
                    };
                    proof {
                        assert(r@ =~~= spec_step(st0, raw@));
                    }
                    return r;
                }
                let mut cur_variants = cur_variants;
                if depth == 1 && nd == 1 {
                    let ghost vs0 = cur_variants@.map_values(|v: EnumVariant| v@);
                    if let Some(v) = variant_of_line_exec(ts) {
                        cur_variants.push(v);
                        proof {
                            assert(cur_variants@.map_values(|v: EnumVariant| v@) =~~= vs0.push(
                                variant_of_line(trim_spec(raw@))->Some_0,
                            ));
                        }
                    }
                } else if depth == 1 && nd > 1 {
                    let ghost vs0 = cur_variants@.map_values(|v: EnumVariant| v@);
                    let bi = find_byte_from(ts, '{' as u8, 0);
                    let nm = trim(subvec(ts, 0, bi).as_slice());
                    proof {
                        assert(t@.subrange(0, bi as int) =~= t@.take(bi as int));
                    }
                    if nm.len() > 0 && crate::bytes::eq_bytes(
                        nm.as_slice(),
                        strip_spaces(nm.as_slice()).as_slice(),
                    ) {
                        cur_variants.push(EnumVariant { name: nm, inner_type: None });
                        proof {
                            assert(cur_variants@.map_values(|v: EnumVariant| v@) =~~= vs0.push(
                                EnumVariantV {
                                    name: trim_spec(trim_spec(raw@).take(
                                        first_byte_from(trim_spec(raw@), '{' as u8, 0),
                                    )),
                                    inner_type: None,
                                },
                            ));
                        }
                    }
                }
                let r = FileScan {
                    failed,
                    depth: nd as u64,
                    mode: ScanMode::Enum,
                    cur_name,
                    cur_fields,
                    cur_variants,
                    cur_attrs,
                    pending,
                    structs,
                    enums,
                };
                proof {
                    assert(r@ =~~= spec_step(st0, raw@));
                }
                return r;
            },
        }
    }
}

/// Reads one declaration file. `None` means the file does not scan; the
/// caller reports it and goes on with the other files.
pub fn parse_source(content: &[u8]) -> (r: Option<(Vec<StructDef>, Vec<EnumDef>)>)
    ensures
        match r {
            Some(p) => spec_parse(content@) == Some(
                (p.0@.map_values(|s: StructDef| s@), p.1@.map_values(|e: EnumDef| e@)),
            ),
            None => spec_parse(content@) is None,
        },
{
    let lines = split_to_lines(content);
    let ghost glines = split_lines(content@);
    let mut st = FileScan::new();
    let mut i: usize = 0;
    proof {
        assert(glines.skip(0) =~~= glines);
    }
    while i < lines.len()
        invariant
            i <= lines@.len(),
            lines@.map_values(|l: Vec<u8>| l@) == glines,
            spec_run(init_state(), glines) == spec_run(st@, glines.skip(i as int)),
        decreases lines@.len() - i,
    {
        proof {
            assert(glines.skip(i as int).drop_first() =~~= glines.skip(i + 1));
            assert(glines.skip(i as int).first() == lines@[i as int]@);
        }
        st = st.step(lines[i].as_slice());
        i = i + 1;
    }
    proof {
        assert(glines.skip(i as int) =~~= Seq::<Seq<u8>>::empty());
    }
    if st.failed || st.depth != 0 {
        return None;
    }
    match st.mode {
        ScanMode::Top => Some((st.structs, st.enums)),
        _ => None,
    }
}

/// Every name in the list carries the node suffix.
pub open spec fn all_structs_suffixed(ss: Seq<StructV>) -> bool
    decreases ss.len(),
{
    ss.len() == 0 || (ends_with_spec(ss.first().name, spec_lit("Node")) && all_structs_suffixed(
        ss.drop_first(),
    ))
}

/// Every name in the list carries the discriminant suffix.
pub open spec fn all_enums_suffixed(es: Seq<EnumV>) -> bool
    decreases es.len(),
{
    es.len() == 0 || (ends_with_spec(es.first().name, spec_lit("Kind")) && all_enums_suffixed(
        es.drop_first(),
    ))
}

/// Every captured name carries its qualifying suffix, in the finished entries
/// and in the entry being read.
pub open spec fn suffix_invariant(st: ParseStateV) -> bool {
    &&& all_structs_suffixed(st.structs)
    &&& all_enums_suffixed(st.enums)
    &&& match st.mode {
        ParseModeV::Top => true,
        ParseModeV::InStruct { name, .. } => ends_with_spec(name, spec_lit("Node")),
        ParseModeV::InEnum { name, .. } => ends_with_spec(name, spec_lit("Kind")),
    }
}

/// Each entry of a suffixed list is suffixed.
pub proof fn lemma_all_structs_every(ss: Seq<StructV>, i: int)
    requires
        all_structs_suffixed(ss),
        0 <= i < ss.len(),
    ensures
        ends_with_spec(ss[i].name, spec_lit("Node")),
    decreases ss.len(),
{
    if i > 0 {
        lemma_all_structs_every(ss.drop_first(), i - 1);
    }
}

pub proof fn lemma_all_enums_every(es: Seq<EnumV>, i: int)
    requires
        all_enums_suffixed(es),
        0 <= i < es.len(),
    ensures
        ends_with_spec(es[i].name, spec_lit("Kind")),
    decreases es.len(),
{
    if i > 0 {
        lemma_all_enums_every(es.drop_first(), i - 1);
    }
}

proof fn lemma_all_structs_update(ss: Seq<StructV>, i: int, x: StructV)
    requires
        all_structs_suffixed(ss),
        0 <= i < ss.len(),
        ends_with_spec(x.name, spec_lit("Node")),
    ensures
        all_structs_suffixed(ss.update(i, x)),
    decreases ss.len(),
{
    if i == 0 {
        assert(ss.update(0, x).drop_first() =~= ss.drop_first());
    } else {
        assert(ss.update(i, x).drop_first() =~= ss.drop_first().update(i - 1, x));
        lemma_all_structs_update(ss.drop_first(), i - 1, x);
    }
}

proof fn lemma_all_structs_push(ss: Seq<StructV>, x: StructV)
    requires
        all_structs_suffixed(ss),
        ends_with_spec(x.name, spec_lit("Node")),
    ensures
        all_structs_suffixed(ss.push(x)),
    decreases ss.len(),
{
    if ss.len() == 0 {
        assert(ss.push(x).drop_first() =~= Seq::<StructV>::empty());
        assert(all_structs_suffixed(Seq::<StructV>::empty()));
    } else {
        assert(ss.push(x).drop_first() =~= ss.drop_first().push(x));
        lemma_all_structs_push(ss.drop_first(), x);
    }
}

proof fn lemma_all_enums_update(es: Seq<EnumV>, i: int, x: EnumV)
    requires
        all_enums_suffixed(es),
        0 <= i < es.len(),
        ends_with_spec(x.name, spec_lit("Kind")),
    ensures
        all_enums_suffixed(es.update(i, x)),
    decreases es.len(),
{
    if i == 0 {
        assert(es.update(0, x).drop_first() =~= es.drop_first());
    } else {
        assert(es.update(i, x).drop_first() =~= es.drop_first().update(i - 1, x));
        lemma_all_enums_update(es.drop_first(), i - 1, x);
    }
}

proof fn lemma_all_enums_push(es: Seq<EnumV>, x: EnumV)
    requires
        all_enums_suffixed(es),
        ends_with_spec(x.name, spec_lit("Kind")),
    ensures
        all_enums_suffixed(es.push(x)),
    decreases es.len(),
{
    if es.len() == 0 {
        assert(es.push(x).drop_first() =~= Seq::<EnumV>::empty());
        assert(all_enums_suffixed(Seq::<EnumV>::empty()));
    } else {
        assert(es.push(x).drop_first() =~= es.drop_first().push(x));
        lemma_all_enums_push(es.drop_first(), x);
    }
}

proof fn lemma_find_struct_bounds(ss: Seq<StructV>, name: Seq<u8>, j: int)
    requires
        0 <= j <= ss.len(),
    ensures
        j <= find_struct_at(ss, name, j) <= ss.len(),
    decreases ss.len() - j,
{
    if j < ss.len() && ss[j].name != name {
        lemma_find_struct_bounds(ss, name, j + 1);
    }
}

proof fn lemma_find_enum_bounds(es: Seq<EnumV>, name: Seq<u8>, j: int)
    requires
        0 <= j <= es.len(),
    ensures
        j <= find_enum_at(es, name, j) <= es.len(),
    decreases es.len() - j,
{
    if j < es.len() && es[j].name != name {
        lemma_find_enum_bounds(es, name, j + 1);
    }
}

proof fn lemma_upsert_struct_suffix(ss: Seq<StructV>, x: StructV)
    requires
        all_structs_suffixed(ss),
        ends_with_spec(x.name, spec_lit("Node")),
    ensures
        all_structs_suffixed(upsert_struct(ss, x)),
{
    lemma_find_struct_bounds(ss, x.name, 0);
    let i0 = find_struct_at(ss, x.name, 0);
    if i0 < ss.len() {
        lemma_all_structs_update(ss, i0, x);
    } else {
        lemma_all_structs_push(ss, x);
    }
}

proof fn lemma_upsert_enum_suffix(es: Seq<EnumV>, x: EnumV)
    requires
        all_enums_suffixed(es),
        ends_with_spec(x.name, spec_lit("Kind")),
    ensures
        all_enums_suffixed(upsert_enum(es, x)),
{
    lemma_find_enum_bounds(es, x.name, 0);
    let i0 = find_enum_at(es, x.name, 0);
    if i0 < es.len() {
        lemma_all_enums_update(es, i0, x);
    } else {
        lemma_all_enums_push(es, x);
    }
}

proof fn lemma_step_keeps_suffixes(st: ParseStateV, raw: Seq<u8>)
    requires
        suffix_invariant(st),
    ensures
        suffix_invariant(spec_step(st, raw)),
{
    let t = trim_spec(raw);
    let nd = st.depth + count_byte(t, '{' as u8) - count_byte(t, '}' as u8);
    let r = spec_step(st, raw);
    match st.mode {
        ParseModeV::Top => {
            if st.depth <= 0 && !st.failed && !(t.len() == 0 || starts_with_spec(
                t,
                spec_lit("//"),
            )) && !starts_with_spec(t, spec_lit("#")) {
                if header_name(t, spec_lit("struct ")) is Some {
                    let name = header_name(t, spec_lit("struct "))->Some_0;
                    if nd == 0 {
                        if ends_with_spec(name, spec_lit("Node")) {
                            let x = StructV {
                                name: name,
                                fields: Seq::<FieldV>::empty(),
                                serde_attrs: st.pending,
                            };
                            lemma_upsert_struct_suffix(st.structs, x);
                            assert(r.structs == upsert_struct(st.structs, x));
                        } else {
                            assert(r.structs == st.structs);
                        }
                        assert(r.enums == st.enums);
                    }
                } else if header_name(t, spec_lit("enum ")) is Some {
                    let name = header_name(t, spec_lit("enum "))->Some_0;
                    if nd == 0 {
                        if ends_with_spec(name, spec_lit("Kind")) {
                            let x = EnumV {
                                name: name,
                                variants: Seq::<EnumVariantV>::empty(),
                                serde_attrs: st.pending,
                            };
                            lemma_upsert_enum_suffix(st.enums, x);
                            assert(r.enums == upsert_enum(st.enums, x));
                        } else {
                            assert(r.enums == st.enums);
                        }
                        assert(r.structs == st.structs);
                    }
                }
            }
        },
        ParseModeV::InStruct { name, fields, attrs } => {
            if !st.failed && !(t.len() == 0 || starts_with_spec(t, spec_lit("//")))
                && !starts_with_spec(t, spec_lit("#")) && nd == 0 {
                let x = StructV { name: name, fields: fields, serde_attrs: attrs };
                lemma_upsert_struct_suffix(st.structs, x);
                assert(r.structs == upsert_struct(st.structs, x));
            }
        },
        ParseModeV::InEnum { name, variants, attrs } => {
            if !st.failed && !(t.len() == 0 || starts_with_spec(t, spec_lit("//")))
                && !starts_with_spec(t, spec_lit("#")) && nd == 0 {
                let x = EnumV { name: name, variants: variants, serde_attrs: attrs };
                lemma_upsert_enum_suffix(st.enums, x);
                assert(r.enums == upsert_enum(st.enums, x));
            }
        },
    }
    // The case split below mirrors the scanner's own branching, so that each
    // arm sees one definite shape of the successor state.
    if st.failed {
        assert(suffix_invariant(r));
    } else if t.len() == 0 || starts_with_spec(t, spec_lit("//")) {
        assert(suffix_invariant(r));
    } else if starts_with_spec(t, spec_lit("#")) {
        assert(suffix_invariant(r));
    } else {
        match st.mode {
            ParseModeV::Top => {
                if st.depth > 0 {
                    assert(suffix_invariant(r));
                } else if header_name(t, spec_lit("struct ")) is Some {
                    if nd == 0 {
                        assert(suffix_invariant(r));
                    } else if nd == 1 {
                        assert(suffix_invariant(r));
                    } else {
                        assert(suffix_invariant(r));
                    }
                } else if header_name(t, spec_lit("enum ")) is Some {
                    if nd == 0 {
                        assert(suffix_invariant(r));
                    } else if nd == 1 {
                        assert(suffix_invariant(r));
                    } else {
                        assert(suffix_invariant(r));
                    }
                } else {
                    assert(suffix_invariant(r));
                }
            },
            ParseModeV::InStruct { .. } => {
                if nd < 0 {
                    assert(suffix_invariant(r));
                } else if nd == 0 {
                    assert(suffix_invariant(r));
                } else {
                    assert(suffix_invariant(r));
                }
            },
            ParseModeV::InEnum { .. } => {
                if nd < 0 {
                    assert(suffix_invariant(r));
                } else if nd == 0 {
                    assert(suffix_invariant(r));
                } else {
                    assert(suffix_invariant(r));
                }
            },
        }
    }
}

proof fn lemma_run_keeps_suffixes(st: ParseStateV, lines: Seq<Seq<u8>>)
    requires
        suffix_invariant(st),
    ensures
        suffix_invariant(spec_run(st, lines)),
    decreases lines.len(),
{
    if lines.len() > 0 {
        lemma_step_keeps_suffixes(st, lines.first());
        lemma_run_keeps_suffixes(spec_step(st, lines.first()), lines.drop_first());
    }
}

/// Law: the scanner selects declarations by naming convention alone — every
/// record entry a scanned file yields is named with the node suffix, and every
/// union entry with the discriminant suffix. A record or union whose name ends
/// otherwise is never captured.
pub proof fn lemma_parse_filters_by_suffix(content: Seq<u8>)
    requires
        spec_parse(content) is Some,
    ensures
        forall|i: int|
            0 <= i < spec_parse(content)->Some_0.0.len() ==> ends_with_spec(
                #[trigger] spec_parse(content)->Some_0.0[i].name,
                spec_lit("Node"),
            ),
        forall|i: int|
            0 <= i < spec_parse(content)->Some_0.1.len() ==> ends_with_spec(
                #[trigger] spec_parse(content)->Some_0.1[i].name,
                spec_lit("Kind"),
            ),
{
    lemma_run_keeps_suffixes(init_state(), split_lines(content));
    let f = spec_run(init_state(), split_lines(content));
    assert forall|i: int| 0 <= i < spec_parse(content)->Some_0.0.len() implies ends_with_spec(
        #[trigger] spec_parse(content)->Some_0.0[i].name,
        spec_lit("Node"),
    ) by {
        lemma_all_structs_every(f.structs, i);
    }
    assert forall|i: int| 0 <= i < spec_parse(content)->Some_0.1.len() implies ends_with_spec(
        #[trigger] spec_parse(content)->Some_0.1[i].name,
        spec_lit("Kind"),
    ) by {
        lemma_all_enums_every(f.enums, i);
    }
}

} // verus!
