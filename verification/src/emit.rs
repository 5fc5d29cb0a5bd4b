//! Consumes the intermediate representation and the style property list, and
//! produces the generated target-language source text: polymorphic base
//! declarations, concrete record classes in lexicographic name order, one
//! aggregate style class, and a fixed scalar-wrapper value type with its
//! converter.

use vstd::prelude::*;
use vstd::multiset::Multiset;

use crate::bytes::{
    append_bytes, contains_spec, contains_sub, ends_with, ends_with_spec, find_byte_from,
    first_byte_from, lex_le, lex_le_bytes, lit, spec_lit, subvec,
};
use crate::ir::{EnumDef, EnumV, EnumVariant, EnumVariantV, FieldDef, FieldV, StructDef, StructV,
    StyleProperty, StylePropertyV};
use crate::names::{spec_camel_case, spec_pascal_case, to_camel_case, to_pascal_case};
use crate::parser::{enums_view, parse_source, spec_parse, structs_view, upsert_enum,
    upsert_struct};

verus! {

/// The abstract base declaration's name: the union's name with its
/// discriminant suffix stripped.
pub open spec fn base_name_of(e: Seq<u8>) -> Seq<u8> {
    if ends_with_spec(e, spec_lit("Kind")) {
        e.take(e.len() - 4)
    } else {
        e
    }
}

fn base_name_exec(e: &[u8]) -> (r: Vec<u8>)
    ensures
        r@ == base_name_of(e@),
{
    proof {
        reveal_strlit("Kind");
    }
    let kind = lit("Kind");
    if ends_with(e, kind.as_slice()) {
        let r = subvec(e, 0, e.len() - 4);
        proof {
            assert(r@ =~= e@.take(e@.len() - 4));
        }
        r
    } else {
        subvec(e, 0, e.len())
    }
}

/// One ASCII byte lowercased.
pub open spec fn lower_byte(b: u8) -> u8 {
    if 'A' as u8 <= b <= 'Z' as u8 {
        (b + 32) as u8
    } else {
        b
    }
}

/// A byte string lowercased, ASCII letter by ASCII letter.
pub open spec fn lower_of(s: Seq<u8>) -> Seq<u8>
    decreases s.len(),
{
    if s.len() == 0 {
        s
    } else {
        seq![lower_byte(s[0])] + lower_of(s.skip(1))
    }
}

fn to_lower(s: &[u8]) -> (r: Vec<u8>)
    ensures
        r@ == lower_of(s@),
{
    let mut out: Vec<u8> = Vec::new();
    let mut i: usize = 0;
    proof {
        assert(s@.skip(0) =~= s@);
    }
    while i < s.len()
        invariant
            i <= s@.len(),
            lower_of(s@) == out@ + lower_of(s@.skip(i as int)),
        decreases s@.len() - i,
    {
        proof {
            assert(s@.skip(i as int).skip(1) =~= s@.skip(i + 1));
        }
        let b = s[i];
        if 'A' as u8 <= b && b <= 'Z' as u8 {
            out.push(b + 32);
        } else {
            out.push(b);
        }
        i = i + 1;
    }
    proof {
        assert(lower_of(s@.skip(i as int)) =~= Seq::<u8>::empty());
        assert(out@ + lower_of(s@.skip(i as int)) =~= out@);
    }
    out
}

/// The concrete implementing type a variant stands for: its inner signature
/// up to any generic-parameter marker, or its own name with the node suffix
/// appended.
pub open spec fn impl_type_of(v: EnumVariantV) -> Seq<u8> {
    match v.inner_type {
        Some(t) => t.take(first_byte_from(t, '<' as u8, 0)),
        None => v.name + spec_lit("Node"),
    }
}

fn impl_type_exec(v: &EnumVariant) -> (r: Vec<u8>)
    ensures
        r@ == impl_type_of(v@),
{
    proof {
        reveal_strlit("Node");
    }
    match &v.inner_type {
        Some(t) => {
            let e = find_byte_from(t.as_slice(), '<' as u8, 0);
            let r = subvec(t.as_slice(), 0, e);
            proof {
                assert(r@ =~= t@.take(first_byte_from(t@, '<' as u8, 0)));
            }
            r
        },
        None => {
            let mut r = subvec(v.name.as_slice(), 0, v.name.len());
            proof {
                assert(r@ =~= v.name@);
            }
            append_bytes(&mut r, lit("Node").as_slice());
            r
        },
    }
}

/// Whether some variant of the union has this struct as its implementing
/// type.
pub open spec fn enum_lists_struct(e: EnumV, name: Seq<u8>) -> bool {
    exists|i: int| 0 <= i < e.variants.len() && impl_type_of(e.variants[i]) == name
}

/// The base declaration name of the first union that lists the struct.
pub open spec fn base_for(es: Seq<EnumV>, name: Seq<u8>, j: int) -> Option<Seq<u8>>
    decreases es.len() - j,
    when 0 <= j <= es.len()
{
    if j >= es.len() {
        None
    } else if enum_lists_struct(es[j], name) {
        Some(base_name_of(es[j].name))
    } else {
        base_for(es, name, j + 1)
    }
}

fn enum_lists_struct_exec(e: &EnumDef, name: &[u8]) -> (r: bool)
    ensures
        r == enum_lists_struct(e@, name@),
{
    let mut i: usize = 0;
    while i < e.variants.len()
        invariant
            i <= e.variants@.len(),
            forall|j: int| 0 <= j < i ==> impl_type_of(e@.variants[j]) != name@,
        decreases e.variants@.len() - i,
    {
        let t = impl_type_exec(&e.variants[i]);
        if crate::bytes::eq_bytes(t.as_slice(), name) {
            proof {
                assert(impl_type_of(e@.variants[i as int]) == name@);
            }
            return true;
        }
        proof {
            assert(e@.variants[i as int] == e.variants@[i as int]@);
        }
        i = i + 1;
    }
    false
}

fn base_for_exec(es: &Vec<EnumDef>, name: &[u8]) -> (r: Option<Vec<u8>>)
    ensures
        match r {
            Some(b) => base_for(enums_view(es@), name@, 0) == Some(b@),
            None => base_for(enums_view(es@), name@, 0) is None,
        },
{
    let ghost ev = enums_view(es@);
    let mut j: usize = 0;
    while j < es.len()
        invariant
            j <= es@.len(),
            ev == enums_view(es@),
            base_for(ev, name@, 0) == base_for(ev, name@, j as int),
        decreases es@.len() - j,
    {
        proof {
            assert(ev[j as int] == es@[j as int]@);
        }
        if enum_lists_struct_exec(&es[j], name) {
            return Some(base_name_exec(es[j].name.as_slice()));
        }
        j = j + 1;
    }
    None
}

/// The mapped type a field is emitted with. A collection of child nodes —
/// recognized by its fixed substring markers — is forced to a list of some
/// discovered union's base name; the representation does not retain which
/// union family the field belongs to, so the first discovered union is taken.
pub open spec fn resolved_field_type(f: FieldV, es: Seq<EnumV>) -> Seq<u8> {
    if (contains_spec(f.ty, spec_lit("Nodes")) || contains_spec(f.ty, spec_lit("Node<")))
        && es.len() > 0 {
        spec_lit("List<") + base_name_of(es[0].name) + spec_lit(">?")
    } else {
        f.csharp_ty
    }
}

fn resolved_field_type_exec(f: &FieldDef, es: &Vec<EnumDef>) -> (r: Vec<u8>)
    ensures
        r@ == resolved_field_type(f@, enums_view(es@)),
{
    proof {
        reveal_strlit("Nodes");
        reveal_strlit("Node<");
        reveal_strlit("List<");
        reveal_strlit(">?");
    }
    let nodes_tok = lit("Nodes");
    let node_lt = lit("Node<");
    if (contains_sub(f.ty.as_slice(), nodes_tok.as_slice()) || contains_sub(
        f.ty.as_slice(),
        node_lt.as_slice(),
    )) && es.len() > 0 {
        let mut r = lit("List<");
        proof {
            assert(enums_view(es@)[0] == es@[0]@);
        }
        append_bytes(&mut r, base_name_exec(es[0].name.as_slice()).as_slice());
        append_bytes(&mut r, lit(">?").as_slice());
        proof {
            assert(r@ =~= spec_lit("List<") + base_name_of(enums_view(es@)[0].name) + spec_lit(
                ">?",
            ));
        }
        r
    } else {
        subvec(f.csharp_ty.as_slice(), 0, f.csharp_ty.len())
    }
}

/// One polymorphic-discriminator annotation line per variant, in variant
/// order; the discriminator value is the lowercased variant name.
pub open spec fn variant_annotations(vs: Seq<EnumVariantV>) -> Seq<u8>
    decreases vs.len(),
{
    if vs.len() == 0 {
        Seq::<u8>::empty()
    } else {
        spec_lit("[JsonDerivedType(typeof(") + impl_type_of(vs.first()) + spec_lit("), \"")
            + lower_of(vs.first().name) + spec_lit("\")]\n") + variant_annotations(vs.drop_first())
    }
}

/// One union's abstract base declaration, preceded by its per-variant
/// discriminator annotations; a union whose stripped name is empty is
/// skipped.
pub open spec fn enum_block(e: EnumV) -> Seq<u8> {
    if base_name_of(e.name).len() == 0 {
        Seq::<u8>::empty()
    } else {
        spec_lit("[JsonPolymorphic(TypeDiscriminatorPropertyName = \"type\")]\n")
            + variant_annotations(e.variants) + spec_lit("public abstract class ") + base_name_of(
            e.name,
        ) + spec_lit(" { }\n\n")
    }
}

pub open spec fn enum_blocks(es: Seq<EnumV>) -> Seq<u8>
    decreases es.len(),
{
    if es.len() == 0 {
        Seq::<u8>::empty()
    } else {
        enum_block(es.first()) + enum_blocks(es.drop_first())
    }
}

/// One emitted field: serialization-name annotation, omit-if-absent
/// annotation, then the property; a non-nullable text property gets an
/// explicit empty default.
pub open spec fn field_block(f: FieldV, es: Seq<EnumV>) -> Seq<u8> {
    let ty = resolved_field_type(f, es);
    spec_lit("    [JsonPropertyName(\"") + spec_camel_case(f.name) + spec_lit(
        "\")]\n    [JsonIgnore(Condition = JsonIgnoreCondition.WhenWritingNull)]\n    public ",
    ) + ty + spec_lit(" ") + spec_pascal_case(f.name) + spec_lit(" { get; set; }") + (if ty
        == spec_lit("string") {
        spec_lit(" = string.Empty;")
    } else {
        Seq::<u8>::empty()
    }) + spec_lit("\n\n")
}

pub open spec fn field_blocks(fs: Seq<FieldV>, es: Seq<EnumV>) -> Seq<u8>
    decreases fs.len(),
{
    if fs.len() == 0 {
        Seq::<u8>::empty()
    } else {
        field_block(fs.first(), es) + field_blocks(fs.drop_first(), es)
    }
}

/// One record class, under the union base that lists it, if any.
pub open spec fn class_block(s: StructV, es: Seq<EnumV>) -> Seq<u8> {
    spec_lit("public class ") + s.name + (match base_for(es, s.name, 0) {
        Some(b) => spec_lit(" : ") + b,
        None => Seq::<u8>::empty(),
    }) + spec_lit("\n{\n") + field_blocks(s.fields, es) + spec_lit("}\n\n")
}

pub open spec fn class_blocks(ss: Seq<StructV>, es: Seq<EnumV>) -> Seq<u8>
    decreases ss.len(),
{
    if ss.len() == 0 {
        Seq::<u8>::empty()
    } else {
        class_block(ss.first(), es) + class_blocks(ss.drop_first(), es)
    }
}

/// The record list in lexicographic name order, by insertion.
pub open spec fn sorted_insert(x: StructV, s: Seq<StructV>) -> Seq<StructV>
    decreases s.len(),
{
    if s.len() == 0 {
        seq![x]
    } else if lex_le(x.name, s.first().name) {
        seq![x] + s
    } else {
        seq![s.first()] + sorted_insert(x, s.drop_first())
    }
}

pub open spec fn sort_by_name(s: Seq<StructV>) -> Seq<StructV>
    decreases s.len(),
{
    if s.len() == 0 {
        s
    } else {
        sorted_insert(s.first(), sort_by_name(s.drop_first()))
    }
}

fn sorted_insert_exec(x: StructDef, rest: Vec<StructDef>) -> (r: Vec<StructDef>)
    ensures
        structs_view(r@) == sorted_insert(x@, structs_view(rest@)),
    decreases rest@.len(),
{
    let ghost rv = structs_view(rest@);
    let mut rest = rest;
    if rest.len() == 0 {
        let mut r: Vec<StructDef> = Vec::new();
        r.push(x);
        proof {
            assert(structs_view(r@) =~~= seq![x@]);
        }
        return r;
    }
    proof {
        assert(rv.first() == rest@[0]@);
    }
    if lex_le_bytes(x.name.as_slice(), rest[0].name.as_slice()) {
        rest.insert(0, x);
        proof {
            assert(structs_view(rest@) =~~= seq![x@] + rv);
        }
        return rest;
    }
    let first = rest.remove(0);
    proof {
        assert(structs_view(rest@) =~~= rv.drop_first());
    }
    let mut r = sorted_insert_exec(x, rest);
    r.insert(0, first);
    proof {
        assert(structs_view(r@) =~~= seq![rv.first()] + sorted_insert(x@, rv.drop_first()));
    }
    r
}

fn sort_structs(v: Vec<StructDef>) -> (r: Vec<StructDef>)
    ensures
        structs_view(r@) == sort_by_name(structs_view(v@)),
    decreases v@.len(),
{
    let ghost vv = structs_view(v@);
    let mut v = v;
    if v.len() == 0 {
        proof {
            assert(structs_view(v@) =~~= sort_by_name(vv));
        }
        return v;
    }
    let first = v.remove(0);
    proof {
        assert(first@ == vv.first());
        assert(structs_view(v@) =~~= vv.drop_first());
    }
    let rest = sort_structs(v);
    sorted_insert_exec(first, rest)
}

/// Names stand in lexicographic order.
pub open spec fn names_sorted(s: Seq<StructV>) -> bool {
    forall|i: int, j: int| 0 <= i < j < s.len() ==> lex_le(s[i].name, s[j].name)
}

proof fn lemma_sorted_insert_keeps(x: StructV, s: Seq<StructV>)
    requires
        names_sorted(s),
    ensures
        names_sorted(sorted_insert(x, s)),
        sorted_insert(x, s).to_multiset() == s.to_multiset().insert(x),
    decreases s.len(),
{
    broadcast use vstd::seq_lib::group_to_multiset_ensures;

    if s.len() == 0 {
        assert(seq![x] =~= Seq::<StructV>::empty().push(x));
        assert(sorted_insert(x, s).to_multiset() =~= s.to_multiset().insert(x));
    } else if lex_le(x.name, s.first().name) {
        let r = seq![x] + s;
        assert forall|i: int, j: int| 0 <= i < j < r.len() implies lex_le(
            r[i].name,
            r[j].name,
        ) by {
            if i == 0 {
                if j > 1 {
                    crate::bytes::lemma_lex_trans(x.name, s.first().name, s[j - 1].name);
                }
            }
        }
        assert(r =~= s.insert(0, x));
        assert(r.to_multiset() =~= s.to_multiset().insert(x));
    } else {
        crate::bytes::lemma_lex_total(x.name, s.first().name);
        assert(names_sorted(s.drop_first())) by {
            assert(forall|i: int, j: int|
                0 <= i < j < s.drop_first().len() ==> s.drop_first()[i] == s[i + 1]
                    && s.drop_first()[j] == s[j + 1]);
        }
        lemma_sorted_insert_keeps(x, s.drop_first());
        let t = sorted_insert(x, s.drop_first());
        let r = seq![s.first()] + t;
        assert forall|i: int, j: int| 0 <= i < j < r.len() implies lex_le(
            r[i].name,
            r[j].name,
        ) by {
            if i == 0 {
                assert(r[j] == t[j - 1]);
                assert(t.to_multiset().contains(t[j - 1]));
                assert(s.drop_first().to_multiset().insert(x).contains(t[j - 1]));
                if t[j - 1] == x {
                    assert(lex_le(s.first().name, x.name));
                } else {
                    assert(s.drop_first().to_multiset().contains(t[j - 1]));
                    let w = choose|w: int|
                        0 <= w < s.drop_first().len() && s.drop_first()[w] == t[j - 1];
                    assert(s[w + 1] == t[j - 1]);
                    assert(lex_le(s[0].name, s[w + 1].name));
                }
            }
        }
        assert(r.to_multiset() =~= s.to_multiset().insert(x)) by {
            assert(t.to_multiset() == s.drop_first().to_multiset().insert(x));
            assert(s =~= seq![s.first()] + s.drop_first());
            vstd::seq_lib::lemma_multiset_commutative(seq![s.first()], s.drop_first());
            vstd::seq_lib::lemma_multiset_commutative(seq![s.first()], t);
        }
    }
}

/// Law: sorting the record list by name yields a list in lexicographic name
/// order that holds exactly the records of the representation — the emitted
/// class order never depends on the order files were scanned in.
pub proof fn lemma_sort_by_name_sorted(s: Seq<StructV>)
    ensures
        names_sorted(sort_by_name(s)),
        sort_by_name(s).to_multiset() == s.to_multiset(),
    decreases s.len(),
{
    broadcast use vstd::seq_lib::group_to_multiset_ensures;

    if s.len() > 0 {
        lemma_sort_by_name_sorted(s.drop_first());
        lemma_sorted_insert_keeps(s.first(), sort_by_name(s.drop_first()));
        assert(s =~= seq![s.first()] + s.drop_first());
        vstd::seq_lib::lemma_multiset_commutative(seq![s.first()], s.drop_first());
        assert(seq![s.first()].to_multiset() =~= Multiset::<StructV>::empty().insert(s.first()));
    }
}

/// The ghost image of a list of fields.
pub open spec fn fields_view(l: Seq<FieldDef>) -> Seq<FieldV> {
    l.map_values(|f: FieldDef| f@)
}

/// The ghost image of a list of variants.
pub open spec fn variants_view(l: Seq<EnumVariant>) -> Seq<EnumVariantV> {
    l.map_values(|v: EnumVariant| v@)
}

/// The ghost image of a list of style properties.
pub open spec fn props_view(l: Seq<StyleProperty>) -> Seq<StylePropertyV> {
    l.map_values(|p: StyleProperty| p@)
}

/// The generated file's fixed lead-in: a marker that the text is generated,
/// the nullable-context directive, the imports and the namespace.
pub open spec fn header_text() -> Seq<u8> {
    spec_lit(
        "// <auto-generated>\n// Do not edit manually.\n// </auto-generated>\n\n#nullable enable\n\nusing System.Text.Json;\nusing System.Text.Json.Serialization;\n\nnamespace TakumiSharp.Models;\n\n",
    )
}

/// The fixed scalar-wrapper value type — a utility-class text blob applied at
/// render time — and its converter, which reads and writes it as a bare
/// string.
pub open spec fn wrapper_text() -> Seq<u8> {
    spec_lit(
        "/// <summary>\n/// Tailwind CSS classes string. Parsed and applied at runtime.\n/// </summary>\n[JsonConverter(typeof(TailwindValuesConverter))]\npublic class TailwindValues\n{\n    public string Value { get; set; } = string.Empty;\n\n    public TailwindValues() { }\n    public TailwindValues(string value) => Value = value;\n\n    public static implicit operator TailwindValues(string value) => new(value);\n    public static implicit operator string(TailwindValues tw) => tw.Value;\n}\n\npublic class TailwindValuesConverter : JsonConverter<TailwindValues>\n{\n    public override TailwindValues? Read(ref Utf8JsonReader reader, Type typeToConvert, JsonSerializerOptions options)\n        => reader.GetString() is string s ? new TailwindValues(s) : null;\n\n    public override void Write(Utf8JsonWriter writer, TailwindValues value, JsonSerializerOptions options)\n        => writer.WriteStringValue(value.Value);\n}\n",
    )
}

/// One style property: same naming and annotation rules as a record field,
/// always nullable.
pub open spec fn style_prop_block(p: StylePropertyV) -> Seq<u8> {
    spec_lit("    [JsonPropertyName(\"") + spec_camel_case(p.name) + spec_lit(
        "\")]\n    [JsonIgnore(Condition = JsonIgnoreCondition.WhenWritingNull)]\n    public ",
    ) + p.csharp_type + spec_lit(" ") + spec_pascal_case(p.name) + spec_lit(" { get; set; }\n\n")
}

pub open spec fn style_prop_blocks(ps: Seq<StylePropertyV>) -> Seq<u8>
    decreases ps.len(),
{
    if ps.len() == 0 {
        Seq::<u8>::empty()
    } else {
        style_prop_block(ps.first()) + style_prop_blocks(ps.drop_first())
    }
}

/// The aggregate style class.
pub open spec fn style_class_block(ps: Seq<StylePropertyV>) -> Seq<u8> {
    style_lead_text() + style_prop_blocks(ps) + spec_lit("}\n\n")
}

/// The whole generated text: lead-in, the base declarations in discovery
/// order, the record classes in lexicographic name order, the style class,
/// and the scalar-wrapper boilerplate.
pub open spec fn spec_generate(ss: Seq<StructV>, es: Seq<EnumV>, ps: Seq<StylePropertyV>) -> Seq<
    u8,
> {
    header_text() + enum_blocks(es) + class_blocks(sort_by_name(ss), es) + style_class_block(ps)
        + wrapper_text()
}

fn copy_bytes(v: &Vec<u8>) -> (r: Vec<u8>)
    ensures
        r@ == v@,
{
    let r = subvec(v.as_slice(), 0, v.len());
    proof {
        assert(r@ =~= v@);
    }
    r
}

fn copy_field(f: &FieldDef) -> (r: FieldDef)
    ensures
        r@ == f@,
{
    FieldDef { name: copy_bytes(&f.name), ty: copy_bytes(&f.ty), csharp_ty: copy_bytes(&f.csharp_ty) }
}

fn copy_attrs(a: &crate::ir::SerdeAttrs) -> (r: crate::ir::SerdeAttrs)
    ensures
        r@ == a@,
{
    crate::ir::SerdeAttrs {
        tag: match &a.tag {
            Some(t) => Some(copy_bytes(t)),
            None => None,
        },
        rename_all: match &a.rename_all {
            Some(t) => Some(copy_bytes(t)),
            None => None,
        },
    }
}

fn copy_struct(s: &StructDef) -> (r: StructDef)
    ensures
        r@ == s@,
{
    let mut fields: Vec<FieldDef> = Vec::new();
    let mut i: usize = 0;
    while i < s.fields.len()
        invariant
            i <= s.fields@.len(),
            fields_view(fields@) =~~= fields_view(s.fields@).take(i as int),
        decreases s.fields@.len() - i,
    {
        let ghost prev = fields_view(fields@);
        let nf = copy_field(&s.fields[i]);
        fields.push(nf);
        proof {
            assert(fields_view(fields@) =~~= prev.push(nf@));
            assert(prev.push(nf@) =~~= fields_view(s.fields@).take(i + 1));
        }
        i = i + 1;
    }
    let r = StructDef {
        name: copy_bytes(&s.name),
        fields,
        serde_attrs: copy_attrs(&s.serde_attrs),
    };
    proof {
        assert(fields_view(r.fields@) =~~= fields_view(s.fields@));
        assert(r@ =~~= s@);
    }
    r
}

fn copy_structs(v: &Vec<StructDef>) -> (r: Vec<StructDef>)
    ensures
        structs_view(r@) == structs_view(v@),
{
    let mut r: Vec<StructDef> = Vec::new();
    let mut i: usize = 0;
    while i < v.len()
        invariant
            i <= v@.len(),
            structs_view(r@) =~~= structs_view(v@).take(i as int),
        decreases v@.len() - i,
    {
        let ghost prev = structs_view(r@);
        let ns = copy_struct(&v[i]);
        r.push(ns);
        proof {
            assert(structs_view(r@) =~~= prev.push(ns@));
            assert(prev.push(ns@) =~~= structs_view(v@).take(i + 1));
        }
        i = i + 1;
    }
    proof {
        assert(structs_view(v@).take(v@.len() as int) =~= structs_view(v@));
    }
    r
}

fn variant_annotation_line(v: &EnumVariant) -> (r: Vec<u8>)
    ensures
        r@ == spec_lit("[JsonDerivedType(typeof(") + impl_type_of(v@) + spec_lit("), \"")
            + lower_of(v@.name) + spec_lit("\")]\n"),
{
    proof {
        reveal_strlit("[JsonDerivedType(typeof(");
        reveal_strlit("), \"");
        reveal_strlit("\")]\n");
    }
    let mut r = lit("[JsonDerivedType(typeof(");
    append_bytes(&mut r, impl_type_exec(v).as_slice());
    append_bytes(&mut r, lit("), \"").as_slice());
    append_bytes(&mut r, to_lower(v.name.as_slice()).as_slice());
    append_bytes(&mut r, lit("\")]\n").as_slice());
    proof {
        assert(r@ =~= spec_lit("[JsonDerivedType(typeof(") + impl_type_of(v@) + spec_lit("), \"")
            + lower_of(v@.name) + spec_lit("\")]\n"));
    }
    r
}

fn enum_block_exec(e: &EnumDef) -> (r: Vec<u8>)
    ensures
        r@ == enum_block(e@),
{
    proof {
        reveal_strlit("[JsonPolymorphic(TypeDiscriminatorPropertyName = \"type\")]\n");
        reveal_strlit("public abstract class ");
        reveal_strlit(" { }\n\n");
    }
    let base = base_name_exec(e.name.as_slice());
    if base.len() == 0 {
        return Vec::new();
    }
    let mut r = lit("[JsonPolymorphic(TypeDiscriminatorPropertyName = \"type\")]\n");
    let ghost vv = variants_view(e.variants@);
    let ghost lead = r@;
    let mut i: usize = 0;
    proof {
        assert(vv.skip(0) =~~= vv);
    }
    while i < e.variants.len()
        invariant
            i <= e.variants@.len(),
            vv == variants_view(e.variants@),
            r@ + variant_annotations(vv.skip(i as int)) =~= lead + variant_annotations(vv),
        decreases e.variants@.len() - i,
    {
        proof {
            assert(vv.skip(i as int).drop_first() =~~= vv.skip(i + 1));
            assert(vv.skip(i as int).first() == e.variants@[i as int]@);
        }
        let line = variant_annotation_line(&e.variants[i]);
        append_bytes(&mut r, line.as_slice());
        proof {
            assert(r@ + variant_annotations(vv.skip(i + 1)) =~= lead + variant_annotations(vv));
        }
        i = i + 1;
    }
    proof {
        assert(variant_annotations(vv.skip(i as int)) =~= Seq::<u8>::empty());
        assert(r@ =~= lead + variant_annotations(vv));
    }
    append_bytes(&mut r, lit("public abstract class ").as_slice());
    append_bytes(&mut r, base.as_slice());
    append_bytes(&mut r, lit(" { }\n\n").as_slice());
    proof {
        assert(r@ =~= enum_block(e@));
    }
    r
}

fn field_block_exec(f: &FieldDef, es: &Vec<EnumDef>) -> (r: Vec<u8>)
    ensures
        r@ == field_block(f@, enums_view(es@)),
{
    proof {
        reveal_strlit("    [JsonPropertyName(\"");
        reveal_strlit(
            "\")]\n    [JsonIgnore(Condition = JsonIgnoreCondition.WhenWritingNull)]\n    public ",
        );
        reveal_strlit(" ");
        reveal_strlit(" { get; set; }");
        reveal_strlit(" = string.Empty;");
        reveal_strlit("\n\n");
        reveal_strlit("string");
    }
    let ty = resolved_field_type_exec(f, es);
    let mut r = lit("    [JsonPropertyName(\"");
    append_bytes(&mut r, to_camel_case(f.name.as_slice()).as_slice());
    append_bytes(
        &mut r,
        lit("\")]\n    [JsonIgnore(Condition = JsonIgnoreCondition.WhenWritingNull)]\n    public ").as_slice(),
    );
    append_bytes(&mut r, ty.as_slice());
    append_bytes(&mut r, lit(" ").as_slice());
    append_bytes(&mut r, to_pascal_case(f.name.as_slice()).as_slice());
    append_bytes(&mut r, lit(" { get; set; }").as_slice());
    if crate::bytes::eq_bytes(ty.as_slice(), lit("string").as_slice()) {
        append_bytes(&mut r, lit(" = string.Empty;").as_slice());
    }
    append_bytes(&mut r, lit("\n\n").as_slice());
    proof {
        assert(r@ =~= field_block(f@, enums_view(es@)));
    }
    r
}

fn class_block_exec(s: &StructDef, es: &Vec<EnumDef>) -> (r: Vec<u8>)
    ensures
        r@ == class_block(s@, enums_view(es@)),
{
    proof {
        reveal_strlit("public class ");
        reveal_strlit(" : ");
        reveal_strlit("\n{\n");
        reveal_strlit("}\n\n");
    }
    let mut r = lit("public class ");
    append_bytes(&mut r, s.name.as_slice());
    match base_for_exec(es, s.name.as_slice()) {
        Some(b) => {
            append_bytes(&mut r, lit(" : ").as_slice());
            append_bytes(&mut r, b.as_slice());
        },
        None => {},
    }
    append_bytes(&mut r, lit("\n{\n").as_slice());
    let ghost fv = s@.fields;
    let ghost lead = r@;
    let mut i: usize = 0;
    proof {
        assert(fv.skip(0) =~~= fv);
    }
    while i < s.fields.len()
        invariant
            i <= s.fields@.len(),
            fv == s@.fields,
            r@ + field_blocks(fv.skip(i as int), enums_view(es@)) =~= lead + field_blocks(
                fv,
                enums_view(es@),
            ),
        decreases s.fields@.len() - i,
    {
        proof {
            assert(fv.skip(i as int).drop_first() =~~= fv.skip(i + 1));
            assert(fv.skip(i as int).first() == s.fields@[i as int]@);
        }
        let line = field_block_exec(&s.fields[i], es);
        append_bytes(&mut r, line.as_slice());
        proof {
            assert(r@ + field_blocks(fv.skip(i + 1), enums_view(es@)) =~= lead + field_blocks(
                fv,
                enums_view(es@),
            ));
        }
        i = i + 1;
    }
    proof {
        assert(field_blocks(fv.skip(i as int), enums_view(es@)) =~= Seq::<u8>::empty());
        assert(r@ =~= lead + field_blocks(fv, enums_view(es@)));
    }
    append_bytes(&mut r, lit("}\n\n").as_slice());
    proof {
        assert(r@ =~= class_block(s@, enums_view(es@)));
    }
    r
}

fn style_prop_block_exec(p: &StyleProperty) -> (r: Vec<u8>)
    ensures
        r@ == style_prop_block(p@),
{
    proof {
        reveal_strlit("    [JsonPropertyName(\"");
        reveal_strlit(
            "\")]\n    [JsonIgnore(Condition = JsonIgnoreCondition.WhenWritingNull)]\n    public ",
        );
        reveal_strlit(" ");
        reveal_strlit(" { get; set; }\n\n");
    }
    let mut r = lit("    [JsonPropertyName(\"");
    append_bytes(&mut r, to_camel_case(p.name.as_slice()).as_slice());
    append_bytes(
        &mut r,
        lit("\")]\n    [JsonIgnore(Condition = JsonIgnoreCondition.WhenWritingNull)]\n    public ").as_slice(),
    );
    append_bytes(&mut r, p.csharp_type.as_slice());
    append_bytes(&mut r, lit(" ").as_slice());
    append_bytes(&mut r, to_pascal_case(p.name.as_slice()).as_slice());
    append_bytes(&mut r, lit(" { get; set; }\n\n").as_slice());
    proof {
        assert(r@ =~= style_prop_block(p@));
    }
    r
}

/// The style class's fixed lead-in.
pub open spec fn style_lead_text() -> Seq<u8> {
    spec_lit(
        "/// <summary>\n/// CSS-like style properties for layout and rendering.\n/// </summary>\npublic class Style\n{\n",
    )
}

#[verifier::rlimit(100)]
fn header_text_exec() -> (r: Vec<u8>)
    ensures
        r@ == header_text(),
{
    proof {
        reveal_strlit(
            "// <auto-generated>\n// Do not edit manually.\n// </auto-generated>\n\n#nullable enable\n\nusing System.Text.Json;\nusing System.Text.Json.Serialization;\n\nnamespace TakumiSharp.Models;\n\n",
        );
    }
    lit(
        "// <auto-generated>\n// Do not edit manually.\n// </auto-generated>\n\n#nullable enable\n\nusing System.Text.Json;\nusing System.Text.Json.Serialization;\n\nnamespace TakumiSharp.Models;\n\n",
    )
}

#[verifier::rlimit(100)]
fn style_lead_exec() -> (r: Vec<u8>)
    ensures
        r@ == style_lead_text(),
{
    proof {
        reveal_strlit(
            "/// <summary>\n/// CSS-like style properties for layout and rendering.\n/// </summary>\npublic class Style\n{\n",
        );
    }
    lit(
        "/// <summary>\n/// CSS-like style properties for layout and rendering.\n/// </summary>\npublic class Style\n{\n",
    )
}

#[verifier::rlimit(100)]
fn wrapper_text_exec() -> (r: Vec<u8>)
    ensures
        r@ == wrapper_text(),
{
    proof {
        reveal_strlit(
            "/// <summary>\n/// Tailwind CSS classes string. Parsed and applied at runtime.\n/// </summary>\n[JsonConverter(typeof(TailwindValuesConverter))]\npublic class TailwindValues\n{\n    public string Value { get; set; } = string.Empty;\n\n    public TailwindValues() { }\n    public TailwindValues(string value) => Value = value;\n\n    public static implicit operator TailwindValues(string value) => new(value);\n    public static implicit operator string(TailwindValues tw) => tw.Value;\n}\n\npublic class TailwindValuesConverter : JsonConverter<TailwindValues>\n{\n    public override TailwindValues? Read(ref Utf8JsonReader reader, Type typeToConvert, JsonSerializerOptions options)\n        => reader.GetString() is string s ? new TailwindValues(s) : null;\n\n    public override void Write(Utf8JsonWriter writer, TailwindValues value, JsonSerializerOptions options)\n        => writer.WriteStringValue(value.Value);\n}\n",
        );
    }
    lit(
        "/// <summary>\n/// Tailwind CSS classes string. Parsed and applied at runtime.\n/// </summary>\n[JsonConverter(typeof(TailwindValuesConverter))]\npublic class TailwindValues\n{\n    public string Value { get; set; } = string.Empty;\n\n    public TailwindValues() { }\n    public TailwindValues(string value) => Value = value;\n\n    public static implicit operator TailwindValues(string value) => new(value);\n    public static implicit operator string(TailwindValues tw) => tw.Value;\n}\n\npublic class TailwindValuesConverter : JsonConverter<TailwindValues>\n{\n    public override TailwindValues? Read(ref Utf8JsonReader reader, Type typeToConvert, JsonSerializerOptions options)\n        => reader.GetString() is string s ? new TailwindValues(s) : null;\n\n    public override void Write(Utf8JsonWriter writer, TailwindValues value, JsonSerializerOptions options)\n        => writer.WriteStringValue(value.Value);\n}\n",
    )
}

/// All records and unions read so far, each name's last declaration winning.
pub struct CSharpGenerator {
    pub structs: Vec<StructDef>,
    pub enums: Vec<EnumDef>,
}

/// One file's entries folded into the representation, in declaration order.
pub open spec fn upsert_structs_all(ss: Seq<StructV>, xs: Seq<StructV>) -> Seq<StructV>
    decreases xs.len(),
{
    if xs.len() == 0 {
        ss
    } else {
        upsert_structs_all(upsert_struct(ss, xs.first()), xs.drop_first())
    }
}

pub open spec fn upsert_enums_all(es: Seq<EnumV>, xs: Seq<EnumV>) -> Seq<EnumV>
    decreases xs.len(),
{
    if xs.len() == 0 {
        es
    } else {
        upsert_enums_all(upsert_enum(es, xs.first()), xs.drop_first())
    }
}

impl CSharpGenerator {
    pub fn new() -> (r: CSharpGenerator)
        ensures
            structs_view(r.structs@) == Seq::<StructV>::empty(),
            enums_view(r.enums@) == Seq::<EnumV>::empty(),
    {
        let r = CSharpGenerator { structs: Vec::new(), enums: Vec::new() };
        proof {
            assert(structs_view(r.structs@) =~= Seq::<StructV>::empty());
            assert(enums_view(r.enums@) =~= Seq::<EnumV>::empty());
        }
        r
    }

    /// Reads one declaration file into the representation. A file that does
    /// not scan changes nothing and reports failure; the caller logs it and
    /// goes on with the remaining files — one malformed file never stops the
    /// generation.
    pub fn parse_file(&mut self, content: &[u8]) -> (ok: bool)
        ensures
            match spec_parse(content@) {
                Some(p) => ok && structs_view(final(self).structs@) == upsert_structs_all(
                    structs_view(old(self).structs@),
                    p.0,
                ) && enums_view(final(self).enums@) == upsert_enums_all(
                    enums_view(old(self).enums@),
                    p.1,
                ),
                None => !ok && structs_view(final(self).structs@) == structs_view(
                    old(self).structs@,
                ) && enums_view(final(self).enums@) == enums_view(old(self).enums@),
            },
    {
        match parse_source(content) {
            None => false,
            Some((vs, ve)) => {
                let ghost pvs = structs_view(vs@);
                let ghost pve = enums_view(ve@);
                let mut vs = vs;
                proof {
                    assert(structs_view(vs@) =~~= pvs);
                }
                while vs.len() > 0
                    invariant
                        upsert_structs_all(structs_view(old(self).structs@), pvs)
                            == upsert_structs_all(
                            structs_view(self.structs@),
                            structs_view(vs@),
                        ),
                        enums_view(self.enums@) == enums_view(old(self).enums@),
                    decreases vs@.len(),
                {
                    let ghost before = structs_view(vs@);
                    let s = vs.remove(0);
                    proof {
                        assert(structs_view(vs@) =~~= before.drop_first());
                        assert(s@ == before.first());
                    }
                    crate::parser::upsert_struct_exec(&mut self.structs, s);
                }
                proof {
                    assert(structs_view(vs@) =~~= Seq::<StructV>::empty());
                }
                let mut ve = ve;
                proof {
                    assert(enums_view(ve@) =~~= pve);
                }
                while ve.len() > 0
                    invariant
                        upsert_enums_all(enums_view(old(self).enums@), pve) == upsert_enums_all(
                            enums_view(self.enums@),
                            enums_view(ve@),
                        ),
                        structs_view(self.structs@) == upsert_structs_all(
                            structs_view(old(self).structs@),
                            pvs,
                        ),
                    decreases ve@.len(),
                {
                    let ghost before = enums_view(ve@);
                    let e = ve.remove(0);
                    proof {
                        assert(enums_view(ve@) =~~= before.drop_first());
                        assert(e@ == before.first());
                    }
                    crate::parser::upsert_enum_exec(&mut self.enums, e);
                }
                proof {
                    assert(enums_view(ve@) =~~= Seq::<EnumV>::empty());
                }
                true
            },
        }
    }

    /// Produces the generated source text for the current representation and
    /// the given style property list.
    pub fn generate(&self, style_props: &Vec<StyleProperty>) -> (r: Vec<u8>)
        ensures
            r@ == spec_generate(
                structs_view(self.structs@),
                enums_view(self.enums@),
                props_view(style_props@),
            ),
    {
        proof {
            reveal_strlit("}\n\n");
        }
        let mut out = header_text_exec();
        let ghost ev = enums_view(self.enums@);
        let ghost mark0 = out@;
        let mut i: usize = 0;
        proof {
            assert(ev.skip(0) =~~= ev);
        }
        while i < self.enums.len()
            invariant
                i <= self.enums@.len(),
                ev == enums_view(self.enums@),
                out@ + enum_blocks(ev.skip(i as int)) =~= mark0 + enum_blocks(ev),
            decreases self.enums@.len() - i,
        {
            proof {
                assert(ev.skip(i as int).drop_first() =~~= ev.skip(i + 1));
                assert(ev.skip(i as int).first() == self.enums@[i as int]@);
            }
            let block = enum_block_exec(&self.enums[i]);
            append_bytes(&mut out, block.as_slice());
            proof {
                assert(out@ + enum_blocks(ev.skip(i + 1)) =~= mark0 + enum_blocks(ev));
            }
            i = i + 1;
        }
        proof {
            assert(enum_blocks(ev.skip(i as int)) =~= Seq::<u8>::empty());
            assert(out@ =~= mark0 + enum_blocks(ev));
        }
        let sorted = sort_structs(copy_structs(&self.structs));
        let ghost sv = sort_by_name(structs_view(self.structs@));
        let ghost mark1 = out@;
        let mut j: usize = 0;
        proof {
            assert(sv.skip(0) =~~= sv);
        }
        while j < sorted.len()
            invariant
                j <= sorted@.len(),
                structs_view(sorted@) == sv,
                ev == enums_view(self.enums@),
                out@ + class_blocks(sv.skip(j as int), ev) =~= mark1 + class_blocks(sv, ev),
            decreases sorted@.len() - j,
        {
            proof {
                assert(sv.skip(j as int).drop_first() =~~= sv.skip(j + 1));
                assert(sv.skip(j as int).first() == sorted@[j as int]@);
            }
            let block = class_block_exec(&sorted[j], &self.enums);
            append_bytes(&mut out, block.as_slice());
            proof {
                assert(out@ + class_blocks(sv.skip(j + 1), ev) =~= mark1 + class_blocks(sv, ev));
            }
            j = j + 1;
        }
        proof {
            assert(class_blocks(sv.skip(j as int), ev) =~= Seq::<u8>::empty());
            assert(out@ =~= mark1 + class_blocks(sv, ev));
        }
        append_bytes(&mut out, style_lead_exec().as_slice());
        let ghost pv = props_view(style_props@);
        let ghost mark2 = out@;
        let mut k: usize = 0;
        proof {
            assert(pv.skip(0) =~~= pv);
        }
        while k < style_props.len()
            invariant
                k <= style_props@.len(),
                pv == props_view(style_props@),
                out@ + style_prop_blocks(pv.skip(k as int)) =~= mark2 + style_prop_blocks(pv),
            decreases style_props@.len() - k,
        {
            proof {
                assert(pv.skip(k as int).drop_first() =~~= pv.skip(k + 1));
                assert(pv.skip(k as int).first() == style_props@[k as int]@);
            }
            let block = style_prop_block_exec(&style_props[k]);
            append_bytes(&mut out, block.as_slice());
            proof {
                assert(out@ + style_prop_blocks(pv.skip(k + 1)) =~= mark2 + style_prop_blocks(pv));
            }
            k = k + 1;
        }
        proof {
            assert(style_prop_blocks(pv.skip(k as int)) =~= Seq::<u8>::empty());
            assert(out@ =~= mark2 + style_prop_blocks(pv));
        }
        append_bytes(&mut out, lit("}\n\n").as_slice());
        append_bytes(&mut out, wrapper_text_exec().as_slice());
        proof {
            assert(out@ =~= spec_generate(
                structs_view(self.structs@),
                enums_view(self.enums@),
                props_view(style_props@),
            ));
        }
        out
    }
}

} // verus!
