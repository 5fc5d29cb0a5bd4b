use takumi_native::emit::CSharpGenerator;
use takumi_native::mapper::{rust_type_to_csharp, style_rust_type_to_csharp};
use takumi_native::names::{to_camel_case, to_pascal_case};
use takumi_native::parser::parse_source;
use takumi_native::styles::parse_style_properties;
use takumi_native::viewport_axis;
use takumi_native::ImageFormat;

fn s(v: Vec<u8>) -> String {
    String::from_utf8(v).unwrap()
}

fn count_occurrences(text: &str, needle: &str) -> usize {
    let mut n = 0;
    let mut at = 0;
    while let Some(i) = text[at..].find(needle) {
        n += 1;
        at += i + needle.len();
    }
    n
}

#[test]
fn primitives_map_to_fixed_nullable_targets_in_style_mode() {
    assert_eq!(s(style_rust_type_to_csharp(b"f32")), "float?");
    assert_eq!(s(style_rust_type_to_csharp(b"f64")), "double?");
    assert_eq!(s(style_rust_type_to_csharp(b"i32")), "int?");
    assert_eq!(s(style_rust_type_to_csharp(b"i64")), "long?");
    assert_eq!(s(style_rust_type_to_csharp(b"u32")), "uint?");
    assert_eq!(s(style_rust_type_to_csharp(b"u64")), "ulong?");
    assert_eq!(s(style_rust_type_to_csharp(b"bool")), "bool?");
    assert_eq!(s(style_rust_type_to_csharp(b"String")), "string?");
    // nesting depth does not change the target
    assert_eq!(s(style_rust_type_to_csharp(b"Option<f32>")), "float?");
    assert_eq!(s(style_rust_type_to_csharp(b"Option<Option<Option<f32>>>")), "float?");
}

#[test]
fn primitives_map_in_field_mode() {
    assert_eq!(s(rust_type_to_csharp(b"f32")), "float");
    assert_eq!(s(rust_type_to_csharp(b"String")), "string");
    assert_eq!(s(rust_type_to_csharp(b"str")), "string");
    assert_eq!(s(rust_type_to_csharp(b"Arc<str>")), "string");
    assert_eq!(s(rust_type_to_csharp(b"Option<u64>")), "ulong?");
    assert_eq!(s(rust_type_to_csharp(b"Style")), "Style");
    assert_eq!(s(rust_type_to_csharp(b"TailwindValues")), "TailwindValues");
    assert_eq!(s(rust_type_to_csharp(b"Whatever")), "object");
}

#[test]
fn optional_of_optional_collapses() {
    assert_eq!(
        rust_type_to_csharp(b"Option<Option<u32>>"),
        rust_type_to_csharp(b"Option<u32>")
    );
    assert_eq!(s(rust_type_to_csharp(b"Option<Option<u32>>")), "uint?");
    assert_eq!(
        style_rust_type_to_csharp(b"Option<Option<String>>"),
        style_rust_type_to_csharp(b"Option<String>")
    );
}

#[test]
fn growable_list_and_boxed_slice_map_identically() {
    assert_eq!(rust_type_to_csharp(b"Vec<f32>"), rust_type_to_csharp(b"Box<[f32]>"));
    assert_eq!(s(rust_type_to_csharp(b"Vec<f32>")), "List<float>");
    assert_eq!(
        style_rust_type_to_csharp(b"Vec<Color>"),
        style_rust_type_to_csharp(b"Box<[Color]>")
    );
    assert_eq!(s(style_rust_type_to_csharp(b"Vec<Color>")), "List<object>?");
}

#[test]
fn name_conversion() {
    assert_eq!(s(to_camel_case(b"font_size")), "fontSize");
    assert_eq!(s(to_camel_case(b"already")), "already");
    assert_eq!(s(to_camel_case(b"two_word_name")), "twoWordName");
    assert_eq!(s(to_pascal_case(b"font_size")), "FontSize");
    assert_eq!(s(to_pascal_case(b"x")), "X");
    assert_eq!(s(to_camel_case(b"")), "");
}

const ALPHA_BETA: &[u8] = b"pub struct AlphaNode {\n    pub x: i32,\n}\n\npub struct BetaNode {\n    pub y: f32,\n}\n\npub enum NodeKind {\n    Alpha(AlphaNode),\n    Beta(BetaNode),\n}\n";

#[test]
fn discriminators_and_supertypes() {
    let mut g = CSharpGenerator::new();
    assert!(g.parse_file(ALPHA_BETA));
    let out = s(g.generate(&Vec::new()));
    assert_eq!(count_occurrences(&out, "[JsonDerivedType"), 2);
    assert!(out.contains("[JsonDerivedType(typeof(AlphaNode), \"alpha\")]"));
    assert!(out.contains("[JsonDerivedType(typeof(BetaNode), \"beta\")]"));
    assert!(out.contains("public abstract class Node { }"));
    assert!(out.contains("public class AlphaNode : Node"));
    assert!(out.contains("public class BetaNode : Node"));
    assert!(out.contains("[JsonPolymorphic(TypeDiscriminatorPropertyName = \"type\")]"));
}

#[test]
fn classes_are_emitted_in_name_order_not_file_order() {
    let zeta_first: &[u8] = b"pub struct ZetaNode {\n    pub z: u32,\n}\npub struct AlphaNode {\n    pub a: u32,\n}\n";
    let mut g = CSharpGenerator::new();
    assert!(g.parse_file(zeta_first));
    let out = s(g.generate(&Vec::new()));
    let alpha_at = out.find("public class AlphaNode").unwrap();
    let zeta_at = out.find("public class ZetaNode").unwrap();
    assert!(alpha_at < zeta_at);

    // the same declarations split over two files, fed in either order
    let f1: &[u8] = b"pub struct ZetaNode {\n    pub z: u32,\n}\n";
    let f2: &[u8] = b"pub struct AlphaNode {\n    pub a: u32,\n}\n";
    let mut g1 = CSharpGenerator::new();
    assert!(g1.parse_file(f1));
    assert!(g1.parse_file(f2));
    let mut g2 = CSharpGenerator::new();
    assert!(g2.parse_file(f2));
    assert!(g2.parse_file(f1));
    assert_eq!(g1.generate(&Vec::new()), g2.generate(&Vec::new()));
}

#[test]
fn wrong_suffix_never_appears() {
    let text: &[u8] = b"pub struct PlainRecord {\n    pub a: u32,\n}\npub enum Choice {\n    One,\n    Two,\n}\npub struct RealNode {\n    pub b: u32,\n}\n";
    let mut g = CSharpGenerator::new();
    assert!(g.parse_file(text));
    let out = s(g.generate(&Vec::new()));
    assert!(!out.contains("PlainRecord"));
    assert!(!out.contains("Choice"));
    assert!(out.contains("public class RealNode"));
}

#[test]
fn style_macro_body_with_blank_comment_and_property_lines() {
    let sheet: &[u8] = b"define_style!(\n\n    // presentation properties\n    opacity: f32,\n);\n";
    let props = parse_style_properties(sheet);
    assert_eq!(props.len(), 1);
    assert_eq!(props[0].name, b"opacity".to_vec());
    assert_eq!(props[0].rust_type, b"f32".to_vec());
    assert_eq!(props[0].csharp_type, b"float?".to_vec());
}

#[test]
fn style_property_with_conditional_clause() {
    let sheet: &[u8] = b"define_style!(\n    color: Option<Color> where inherit = true,\n    width: LengthUnit,\n);\n";
    let props = parse_style_properties(sheet);
    assert_eq!(props.len(), 2);
    assert_eq!(props[0].name, b"color".to_vec());
    assert_eq!(props[0].rust_type, b"Option<Color>".to_vec());
    assert_eq!(props[0].csharp_type, b"object?".to_vec());
    assert_eq!(props[1].rust_type, b"LengthUnit".to_vec());
}

#[test]
fn absent_style_macro_yields_empty_list() {
    assert_eq!(parse_style_properties(b"no macro here").len(), 0);
    assert_eq!(parse_style_properties(b"").len(), 0);
    // an unterminated invocation is treated the same way
    assert_eq!(parse_style_properties(b"define_style!(\n    a: f32,\n").len(), 0);
}

#[test]
fn malformed_file_is_skipped_but_good_file_still_generates() {
    let broken: &[u8] = b"pub struct BrokenNode {\n    pub a: u32,\n";
    let good: &[u8] = b"pub struct GoodNode {\n    pub b: u32,\n}\n";
    let mut g = CSharpGenerator::new();
    assert!(!g.parse_file(broken));
    assert!(g.parse_file(good));
    let out = s(g.generate(&Vec::new()));
    assert!(out.contains("public class GoodNode"));
    assert!(!out.contains("BrokenNode"));
}

#[test]
fn parse_source_captures_fields_and_attrs() {
    let text: &[u8] = b"#[serde(tag = \"type\", rename_all = \"camelCase\")]\npub enum NodeKind {\n    Container { children: Nodes },\n    Image(ImageNode),\n}\n\npub struct ImageNode {\n    pub src: String,\n    pub width: Option<u32>,\n}\n";
    let (structs, enums) = parse_source(text).unwrap();
    assert_eq!(structs.len(), 1);
    assert_eq!(structs[0].name, b"ImageNode".to_vec());
    assert_eq!(structs[0].fields.len(), 2);
    assert_eq!(structs[0].fields[0].name, b"src".to_vec());
    assert_eq!(structs[0].fields[0].csharp_ty, b"string".to_vec());
    assert_eq!(structs[0].fields[1].csharp_ty, b"uint?".to_vec());
    assert_eq!(enums.len(), 1);
    assert_eq!(enums[0].name, b"NodeKind".to_vec());
    assert_eq!(enums[0].serde_attrs.tag, Some(b"type".to_vec()));
    assert_eq!(enums[0].serde_attrs.rename_all, Some(b"camelCase".to_vec()));
    assert_eq!(enums[0].variants.len(), 2);
    assert_eq!(enums[0].variants[0].name, b"Container".to_vec());
    assert_eq!(enums[0].variants[0].inner_type, None);
    assert_eq!(enums[0].variants[1].inner_type, Some(b"ImageNode".to_vec()));
}

#[test]
fn last_declaration_of_a_name_wins() {
    let first: &[u8] = b"pub struct TwinNode {\n    pub a: u32,\n}\n";
    let second: &[u8] = b"pub struct TwinNode {\n    pub b: String,\n}\n";
    let mut g = CSharpGenerator::new();
    assert!(g.parse_file(first));
    assert!(g.parse_file(second));
    assert_eq!(g.structs.len(), 1);
    let out = s(g.generate(&Vec::new()));
    assert!(out.contains("public string B { get; set; } = string.Empty;"));
    assert!(!out.contains("public uint? A"));
}

#[test]
fn child_collections_resolve_to_a_discovered_union_base() {
    let text: &[u8] = b"pub enum NodeKind {\n    Box(BoxNode),\n}\npub struct BoxNode {\n    pub children: Nodes,\n}\n";
    let mut g = CSharpGenerator::new();
    assert!(g.parse_file(text));
    let out = s(g.generate(&Vec::new()));
    assert!(out.contains("public List<Node>? Children { get; set; }"));
}

#[test]
fn variant_without_inner_type_appends_node_suffix() {
    let text: &[u8] = b"pub enum WidgetKind {\n    Spacer,\n    Label(LabelNode),\n}\npub struct SpacerNode {\n    pub gap: u32,\n}\n";
    let mut g = CSharpGenerator::new();
    assert!(g.parse_file(text));
    let out = s(g.generate(&Vec::new()));
    assert!(out.contains("[JsonDerivedType(typeof(SpacerNode), \"spacer\")]"));
    assert!(out.contains("[JsonDerivedType(typeof(LabelNode), \"label\")]"));
    assert!(out.contains("public abstract class Widget { }"));
    assert!(out.contains("public class SpacerNode : Widget"));
}

#[test]
fn generic_inner_type_is_cut_at_the_parameter_marker() {
    let text: &[u8] = b"pub enum NodeKind {\n    Container(ContainerNode<NodeKind>),\n}\n";
    let mut g = CSharpGenerator::new();
    assert!(g.parse_file(text));
    let out = s(g.generate(&Vec::new()));
    assert!(out.contains("[JsonDerivedType(typeof(ContainerNode), \"container\")]"));
}

#[test]
fn output_sections_are_always_present() {
    let g = CSharpGenerator::new();
    let out = s(g.generate(&Vec::new()));
    assert!(out.starts_with("// <auto-generated>"));
    assert!(out.contains("#nullable enable"));
    assert!(out.contains("using System.Text.Json.Serialization;"));
    assert!(out.contains("namespace TakumiSharp.Models;"));
    assert!(out.contains("public class Style"));
    assert!(out.contains("public class TailwindValues"));
    assert!(out.contains("public class TailwindValuesConverter : JsonConverter<TailwindValues>"));
}

#[test]
fn style_properties_are_emitted_with_serialization_names() {
    let sheet: &[u8] = b"define_style!(\n    font_size: f32,\n);\n";
    let props = parse_style_properties(sheet);
    let g = CSharpGenerator::new();
    let out = s(g.generate(&props));
    assert!(out.contains("[JsonPropertyName(\"fontSize\")]"));
    assert!(out.contains("public float? FontSize { get; set; }"));
}

#[test]
fn viewport_axis_treats_negative_extents_as_auto() {
    assert_eq!(viewport_axis(-1), None);
    assert_eq!(viewport_axis(0), Some(0));
    assert_eq!(viewport_axis(800), Some(800));
}

#[test]
fn image_format_variants_exist() {
    let formats = [
        ImageFormat::Png,
        ImageFormat::Jpeg,
        ImageFormat::Gif,
        ImageFormat::WebP,
        ImageFormat::Pnm,
        ImageFormat::Tiff,
        ImageFormat::Tga,
        ImageFormat::Dds,
        ImageFormat::Bmp,
        ImageFormat::Ico,
        ImageFormat::Hdr,
        ImageFormat::OpenExr,
        ImageFormat::Farbfeld,
        ImageFormat::Avif,
        ImageFormat::Qoi,
    ];
    assert_eq!(formats.len(), 15);
}
