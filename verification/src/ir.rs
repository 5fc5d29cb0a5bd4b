//! The intermediate representation: record declarations, tagged-union
//! declarations and style properties, as captured from source text. Entries
//! are created during scanning, read during emission, and never mutated in
//! between.

use vstd::prelude::*;

verus! {

/// Attributes captured from a declaration's serialization attribute line.
/// They are recorded with the declaration; emission does not read them.
#[derive(Clone)]
pub struct SerdeAttrs {
    pub tag: Option<Vec<u8>>,
    pub rename_all: Option<Vec<u8>>,
}

#[verifier::ext_equal]
pub ghost struct SerdeAttrsV {
    pub tag: Option<Seq<u8>>,
    pub rename_all: Option<Seq<u8>>,
}

impl View for SerdeAttrs {
    type V = SerdeAttrsV;

    open spec fn view(&self) -> SerdeAttrsV {
        SerdeAttrsV {
            tag: match self.tag {
                Some(t) => Some(t@),
                None => None,
            },
            rename_all: match self.rename_all {
                Some(t) => Some(t@),
                None => None,
            },
        }
    }
}

impl SerdeAttrs {
    pub fn none() -> (r: SerdeAttrs)
        ensures
            r@ == (SerdeAttrsV { tag: None, rename_all: None }),
    {
        SerdeAttrs { tag: None, rename_all: None }
    }
}

/// One field of a record declaration: source name, raw source signature with
/// whitespace removed, and the mapped target type.
#[derive(Clone)]
pub struct FieldDef {
    pub name: Vec<u8>,
    pub ty: Vec<u8>,
    pub csharp_ty: Vec<u8>,
}

#[verifier::ext_equal]
pub ghost struct FieldV {
    pub name: Seq<u8>,
    pub ty: Seq<u8>,
    pub csharp_ty: Seq<u8>,
}

impl View for FieldDef {
    type V = FieldV;

    open spec fn view(&self) -> FieldV {
        FieldV { name: self.name@, ty: self.ty@, csharp_ty: self.csharp_ty@ }
    }
}

/// One record declaration, in declaration order of its fields.
#[derive(Clone)]
pub struct StructDef {
    pub name: Vec<u8>,
    pub fields: Vec<FieldDef>,
    pub serde_attrs: SerdeAttrs,
}

#[verifier::ext_equal]
pub ghost struct StructV {
    pub name: Seq<u8>,
    pub fields: Seq<FieldV>,
    pub serde_attrs: SerdeAttrsV,
}

impl View for StructDef {
    type V = StructV;

    open spec fn view(&self) -> StructV {
        StructV {
            name: self.name@,
            fields: self.fields@.map_values(|f: FieldDef| f@),
            serde_attrs: self.serde_attrs@,
        }
    }
}

/// One variant of a tagged-union declaration. The inner signature is present
/// only when the variant carries exactly one unnamed positional field.
#[derive(Clone)]
pub struct EnumVariant {
    pub name: Vec<u8>,
    pub inner_type: Option<Vec<u8>>,
}

#[verifier::ext_equal]
pub ghost struct EnumVariantV {
    pub name: Seq<u8>,
    pub inner_type: Option<Seq<u8>>,
}

impl View for EnumVariant {
    type V = EnumVariantV;

    open spec fn view(&self) -> EnumVariantV {
        EnumVariantV {
            name: self.name@,
            inner_type: match self.inner_type {
                Some(t) => Some(t@),
                None => None,
            },
        }
    }
}

/// One tagged-union declaration, variants in declaration order.
#[derive(Clone)]
pub struct EnumDef {
    pub name: Vec<u8>,
    pub variants: Vec<EnumVariant>,
    pub serde_attrs: SerdeAttrs,
}

#[verifier::ext_equal]
pub ghost struct EnumV {
    pub name: Seq<u8>,
    pub variants: Seq<EnumVariantV>,
    pub serde_attrs: SerdeAttrsV,
}

impl View for EnumDef {
    type V = EnumV;

    open spec fn view(&self) -> EnumV {
        EnumV {
            name: self.name@,
            variants: self.variants@.map_values(|v: EnumVariant| v@),
            serde_attrs: self.serde_attrs@,
        }
    }
}

/// One style property: source name, raw signature, mapped target type. Style
/// properties are always nullable; an absent value means "inherit or unset".
#[derive(Clone)]
pub struct StyleProperty {
    pub name: Vec<u8>,
    pub rust_type: Vec<u8>,
    pub csharp_type: Vec<u8>,
}

#[verifier::ext_equal]
pub ghost struct StylePropertyV {
    pub name: Seq<u8>,
    pub rust_type: Seq<u8>,
    pub csharp_type: Seq<u8>,
}

impl View for StyleProperty {
    type V = StylePropertyV;

    open spec fn view(&self) -> StylePropertyV {
        StylePropertyV {
            name: self.name@,
            rust_type: self.rust_type@,
            csharp_type: self.csharp_type@,
        }
    }
}

} // verus!
