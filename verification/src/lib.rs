//! Build-time generator that turns the layout library's node and style
//! declarations into C# model classes with JSON serialization attributes,
//! together with the plain value types that the native rendering interface
//! exchanges with its callers.

pub mod bytes;
pub mod emit;
pub mod ir;
pub mod mapper;
pub mod names;
pub mod parser;
pub mod styles;

use vstd::prelude::*;

verus! {

/// The image encodings that the renderer can produce.
pub enum ImageFormat {
    /// An Image in PNG Format
    Png,
    /// An Image in JPEG Format
    Jpeg,
    /// An Image in GIF Format
    Gif,
    /// An Image in WEBP Format
    WebP,
    /// An Image in general PNM Format
    Pnm,
    /// An Image in TIFF Format
    Tiff,
    /// An Image in TGA Format
    Tga,
    /// An Image in DDS Format
    Dds,
    /// An Image in BMP Format
    Bmp,
    /// An Image in ICO Format
    Ico,
    /// An Image in Radiance HDR Format
    Hdr,
    /// An Image in OpenEXR Format
    OpenExr,
    /// An Image in farbfeld Format
    Farbfeld,
    /// An Image in AVIF Format
    Avif,
    /// An Image in QOI Format
    Qoi,
}

/// One viewport axis as it crosses the native interface: a negative extent
/// stands for "auto", a non-negative one for that many pixels.
pub fn viewport_axis(v: i32) -> (r: Option<u32>)
    ensures
        v < 0 ==> r is None,
        v >= 0 ==> r == Some(v as u32),
{
    if v < 0 {
        None
    } else {
        Some(v as u32)
    }
}

} // verus!
