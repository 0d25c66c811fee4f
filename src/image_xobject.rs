//! A decoded signature image as PDF Image XObjects: a colour plane and, where
//! the PNG has alpha, a separate soft mask.
use crate::error::Error;
use crate::pdf_value::{
    entry, is_integer, is_name, is_real, is_reference, keys_of, name, utf8_of, ObjectId, PdfValue,
};
use vstd::prelude::*;

verus! {

/// How the samples of a pixel are laid out.
#[derive(Debug, Clone, Copy, PartialEq, Eq, Structural)]
pub enum ColorType {
    Grayscale,
    Rgb,
    Indexed,
    GrayscaleAlpha,
    Rgba,
}

impl ColorType {
    /// The colour type that a PNG header code stands for.
    pub fn from_png_code(code: u8) -> (r: Option<ColorType>)
        ensures
            r == color_type_of_code(code),
    {
        match code {
            0 => Some(ColorType::Grayscale),
            2 => Some(ColorType::Rgb),
            3 => Some(ColorType::Indexed),
            4 => Some(ColorType::GrayscaleAlpha),
            6 => Some(ColorType::Rgba),
            _ => None,
        }
    }
}

/// The colour type of a PNG header code.
pub open spec fn color_type_of_code(code: u8) -> Option<ColorType> {
    if code == 0 {
        Some(ColorType::Grayscale)
    } else if code == 2 {
        Some(ColorType::Rgb)
    } else if code == 3 {
        Some(ColorType::Indexed)
    } else if code == 4 {
        Some(ColorType::GrayscaleAlpha)
    } else if code == 6 {
        Some(ColorType::Rgba)
    } else {
        None
    }
}

/// The colour samples of complete RGBA pixels, alpha left out.
pub open spec fn rgb_plane(d: Seq<u8>) -> Seq<u8> {
    Seq::new((d.len() / 4 * 3) as nat, |i: int| d[(i / 3) * 4 + i % 3])
}

/// The alpha samples of complete RGBA pixels.
pub open spec fn rgba_alpha_plane(d: Seq<u8>) -> Seq<u8> {
    Seq::new(d.len() / 4, |i: int| d[4 * i + 3])
}

/// The gray samples of complete gray-alpha pixels.
pub open spec fn gray_plane(d: Seq<u8>) -> Seq<u8> {
    Seq::new(d.len() / 2, |i: int| d[2 * i])
}

/// The alpha samples of complete gray-alpha pixels.
pub open spec fn gray_alpha_plane(d: Seq<u8>) -> Seq<u8> {
    Seq::new(d.len() / 2, |i: int| d[2 * i + 1])
}

/// One decoded frame of a PNG image.
#[derive(Debug, Clone)]
pub struct DecodedFrame {
    pub width: u32,
    pub height: u32,
    pub color_type: ColorType,
    pub bit_depth: u8,
    /// The samples, row after row.
    pub data: Vec<u8>,
}

/// An Image XObject: the raw samples with the header that a PDF reader needs.
#[derive(Debug, Clone)]
pub struct ImageXObject {
    /// Width of the image in pixels (not its scaled width).
    pub width: u32,
    /// Height of the image in pixels (not its scaled height).
    pub height: u32,
    pub color_space: ColorType,
    /// Bits per colour component: 1, 2, 4, 8 or 16.
    pub bits_per_component: u8,
    /// Whether the image is interpolated when scaled.
    pub interpolate: bool,
    pub image_data: Vec<u8>,
    /// The soft mask (transparency) of the image, once it has an object.
    pub s_mask: Option<ObjectId>,
}

/// Keeps every fourth byte out: the colour of RGBA pixels of bit depth 8.
pub fn rgba_to_rgb(data: &[u8]) -> (r: Vec<u8>)
    ensures
        r@ == rgb_plane(data@),
{
    let mut output: Vec<u8> = Vec::new();
    let mut p: usize = 0;
    let pixels = data.len() / 4;
    let _len = data.len();
    while p < pixels
        invariant
            pixels == data@.len() / 4,
            data@.len() <= usize::MAX,
            p <= pixels,
            output@ == rgb_plane(data@.subrange(0, 4 * p as int)),
        decreases pixels - p,
    {
        assert(4 * p + 4 <= data@.len()) by (nonlinear_arith)
            requires
                p < pixels,
                pixels == data@.len() / 4,
        ;
        output.push(data[4 * p]);
        output.push(data[4 * p + 1]);
        output.push(data[4 * p + 2]);
        p = p + 1;
        assert(output@ =~= rgb_plane(data@.subrange(0, 4 * p as int)));
    }
    assert(rgb_plane(data@.subrange(0, 4 * p as int)) =~= rgb_plane(data@));
    output
}

/// The alpha bytes of RGBA pixels of bit depth 8.
pub fn rgba_to_a(data: &[u8]) -> (r: Vec<u8>)
    ensures
        r@ == rgba_alpha_plane(data@),
{
    let mut output: Vec<u8> = Vec::new();
    let mut p: usize = 0;
    let pixels = data.len() / 4;
    let _len = data.len();
    while p < pixels
        invariant
            pixels == data@.len() / 4,
            data@.len() <= usize::MAX,
            p <= pixels,
            output@ == rgba_alpha_plane(data@.subrange(0, 4 * p as int)),
        decreases pixels - p,
    {
        assert(4 * p + 4 <= data@.len()) by (nonlinear_arith)
            requires
                p < pixels,
                pixels == data@.len() / 4,
        ;
        output.push(data[4 * p + 3]);
        p = p + 1;
        assert(output@ =~= rgba_alpha_plane(data@.subrange(0, 4 * p as int)));
    }
    assert(rgba_alpha_plane(data@.subrange(0, 4 * p as int)) =~= rgba_alpha_plane(data@));
    output
}

/// Picks one byte of every pair: the gray (`offset` 0) or the alpha (`offset`
/// 1) of gray-alpha pixels of bit depth 8.
fn every_second(data: &[u8], offset: usize) -> (r: Vec<u8>)
    requires
        offset < 2,
    ensures
        r@ == Seq::new(data@.len() / 2, |i: int| data@[2 * i + offset]),
{
    let mut output: Vec<u8> = Vec::new();
    let mut p: usize = 0;
    let pixels = data.len() / 2;
    let _len = data.len();
    while p < pixels
        invariant
            pixels == data@.len() / 2,
            data@.len() <= usize::MAX,
            offset < 2,
            p <= pixels,
            output@ == Seq::new(p as nat, |i: int| data@[2 * i + offset]),
        decreases pixels - p,
    {
        assert(2 * p + 2 <= data@.len()) by (nonlinear_arith)
            requires
                p < pixels,
                pixels == data@.len() / 2,
        ;
        output.push(data[2 * p + offset]);
        p = p + 1;
        assert(output@ =~= Seq::new(p as nat, |i: int| data@[2 * i + offset]));
    }
    output
}

/// The gray bytes of gray-alpha pixels of bit depth 8.
pub fn grayscale_alpha_to_grayscale(data: &[u8]) -> (r: Vec<u8>)
    ensures
        r@ == gray_plane(data@),
{
    let r = every_second(data, 0);
    assert(r@ =~= gray_plane(data@));
    r
}

/// The alpha bytes of gray-alpha pixels of bit depth 8.
pub fn grayscale_alpha_to_a(data: &[u8]) -> (r: Vec<u8>)
    ensures
        r@ == gray_alpha_plane(data@),
{
    let r = every_second(data, 1);
    assert(r@ =~= gray_alpha_plane(data@));
    r
}

/// The PDF colour space name of a colour type.
pub open spec fn color_space_name(c: ColorType) -> &'static str {
    match c {
        ColorType::Rgb => "DeviceRGB",
        ColorType::Grayscale => "DeviceGray",
        ColorType::Indexed => "Indexed",
        ColorType::Rgba | ColorType::GrayscaleAlpha => "DeviceN",
    }
}

/// The colour type has a separate alpha sample.
pub open spec fn has_alpha(c: ColorType) -> bool {
    c == ColorType::Rgba || c == ColorType::GrayscaleAlpha
}

/// The first frame that PNG decoding gives for `b`: width, height, colour
/// type code, bit depth and samples.
pub uninterp spec fn png_frame(b: Seq<u8>) -> Option<(u32, u32, u8, u8, Seq<u8>)>;

/// `color` and `alpha` are what a frame of this header and these samples
/// splits into: the colour image and, where the frame has alpha, a grayscale
/// image of the alpha that will serve as its soft mask.
pub open spec fn is_split(
    width: u32,
    height: u32,
    color_type: ColorType,
    bit_depth: u8,
    data: Seq<u8>,
    color: ImageXObject,
    alpha: Option<ImageXObject>,
) -> bool {
    &&& color.width == width && color.height == height
    &&& color.bits_per_component == bit_depth
    &&& !color.interpolate && color.s_mask is None
    &&& match color_type {
        ColorType::Rgba => color.color_space == ColorType::Rgb && color.image_data@ == rgb_plane(
            data,
        ) && alpha is Some,
        ColorType::GrayscaleAlpha => color.color_space == ColorType::Grayscale
            && color.image_data@ == gray_plane(data) && alpha is Some,
        _ => color.color_space == color_type && color.image_data@ == data && alpha is None,
    }
    &&& alpha matches Some(a) ==> {
        &&& a.width == width && a.height == height
        &&& a.bits_per_component == bit_depth
        &&& a.color_space == ColorType::Grayscale
        &&& !a.interpolate && a.s_mask is None
        &&& color_type == ColorType::Rgba ==> a.image_data@ == rgba_alpha_plane(data)
        &&& color_type == ColorType::GrayscaleAlpha ==> a.image_data@ == gray_alpha_plane(data)
    }
}

/// Relies on the png crate's `Decoder`: reads the header and the first frame,
/// and gives the frame's size, colour type code, bit depth and samples; the
/// same bytes always decode the same way.
#[verifier::external_body]
fn decode_png(png_bytes: &[u8]) -> (r: Option<(u32, u32, u8, u8, Vec<u8>)>)
    ensures
        r matches Some((w, h, c, d, data)) ==> png_frame(png_bytes@) == Some((w, h, c, d, data@)),
        r is None ==> png_frame(png_bytes@) is None,
{
    let mut reader = png::Decoder::new(png_bytes).read_info().ok()?;
    let mut buf = vec![0; reader.output_buffer_size()];
    let info = reader.next_frame(&mut buf).ok()?;
    buf.truncate(info.buffer_size());
    Some((info.width, info.height, info.color_type as u8, info.bit_depth as u8, buf))
}

impl ImageXObject {
    /// An image with the given header and samples, not interpolated, no mask yet.
    fn plane(frame: &DecodedFrame, color_space: ColorType, image_data: Vec<u8>) -> (r: Self)
        ensures
            r.width == frame.width,
            r.height == frame.height,
            r.color_space == color_space,
            r.bits_per_component == frame.bit_depth,
            !r.interpolate,
            r.image_data@ == image_data@,
            r.s_mask is None,
    {
        ImageXObject {
            width: frame.width,
            height: frame.height,
            color_space,
            bits_per_component: frame.bit_depth,
            interpolate: false,
            image_data,
            s_mask: None,
        }
    }

    /// Splits a decoded frame into a colour image and, where the frame has
    /// alpha, a grayscale image of the alpha that will serve as its soft mask.
    /// Alpha is split only at bit depth 8.
    pub fn from_frame(frame: &DecodedFrame) -> (r: Result<(Self, Option<Self>), Error>)
        ensures
            has_alpha(frame.color_type) && frame.bit_depth != 8 <==> (r matches Err(
                Error::ImageDecodeError,
            )),
            r is Ok <==> !has_alpha(frame.color_type) || frame.bit_depth == 8,
            r is Err ==> (r matches Err(Error::ImageDecodeError)),
            r matches Ok((color, alpha)) ==> is_split(
                frame.width,
                frame.height,
                frame.color_type,
                frame.bit_depth,
                frame.data@,
                color,
                alpha,
            ),
    {
        match frame.color_type {
            ColorType::Rgba => {
                if frame.bit_depth != 8 {
                    return Err(Error::ImageDecodeError);
                }
                let color = rgba_to_rgb(frame.data.as_slice());
                let alpha = rgba_to_a(frame.data.as_slice());
                Ok(
                    (
                        Self::plane(frame, ColorType::Rgb, color),
                        Some(Self::plane(frame, ColorType::Grayscale, alpha)),
                    ),
                )
            },
            ColorType::GrayscaleAlpha => {
                if frame.bit_depth != 8 {
                    return Err(Error::ImageDecodeError);
                }
                let color = grayscale_alpha_to_grayscale(frame.data.as_slice());
                let alpha = grayscale_alpha_to_a(frame.data.as_slice());
                Ok(
                    (
                        Self::plane(frame, ColorType::Grayscale, color),
                        Some(Self::plane(frame, ColorType::Grayscale, alpha)),
                    ),
                )
            },
            _ => {
                let data = frame.data.clone();
                Ok((Self::plane(frame, frame.color_type, data), None))
            },
        }
    }

    /// Decodes PNG bytes and splits them as [`ImageXObject::from_frame`] does.
    /// Returns 1 or 2 images: the colour image and, if present, its alpha.
    pub fn try_from(png_bytes: &[u8]) -> (r: Result<(Self, Option<Self>), Error>)
        ensures
            r is Err ==> (r matches Err(Error::ImageDecodeError)),
            match png_frame(png_bytes@) {
                None => r is Err,
                Some((w, h, code, depth, data)) => match color_type_of_code(code) {
                    None => r is Err,
                    Some(ct) => {
                        &&& r is Err <==> has_alpha(ct) && depth != 8
                        &&& r matches Ok((color, alpha)) ==> is_split(w, h, ct, depth, data, color, alpha)
                    },
                },
            },
    {
        let (width, height, code, bit_depth, data) = match decode_png(png_bytes) {
            Some(decoded) => decoded,
            None => return Err(Error::ImageDecodeError),
        };
        let color_type = match ColorType::from_png_code(code) {
            Some(color_type) => color_type,
            None => return Err(Error::ImageDecodeError),
        };
        let frame = DecodedFrame { width, height, color_type, bit_depth, data };
        Self::from_frame(&frame)
    }

    /// The Image XObject as a PDF stream: the header dictionary and the samples.
    pub fn to_pdf_value(self) -> (r: PdfValue)
        ensures
            r matches PdfValue::Stream(dict, content) && {
                &&& content@ == self.image_data@
                &&& keys_of(dict@).take(8) == seq![
                    utf8_of("Type"),
                    utf8_of("Subtype"),
                    utf8_of("Width"),
                    utf8_of("Height"),
                    utf8_of("Interpolate"),
                    utf8_of("BitsPerComponent"),
                    utf8_of("ColorSpace"),
                    utf8_of("BBox"),
                ]
                &&& is_name(dict@[0].1, utf8_of("XObject"))
                &&& is_name(dict@[1].1, utf8_of("Image"))
                &&& is_integer(dict@[2].1, self.width as int)
                &&& is_integer(dict@[3].1, self.height as int)
                &&& dict@[4].1 == PdfValue::Boolean(self.interpolate)
                &&& is_integer(dict@[5].1, self.bits_per_component as int)
                &&& is_name(dict@[6].1, utf8_of(color_space_name(self.color_space)))
                &&& dict@[7].1 matches PdfValue::Array(m) && m@.len() == 6 && is_real(m@[0], 1000)
                    && is_real(m@[1], 0) && is_real(m@[2], 0) && is_real(m@[3], 1000) && is_real(
                    m@[4],
                    0,
                ) && is_real(m@[5], 0)
                &&& self.s_mask is None ==> dict@.len() == 8
                &&& self.s_mask matches Some(id) ==> dict@.len() == 9 && dict@[8].0@ == utf8_of(
                    "SMask",
                ) && is_reference(dict@[8].1, id)
            },
    {
        let cs = match self.color_space {
            ColorType::Rgb => "DeviceRGB",
            ColorType::Grayscale => "DeviceGray",
            ColorType::Indexed => "Indexed",
            ColorType::Rgba | ColorType::GrayscaleAlpha => "DeviceN",
        };
        let identity_matrix = vec![
            PdfValue::Real(1000),
            PdfValue::Real(0),
            PdfValue::Real(0),
            PdfValue::Real(1000),
            PdfValue::Real(0),
            PdfValue::Real(0),
        ];
        let mut dict = vec![
            entry("Type", name("XObject")),
            entry("Subtype", name("Image")),
            entry("Width", PdfValue::Integer(self.width as i64)),
            entry("Height", PdfValue::Integer(self.height as i64)),
            entry("Interpolate", PdfValue::Boolean(self.interpolate)),
            entry("BitsPerComponent", PdfValue::Integer(self.bits_per_component as i64)),
            entry("ColorSpace", name(cs)),
            entry("BBox", PdfValue::Array(identity_matrix)),
        ];
        if let Some(s_mask) = self.s_mask {
            dict.push(entry("SMask", PdfValue::Reference(s_mask)));
        }
        PdfValue::Stream(dict, self.image_data)
    }
}

} // verus!
