use pdf_signing::image_insert::add_image_as_form_xobject;
use pdf_signing::image_xobject::{
    grayscale_alpha_to_a, grayscale_alpha_to_grayscale, rgba_to_a, rgba_to_rgb, ColorType,
    DecodedFrame,
};
use pdf_signing::pdf_value::{ObjectId, PdfValue};
use pdf_signing::rectangle::Rectangle;
use pdf_signing::{Error, ImageXObject};

fn png_bytes(color: png::ColorType, width: u32, height: u32, data: &[u8]) -> Vec<u8> {
    let mut out = Vec::new();
    {
        let mut encoder = png::Encoder::new(&mut out, width, height);
        encoder.set_color(color);
        encoder.set_depth(png::BitDepth::Eight);
        let mut writer = encoder.write_header().unwrap();
        writer.write_image_data(data).unwrap();
    }
    out
}

#[test]
fn rgba_planes() {
    let data = [1u8, 2, 3, 4, 5, 6, 7, 8, 9];
    assert_eq!(rgba_to_rgb(&data), vec![1, 2, 3, 5, 6, 7]);
    assert_eq!(rgba_to_a(&data), vec![4, 8]);
}

#[test]
fn gray_alpha_planes() {
    let data = [10u8, 200, 20, 100, 30];
    assert_eq!(grayscale_alpha_to_grayscale(&data), vec![10, 20]);
    assert_eq!(grayscale_alpha_to_a(&data), vec![200, 100]);
}

#[test]
fn png_rgba_splits_into_color_and_mask() {
    let pixels = [255u8, 0, 0, 128, 0, 255, 0, 64];
    let png = png_bytes(png::ColorType::Rgba, 2, 1, &pixels);
    let (color, alpha) = ImageXObject::try_from(&png).unwrap();
    assert_eq!(color.width, 2);
    assert_eq!(color.height, 1);
    assert_eq!(color.color_space, ColorType::Rgb);
    assert_eq!(color.bits_per_component, 8);
    assert_eq!(color.image_data, vec![255, 0, 0, 0, 255, 0]);
    let alpha = alpha.unwrap();
    assert_eq!(alpha.color_space, ColorType::Grayscale);
    assert_eq!(alpha.image_data, vec![128, 64]);
    assert!(color.s_mask.is_none());
}

#[test]
fn png_rgb_passes_through() {
    let pixels = [1u8, 2, 3, 4, 5, 6];
    let png = png_bytes(png::ColorType::Rgb, 1, 2, &pixels);
    let (color, alpha) = ImageXObject::try_from(&png).unwrap();
    assert_eq!(color.color_space, ColorType::Rgb);
    assert_eq!(color.image_data, pixels.to_vec());
    assert!(alpha.is_none());
}

#[test]
fn not_a_png_is_decode_error() {
    assert!(matches!(ImageXObject::try_from(b"not a png"), Err(Error::ImageDecodeError)));
}

#[test]
fn alpha_needs_bit_depth_eight() {
    let frame = DecodedFrame {
        width: 1,
        height: 1,
        color_type: ColorType::Rgba,
        bit_depth: 16,
        data: vec![0; 8],
    };
    assert!(matches!(ImageXObject::from_frame(&frame), Err(Error::ImageDecodeError)));
}

#[test]
fn image_stream_dictionary() {
    let image = ImageXObject {
        width: 3,
        height: 2,
        color_space: ColorType::Grayscale,
        bits_per_component: 8,
        interpolate: false,
        image_data: vec![9; 6],
        s_mask: Some(ObjectId { number: 7, generation: 0 }),
    };
    match image.to_pdf_value() {
        PdfValue::Stream(dict, content) => {
            assert_eq!(content, vec![9; 6]);
            let keys: Vec<&[u8]> = dict.iter().map(|(k, _)| k.as_slice()).collect();
            assert_eq!(
                keys,
                vec![
                    &b"Type"[..],
                    b"Subtype",
                    b"Width",
                    b"Height",
                    b"Interpolate",
                    b"BitsPerComponent",
                    b"ColorSpace",
                    b"BBox",
                    b"SMask"
                ]
            );
            assert!(matches!(&dict[6].1, PdfValue::Name(n) if n == b"DeviceGray"));
            assert!(matches!(&dict[2].1, PdfValue::Integer(3)));
            assert!(matches!(&dict[8].1, PdfValue::Reference(ObjectId { number: 7, generation: 0 })));
        }
        other => panic!("unexpected: {:?}", other),
    }
}

#[test]
fn form_xobject_scales_to_rectangle() {
    let rect = Rectangle { x1: 100_000, y1: 50_000, x2: 300_500, y2: 90_000 };
    let form = add_image_as_form_xobject("UserSignature9", ObjectId { number: 12, generation: 0 }, &rect);
    assert!(matches!(&form.dict[3].1, PdfValue::Array(b) if matches!(b[2], PdfValue::Real(200_500)) && matches!(b[3], PdfValue::Real(40_000))));
    let ops: Vec<&[u8]> = form.operations.iter().map(|o| o.operator.as_slice()).collect();
    assert_eq!(ops, vec![&b"q"[..], b"cm", b"Do", b"Q"]);
    assert!(matches!(form.operations[1].operands[0], PdfValue::Real(200_500)));
    assert!(matches!(form.operations[1].operands[3], PdfValue::Real(40_000)));
    assert!(matches!(&form.operations[2].operands[0], PdfValue::Name(n) if n == b"UserSignature9"));
}
