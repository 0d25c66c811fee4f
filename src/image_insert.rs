//! A Form XObject that draws a signature image scaled to its rectangle.
use crate::pdf_value::{
    bytes_of, entry, is_integer, is_name, is_real, is_reference, keys_of, name, utf8_of,
    ObjectId, PdfValue,
};
use crate::rectangle::Rectangle;
use vstd::prelude::*;

verus! {

/// One operation of a content stream: its operands, then its operator.
#[derive(Debug)]
pub struct ContentOperation {
    pub operator: Vec<u8>,
    pub operands: Vec<PdfValue>,
}

/// A Form XObject: its dictionary and the operations of its content stream.
#[derive(Debug)]
pub struct FormXObject {
    pub dict: Vec<(Vec<u8>, PdfValue)>,
    pub operations: Vec<ContentOperation>,
}

/// The form's content: save the state, scale to `w` by `h`, draw `image_name`,
/// restore.
pub open spec fn draws_scaled(ops: Seq<ContentOperation>, image_name: Seq<u8>, w: int, h: int) -> bool {
    &&& ops.len() == 4
    &&& ops[0].operator@ == utf8_of("q") && ops[0].operands@.len() == 0
    &&& ops[1].operator@ == utf8_of("cm") && ops[1].operands@.len() == 6
    &&& is_real(ops[1].operands@[0], w) && is_integer(ops[1].operands@[1], 0)
    &&& is_integer(ops[1].operands@[2], 0) && is_real(ops[1].operands@[3], h)
    &&& is_integer(ops[1].operands@[4], 0) && is_integer(ops[1].operands@[5], 0)
    &&& ops[2].operator@ == utf8_of("Do") && ops[2].operands@.len() == 1
    &&& is_name(ops[2].operands@[0], image_name)
    &&& ops[3].operator@ == utf8_of("Q") && ops[3].operands@.len() == 0
}

fn operation(operator: &str, operands: Vec<PdfValue>) -> (r: ContentOperation)
    ensures
        r.operator@ == utf8_of(operator),
        r.operands@ == operands@,
{
    ContentOperation { operator: bytes_of(operator), operands }
}

/// Wraps the Image XObject `image_id` in a Form XObject whose bounding box is
/// the size of `rect` and whose content draws the image, under the resource
/// name `image_name`, scaled to that size.
pub fn add_image_as_form_xobject(image_name: &str, image_id: ObjectId, rect: &Rectangle) -> (r:
    FormXObject)
    requires
        rect.wf(),
    ensures
        keys_of(r.dict@) == seq![
            utf8_of("Type"),
            utf8_of("Subtype"),
            utf8_of("Resources"),
            utf8_of("BBox"),
        ],
        is_name(r.dict@[0].1, utf8_of("XObject")),
        is_name(r.dict@[1].1, utf8_of("Form")),
        r.dict@[2].1 matches PdfValue::Dictionary(res) && res@.len() == 1 && res@[0].0@ == utf8_of(
            "XObject",
        ) && (res@[0].1 matches PdfValue::Dictionary(xo) && xo@.len() == 1 && xo@[0].0@
            == utf8_of(image_name) && is_reference(xo@[0].1, image_id)),
        r.dict@[3].1 matches PdfValue::Array(b) && b@.len() == 4 && is_integer(b@[0], 0)
            && is_integer(b@[1], 0) && is_real(b@[2], rect.x2 - rect.x1) && is_real(
            b@[3],
            rect.y2 - rect.y1,
        ),
        draws_scaled(r.operations@, utf8_of(image_name), rect.x2 - rect.x1, rect.y2 - rect.y1),
{
    let w = rect.width();
    let h = rect.height();
    let xobjects = vec![(bytes_of(image_name), PdfValue::Reference(image_id))];
    let resources = vec![entry("XObject", PdfValue::Dictionary(xobjects))];
    let bbox = vec![PdfValue::Integer(0), PdfValue::Integer(0), PdfValue::Real(w), PdfValue::Real(h)];
    let dict = vec![
        entry("Type", name("XObject")),
        entry("Subtype", name("Form")),
        entry("Resources", PdfValue::Dictionary(resources)),
        entry("BBox", PdfValue::Array(bbox)),
    ];
    let scale = vec![
        PdfValue::Real(w),
        PdfValue::Integer(0),
        PdfValue::Integer(0),
        PdfValue::Real(h),
        PdfValue::Integer(0),
        PdfValue::Integer(0),
    ];
    let operations = vec![
        operation("q", Vec::new()),
        operation("cm", scale),
        operation("Do", vec![PdfValue::Name(bytes_of(image_name))]),
        operation("Q", Vec::new()),
    ];
    FormXObject { dict, operations }
}

} // verus!
