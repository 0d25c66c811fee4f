//! Reading the user binding of a signature field and finding where its
//! signature image goes.
use crate::acro_form::Widget;
use crate::rectangle::Rectangle;
use crate::user_signature_info::UserFormSignatureInfo;
use vstd::prelude::*;

verus! {

/// What base64 decoding (standard alphabet) gives for the text `s`.
pub uninterp spec fn base64_decoded(s: Seq<u8>) -> Option<Seq<u8>>;

/// The `userId` string of the JSON object that `b` encodes.
pub uninterp spec fn json_user_id(b: Seq<u8>) -> Option<Seq<char>>;

/// Relies on `base64::decode` (0.13, standard alphabet): the bytes that the
/// text encodes, or an error.
#[verifier::external_body]
fn decode_base64(s: &[u8]) -> (r: Option<Vec<u8>>)
    ensures
        r matches Some(b) ==> base64_decoded(s@) == Some(b@),
        r is None ==> base64_decoded(s@) is None,
{
    base64::decode(s).ok()
}

/// Relies on `serde_json::from_slice` into a `serde_json::Value`, then
/// `Value::get("userId")` and `Value::as_str`: the user id when `b` is JSON
/// text of an object whose `userId` is a string.
#[verifier::external_body]
fn parse_user_id(b: &[u8]) -> (r: Option<String>)
    ensures
        r matches Some(s) ==> json_user_id(b@) == Some(s@),
        r is None ==> json_user_id(b@) is None,
{
    let value: serde_json::Value = serde_json::from_slice(b).ok()?;
    value.get("userId")?.as_str().map(|s| s.to_owned())
}

/// The user id that a field's partial name binds it to.
pub open spec fn field_user_id(partial_name: Seq<u8>) -> Option<Seq<char>> {
    match base64_decoded(partial_name) {
        Some(json) => json_user_id(json),
        None => None,
    }
}

/// Decodes a field's partial name as base64 of `{"userId": "..."}`. `None`
/// where it is not: the field may have been made by another tool.
pub fn decode_field_meta(partial_name: &[u8]) -> (r: Option<UserFormSignatureInfo>)
    ensures
        r matches Some(info) ==> field_user_id(partial_name@) == Some(info.user_id@),
        r is None ==> field_user_id(partial_name@) is None,
{
    let json = match decode_base64(partial_name) {
        Some(json) => json,
        None => return None,
    };
    match parse_user_id(json.as_slice()) {
        Some(user_id) => Some(UserFormSignatureInfo { user_id }),
        None => None,
    }
}

/// The rectangle of the first annotation child with a usable `/Rect`.
pub open spec fn first_rectangle(kids: Seq<Widget>) -> Option<Rectangle>
    decreases kids.len(),
{
    if kids.len() == 0 {
        None
    } else {
        match (if kids[0].is_annotation {
            match kids[0].rect {
                Some(r) => normalized(r),
                None => None,
            }
        } else {
            None
        }) {
            Some(r) => Some(r),
            None => first_rectangle(kids.skip(1)),
        }
    }
}

/// A rectangle given by two opposite corners, with its corners ordered;
/// `None` where it has no area or lies beyond the coordinate limit.
pub open spec fn normalized(r: Rectangle) -> Option<Rectangle> {
    let n = Rectangle {
        x1: if r.x1 <= r.x2 { r.x1 } else { r.x2 },
        y1: if r.y1 <= r.y2 { r.y1 } else { r.y2 },
        x2: if r.x1 <= r.x2 { r.x2 } else { r.x1 },
        y2: if r.y1 <= r.y2 { r.y2 } else { r.y1 },
    };
    if n.wf() { Some(n) } else { None }
}

/// Orders the corners of `r`; `None` where it has no area or lies beyond the
/// coordinate limit.
pub fn normalize(r: &Rectangle) -> (n: Option<Rectangle>)
    ensures
        n == normalized(*r),
{
    let n = Rectangle {
        x1: if r.x1 <= r.x2 { r.x1 } else { r.x2 },
        y1: if r.y1 <= r.y2 { r.y1 } else { r.y2 },
        x2: if r.x1 <= r.x2 { r.x2 } else { r.x1 },
        y2: if r.y1 <= r.y2 { r.y2 } else { r.y1 },
    };
    if n.is_valid() { Some(n) } else { None }
}

/// Finds where a signature field's image goes: the rectangle of its first
/// annotation child (`/Type /Annot`) with a usable `/Rect`.
pub fn get_rectangle_from_form(kids: &Vec<Widget>) -> (r: Option<Rectangle>)
    ensures
        r == first_rectangle(kids@),
        r matches Some(rect) ==> rect.wf(),
{
    let mut i: usize = 0;
    assert(kids@.skip(0) =~= kids@);
    while i < kids.len()
        invariant
            i <= kids@.len(),
            first_rectangle(kids@) == first_rectangle(kids@.skip(i as int)),
        decreases kids@.len() - i,
    {
        let is_annotation = kids[i].is_annotation;
        let rect = kids[i].rect;
        assert(kids@.skip(i as int)[0] == kids@[i as int]);
        assert(kids@.skip(i as int).skip(1) =~= kids@.skip(i + 1));
        if is_annotation {
            if let Some(rect) = rect {
                if let Some(n) = normalize(&rect) {
                    return Some(n);
                }
            }
        }
        i = i + 1;
    }
    None
}

} // verus!
