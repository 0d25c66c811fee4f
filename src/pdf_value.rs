//! The PDF objects that the library reads and writes, as plain values.
use lopdf::Error as PdfLibError;
use vstd::prelude::*;
use vstd::string::StringSliceAdditionalSpecFns;

verus! {

#[verifier::external_type_specification]
#[verifier::external_body]
pub struct ExPdfError(PdfLibError);

/// An indirect object's number and generation.
#[derive(Debug, Clone, Copy, PartialEq, Eq, Structural)]
pub struct ObjectId {
    pub number: u32,
    pub generation: u16,
}

/// A PDF object. Reals are held in thousandths, so that the library computes
/// with them exactly.
#[derive(Debug)]
pub enum PdfValue {
    Null,
    Boolean(bool),
    Integer(i64),
    /// A real number times one thousand.
    Real(i64),
    Name(Vec<u8>),
    /// A string written between parentheses.
    LiteralString(Vec<u8>),
    /// A string written in hex between angle brackets.
    HexString(Vec<u8>),
    Array(Vec<PdfValue>),
    Dictionary(Vec<(Vec<u8>, PdfValue)>),
    /// A stream: its dictionary and its content.
    Stream(Vec<(Vec<u8>, PdfValue)>, Vec<u8>),
    Reference(ObjectId),
}

/// The UTF-8 bytes of `s`.
pub open spec fn utf8_of(s: &str) -> Seq<u8> {
    s.spec_bytes()
}

/// `v` is the name `n`.
pub open spec fn is_name(v: PdfValue, n: Seq<u8>) -> bool {
    v matches PdfValue::Name(x) && x@ == n
}

/// `v` is the integer `i`.
pub open spec fn is_integer(v: PdfValue, i: int) -> bool {
    v matches PdfValue::Integer(x) && x == i
}

/// `v` is the real `thousandths / 1000`.
pub open spec fn is_real(v: PdfValue, thousandths: int) -> bool {
    v matches PdfValue::Real(x) && x == thousandths
}

/// `v` is a reference to `id`.
pub open spec fn is_reference(v: PdfValue, id: ObjectId) -> bool {
    v matches PdfValue::Reference(x) && x == id
}

/// The keys of a dictionary, in order.
pub open spec fn keys_of(d: Seq<(Vec<u8>, PdfValue)>) -> Seq<Seq<u8>> {
    d.map_values(|e: (Vec<u8>, PdfValue)| e.0@)
}

/// The UTF-8 bytes of `s`.
pub fn bytes_of(s: &str) -> (r: Vec<u8>)
    ensures
        r@ == utf8_of(s),
{
    vstd::slice::slice_to_vec(s.as_bytes())
}

/// The name whose bytes are those of `s`.
pub fn name(s: &str) -> (r: PdfValue)
    ensures
        is_name(r, utf8_of(s)),
{
    PdfValue::Name(bytes_of(s))
}

/// A dictionary entry under the key `key`.
pub fn entry(key: &str, value: PdfValue) -> (r: (Vec<u8>, PdfValue))
    ensures
        r.0@ == utf8_of(key),
        r.1 == value,
{
    (bytes_of(key), value)
}

} // verus!
