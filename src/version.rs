//! The PDF version that a file advertises, and whether signing must raise it:
//! incremental updates with these signatures need PDF 1.5.
use crate::pdf_value::{name, utf8_of, PdfValue};
use vstd::prelude::*;

verus! {

/// `%PDF-`.
pub open spec fn header_magic() -> Seq<u8> {
    seq![37u8, 80u8, 68u8, 70u8, 45u8]
}

/// An ASCII decimal digit.
pub open spec fn is_digit(c: u8) -> bool {
    48 <= c <= 57
}

/// The version `M.m` that the header `%PDF-M.m` at the start of `b` gives.
pub open spec fn header_version(b: Seq<u8>) -> Option<(u8, u8)> {
    if b.len() >= 8 && b.take(5) == header_magic() && is_digit(b[5]) && b[6] == 46u8 && is_digit(
        b[7],
    ) {
        Some(((b[5] - 48) as u8, (b[7] - 48) as u8))
    } else {
        None
    }
}

/// Reads the version from the header at the start of the file.
pub fn pdf_header_version(b: &[u8]) -> (r: Option<(u8, u8)>)
    ensures
        r == header_version(b@),
{
    if b.len() < 8 {
        return None;
    }
    let magic = b[0] == 37u8 && b[1] == 80u8 && b[2] == 68u8 && b[3] == 70u8 && b[4] == 45u8;
    assert(magic == (b@.take(5) == header_magic())) by {
        if magic {
            assert(b@.take(5) =~= header_magic());
        }
    }
    if magic && 48 <= b[5] && b[5] <= 57 && b[6] == 46u8 && 48 <= b[7] && b[7] <= 57 {
        Some((b[5] - 48, b[7] - 48))
    } else {
        None
    }
}

/// The file advertises no version, or one below 1.5: the catalog of the
/// signed revision must then say 1.5.
pub fn needs_version_raise(b: &[u8]) -> (r: bool)
    ensures
        r == match header_version(b@) {
            Some((major, minor)) => major < 1 || (major == 1 && minor < 5),
            None => true,
        },
{
    match pdf_header_version(b) {
        Some((major, minor)) => major < 1 || (major == 1 && minor < 5),
        None => true,
    }
}

/// The catalog entry that raises the version to 1.5.
pub fn catalog_version_entry() -> (r: (Vec<u8>, PdfValue))
    ensures
        r.0@ == utf8_of("Version"),
        r.1 matches PdfValue::Name(n) && n@ == utf8_of("1.5"),
{
    (crate::pdf_value::bytes_of("Version"), name("1.5"))
}

} // verus!
