//! The errors of the library.
use vstd::prelude::*;

verus! {

/// What can go wrong while reading or signing a document.
#[derive(Debug)]
pub enum Error {
    /// The PDF object library refused the document or an object in it.
    LoPdfError(lopdf::Error),
    /// The document lacks an expected entry, or an entry has the wrong type.
    ParseError,
    /// A signature field has no annotation child with a `/Rect`.
    MissingRectangle,
    /// A field names a user that was not provided.
    UnknownUser(String),
    /// The signature image could not be decoded as PNG.
    ImageDecodeError,
    /// The CMS signer failed.
    CmsFailure,
    /// The hex of the CMS blob is longer than the placeholder holds.
    CmsTooLarge { cms_len: usize },
    /// The placeholder was not found in the emitted bytes.
    PatternNotFound,
    /// The signing loop ran for too many rounds.
    LoopGuard,
    /// A byte range does not fit the width reserved for it.
    FixedWidthTooSmall { width: usize, needed: usize },
}

} // verus!
