//! Digital signing of PDF signature fields: byte-range accounting, placeholder
//! patching, AcroForm classification and the signing loop that ties them together.
//!
//! The PDF object model itself (parsing, object tables, serialization) belongs to
//! the caller: it hands the library the form fields as [`acro_form::FieldNode`]s,
//! writes the [`pdf_value::PdfValue`]s that the library builds into the pending
//! update, and has a CMS signer sign the bytes that [`placeholder::prepare_signature`]
//! cuts out.
pub mod acro_form;
pub mod binary_patch;
pub mod byte_range;
pub mod digitally_sign;
pub mod error;
pub mod image_insert;
pub mod image_xobject;
pub mod pdf_value;
pub mod placeholder;
pub mod rectangle;
pub mod signature_image;
pub mod signature_info;
pub mod signing;
pub mod text;
pub mod user_signature_info;
pub mod version;

pub use byte_range::ByteRange;
pub use error::Error;
pub use image_xobject::ImageXObject;
pub use user_signature_info::{UserFormSignatureInfo, UserSignatureInfo};
