//! Who signs, and how a form field says who is to sign it.
use cryptographic_message_syntax::SignerBuilder;
use vstd::prelude::*;

verus! {

/// A user who signs.
pub struct UserSignatureInfo<'a> {
    pub user_id: String,
    pub user_name: String,
    pub user_email: String,
    /// The PNG image drawn where the user signs.
    pub user_signature: Vec<u8>,
    /// The key and certificate that make the user's CMS signature.
    pub user_signing_keys: SignerBuilder<'a>,
}

/// What a signature field's partial name holds, as base64 of the JSON object
/// `{"userId": "..."}`.
#[derive(Debug, Clone)]
pub struct UserFormSignatureInfo {
    pub user_id: String,
}

} // verus!
