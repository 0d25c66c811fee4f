//! Signing a serialized document: resolve the placeholder's `/ByteRange`, have
//! the CMS signer sign the covered bytes, and write the signature into
//! `/Contents`.
use crate::binary_patch::{
    is_first_occurrence, lemma_first_occurrence_exists, occurs_at, spliced,
};
use crate::byte_range::list_text;
use crate::error::Error;
use crate::placeholder::{
    contents_key, contents_pattern, covered, hex_of, lemma_range_coverage, hex_window_len, placeholder_at, prepare_signature,
    range_for, range_pattern, range_rewrite, range_sentinel, set_content, zeros, BYTE_RANGE_WIDTH,
    PLACEHOLDER_NIBBLES, SENTINEL_VALUES_LEN,
};
use cryptographic_message_syntax::SignerBuilder;
use vstd::prelude::*;

verus! {

#[verifier::external_type_specification]
#[verifier::external_body]
pub struct ExSignerBuilder<'a>(SignerBuilder<'a>);

/// `d` once the `/ByteRange` of the placeholder at `p` is resolved.
pub open spec fn resolved_bytes(d: Seq<u8>, p: int) -> Seq<u8> {
    spliced(d, p, range_rewrite(range_for(p, d.len() as int)))
}

/// `d` once the placeholder at `p` is resolved and the signature `cms` is
/// written into the `/Contents` found at `q`.
pub open spec fn signed_bytes(d: Seq<u8>, p: int, q: int, cms: Seq<u8>) -> Seq<u8> {
    spliced(resolved_bytes(d, p), q, contents_key() + hex_of(cms))
}

/// Relies on `cryptographic_message_syntax::SignedDataBuilder`: a detached CMS
/// SignedData over `content`, with content type id-data and the one signer,
/// DER encoded; `None` where the signer fails. The signature holds the signing
/// time, so nothing is promised of the bytes.
#[verifier::external_body]
fn build_cms(content: Vec<u8>, signer: &SignerBuilder) -> (r: Option<Vec<u8>>) {
    let id_data = cryptographic_message_syntax::asn1::rfc5652::OID_ID_DATA.as_ref();
    cryptographic_message_syntax::SignedDataBuilder::default()
        .content_external(content)
        .content_type(cryptographic_message_syntax::Oid(
            cryptographic_message_syntax::Bytes::copy_from_slice(id_data),
        ))
        .signer(signer.clone())
        .build_der()
        .ok()
}

/// The spans of `values` cover all of `out` but the hex string with its
/// brackets, which holds the hex of `cms` padded with zeros: the range that a
/// signature dictionary states is the range that was signed.
pub open spec fn covers_all_but_window(out: Seq<u8>, values: Seq<usize>, cms: Seq<u8>) -> bool {
    let c = values[1] as int;
    let w = hex_window_len();
    &&& values[0] == 0
    &&& values[2] + values[3] == out.len()
    &&& covered(out, values) == out.subrange(0, c) + out.subrange(c + w + 2, out.len() as int)
    &&& out[c] == 60u8
    &&& out[c + w + 1] == 62u8
    &&& out.subrange(c + 1, c + 1 + w) == hex_of(cms) + zeros((w - 2 * cms.len()) as nat)
}

/// Nibbles that the hex string of a placeholder holds once its `/ByteRange`
/// has been rewritten: what a signature can fill without touching the `>`.
pub const HEX_WINDOW_NIBBLES: usize = PLACEHOLDER_NIBBLES + SENTINEL_VALUES_LEN
    - BYTE_RANGE_WIDTH;

/// The placeholder at `p` of `d` can be resolved: it is the first sentinel,
/// it is whole, and its final `/ByteRange` fits the reserved width.
pub open spec fn resolvable(d: Seq<u8>, p: int) -> bool {
    &&& is_first_occurrence(d, range_pattern(), p)
    &&& placeholder_at(d, p)
    &&& list_text(range_for(p, d.len() as int)).len() <= BYTE_RANGE_WIDTH
}

/// Writes a CMS signature into the first unfilled `/Contents<` of a document
/// whose `/ByteRange` is already resolved. A signature longer than the hex
/// string left after the rewrite is refused, as it would overwrite the `>`.
pub fn write_signature(prepared: Vec<u8>, cms: Vec<u8>) -> (r: Result<Vec<u8>, Error>)
    ensures
        2 * cms@.len() > hex_window_len() ==> (r matches Err(Error::CmsTooLarge { cms_len })
            && cms_len == cms@.len()),
        2 * cms@.len() <= hex_window_len() && (forall|j: int|
            !occurs_at(prepared@, contents_pattern(), j)) ==> (r matches Err(
            Error::PatternNotFound,
        )),
        forall|q: int|
            2 * cms@.len() <= hex_window_len() && is_first_occurrence(
                prepared@,
                contents_pattern(),
                q,
            ) ==> {
                &&& q + contents_key().len() + 2 * cms@.len() > prepared@.len() ==> (r matches Err(
                    Error::PatternNotFound,
                ))
                &&& q + contents_key().len() + 2 * cms@.len() <= prepared@.len() ==> (r matches Ok(
                    out,
                ) && out@ == spliced(prepared@, q, contents_key() + hex_of(cms@)))
            },
        r matches Ok(out) ==> 2 * cms@.len() <= hex_window_len() && out@.len() == prepared@.len()
            && exists|q: int|
            is_first_occurrence(prepared@, contents_pattern(), q) && out@ == spliced(
                prepared@,
                q,
                contents_key() + hex_of(cms@),
            ),
        r matches Err(e) ==> e is PatternNotFound || e is CmsTooLarge,
{
    if cms.len() > HEX_WINDOW_NIBBLES / 2 {
        return Err(Error::CmsTooLarge { cms_len: cms.len() });
    }
    set_content(prepared, cms)
}

/// Once the placeholder at `p` is resolved, a `/Contents<` with its zeros
/// stands where the rewrite left it, right after the `]`.
proof fn lemma_contents_after_rewrite(d: Seq<u8>, p: int)
    requires
        resolvable(d, p),
    ensures
        occurs_at(resolved_bytes(d, p), contents_pattern(), p + 37),
        p + 18042 <= d.len(),
        resolved_bytes(d, p).len() == d.len(),
{
    let values = range_for(p, d.len() as int);
    let rw = range_rewrite(values);
    let d1 = resolved_bytes(d, p);
    let whole = range_sentinel() + zeros(PLACEHOLDER_NIBBLES as nat) + seq![62u8];
    assert(d.subrange(p, p + whole.len()) == whole);
    assert(rw.len() == 69);
    assert(d1.len() == d.len());
    let pat = contents_pattern();
    assert forall|k: int| 0 <= k < pat.len() implies #[trigger] d1.subrange(p + 37, p + 37 + pat.len())[k]
        == pat[k] by {
        let i = p + 37 + k;
        if i < p + 69 {
            assert(d1[i] == rw[i - p]);
        } else {
            assert(d1[i] == d[i]);
            assert(d[i] == whole[i - p]);
        }
    }
    assert(d1.subrange(p + 37, p + 37 + pat.len()) =~= pat);
}

/// Signs the serialized document `pdf_file_data`, whose newest signature
/// dictionary still holds the placeholder: resolves its `/ByteRange`, has
/// `signer` sign the two covered spans, and writes the DER signature into the
/// first unfilled `/Contents`. Whether the signer succeeds, and what it
/// returns, is the signer's; the rest is stated here.
pub fn digitally_sign_document(pdf_file_data: Vec<u8>, signer: &SignerBuilder) -> (r: Result<
    Vec<u8>,
    Error,
>)
    ensures
        (forall|j: int| !occurs_at(pdf_file_data@, range_pattern(), j)) ==> (r matches Err(
            Error::PatternNotFound,
        )),
        forall|p: int|
            is_first_occurrence(pdf_file_data@, range_pattern(), p) ==> {
                &&& !placeholder_at(pdf_file_data@, p) ==> (r matches Err(Error::PatternNotFound))
                &&& placeholder_at(pdf_file_data@, p) && list_text(
                    range_for(p, pdf_file_data@.len() as int),
                ).len() > BYTE_RANGE_WIDTH ==> (r matches Err(Error::FixedWidthTooSmall { .. }))
            },
        r is Ok || (r matches Err(e) && (e is CmsFailure || e is CmsTooLarge)) ==> exists|p: int|
            resolvable(pdf_file_data@, p),
        r matches Err(e) ==> e is PatternNotFound || e is FixedWidthTooSmall || e is CmsFailure
            || e is CmsTooLarge,
        forall|p: int|
            resolvable(pdf_file_data@, p) ==> (r is Ok || (r matches Err(e) && (e is CmsFailure
                || e is CmsTooLarge))),
        r matches Ok(out) ==> out@.len() == pdf_file_data@.len() && exists|p: int, q: int, cms: Seq<
            u8,
        >|
            #![trigger signed_bytes(pdf_file_data@, p, q, cms)]
            {
                &&& resolvable(pdf_file_data@, p)
                &&& 2 * cms.len() <= hex_window_len()
                &&& q <= p + 37
                &&& is_first_occurrence(resolved_bytes(pdf_file_data@, p), contents_pattern(), q)
                &&& out@ == signed_bytes(pdf_file_data@, p, q, cms)
                &&& q == p + 37 ==> covers_all_but_window(
                    out@,
                    range_for(p, pdf_file_data@.len() as int),
                    cms,
                )
            },
{
    let ghost d = pdf_file_data@;
    let input_len = pdf_file_data.len();
    let (byte_range, prepared, content) = match prepare_signature(pdf_file_data) {
        Ok(prepared) => prepared,
        Err(e) => {
            return Err(e);
        },
    };
    let ghost p = choose|p: int|
        {
            &&& is_first_occurrence(d, range_pattern(), p)
            &&& placeholder_at(d, p)
            &&& byte_range@ == range_for(p, d.len() as int)
            &&& prepared@ == spliced(d, p, range_rewrite(byte_range@))
        };
    proof {
        assert(resolvable(d, p));
        lemma_contents_after_rewrite(d, p);
        lemma_first_occurrence_exists(prepared@, contents_pattern(), p + 37);
    }
    let cms = match build_cms(content, signer) {
        Some(cms) => cms,
        None => return Err(Error::CmsFailure),
    };
    let ghost blob = cms@;
    let ghost resolved = prepared@;
    proof {
        let q2 = choose|i: int| i <= p + 37 && is_first_occurrence(resolved, contents_pattern(), i);
        assert(hex_window_len() == 17994);
        assert(2 * blob.len() <= hex_window_len() ==> q2 + contents_key().len() + 2 * blob.len()
            <= resolved.len());
        assert forall|p1: int| resolvable(d, p1) implies p1 == p by {
            if p1 < p {
                assert(!occurs_at(d, range_pattern(), p1));
            } else if p < p1 {
                assert(!occurs_at(d, range_pattern(), p));
            }
        }
    }
    match write_signature(prepared, cms) {
        Ok(out) => {
            proof {
                let q = choose|q: int|
                    is_first_occurrence(resolved, contents_pattern(), q) && out@ == spliced(
                        resolved,
                        q,
                        contents_key() + hex_of(blob),
                    );
                let q2 = choose|i: int| i <= p + 37 && is_first_occurrence(resolved, contents_pattern(), i);
                assert(q == q2);
                assert(signed_bytes(d, p, q, blob) == out@);
                if q == p + 37 {
                    assert(d.len() == input_len);
                    lemma_range_coverage(d, blob, p);
                }
            }
            Ok(out)
        },
        Err(e) => {
            Err(e)
        },
    }
}

} // verus!
