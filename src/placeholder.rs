//! The signature placeholder: resolving the final `/ByteRange` in place, cutting
//! out the bytes that a signature covers, and filling `/Contents` with the CMS blob.
use crate::binary_patch::{
    find_binary_pattern, is_first_occurrence, matches_at, occurs_at, splice, spliced,
};
use crate::byte_range::{list_text, padded_list, ByteRange};
use crate::error::Error;
use vstd::prelude::*;

verus! {

/// Hex nibbles that the `/Contents` placeholder reserves.
pub const PLACEHOLDER_NIBBLES: usize = 18000;

/// Characters reserved for the rewritten `/ByteRange` values.
pub const BYTE_RANGE_WIDTH: usize = 25;

/// Hex zeros after a key that mark a placeholder as still unfilled.
pub const MARK_ZEROS: usize = 51;

/// Hex zeros written after the rewritten `/ByteRange`.
pub const TRAILING_ZEROS: usize = 22;

/// Length of `/ByteRange[`, and of `]/Contents<`.
pub const RANGE_KEY_LEN: usize = 11;

/// Length of the sentinel values `0 10000 20000 10000`.
pub const SENTINEL_VALUES_LEN: usize = 19;

/// `/ByteRange[0 10000 20000 10000]/Contents<`: the sentinel that a fresh
/// signature dictionary is written with.
pub open spec fn range_sentinel() -> Seq<u8> {
    seq![
        47u8, 66u8, 121u8, 116u8, 101u8, 82u8, 97u8, 110u8, 103u8, 101u8, 91u8, 48u8, 32u8, 49u8,
        48u8, 48u8, 48u8, 48u8, 32u8, 50u8, 48u8, 48u8, 48u8, 48u8, 32u8, 49u8, 48u8, 48u8, 48u8,
        48u8, 93u8, 47u8, 67u8, 111u8, 110u8, 116u8, 101u8, 110u8, 116u8, 115u8, 60u8,
    ]
}

/// `/ByteRange[`.
pub open spec fn range_open() -> Seq<u8> {
    seq![47u8, 66u8, 121u8, 116u8, 101u8, 82u8, 97u8, 110u8, 103u8, 101u8, 91u8]
}

/// `]/Contents<`.
pub open spec fn range_close() -> Seq<u8> {
    seq![93u8, 47u8, 67u8, 111u8, 110u8, 116u8, 101u8, 110u8, 116u8, 115u8, 60u8]
}

/// `/Contents<`.
pub open spec fn contents_key() -> Seq<u8> {
    seq![47u8, 67u8, 111u8, 110u8, 116u8, 101u8, 110u8, 116u8, 115u8, 60u8]
}

/// `n` ASCII zeros.
pub open spec fn zeros(n: nat) -> Seq<u8> {
    Seq::new(n, |i: int| 48u8)
}

/// What the range resolver searches for: the sentinel and the first hex zeros.
pub open spec fn range_pattern() -> Seq<u8> {
    range_sentinel() + zeros(MARK_ZEROS as nat)
}

/// What the contents patcher searches for: the key and the first hex zeros.
pub open spec fn contents_pattern() -> Seq<u8> {
    contents_key() + zeros(MARK_ZEROS as nat)
}

/// A whole placeholder stands at `p`: the sentinel, all reserved zeros and `>`.
pub open spec fn placeholder_at(d: Seq<u8>, p: int) -> bool {
    occurs_at(d, range_sentinel() + zeros(PLACEHOLDER_NIBBLES as nat) + seq![62u8], p)
}

/// Offset, from the sentinel, of the `<` that opens the hex string once the
/// `/ByteRange` values have been rewritten.
pub open spec fn open_bracket_shift() -> int {
    range_open().len() + BYTE_RANGE_WIDTH + range_close().len() - 1
}

/// Length of the hex string once the `/ByteRange` values have been rewritten.
pub open spec fn hex_window_len() -> int {
    PLACEHOLDER_NIBBLES + range_sentinel().len() - range_open().len() - range_close().len()
        - BYTE_RANGE_WIDTH
}

/// The final `/ByteRange` for a placeholder at `p` in a file of length `len`:
/// everything but the hex string and its brackets.
pub open spec fn range_for(p: int, len: int) -> Seq<usize> {
    seq![
        0usize,
        (p + open_bracket_shift()) as usize,
        (p + open_bracket_shift() + hex_window_len() + 2) as usize,
        (len - 2 - (p + open_bracket_shift() + hex_window_len())) as usize,
    ]
}

/// The bytes written over the sentinel: the real values padded to the reserved
/// width, and zeros that cover what remains of the longer sentinel.
pub open spec fn range_rewrite(values: Seq<usize>) -> Seq<u8> {
    range_open() + padded_list(values, BYTE_RANGE_WIDTH as nat) + range_close() + zeros(
        TRAILING_ZEROS as nat,
    )
}

/// Lowercase hex digit of a value below 16.
pub open spec fn hex_digit(v: u8) -> u8 {
    if v < 10 {
        (48 + v) as u8
    } else {
        (87 + v) as u8
    }
}

/// Lowercase hex of `b`, two digits per byte, high nibble first.
pub open spec fn hex_of(b: Seq<u8>) -> Seq<u8> {
    Seq::new(
        2 * b.len(),
        |i: int|
            if i % 2 == 0 {
                hex_digit(b[i / 2] / 16)
            } else {
                hex_digit(b[i / 2] % 16)
            },
    )
}

/// The bytes that the two spans of a four-value range cover, in order.
pub open spec fn covered(d: Seq<u8>, r: Seq<usize>) -> Seq<u8> {
    d.subrange(r[0] as int, r[0] + r[1]) + d.subrange(r[2] as int, r[2] + r[3])
}

fn range_sentinel_bytes() -> (r: Vec<u8>)
    ensures
        r@ == range_sentinel(),
{
    let r = vec![
        47u8, 66u8, 121u8, 116u8, 101u8, 82u8, 97u8, 110u8, 103u8, 101u8, 91u8, 48u8, 32u8, 49u8,
        48u8, 48u8, 48u8, 48u8, 32u8, 50u8, 48u8, 48u8, 48u8, 48u8, 32u8, 49u8, 48u8, 48u8, 48u8,
        48u8, 93u8, 47u8, 67u8, 111u8, 110u8, 116u8, 101u8, 110u8, 116u8, 115u8, 60u8,
    ];
    assert(r@ =~= range_sentinel());
    r
}

/// Appends `b` to `out`.
fn push_all(out: &mut Vec<u8>, b: &[u8])
    ensures
        final(out)@ == old(out)@ + b@,
{
    let mut k: usize = 0;
    while k < b.len()
        invariant
            k <= b@.len(),
            out@ == old(out)@ + b@.subrange(0, k as int),
        decreases b@.len() - k,
    {
        out.push(b[k]);
        k = k + 1;
        assert(out@ =~= old(out)@ + b@.subrange(0, k as int));
    }
    assert(b@.subrange(0, b@.len() as int) =~= b@);
}

/// Appends `n` ASCII zeros to `out`.
fn push_zeros(out: &mut Vec<u8>, n: usize)
    ensures
        final(out)@ == old(out)@ + zeros(n as nat),
{
    let mut k: usize = 0;
    while k < n
        invariant
            k <= n,
            out@ == old(out)@ + zeros(k as nat),
        decreases n - k,
    {
        out.push(48u8);
        k = k + 1;
        assert(out@ =~= old(out)@ + zeros(k as nat));
    }
}

fn range_open_bytes() -> (r: Vec<u8>)
    ensures
        r@ == range_open(),
{
    let r = vec![47u8, 66u8, 121u8, 116u8, 101u8, 82u8, 97u8, 110u8, 103u8, 101u8, 91u8];
    assert(r@ =~= range_open());
    r
}

fn range_close_bytes() -> (r: Vec<u8>)
    ensures
        r@ == range_close(),
{
    let r = vec![93u8, 47u8, 67u8, 111u8, 110u8, 116u8, 101u8, 110u8, 116u8, 115u8, 60u8];
    assert(r@ =~= range_close());
    r
}

fn contents_key_bytes() -> (r: Vec<u8>)
    ensures
        r@ == contents_key(),
{
    let r = vec![47u8, 67u8, 111u8, 110u8, 116u8, 101u8, 110u8, 116u8, 115u8, 60u8];
    assert(r@ =~= contents_key());
    r
}

/// Whether a whole placeholder stands at `p`.
fn placeholder_complete(d: &[u8], p: usize) -> (r: bool)
    ensures
        r == placeholder_at(d@, p as int),
{
    let mut whole = range_sentinel_bytes();
    push_zeros(&mut whole, PLACEHOLDER_NIBBLES);
    whole.push(62u8);
    assert(whole@ =~= range_sentinel() + zeros(PLACEHOLDER_NIBBLES as nat) + seq![62u8]);
    if p > d.len() || whole.len() > d.len() - p {
        return false;
    }
    matches_at(d, whole.as_slice(), p)
}

/// Lowercase hex digit of a value below 16.
fn hex_digit_of(v: u8) -> (r: u8)
    requires
        v < 16,
    ensures
        r == hex_digit(v),
{
    if v < 10 {
        48u8 + v
    } else {
        87u8 + v
    }
}

/// Lowercase hex of `b`, two digits per byte.
pub fn hex_encode(b: &[u8]) -> (r: Vec<u8>)
    ensures
        r@ == hex_of(b@),
{
    let mut out: Vec<u8> = Vec::new();
    let mut k: usize = 0;
    while k < b.len()
        invariant
            k <= b@.len(),
            out@ == hex_of(b@.subrange(0, k as int)),
        decreases b@.len() - k,
    {
        out.push(hex_digit_of(b[k] / 16));
        out.push(hex_digit_of(b[k] % 16));
        k = k + 1;
        assert(out@ =~= hex_of(b@.subrange(0, k as int)));
    }
    assert(b@.subrange(0, b@.len() as int) =~= b@);
    out
}

/// Finds the placeholder that still holds the sentinel, writes the final
/// `/ByteRange` over it in place, and returns that range with the new bytes.
///
/// The values are padded to a fixed width, so the rewritten prefix keeps the odd
/// length of the sentinel and the hex string after it keeps an even length.
pub fn set_next_byte_range(pdf_file_data: Vec<u8>) -> (r: Result<(ByteRange, Vec<u8>), Error>)
    ensures
        (forall|j: int| !occurs_at(pdf_file_data@, range_pattern(), j)) ==> r matches Err(
            Error::PatternNotFound,
        ),
        forall|p: int|
            is_first_occurrence(pdf_file_data@, range_pattern(), p) ==> {
                let values = range_for(p, pdf_file_data@.len() as int);
                &&& !placeholder_at(pdf_file_data@, p) ==> (r matches Err(Error::PatternNotFound))
                &&& placeholder_at(pdf_file_data@, p) && list_text(values).len()
                    > BYTE_RANGE_WIDTH ==> (r matches Err(Error::FixedWidthTooSmall { .. }))
                &&& placeholder_at(pdf_file_data@, p) && list_text(values).len()
                    <= BYTE_RANGE_WIDTH ==> (r matches Ok((br, out)) && br@ == values && out@
                    == spliced(pdf_file_data@, p, range_rewrite(values)))
            },
        r matches Ok((br, out)) ==> exists|p: int|
            {
                &&& is_first_occurrence(pdf_file_data@, range_pattern(), p)
                &&& placeholder_at(pdf_file_data@, p)
                &&& br@ == range_for(p, pdf_file_data@.len() as int)
                &&& list_text(br@).len() <= BYTE_RANGE_WIDTH
                &&& out@ == spliced(pdf_file_data@, p, range_rewrite(br@))
            },
        r matches Err(e) ==> e is PatternNotFound || e is FixedWidthTooSmall,
{
    let mut pdf_file_data = pdf_file_data;
    let mut pattern = range_sentinel_bytes();
    push_zeros(&mut pattern, MARK_ZEROS);
    let found_at = match find_binary_pattern(pdf_file_data.as_slice(), pattern.as_slice()) {
        Some(found_at) => found_at,
        None => return Err(Error::PatternNotFound),
    };
    proof {
        assert(pattern@ =~= range_pattern());
    }
    if !placeholder_complete(pdf_file_data.as_slice(), found_at) {
        return Err(Error::PatternNotFound);
    }
    let file_len = pdf_file_data.len();
    // The `<` moves to just after the values padded to their reserved width.
    let content_offset = found_at + RANGE_KEY_LEN + BYTE_RANGE_WIDTH + RANGE_KEY_LEN - 1;
    // The hex string shrinks by what the padded values take beyond the sentinel's.
    let content_len = PLACEHOLDER_NIBBLES + SENTINEL_VALUES_LEN - BYTE_RANGE_WIDTH;
    let after_contents = content_offset + content_len + 2;
    let tail_len = file_len - 2 - (content_offset + content_len);
    let byte_range = ByteRange(vec![0, content_offset, after_contents, tail_len]);
    proof {
        let p = found_at as int;
        assert(byte_range@ =~= range_for(p, file_len as int));
    }
    let values = match byte_range.to_list_bytes(BYTE_RANGE_WIDTH) {
        Ok(values) => values,
        Err(e) => return Err(e),
    };
    let mut new_byte_range = range_open_bytes();
    push_all(&mut new_byte_range, values.as_slice());
    let close = range_close_bytes();
    push_all(&mut new_byte_range, close.as_slice());
    push_zeros(&mut new_byte_range, TRAILING_ZEROS);
    proof {
        assert(new_byte_range@ =~= range_rewrite(byte_range@));
    }
    let ghost input = pdf_file_data@;
    splice(&mut pdf_file_data, found_at, new_byte_range.as_slice());
    assert(is_first_occurrence(input, range_pattern(), found_at as int));
    Ok((byte_range, pdf_file_data))
}

/// Writes the hex of the CMS blob `content` into the first unfilled
/// `/Contents<` placeholder; the zeros after it stay as padding.
pub fn set_content(pdf_file_data: Vec<u8>, content: Vec<u8>) -> (r: Result<Vec<u8>, Error>)
    ensures
        2 * content@.len() > PLACEHOLDER_NIBBLES ==> (r matches Err(
            Error::CmsTooLarge { cms_len },
        ) && cms_len == content@.len()),
        2 * content@.len() <= PLACEHOLDER_NIBBLES && (forall|j: int|
            !occurs_at(pdf_file_data@, contents_pattern(), j)) ==> (r matches Err(
            Error::PatternNotFound,
        )),
        forall|p: int|
            2 * content@.len() <= PLACEHOLDER_NIBBLES && is_first_occurrence(
                pdf_file_data@,
                contents_pattern(),
                p,
            ) ==> {
                &&& p + contents_key().len() + 2 * content@.len() > pdf_file_data@.len() ==> (r matches Err(
                    Error::PatternNotFound,
                ))
                &&& p + contents_key().len() + 2 * content@.len() <= pdf_file_data@.len() ==> (r matches Ok(out)
                    && out@ == spliced(pdf_file_data@, p, contents_key() + hex_of(content@)))
            },
        r matches Ok(out) ==> 2 * content@.len() <= PLACEHOLDER_NIBBLES && exists|p: int|
            is_first_occurrence(pdf_file_data@, contents_pattern(), p) && out@ == spliced(
                pdf_file_data@,
                p,
                contents_key() + hex_of(content@),
            ),
        r matches Err(e) ==> e is PatternNotFound || e is CmsTooLarge,
{
    let mut pdf_file_data = pdf_file_data;
    if content.len() > PLACEHOLDER_NIBBLES / 2 {
        return Err(Error::CmsTooLarge { cms_len: content.len() });
    }
    let mut pattern = contents_key_bytes();
    push_zeros(&mut pattern, MARK_ZEROS);
    let found_at = match find_binary_pattern(pdf_file_data.as_slice(), pattern.as_slice()) {
        Some(found_at) => found_at,
        None => return Err(Error::PatternNotFound),
    };
    proof {
        assert(pattern@ =~= contents_pattern());
    }
    let mut new_contents = contents_key_bytes();
    let hex = hex_encode(content.as_slice());
    push_all(&mut new_contents, hex.as_slice());
    if new_contents.len() > pdf_file_data.len() - found_at {
        return Err(Error::PatternNotFound);
    }
    let ghost input = pdf_file_data@;
    splice(&mut pdf_file_data, found_at, new_contents.as_slice());
    assert(is_first_occurrence(input, contents_pattern(), found_at as int));
    Ok(pdf_file_data)
}

/// The bytes that the two spans of `byte_range` cover, joined: what a
/// signature over the file signs.
pub fn signed_content(pdf_file_data: &[u8], byte_range: &ByteRange) -> (r: Vec<u8>)
    requires
        byte_range@.len() == 4,
        byte_range@[0] + byte_range@[1] <= pdf_file_data@.len(),
        byte_range@[2] + byte_range@[3] <= pdf_file_data@.len(),
    ensures
        r@ == covered(pdf_file_data@, byte_range@),
{
    let _len = pdf_file_data.len();
    let first = vstd::slice::slice_subrange(
        pdf_file_data,
        byte_range.0[0],
        byte_range.0[0] + byte_range.0[1],
    );
    let second = vstd::slice::slice_subrange(
        pdf_file_data,
        byte_range.0[2],
        byte_range.0[2] + byte_range.0[3],
    );
    let mut out: Vec<u8> = Vec::new();
    push_all(&mut out, first);
    push_all(&mut out, second);
    out
}

/// Once the `/ByteRange` of a placeholder has been resolved and the CMS blob
/// written into its `/Contents`, the two spans cover the whole file except the
/// hex string with its brackets: the window runs from `<` to `>`, holds the hex
/// of the blob followed by zeros, has even length, and the second span ends
/// at the end of the file.
///
/// The contents patcher fills the first unfilled `/Contents<` it finds; the law
/// holds where that is the one just resolved, and where the blob fits the hex
/// string as it stands after the `/ByteRange` rewrite.
pub proof fn lemma_range_coverage(d: Seq<u8>, cms: Seq<u8>, p: int)
    requires
        d.len() <= usize::MAX,
        is_first_occurrence(d, range_pattern(), p),
        placeholder_at(d, p),
        list_text(range_for(p, d.len() as int)).len() <= BYTE_RANGE_WIDTH,
        2 * cms.len() <= hex_window_len(),
        is_first_occurrence(
            spliced(d, p, range_rewrite(range_for(p, d.len() as int))),
            contents_pattern(),
            p + 37,
        ),
    ensures
        ({
            let values = range_for(p, d.len() as int);
            let signed = spliced(
                spliced(d, p, range_rewrite(values)),
                p + 37,
                contents_key() + hex_of(cms),
            );
            let c = values[1] as int;
            let w = hex_window_len();
            &&& signed.len() == d.len()
            &&& values[0] == 0
            &&& values[2] + values[3] == d.len()
            &&& covered(signed, values) == signed.subrange(0, c) + signed.subrange(
                c + w + 2,
                signed.len() as int,
            )
            &&& signed[c] == 60u8
            &&& signed[c + w + 1] == 62u8
            &&& signed.subrange(c + 1, c + 1 + w) == hex_of(cms) + zeros((w - 2 * cms.len()) as nat)
            &&& w % 2 == 0
        }),
{
    let values = range_for(p, d.len() as int);
    let rw = range_rewrite(values);
    let d1 = spliced(d, p, rw);
    let fill = contents_key() + hex_of(cms);
    let signed = spliced(d1, p + 37, fill);
    let c = p + 46;
    let w = hex_window_len();
    let whole = range_sentinel() + zeros(PLACEHOLDER_NIBBLES as nat) + seq![62u8];
    assert(w == 17994);
    assert(rw.len() == 69);
    assert(d.subrange(p, p + whole.len()) == whole);
    assert(d.len() >= p + 18042);
    assert(values[1] == c);
    assert(d1.len() == d.len());
    assert(signed.len() == d.len());
    assert forall|k: int| 0 <= k < rw.len() implies #[trigger] d1[p + k] == rw[k] by {}
    assert forall|k: int| 0 <= k < fill.len() implies #[trigger] signed[p + 37 + k] == fill[k] by {}
    assert(signed[c] == fill[9]);
    assert(signed[c + w + 1] == d[c + w + 1]);
    assert(d[c + w + 1] == whole[18041]);
    let tail = hex_of(cms) + zeros((w - 2 * cms.len()) as nat);
    assert forall|k: int| 0 <= k < w implies #[trigger] signed.subrange(c + 1, c + 1 + w)[k] == tail[k] by {
        let i = c + 1 + k;
        if k < 2 * cms.len() {
            assert(signed[i] == fill[10 + k]);
        } else if i < p + 69 {
            assert(signed[i] == d1[i]);
            assert(d1[i] == rw[i - p]);
            assert(rw[i - p] == 48u8);
        } else {
            assert(signed[i] == d[i]);
            assert(d[i] == whole[i - p]);
        }
    }
    assert(signed.subrange(c + 1, c + 1 + w) =~= tail);
    assert(covered(signed, values) =~= signed.subrange(0, c) + signed.subrange(
        c + w + 2,
        signed.len() as int,
    ));
}

/// A signing round leaves the bytes of earlier revisions as they were, so the
/// ranges of earlier signatures cover the same bytes as before: where the
/// serializer appended the new revision after the earlier bytes `prev`, and
/// both placeholders that the round fills lie in what it appended.
pub proof fn lemma_earlier_bytes_kept(
    prev: Seq<u8>,
    appended: Seq<u8>,
    cms: Seq<u8>,
    p: int,
    q: int,
    earlier: Seq<usize>,
)
    requires
        is_first_occurrence(prev + appended, range_pattern(), p),
        placeholder_at(prev + appended, p),
        (prev + appended).len() <= usize::MAX,
        list_text(range_for(p, (prev + appended).len() as int)).len() <= BYTE_RANGE_WIDTH,
        prev.len() <= p,
        is_first_occurrence(
            spliced(prev + appended, p, range_rewrite(range_for(p, (prev + appended).len() as int))),
            contents_pattern(),
            q,
        ),
        prev.len() <= q,
        q + contents_key().len() + 2 * cms.len() <= (prev + appended).len(),
        earlier.len() == 4,
        earlier[0] + earlier[1] <= prev.len(),
        earlier[2] + earlier[3] <= prev.len(),
    ensures
        ({
            let d = prev + appended;
            let values = range_for(p, d.len() as int);
            let signed = spliced(spliced(d, p, range_rewrite(values)), q, contents_key() + hex_of(cms));
            &&& signed.take(prev.len() as int) == prev
            &&& covered(signed, earlier) == covered(prev, earlier)
        }),
{
    let d = prev + appended;
    let values = range_for(p, d.len() as int);
    let rw = range_rewrite(values);
    let d1 = spliced(d, p, rw);
    let signed = spliced(d1, q, contents_key() + hex_of(cms));
    let whole = range_sentinel() + zeros(PLACEHOLDER_NIBBLES as nat) + seq![62u8];
    assert(d.subrange(p, p + whole.len()) == whole);
    assert(rw.len() == 69);
    assert(d1.len() == d.len());
    assert(signed.take(prev.len() as int) =~= prev) by {
        assert forall|k: int| 0 <= k < prev.len() implies signed[k] == prev[k] by {
            assert(signed[k] == d1[k]);
            assert(d1[k] == d[k]);
        }
    }
    assert(covered(signed, earlier) =~= covered(prev, earlier)) by {
        assert(signed.subrange(earlier[0] as int, earlier[0] + earlier[1]) =~= prev.subrange(
            earlier[0] as int,
            earlier[0] + earlier[1],
        )) by {
            assert forall|k: int| earlier[0] <= k < earlier[0] + earlier[1] implies signed[k]
                == prev[k] by {
                assert(signed.take(prev.len() as int)[k] == signed[k]);
            }
        }
        assert(signed.subrange(earlier[2] as int, earlier[2] + earlier[3]) =~= prev.subrange(
            earlier[2] as int,
            earlier[2] + earlier[3],
        )) by {
            assert forall|k: int| earlier[2] <= k < earlier[2] + earlier[3] implies signed[k]
                == prev[k] by {
                assert(signed.take(prev.len() as int)[k] == signed[k]);
            }
        }
    }
}

/// Resolves the `/ByteRange` of the fresh placeholder in the serialized
/// document, and cuts out what the signature is to cover: the two spans joined.
pub fn prepare_signature(pdf_file_data: Vec<u8>) -> (r: Result<(ByteRange, Vec<u8>, Vec<u8>), Error>)
    ensures
        (forall|j: int| !occurs_at(pdf_file_data@, range_pattern(), j)) ==> (r matches Err(
            Error::PatternNotFound,
        )),
        forall|p: int|
            is_first_occurrence(pdf_file_data@, range_pattern(), p) ==> {
                &&& !placeholder_at(pdf_file_data@, p) ==> (r matches Err(Error::PatternNotFound))
                &&& placeholder_at(pdf_file_data@, p) && list_text(
                    range_for(p, pdf_file_data@.len() as int),
                ).len() > BYTE_RANGE_WIDTH ==> (r matches Err(Error::FixedWidthTooSmall { .. }))
            },
        r is Ok <==> exists|p: int|
            is_first_occurrence(pdf_file_data@, range_pattern(), p) && placeholder_at(
                pdf_file_data@,
                p,
            ) && list_text(range_for(p, pdf_file_data@.len() as int)).len() <= BYTE_RANGE_WIDTH,
        r matches Ok((br, out, content)) ==> {
            &&& exists|p: int|
                {
                    &&& is_first_occurrence(pdf_file_data@, range_pattern(), p)
                    &&& placeholder_at(pdf_file_data@, p)
                    &&& br@ == range_for(p, pdf_file_data@.len() as int)
                    &&& out@ == spliced(pdf_file_data@, p, range_rewrite(br@))
                }
            &&& content@ == covered(out@, br@)
        },
        r matches Err(e) ==> e is PatternNotFound || e is FixedWidthTooSmall,
{
    let ghost input = pdf_file_data@;
    match set_next_byte_range(pdf_file_data) {
        Ok((byte_range, out)) => {
            let content = signed_content(out.as_slice(), &byte_range);
            Ok((byte_range, out, content))
        },
        Err(e) => {
            proof {
                if exists|p: int|
                    is_first_occurrence(input, range_pattern(), p) && placeholder_at(input, p)
                        && list_text(range_for(p, input.len() as int)).len() <= BYTE_RANGE_WIDTH {
                    let p = choose|p: int|
                        is_first_occurrence(input, range_pattern(), p) && placeholder_at(input, p)
                            && list_text(range_for(p, input.len() as int)).len()
                            <= BYTE_RANGE_WIDTH;
                    assert(is_first_occurrence(input, range_pattern(), p));
                }
            }
            Err(e)
        },
    }
}

} // verus!
