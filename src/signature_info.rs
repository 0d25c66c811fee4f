//! The signature dictionary (`/V`) written for a field before it is signed.
use crate::pdf_value::{
    bytes_of, entry, is_integer, is_name, is_reference, keys_of, name, utf8_of, ObjectId, PdfValue,
};
use vstd::prelude::*;

verus! {

/// Bytes that the `/Contents` placeholder reserves: two hex digits each.
pub const CONTENTS_PLACEHOLDER_BYTES: usize = 9000;

/// A moment in UTC, to the second.
#[derive(Debug, Clone, Copy, PartialEq, Eq, Structural)]
pub struct SigningTime {
    pub year: u32,
    pub month: u32,
    pub day: u32,
    pub hour: u32,
    pub minute: u32,
    pub second: u32,
}

impl SigningTime {
    /// Each part lies in its range; a leap second is allowed.
    pub open spec fn wf(&self) -> bool {
        &&& self.year <= 9999
        &&& 1 <= self.month <= 12
        &&& 1 <= self.day <= 31
        &&& self.hour <= 23
        &&& self.minute <= 59
        &&& self.second <= 60
    }
}

/// The last `width` decimal digits of `n`, with leading zeros.
pub open spec fn fixed_digits(n: nat, width: nat) -> Seq<u8>
    decreases width,
{
    if width == 0 {
        Seq::empty()
    } else {
        fixed_digits(n / 10, (width - 1) as nat).push((48 + n % 10) as u8)
    }
}

/// The PDF date `D:YYYYMMDDHHmmSS+00'00'` of `t`.
pub open spec fn pdf_date(t: SigningTime) -> Seq<u8> {
    seq![68u8, 58u8] + fixed_digits(t.year as nat, 4) + fixed_digits(t.month as nat, 2)
        + fixed_digits(t.day as nat, 2) + fixed_digits(t.hour as nat, 2) + fixed_digits(
        t.minute as nat,
        2,
    ) + fixed_digits(t.second as nat, 2) + seq![43u8, 48u8, 48u8, 39u8, 48u8, 48u8, 39u8]
}

fn push_fixed_digits(out: &mut Vec<u8>, n: u32, width: usize)
    requires
        width <= 10,
    ensures
        final(out)@ == old(out)@ + fixed_digits(n as nat, width as nat),
    decreases width,
{
    if width > 0 {
        push_fixed_digits(out, n / 10, width - 1);
        out.push(48u8 + (n % 10) as u8);
        assert(final(out)@ =~= old(out)@ + fixed_digits(n as nat, width as nat));
    } else {
        assert(final(out)@ =~= old(out)@ + fixed_digits(n as nat, width as nat));
    }
}

/// Writes `t` as a PDF date in UTC.
pub fn pdf_date_bytes(t: &SigningTime) -> (r: Vec<u8>)
    ensures
        r@ == pdf_date(*t),
{
    let mut out = vec![68u8, 58u8];
    push_fixed_digits(&mut out, t.year, 4);
    push_fixed_digits(&mut out, t.month, 2);
    push_fixed_digits(&mut out, t.day, 2);
    push_fixed_digits(&mut out, t.hour, 2);
    push_fixed_digits(&mut out, t.minute, 2);
    push_fixed_digits(&mut out, t.second, 2);
    out.push(43u8);
    out.push(48u8);
    out.push(48u8);
    out.push(39u8);
    out.push(48u8);
    out.push(48u8);
    out.push(39u8);
    assert(out@ =~= pdf_date(*t));
    out
}

fn zero_bytes(n: usize) -> (r: Vec<u8>)
    ensures
        r@ == Seq::new(n as nat, |i: int| 0u8),
{
    let mut out: Vec<u8> = Vec::new();
    let mut k: usize = 0;
    while k < n
        invariant
            k <= n,
            out@ == Seq::new(k as nat, |i: int| 0u8),
        decreases n - k,
    {
        out.push(0u8);
        k = k + 1;
        assert(out@ =~= Seq::new(k as nat, |i: int| 0u8));
    }
    out
}

/// The build properties of the signing application.
fn build_properties(os: &str, app_version: &str) -> (r: PdfValue)
    ensures
        r matches PdfValue::Dictionary(d) && keys_of(d@) == seq![
            utf8_of("Filter"),
            utf8_of("PubSec"),
            utf8_of("App"),
        ],
{
    let build_date = "Mar  2 2022 20:56:26";
    let filter = vec![
        entry("Name", name("Adobe.PPKLite")),
        entry("Date", PdfValue::LiteralString(bytes_of(build_date))),
        entry("R", PdfValue::Integer(0x0000_0001_0101)),
    ];
    let pub_sec = vec![
        entry("Date", PdfValue::LiteralString(bytes_of(build_date))),
        entry("R", PdfValue::Integer(0x0000_0001_0101)),
        entry("NonEFontNoWarn", PdfValue::Boolean(true)),
    ];
    let app = vec![
        entry("Name", name("Rust PDF Signing")),
        entry("R", PdfValue::Integer(0x0000_0001_0001)),
        entry("OS", PdfValue::Array(vec![name(os)])),
        entry("REx", PdfValue::LiteralString(bytes_of(app_version))),
    ];
    let d = vec![
        entry("Filter", PdfValue::Dictionary(filter)),
        entry("PubSec", PdfValue::Dictionary(pub_sec)),
        entry("App", PdfValue::Dictionary(app)),
    ];
    proof {
        assert(keys_of(d@) =~= seq![utf8_of("Filter"), utf8_of("PubSec"), utf8_of("App")]);
    }
    PdfValue::Dictionary(d)
}

/// The `/V` dictionary of a field about to be signed by `user_name` at
/// `signed_at`, with the placeholders that the byte-range resolver and the
/// contents patcher fill in later. `/ByteRange` comes right before
/// `/Contents`: the resolver finds the two together.
pub fn add_general_info_to_signature(
    user_name: &str,
    signed_at: &SigningTime,
    os: &str,
    app_version: &str,
) -> (r: Vec<(Vec<u8>, PdfValue)>)
    ensures
        keys_of(r@) == seq![
            utf8_of("Type"),
            utf8_of("Filter"),
            utf8_of("SubFilter"),
            utf8_of("ByteRange"),
            utf8_of("Contents"),
            utf8_of("M"),
            utf8_of("Name"),
            utf8_of("Prop_Build"),
        ],
        is_name(r@[0].1, utf8_of("Sig")),
        is_name(r@[1].1, utf8_of("Adobe.PPKLite")),
        is_name(r@[2].1, utf8_of("adbe.pkcs7.detached")),
        r@[3].1 matches PdfValue::Array(a) && a@.len() == 4 && is_integer(a@[0], 0) && is_integer(
            a@[1],
            10000,
        ) && is_integer(a@[2], 20000) && is_integer(a@[3], 10000),
        r@[4].1 matches PdfValue::HexString(c) && c@ == Seq::new(
            CONTENTS_PLACEHOLDER_BYTES as nat,
            |i: int| 0u8,
        ),
        r@[5].1 matches PdfValue::LiteralString(m) && m@ == pdf_date(*signed_at),
        r@[6].1 matches PdfValue::LiteralString(n) && n@ == utf8_of(user_name),
        r@[7].1 matches PdfValue::Dictionary(_),
{
    let sentinel = vec![
        PdfValue::Integer(0),
        PdfValue::Integer(10000),
        PdfValue::Integer(20000),
        PdfValue::Integer(10000),
    ];
    let d = vec![
        entry("Type", name("Sig")),
        entry("Filter", name("Adobe.PPKLite")),
        entry("SubFilter", name("adbe.pkcs7.detached")),
        entry("ByteRange", PdfValue::Array(sentinel)),
        entry("Contents", PdfValue::HexString(zero_bytes(CONTENTS_PLACEHOLDER_BYTES))),
        entry("M", PdfValue::LiteralString(pdf_date_bytes(signed_at))),
        entry("Name", PdfValue::LiteralString(bytes_of(user_name))),
        entry("Prop_Build", build_properties(os, app_version)),
    ];
    proof {
        assert(keys_of(d@) =~= seq![
            utf8_of("Type"),
            utf8_of("Filter"),
            utf8_of("SubFilter"),
            utf8_of("ByteRange"),
            utf8_of("Contents"),
            utf8_of("M"),
            utf8_of("Name"),
            utf8_of("Prop_Build"),
        ]);
    }
    d
}

/// The `/AP` entry of a widget annotation: its normal appearance is the form
/// XObject `appearance`.
pub fn appearance_dictionary(appearance: ObjectId) -> (r: PdfValue)
    ensures
        r matches PdfValue::Dictionary(d) && d@.len() == 1 && d@[0].0@ == utf8_of("N")
            && is_reference(d@[0].1, appearance),
{
    PdfValue::Dictionary(vec![entry("N", PdfValue::Reference(appearance))])
}

} // verus!
