use cryptographic_message_syntax::{SignedData, SignerBuilder};
use pdf_signing::digitally_sign::{digitally_sign_document, write_signature};
use pdf_signing::placeholder::{hex_encode, prepare_signature, set_content, set_next_byte_range, signed_content};
use x509_certificate::{KeyAlgorithm, X509CertificateBuilder};
use pdf_signing::{ByteRange, Error};

const HEAD: &[u8] = b"%PDF-1.4\n1 0 obj\n<</Type/Sig/Filter/Adobe.PPKLite";
const TAIL: &[u8] = b"/M(D:20240101000000+00'00')>>\nendobj\ntrailer\n<<>>\n%%EOF\n";

fn document_with_placeholder() -> Vec<u8> {
    let mut d = HEAD.to_vec();
    d.extend_from_slice(b"/ByteRange[0 10000 20000 10000]/Contents<");
    d.extend_from_slice(&vec![b'0'; 18000]);
    d.push(b'>');
    d.extend_from_slice(TAIL);
    d
}

#[test]
fn resolves_byte_range_in_place() {
    let d = document_with_placeholder();
    let p = HEAD.len();
    let len = d.len();
    let (range, out) = set_next_byte_range(d.clone()).unwrap();
    assert_eq!(range.0, vec![0, p + 46, p + 18042, len - p - 18042]);
    assert_eq!(out.len(), len);
    let list = range.to_list(25).unwrap();
    let mut expected = b"/ByteRange[".to_vec();
    expected.extend_from_slice(list.as_bytes());
    expected.extend_from_slice(b"]/Contents<");
    assert_eq!(&out[p..p + 47], &expected[..]);
    assert_eq!(out[p + 46], b'<');
    assert_eq!(out[p + 18041], b'>');
    assert_eq!(&out[..p], &d[..p]);
    assert_eq!(&out[p + 69..], &d[p + 69..]);
}

#[test]
fn hex_region_stays_even_after_rewrite() {
    let d = document_with_placeholder();
    let (range, out) = set_next_byte_range(d).unwrap();
    let open = range.0[1];
    let close = range.0[2] - 1;
    assert_eq!(out[open], b'<');
    assert_eq!(out[close], b'>');
    let interior = close - open - 1;
    assert_eq!(interior, 17994);
    assert_eq!(interior % 2, 0);
    assert!(out[open + 1..close].iter().all(|b| *b == b'0'));
}

#[test]
fn missing_sentinel_is_pattern_not_found() {
    let d = b"%PDF-1.4\n/ByteRange[0 1 2 3]/Contents<00>\n%%EOF".to_vec();
    assert!(matches!(set_next_byte_range(d), Err(Error::PatternNotFound)));
    assert!(matches!(set_next_byte_range(Vec::new()), Err(Error::PatternNotFound)));
}

#[test]
fn truncated_placeholder_is_pattern_not_found() {
    let mut d = HEAD.to_vec();
    d.extend_from_slice(b"/ByteRange[0 10000 20000 10000]/Contents<");
    d.extend_from_slice(&vec![b'0'; 100]);
    d.push(b'>');
    assert!(matches!(set_next_byte_range(d), Err(Error::PatternNotFound)));
}

#[test]
fn signed_content_joins_spans() {
    let d = b"0123456789".to_vec();
    let range = ByteRange(vec![0, 3, 7, 3]);
    assert_eq!(signed_content(&d, &range), b"012789".to_vec());
}

#[test]
fn hex_encode_lowercase_pairs() {
    assert_eq!(hex_encode(&[0xab, 0x01, 0xf0]), b"ab01f0".to_vec());
    assert_eq!(hex_encode(&[]), Vec::<u8>::new());
}

#[test]
fn spans_cover_all_but_the_hex_string() {
    let d = document_with_placeholder();
    let (range, out, content) = prepare_signature(d).unwrap();
    let cms = vec![0x30u8, 0x82, 0xab];
    let signed = set_content(out.clone(), cms).unwrap();
    assert_eq!(signed.len(), out.len());
    let r = &range.0;
    // What was signed is the final file without the window `<...>`.
    let mut without_window = signed[..r[1]].to_vec();
    without_window.extend_from_slice(&signed[r[2]..r[2] + r[3]]);
    assert_eq!(content, without_window);
    assert_eq!(r[2] + r[3], signed.len());
    assert_eq!(signed[r[1]], b'<');
    assert_eq!(signed[r[2] - 1], b'>');
    let interior = &signed[r[1] + 1..r[2] - 1];
    assert_eq!(&interior[..6], b"3082ab");
    assert!(interior[6..].iter().all(|b| *b == b'0'));
    assert_eq!(interior.len() % 2, 0);
}

#[test]
fn oversized_cms_is_rejected() {
    let d = document_with_placeholder();
    let (_, out) = set_next_byte_range(d).unwrap();
    match set_content(out, vec![0x30u8; 20000]) {
        Err(Error::CmsTooLarge { cms_len }) => assert_eq!(cms_len, 20000),
        other => panic!("unexpected: {:?}", other.map(|v| v.len())),
    }
}

#[test]
fn cms_at_capacity_is_accepted() {
    let d = document_with_placeholder();
    let (_, out) = set_next_byte_range(d).unwrap();
    assert!(set_content(out.clone(), vec![0x11u8; 8997]).is_ok());
    assert!(matches!(set_content(out, vec![0x11u8; 9001]), Err(Error::CmsTooLarge { .. })));
}

#[test]
fn contents_without_placeholder_is_pattern_not_found() {
    let d = b"%PDF-1.4\n/Contents<1234>\n".to_vec();
    assert!(matches!(set_content(d, vec![1, 2]), Err(Error::PatternNotFound)));
}

#[test]
fn earlier_revision_bytes_are_kept() {
    // An earlier, already signed revision followed by a new revision with a
    // fresh placeholder: the earlier bytes, and so its signature's range, stay.
    let mut prev = b"%PDF-1.4\n1 0 obj\n<</ByteRange[0 20 30 12]/Contents<3082>>>\nendobj\n%%EOF\n".to_vec();
    prev.truncate(prev.len());
    let earlier = ByteRange(vec![0, 20, 30, 12]);
    let before = signed_content(&prev, &earlier);
    let mut d = prev.clone();
    d.extend_from_slice(&document_with_placeholder()[9..]);
    let (_, out, _) = prepare_signature(d).unwrap();
    let signed = set_content(out, vec![0x30, 0x01]).unwrap();
    assert_eq!(&signed[..prev.len()], &prev[..]);
    assert_eq!(signed_content(&signed, &earlier), before);
}

fn from_hex(h: &[u8]) -> Vec<u8> {
    h.chunks(2)
        .map(|pair| u8::from_str_radix(std::str::from_utf8(pair).unwrap(), 16).unwrap())
        .collect()
}

#[test]
fn signs_covered_bytes_into_the_placeholder() {
    let mut builder = X509CertificateBuilder::default();
    builder.subject().append_common_name_utf8_string("Test Signer").unwrap();
    let (cert, key) = builder.create_with_random_keypair(KeyAlgorithm::Ed25519).unwrap();
    let signer = SignerBuilder::new(&key, cert);
    let d = document_with_placeholder();
    let signed = digitally_sign_document(d.clone(), &signer).unwrap();
    assert_eq!(signed.len(), d.len());
    let (range, _) = set_next_byte_range(d).unwrap();
    let r = &range.0;
    assert_eq!(signed[r[1]], b'<');
    assert_eq!(signed[r[2] - 1], b'>');
    let interior = &signed[r[1] + 1..r[2] - 1];
    assert!(interior.len() <= 18000);
    assert_eq!(&interior[..2], b"30");
    // The DER length header says where the blob ends and the zero padding begins.
    let head = from_hex(&interior[..12]);
    let total = if head[1] < 0x80 {
        head[1] as usize + 2
    } else {
        let n = (head[1] & 0x7f) as usize;
        head[2..2 + n].iter().fold(0usize, |acc, b| acc * 256 + *b as usize) + 2 + n
    };
    let der = from_hex(&interior[..2 * total]);
    assert!(interior[2 * total..].iter().all(|b| *b == b'0'));
    let mut covered = signed[..r[1]].to_vec();
    covered.extend_from_slice(&signed[r[2]..r[2] + r[3]]);
    let parsed = SignedData::parse_ber(&der).unwrap();
    for signer_info in parsed.signers() {
        signer_info.verify_message_digest_with_content(&covered).unwrap();
    }
}

#[test]
fn signature_that_would_overwrite_the_bracket_is_too_large() {
    let d = document_with_placeholder();
    let (range, out) = set_next_byte_range(d).unwrap();
    let close = range.0[2] - 1;
    for n in [9000usize, 8998] {
        match write_signature(out.clone(), vec![0x11u8; n]) {
            Err(Error::CmsTooLarge { cms_len }) => assert_eq!(cms_len, n),
            other => panic!("unexpected: {:?}", other.map(|v| v.len())),
        }
    }
    let signed = write_signature(out.clone(), vec![0x11u8; 8997]).unwrap();
    assert_eq!(signed.len(), out.len());
    assert_eq!(signed[close], b'>');
    assert_eq!(&signed[close..], &out[close..]);
}
