use pdf_signing::acro_form::{
    as_byte_range, classify, load_all_forms, load_field_list, AcroForm, FieldNode, FormComponent,
    Widget,
};
use pdf_signing::pdf_value::{ObjectId, PdfValue};
use pdf_signing::rectangle::Rectangle;
use pdf_signing::signature_image::{decode_field_meta, get_rectangle_from_form, normalize};
use pdf_signing::signature_info::{add_general_info_to_signature, pdf_date_bytes, SigningTime};
use pdf_signing::signing::{appearance_targets, SigningSession, SigningTarget, LOOP_LIMIT};
use pdf_signing::version::{catalog_version_entry, needs_version_raise, pdf_header_version};
use cryptographic_message_syntax::SignerBuilder;
use pdf_signing::{Error, UserSignatureInfo};
use x509_certificate::{CapturedX509Certificate, InMemorySigningKeyPair, KeyAlgorithm, X509CertificateBuilder};

fn id(n: u32) -> ObjectId {
    ObjectId { number: n, generation: 0 }
}

fn bound_name(user_id: &str) -> Vec<u8> {
    base64::encode(format!("{{\"userId\":\"{}\"}}", user_id)).into_bytes()
}

fn widget(n: u32) -> FieldNode {
    FieldNode {
        object_id: Some(id(n)),
        field_type: None,
        partial_name: None,
        alternate_name: None,
        value: None,
        kids: vec![],
        is_annotation: true,
        rect: Some(Rectangle { x1: 10_000, y1: 10_000, x2: 110_000, y2: 60_000 }),
    }
}

fn signature_field(n: u32, name: Option<Vec<u8>>, value: Option<PdfValue>) -> FieldNode {
    FieldNode {
        object_id: Some(id(n)),
        field_type: Some(b"Sig".to_vec()),
        partial_name: name,
        alternate_name: None,
        value,
        kids: vec![widget(n + 100)],
        is_annotation: false,
        rect: None,
    }
}

fn signed_value() -> PdfValue {
    PdfValue::Dictionary(vec![
        (b"Type".to_vec(), PdfValue::Name(b"Sig".to_vec())),
        (b"Filter".to_vec(), PdfValue::Name(b"Adobe.PPKLite".to_vec())),
        (
            b"ByteRange".to_vec(),
            PdfValue::Array(vec![
                PdfValue::Integer(0),
                PdfValue::Integer(100),
                PdfValue::Integer(200),
                PdfValue::Integer(50),
            ]),
        ),
        (b"Contents".to_vec(), PdfValue::HexString(vec![0x30, 0x82])),
        (b"Name".to_vec(), PdfValue::LiteralString(b"Alice".to_vec())),
    ])
}

fn test_key() -> (CapturedX509Certificate, InMemorySigningKeyPair) {
    let mut builder = X509CertificateBuilder::default();
    builder.subject().append_common_name_utf8_string("Test Signer").unwrap();
    builder.create_with_random_keypair(KeyAlgorithm::Ed25519).unwrap()
}

fn user<'a>(
    key: &'a (CapturedX509Certificate, InMemorySigningKeyPair),
    user_id: &str,
    name: &str,
) -> UserSignatureInfo<'a> {
    UserSignatureInfo {
        user_id: user_id.to_owned(),
        user_name: name.to_owned(),
        user_email: format!("{}@test.com", name.to_lowercase()),
        user_signature: vec![],
        user_signing_keys: SignerBuilder::new(&key.1, key.0.clone()),
    }
}

fn scan(nodes: &Vec<FieldNode>) -> Vec<AcroForm> {
    load_all_forms(Some(nodes)).unwrap()
}

#[test]
fn field_meta_decodes_user_id() {
    let meta = decode_field_meta(&bound_name("256")).unwrap();
    assert_eq!(meta.user_id, "256");
}

#[test]
fn field_meta_not_base64_is_skipped() {
    assert!(decode_field_meta(b"not-base64!").is_none());
}

#[test]
fn field_meta_not_json_is_skipped() {
    assert!(decode_field_meta(base64::encode("hello").as_bytes()).is_none());
    assert!(decode_field_meta(base64::encode("{\"user\":\"9\"}").as_bytes()).is_none());
}

#[test]
fn classify_kinds() {
    assert!(matches!(classify(b"Btn", &None), Ok(FormComponent::Button)));
    assert!(matches!(classify(b"Tx", &None), Ok(FormComponent::Text)));
    assert!(matches!(classify(b"Ch", &None), Ok(FormComponent::ComboBox)));
    assert!(matches!(classify(b"Zz", &None), Ok(FormComponent::Unknown)));
    assert!(matches!(classify(b"Sig", &None), Ok(FormComponent::EmptySignature)));
    let empty_v = Some(PdfValue::Dictionary(vec![(b"Type".to_vec(), PdfValue::Name(b"Sig".to_vec()))]));
    assert!(matches!(classify(b"Sig", &empty_v), Ok(FormComponent::EmptySignature)));
    assert!(matches!(classify(b"Sig", &Some(PdfValue::Integer(1))), Err(Error::ParseError)));
}

#[test]
fn signed_signature_record() {
    match classify(b"Sig", &Some(signed_value())) {
        Ok(FormComponent::SignedSignature(s)) => {
            assert_eq!(s.filter, b"Adobe.PPKLite".to_vec());
            assert_eq!(s.contents, vec![0x30, 0x82]);
            assert_eq!(s.byte_range, vec![(0, 100), (200, 50)]);
            assert_eq!(s.name, Some(b"Alice".to_vec()));
            assert_eq!(s.sig_type, Some(b"Sig".to_vec()));
            assert!(s.sub_filter.is_none());
            assert!(s.cert.is_none());
        }
        other => panic!("unexpected: {:?}", other),
    }
}

#[test]
fn signed_without_filter_is_parse_error() {
    let v = PdfValue::Dictionary(vec![(b"Contents".to_vec(), PdfValue::HexString(vec![1]))]);
    assert!(matches!(classify(b"Sig", &Some(v)), Err(Error::ParseError)));
}

#[test]
fn byte_range_pairs() {
    let a = PdfValue::Array(vec![PdfValue::Integer(0), PdfValue::Integer(5), PdfValue::Integer(9)]);
    assert_eq!(as_byte_range(Some(&a)).unwrap(), vec![(0, 5)]);
    let negative = PdfValue::Array(vec![PdfValue::Integer(-1), PdfValue::Integer(5)]);
    assert!(matches!(as_byte_range(Some(&negative)), Err(Error::ParseError)));
    assert!(matches!(as_byte_range(None), Err(Error::ParseError)));
}

#[test]
fn field_type_is_inherited() {
    let mut parent = signature_field(1, Some(b"parent".to_vec()), None);
    parent.kids = vec![signature_field(2, Some(b"child".to_vec()), None)];
    parent.kids[0].field_type = None;
    parent.field_type = Some(b"Tx".to_vec());
    let forms = scan(&vec![parent]);
    assert_eq!(forms.len(), 1);
    assert_eq!(forms[0].object_id, Some(id(2)));
    assert!(matches!(forms[0].form_component, FormComponent::Text));
    assert_eq!(forms[0].widgets.len(), 1);
}

#[test]
fn no_acro_form_has_no_fields() {
    assert!(load_all_forms(None).unwrap().is_empty());
}

#[test]
fn field_without_type_is_not_recorded() {
    let mut f = signature_field(1, None, None);
    f.field_type = None;
    assert!(scan(&vec![f]).is_empty());
}

#[test]
fn too_deep_is_parse_error() {
    assert!(matches!(load_field_list(&vec![widget(1)], None, 0), Err(Error::ParseError)));
}

#[test]
fn rectangle_is_first_annotation_and_normalized() {
    let mut forms = scan(&vec![signature_field(1, None, None)]);
    let mut other = forms[0].widgets[0];
    other.is_annotation = false;
    forms[0].widgets.insert(0, other);
    let r = get_rectangle_from_form(&forms[0].widgets).unwrap();
    assert_eq!(r, Rectangle { x1: 10_000, y1: 10_000, x2: 110_000, y2: 60_000 });
    let flipped = Rectangle { x1: 5, y1: 9, x2: 1, y2: 2 };
    assert_eq!(normalize(&flipped), Some(Rectangle { x1: 1, y1: 2, x2: 5, y2: 9 }));
    assert_eq!(normalize(&Rectangle { x1: 1, y1: 1, x2: 1, y2: 5 }), None);
}

#[test]
fn three_fields_signed_in_order() {
    let key = test_key();
    let nodes = vec![
        signature_field(1, Some(bound_name("9")), None),
        signature_field(2, Some(bound_name("256")), None),
        signature_field(3, Some(bound_name("272")), None),
    ];
    let users = vec![user(&key, "9", "Alice"), user(&key, "256", "Bob"), user(&key, "272", "Charlie")];
    let mut session = SigningSession::new(scan(&nodes));
    let mut signed = vec![];
    let mut current = nodes;
    loop {
        match session.next_field(&users).unwrap() {
            None => break,
            Some(SigningTarget { field, user, .. }) => {
                signed.push(users[user].user_name.clone());
                // The round gives the field a signed value; the fields are scanned again.
                let target_id = session.fields[field].object_id;
                for node in current.iter_mut() {
                    if node.object_id == target_id {
                        node.value = Some(signed_value());
                    }
                }
                session.reload(scan(&current));
            }
        }
    }
    assert_eq!(signed, vec!["Alice", "Bob", "Charlie"]);
    assert_eq!(session.rounds, 3);
    let forms = scan(&current);
    assert!(forms.iter().all(|f| matches!(f.form_component, FormComponent::SignedSignature(_))));
}

#[test]
fn all_signed_returns_input_unchanged() {
    let key = test_key();
    let nodes = vec![signature_field(1, Some(bound_name("9")), Some(signed_value()))];
    let mut session = SigningSession::new(scan(&nodes));
    assert!(session.next_field(&vec![user(&key, "9", "Alice")]).unwrap().is_none());
    let input = b"%PDF-1.4 unsigned".to_vec();
    assert_eq!(session.result_bytes(input.clone(), None), input);
}

#[test]
fn no_acro_form_returns_input_unchanged() {
    let mut session = SigningSession::new(load_all_forms(None).unwrap());
    assert!(session.next_field(&Vec::<UserSignatureInfo>::new()).unwrap().is_none());
    let input = b"%PDF-1.7 no form".to_vec();
    assert_eq!(session.result_bytes(input.clone(), None), input);
}

#[test]
fn not_base64_field_is_skipped() {
    let key = test_key();
    let nodes = vec![signature_field(1, Some(b"not-base64!".to_vec()), None)];
    let mut session = SigningSession::new(scan(&nodes));
    assert!(session.next_field(&vec![user(&key, "9", "Alice")]).unwrap().is_none());
    assert_eq!(session.rounds, 0);
}

#[test]
fn unknown_user_fails() {
    let key = test_key();
    let nodes = vec![signature_field(1, Some(bound_name("42")), None)];
    let mut session = SigningSession::new(scan(&nodes));
    match session.next_field(&vec![user(&key, "9", "Alice")]) {
        Err(Error::UnknownUser(u)) => assert_eq!(u, "42"),
        other => panic!("unexpected: {:?}", other),
    }
}

#[test]
fn field_without_rectangle_is_skipped() {
    let key = test_key();
    let mut f = signature_field(1, Some(bound_name("9")), None);
    f.kids[0].rect = None;
    let mut session = SigningSession::new(scan(&vec![f]));
    assert!(session.next_field(&vec![user(&key, "9", "Alice")]).unwrap().is_none());
}

#[test]
fn later_user_with_same_id_wins() {
    let key = test_key();
    let nodes = vec![signature_field(1, Some(bound_name("9")), None)];
    let users = vec![user(&key, "9", "Alice"), user(&key, "9", "Alicia")];
    let mut session = SigningSession::new(scan(&nodes));
    let target = session.next_field(&users).unwrap().unwrap();
    assert_eq!(target.user, 1);
    assert_eq!(target.field, 0);
}

#[test]
fn signed_field_before_unsigned_is_passed_over() {
    let key = test_key();
    let nodes = vec![
        signature_field(1, Some(bound_name("9")), Some(signed_value())),
        signature_field(2, Some(bound_name("256")), None),
    ];
    let mut session = SigningSession::new(scan(&nodes));
    let target = session.next_field(&vec![user(&key, "256", "Bob")]).unwrap().unwrap();
    assert_eq!(target.field, 1);
    assert_eq!(session.loop_counter, 2);
}

#[test]
fn loop_guard_stops_the_loop() {
    let key = test_key();
    let nodes = vec![signature_field(1, Some(bound_name("9")), None)];
    let users = vec![user(&key, "9", "Alice")];
    let mut session = SigningSession::new(scan(&nodes));
    session.loop_counter = LOOP_LIMIT - 1;
    assert!(matches!(session.next_field(&users), Err(Error::LoopGuard)));
}

#[test]
fn image_is_reused_for_the_same_user() {
    let mut session = SigningSession::new(vec![]);
    assert_eq!(session.cached_image(&"9".to_owned()), None);
    session.remember_image("9".to_owned(), id(40));
    session.remember_image("256".to_owned(), id(41));
    session.remember_image("9".to_owned(), id(42));
    assert_eq!(session.cached_image(&"9".to_owned()), Some(id(40)));
    assert_eq!(session.cached_image(&"256".to_owned()), Some(id(41)));
}

#[test]
fn signature_dictionary_layout() {
    let t = SigningTime { year: 2024, month: 3, day: 7, hour: 9, minute: 5, second: 1 };
    assert_eq!(pdf_date_bytes(&t), b"D:20240307090501+00'00'".to_vec());
    let d = add_general_info_to_signature("Alice", &t, "linux", "0.1.0");
    let keys: Vec<&[u8]> = d.iter().map(|(k, _)| k.as_slice()).collect();
    assert_eq!(
        keys,
        vec![&b"Type"[..], b"Filter", b"SubFilter", b"ByteRange", b"Contents", b"M", b"Name", b"Prop_Build"]
    );
    assert!(matches!(&d[4].1, PdfValue::HexString(c) if c.len() == 9000 && c.iter().all(|b| *b == 0)));
    assert!(matches!(&d[6].1, PdfValue::LiteralString(n) if n == b"Alice"));
}

#[test]
fn version_raise_below_one_five() {
    assert_eq!(pdf_header_version(b"%PDF-1.4\n%..."), Some((1, 4)));
    assert_eq!(pdf_header_version(b"%PDF-2.0\n"), Some((2, 0)));
    assert_eq!(pdf_header_version(b"%PDX-1.4\n"), None);
    assert!(needs_version_raise(b"%PDF-1.4\n"));
    assert!(!needs_version_raise(b"%PDF-1.5\n"));
    assert!(!needs_version_raise(b"%PDF-1.7\n"));
    assert!(needs_version_raise(b"garbage"));
    let (key, value) = catalog_version_entry();
    assert_eq!(key, b"Version".to_vec());
    assert!(matches!(value, PdfValue::Name(n) if n == b"1.5"));
}

#[test]
fn appearance_goes_to_indirect_annotations() {
    let widgets = vec![
        Widget { object_id: Some(id(5)), is_annotation: true, rect: None },
        Widget { object_id: Some(id(6)), is_annotation: false, rect: None },
        Widget { object_id: None, is_annotation: true, rect: None },
        Widget { object_id: Some(id(7)), is_annotation: true, rect: None },
    ];
    assert_eq!(appearance_targets(&widgets), vec![id(5), id(7)]);
}

#[test]
fn scan_keeps_names_and_order() {
    let mut button = signature_field(1, Some(b"ok".to_vec()), None);
    button.field_type = Some(b"Btn".to_vec());
    let nodes = vec![button, signature_field(2, Some(b"sig".to_vec()), Some(signed_value()))];
    let forms = scan(&nodes);
    assert_eq!(forms.len(), 2);
    assert!(matches!(forms[0].form_component, FormComponent::Button));
    assert_eq!(forms[0].partial_field_name, Some(b"ok".to_vec()));
    assert!(matches!(forms[1].form_component, FormComponent::SignedSignature(_)));
    assert_eq!(forms[1].object_id, Some(id(2)));
}

#[test]
fn scan_records_alternate_name_and_signed_record() {
    let mut f = signature_field(3, Some(b"sig".to_vec()), Some(signed_value()));
    f.alternate_name = Some(b"Sign here".to_vec());
    let forms = scan(&vec![f]);
    assert_eq!(forms[0].alternate_field_name, Some(b"Sign here".to_vec()));
    match &forms[0].form_component {
        FormComponent::SignedSignature(s) => {
            assert_eq!(s.byte_range, vec![(0, 100), (200, 50)]);
            assert_eq!(s.contents, vec![0x30, 0x82]);
        }
        other => panic!("unexpected: {:?}", other),
    }
}
