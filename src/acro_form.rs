//! The signature fields of a document's interactive form (`/Root/AcroForm`):
//! which of them are unsigned, and what a signed one carries.
use crate::error::Error;
use crate::pdf_value::{bytes_of, utf8_of, ObjectId, PdfValue};
use crate::rectangle::Rectangle;
use vstd::prelude::*;

verus! {

/// Deepest nesting of `/Kids` that the scan follows.
pub const MAX_FIELD_DEPTH: usize = 32;

/// A node of the form field tree, as read from the document: the entries the
/// scan looks at, with references already resolved.
#[derive(Debug)]
pub struct FieldNode {
    /// Set when the node is an indirect object.
    pub object_id: Option<ObjectId>,
    /// `/FT`, the field type, when the node has its own.
    pub field_type: Option<Vec<u8>>,
    /// `/T`, the partial field name.
    pub partial_name: Option<Vec<u8>>,
    /// `/TU`, the alternate field name.
    pub alternate_name: Option<Vec<u8>>,
    /// `/V`, the field's value.
    pub value: Option<PdfValue>,
    /// `/Kids`: child fields and widget annotations.
    pub kids: Vec<FieldNode>,
    /// Whether `/Type` is `/Annot`.
    pub is_annotation: bool,
    /// `/Rect`, when it holds at least four numbers.
    pub rect: Option<Rectangle>,
}

/// What a signed signature's `/V` dictionary carries.
#[derive(Debug, Clone)]
pub struct SignedSignature {
    pub sig_type: Option<Vec<u8>>,
    pub filter: Vec<u8>,
    pub sub_filter: Option<Vec<u8>>,
    /// The CMS blob.
    pub contents: Vec<u8>,
    pub cert: Option<Vec<Vec<u8>>>,
    /// The covered spans as `(offset, length)`.
    pub byte_range: Vec<(u64, u64)>,
    /// The signer's name, when it cannot be taken from the signature.
    pub name: Option<Vec<u8>>,
    pub prop_auth_time: Option<u64>,
    pub prop_auth_type: Option<Vec<u8>>,
}

/// The kind of a form field.
#[derive(Debug, Clone)]
pub enum FormComponent {
    Button,
    Text,
    /// A choice field.
    ComboBox,
    /// A signature field that is not signed yet.
    EmptySignature,
    /// A signature field that is signed.
    SignedSignature(SignedSignature),
    /// A field type that the scan does not know.
    Unknown,
}

/// A child of a form field that may be its widget annotation.
#[derive(Debug, Clone, Copy)]
pub struct Widget {
    pub object_id: Option<ObjectId>,
    /// Whether `/Type` is `/Annot`.
    pub is_annotation: bool,
    /// `/Rect`, when it holds at least four numbers.
    pub rect: Option<Rectangle>,
}

/// A form field found by the scan.
#[derive(Debug, Clone)]
pub struct AcroForm {
    pub object_id: Option<ObjectId>,
    pub partial_field_name: Option<Vec<u8>>,
    pub alternate_field_name: Option<Vec<u8>>,
    pub form_component: FormComponent,
    /// The field's `/Kids`, where its widget annotations are.
    pub widgets: Vec<Widget>,
}

/// The widgets of a node's kids, in order.
pub open spec fn widgets_of(node: FieldNode) -> Seq<Widget> {
    node.kids@.map_values(
        |k: FieldNode| Widget { object_id: k.object_id, is_annotation: k.is_annotation, rect: k.rect },
    )
}

fn widgets(node: &FieldNode) -> (r: Vec<Widget>)
    ensures
        r@ == widgets_of(*node),
{
    let mut out: Vec<Widget> = Vec::new();
    let mut i: usize = 0;
    while i < node.kids.len()
        invariant
            i <= node.kids@.len(),
            out@ == widgets_of(*node).take(i as int),
        decreases node.kids@.len() - i,
    {
        let k = &node.kids[i];
        out.push(Widget { object_id: k.object_id, is_annotation: k.is_annotation, rect: k.rect });
        i = i + 1;
        assert(out@ =~= widgets_of(*node).take(i as int));
    }
    assert(widgets_of(*node).take(i as int) =~= widgets_of(*node));
    out
}

impl AcroForm {
    pub fn is_empty_signature(&self) -> (r: bool)
        ensures
            r == (self.form_component is EmptySignature),
    {
        match self.form_component {
            FormComponent::EmptySignature => true,
            _ => false,
        }
    }
}

/// The value under `key`: the first entry with that key.
pub open spec fn lookup(d: Seq<(Vec<u8>, PdfValue)>, key: Seq<u8>) -> Option<PdfValue>
    decreases d.len(),
{
    if d.len() == 0 {
        None
    } else if d[0].0@ == key {
        Some(d[0].1)
    } else {
        lookup(d.skip(1), key)
    }
}

/// The value under `key` in the dictionary entries `d`.
pub fn dict_get<'a>(d: &'a Vec<(Vec<u8>, PdfValue)>, key: &[u8]) -> (r: Option<&'a PdfValue>)
    ensures
        r matches Some(v) ==> lookup(d@, key@) == Some(*v),
        r is None ==> lookup(d@, key@) is None,
{
    let mut i: usize = 0;
    assert(d@.skip(0) =~= d@);
    while i < d.len()
        invariant
            i <= d@.len(),
            lookup(d@, key@) == lookup(d@.skip(i as int), key@),
        decreases d@.len() - i,
    {
        let (k, v) = &d[i];
        assert(d@.skip(i as int)[0] == d@[i as int]);
        if bytes_equal(k.as_slice(), key) {
            return Some(v);
        }
        assert(d@.skip(i as int).skip(1) =~= d@.skip(i + 1));
        i = i + 1;
    }
    None
}

/// Whether two byte strings are equal.
pub fn bytes_equal(a: &[u8], b: &[u8]) -> (r: bool)
    ensures
        r == (a@ == b@),
{
    if a.len() != b.len() {
        return false;
    }
    let mut i: usize = 0;
    while i < a.len()
        invariant
            i <= a@.len(),
            a@.len() == b@.len(),
            forall|j: int| 0 <= j < i ==> a@[j] == b@[j],
        decreases a@.len() - i,
    {
        if a[i] != b[i] {
            return false;
        }
        i = i + 1;
    }
    assert(a@ =~= b@);
    true
}

/// A name, if `v` is one.
pub open spec fn name_of(v: PdfValue) -> Option<Seq<u8>> {
    match v {
        PdfValue::Name(n) => Some(n@),
        _ => None,
    }
}

/// The bytes of a string, if `v` is one.
pub open spec fn string_of(v: PdfValue) -> Option<Seq<u8>> {
    match v {
        PdfValue::LiteralString(b) => Some(b@),
        PdfValue::HexString(b) => Some(b@),
        _ => None,
    }
}

/// An optional entry read with `read`: absent is `Ok(None)`, a value that
/// `read` refuses is `Err`.
pub open spec fn optional(v: Option<PdfValue>, read: spec_fn(PdfValue) -> Option<Seq<u8>>) -> Result<
    Option<Seq<u8>>,
    (),
> {
    match v {
        None => Ok(None),
        Some(x) => match read(x) {
            Some(b) => Ok(Some(b)),
            None => Err(()),
        },
    }
}

/// A list of non-negative integers read as `(offset, length)` pairs; an
/// unpaired last value is checked and left out.
pub open spec fn byte_pairs(a: Seq<PdfValue>) -> Option<Seq<(u64, u64)>> {
    if forall|i: int| 0 <= i < a.len() ==> (#[trigger] a[i] matches PdfValue::Integer(x) && x >= 0) {
        Some(
            Seq::new(
                a.len() / 2,
                |i: int|
                    (
                        (a[2 * i]->Integer_0) as u64,
                        (a[2 * i + 1]->Integer_0) as u64,
                    ),
            ),
        )
    } else {
        None
    }
}

fn optional_bytes(v: Option<&PdfValue>, want_name: bool) -> (r: Result<Option<Vec<u8>>, Error>)
    ensures
        ({
            let read = if want_name {
                |x: PdfValue| name_of(x)
            } else {
                |x: PdfValue| string_of(x)
            };
            let expected = optional(
                match v {
                    Some(x) => Some(*x),
                    None => None,
                },
                read,
            );
            &&& expected is Err <==> r is Err
            &&& r matches Err(e) ==> e is ParseError
            &&& r matches Ok(o) ==> match o {
                Some(b) => expected == Ok::<Option<Seq<u8>>, ()>(Some(b@)),
                None => expected == Ok::<Option<Seq<u8>>, ()>(None),
            }
        }),
{
    match v {
        None => Ok(None),
        Some(PdfValue::Name(n)) if want_name => Ok(Some(n.clone())),
        Some(PdfValue::LiteralString(b)) if !want_name => Ok(Some(b.clone())),
        Some(PdfValue::HexString(b)) if !want_name => Ok(Some(b.clone())),
        Some(_) => Err(Error::ParseError),
    }
}

/// An optional name entry.
pub fn as_option_name(v: Option<&PdfValue>) -> (r: Result<Option<Vec<u8>>, Error>)
    ensures
        ({
            let expected = optional(
                match v {
                    Some(x) => Some(*x),
                    None => None,
                },
                |x: PdfValue| name_of(x),
            );
            &&& expected is Err <==> r is Err
            &&& r matches Err(e) ==> e is ParseError
            &&& r matches Ok(Some(b)) ==> expected == Ok::<Option<Seq<u8>>, ()>(Some(b@))
            &&& r matches Ok(None) ==> expected == Ok::<Option<Seq<u8>>, ()>(None)
        }),
{
    optional_bytes(v, true)
}

/// An optional string entry, as its bytes.
pub fn as_option_byte_string(v: Option<&PdfValue>) -> (r: Result<Option<Vec<u8>>, Error>)
    ensures
        ({
            let expected = optional(
                match v {
                    Some(x) => Some(*x),
                    None => None,
                },
                |x: PdfValue| string_of(x),
            );
            &&& expected is Err <==> r is Err
            &&& r matches Err(e) ==> e is ParseError
            &&& r matches Ok(Some(b)) ==> expected == Ok::<Option<Seq<u8>>, ()>(Some(b@))
            &&& r matches Ok(None) ==> expected == Ok::<Option<Seq<u8>>, ()>(None)
        }),
{
    optional_bytes(v, false)
}

/// A `/ByteRange` entry as `(offset, length)` pairs.
pub fn as_byte_range(v: Option<&PdfValue>) -> (r: Result<Vec<(u64, u64)>, Error>)
    ensures
        r is Ok <==> (v matches Some(x) && (*x matches PdfValue::Array(a) && byte_pairs(a@) is Some)),
        r matches Err(e) ==> e is ParseError,
        r matches Ok(pairs) ==> (v matches Some(x) && (*x matches PdfValue::Array(a) && byte_pairs(
            a@,
        ) == Some(pairs@))),
{
    let x = match v {
        Some(x) => x,
        None => return Err(Error::ParseError),
    };
    let list = match x {
        PdfValue::Array(list) => list,
        _ => return Err(Error::ParseError),
    };
    assert(*x == PdfValue::Array(*list));
    let mut k: usize = 0;
    while k < list.len()
        invariant
            k <= list@.len(),
            v == Some(x),
            *x == PdfValue::Array(*list),
            forall|i: int| 0 <= i < k ==> (#[trigger] list@[i] matches PdfValue::Integer(x) && x >= 0),
        decreases list@.len() - k,
    {
        let ok = match &list[k] {
            PdfValue::Integer(x) => *x >= 0,
            _ => false,
        };
        if !ok {
            assert(!(list@[k as int] matches PdfValue::Integer(x) && x >= 0));
            assert(byte_pairs(list@) is None);
            return Err(Error::ParseError);
        }
        k = k + 1;
    }
    let mut result: Vec<(u64, u64)> = Vec::new();
    let mut p: usize = 0;
    let pairs = list.len() / 2;
    let _len = list.len();
    while p < pairs
        invariant
            pairs == list@.len() / 2,
            list@.len() <= usize::MAX,
            p <= pairs,
            forall|i: int| 0 <= i < list@.len() ==> (#[trigger] list@[i] matches PdfValue::Integer(x) && x >= 0),
            result@ == Seq::new(
                p as nat,
                |i: int| ((list@[2 * i]->Integer_0) as u64, (list@[2 * i + 1]->Integer_0) as u64),
            ),
        decreases pairs - p,
    {
        assert(2 * p + 2 <= list@.len()) by (nonlinear_arith)
            requires
                p < pairs,
                pairs == list@.len() / 2,
        ;
        let offset = match &list[2 * p] {
            PdfValue::Integer(x) => *x as u64,
            _ => 0,
        };
        let length = match &list[2 * p + 1] {
            PdfValue::Integer(x) => *x as u64,
            _ => 0,
        };
        result.push((offset, length));
        p = p + 1;
        assert(result@ =~= Seq::new(
            p as nat,
            |i: int| ((list@[2 * i]->Integer_0) as u64, (list@[2 * i + 1]->Integer_0) as u64),
        ));
    }
    Ok(result)
}

/// A `/Cert` entry: one string, or an array of strings.
pub fn as_array_or_byte_string(v: Option<&PdfValue>) -> (r: Result<Vec<Vec<u8>>, Error>)
    ensures
        r matches Ok(certs) ==> (v matches Some(x) && match *x {
            PdfValue::LiteralString(b) => certs@.len() == 1 && certs@[0]@ == b@,
            PdfValue::HexString(b) => certs@.len() == 1 && certs@[0]@ == b@,
            PdfValue::Array(a) => certs@.len() == a@.len() && forall|i: int|
                0 <= i < a@.len() ==> string_of(#[trigger] a@[i]) == Some(certs@[i]@),
            _ => false,
        }),
        r is Err ==> match v {
            Some(x) => match *x {
                PdfValue::Array(a) => exists|i: int| 0 <= i < a@.len() && string_of(#[trigger] a@[i]) is None,
                PdfValue::LiteralString(_) => false,
                PdfValue::HexString(_) => false,
                _ => true,
            },
            None => true,
        },
{
    match v {
        Some(PdfValue::LiteralString(b)) => Ok(vec![b.clone()]),
        Some(PdfValue::HexString(b)) => Ok(vec![b.clone()]),
        Some(PdfValue::Array(list)) => {
            assert(v == Some(&PdfValue::Array(*list)));
            let mut result: Vec<Vec<u8>> = Vec::new();
            let mut k: usize = 0;
            while k < list.len()
                invariant
                    k <= list@.len(),
                    v == Some(&PdfValue::Array(*list)),
                    result@.len() == k,
                    forall|i: int| 0 <= i < k ==> string_of(#[trigger] list@[i]) == Some(result@[i]@),
                decreases list@.len() - k,
            {
                match &list[k] {
                    PdfValue::LiteralString(b) => result.push(b.clone()),
                    PdfValue::HexString(b) => result.push(b.clone()),
                    _ => {
                        assert(string_of(list@[k as int]) is None);
                        assert(exists|i: int| 0 <= i < list@.len() && string_of(#[trigger] list@[i]) is None);
                        return Err(Error::ParseError);
                    },
                }
                k = k + 1;
            }
            Ok(result)
        },
        _ => Err(Error::ParseError),
    }
}

/// An optional non-negative integer entry.
pub fn as_option_count(v: Option<&PdfValue>) -> (r: Result<Option<u64>, Error>)
    ensures
        r matches Ok(None) <==> v is None,
        r matches Err(e) ==> e is ParseError,
        r is Err <==> (v matches Some(x) && !(*x matches PdfValue::Integer(i) && i >= 0)),
        r matches Ok(Some(n)) ==> (v matches Some(x) && (*x matches PdfValue::Integer(i) && i
            == n)),
{
    match v {
        None => Ok(None),
        Some(PdfValue::Integer(i)) if *i >= 0 => Ok(Some(*i as u64)),
        Some(_) => Err(Error::ParseError),
    }
}

/// The entry under `key` of the dictionary `d`.
pub open spec fn entry_of(d: Seq<(Vec<u8>, PdfValue)>, key: &str) -> Option<PdfValue> {
    lookup(d, utf8_of(key))
}

/// The entries of a `/V` dictionary that a signed signature must have, with
/// the types it must have.
pub open spec fn signed_record_ok(d: Seq<(Vec<u8>, PdfValue)>) -> bool {
    &&& optional(entry_of(d, "Type"), |x: PdfValue| name_of(x)) is Ok
    &&& entry_of(d, "Filter") matches Some(f) && name_of(f) is Some
    &&& optional(entry_of(d, "SubFilter"), |x: PdfValue| name_of(x)) is Ok
    &&& entry_of(d, "Contents") matches Some(c) && string_of(c) is Some
    &&& entry_of(d, "ByteRange") matches Some(b) && (b matches PdfValue::Array(a) && byte_pairs(
        a@,
    ) is Some)
    &&& optional(entry_of(d, "Name"), |x: PdfValue| string_of(x)) is Ok
    &&& entry_of(d, "Prop_AuthTime") matches Some(t) ==> (t matches PdfValue::Integer(i) && i >= 0)
    &&& optional(entry_of(d, "Prop_AuthType"), |x: PdfValue| name_of(x)) is Ok
}

/// What a signed signature's record holds: filter, sub-filter, contents,
/// byte range pairs and signer name.
pub type SignedView = (Seq<u8>, Option<Seq<u8>>, Seq<u8>, Seq<(u64, u64)>, Option<Seq<u8>>);

/// The record of `s`.
pub open spec fn signed_view(s: SignedSignature) -> SignedView {
    (s.filter@, name_view(s.sub_filter), s.contents@, s.byte_range@, name_view(s.name))
}

/// The record that the `/V` dictionary `d` of a signed signature gives.
pub open spec fn expected_signed(d: Seq<(Vec<u8>, PdfValue)>) -> SignedView {
    (
        name_of(entry_of(d, "Filter")->Some_0)->Some_0,
        optional(entry_of(d, "SubFilter"), |x: PdfValue| name_of(x))->Ok_0,
        string_of(entry_of(d, "Contents")->Some_0)->Some_0,
        byte_pairs(entry_of(d, "ByteRange")->Some_0->Array_0@)->Some_0,
        optional(entry_of(d, "Name"), |x: PdfValue| string_of(x))->Ok_0,
    )
}

/// Reads the record of a signed signature from its `/V` dictionary.
pub fn signed_signature(d: &Vec<(Vec<u8>, PdfValue)>) -> (r: Result<SignedSignature, Error>)
    ensures
        r is Ok <==> signed_record_ok(d@),
        r matches Err(e) ==> e is ParseError,
        r matches Ok(s) ==> signed_view(s) == expected_signed(d@),
        r matches Ok(s) ==> {
            &&& Some(s.filter@) == name_of(entry_of(d@, "Filter")->Some_0)
            &&& Some(s.contents@) == string_of(entry_of(d@, "Contents")->Some_0)
            &&& Some(s.byte_range@) == byte_pairs(entry_of(d@, "ByteRange")->Some_0->Array_0@)
            &&& optional(entry_of(d@, "SubFilter"), |x: PdfValue| name_of(x)) == Ok::<
                Option<Seq<u8>>,
                (),
            >(
                match s.sub_filter {
                    Some(b) => Some(b@),
                    None => None,
                },
            )
            &&& optional(entry_of(d@, "Name"), |x: PdfValue| string_of(x)) == Ok::<
                Option<Seq<u8>>,
                (),
            >(
                match s.name {
                    Some(b) => Some(b@),
                    None => None,
                },
            )
        },
{
    let sig_type = match as_option_name(dict_get(d, bytes_of("Type").as_slice())) {
        Ok(t) => t,
        Err(e) => return Err(e),
    };
    let filter = match as_option_name(dict_get(d, bytes_of("Filter").as_slice())) {
        Ok(Some(f)) => f,
        _ => return Err(Error::ParseError),
    };
    let sub_filter = match as_option_name(dict_get(d, bytes_of("SubFilter").as_slice())) {
        Ok(f) => f,
        Err(e) => return Err(e),
    };
    let contents = match as_option_byte_string(dict_get(d, bytes_of("Contents").as_slice())) {
        Ok(Some(c)) => c,
        _ => return Err(Error::ParseError),
    };
    let cert = match as_array_or_byte_string(dict_get(d, bytes_of("Cert").as_slice())) {
        Ok(c) => Some(c),
        Err(_) => None,
    };
    let byte_range = match as_byte_range(dict_get(d, bytes_of("ByteRange").as_slice())) {
        Ok(b) => b,
        Err(e) => return Err(e),
    };
    let name = match as_option_byte_string(dict_get(d, bytes_of("Name").as_slice())) {
        Ok(n) => n,
        Err(e) => return Err(e),
    };
    let prop_auth_time = match as_option_count(dict_get(d, bytes_of("Prop_AuthTime").as_slice())) {
        Ok(t) => t,
        Err(e) => return Err(e),
    };
    let prop_auth_type = match as_option_name(dict_get(d, bytes_of("Prop_AuthType").as_slice())) {
        Ok(t) => t,
        Err(e) => return Err(e),
    };
    Ok(
        SignedSignature {
            sig_type,
            filter,
            sub_filter,
            contents,
            cert,
            byte_range,
            name,
            prop_auth_time,
            prop_auth_type,
        },
    )
}

/// The kind of a field, without what a signed one carries.
#[derive(Debug, Clone, Copy, PartialEq, Eq, Structural)]
pub enum FieldKind {
    Button,
    Text,
    Choice,
    UnsignedSignature,
    SignedSignature,
    Unknown,
}

/// The kind of a form component.
pub open spec fn kind_of_component(c: FormComponent) -> FieldKind {
    match c {
        FormComponent::Button => FieldKind::Button,
        FormComponent::Text => FieldKind::Text,
        FormComponent::ComboBox => FieldKind::Choice,
        FormComponent::EmptySignature => FieldKind::UnsignedSignature,
        FormComponent::SignedSignature(_) => FieldKind::SignedSignature,
        FormComponent::Unknown => FieldKind::Unknown,
    }
}

/// A field's kind, with the record where it is a signed signature.
pub type ComponentView = (FieldKind, Option<SignedView>);

/// The kind and record of a form component.
pub open spec fn component_view(c: FormComponent) -> ComponentView {
    match c {
        FormComponent::SignedSignature(s) => (FieldKind::SignedSignature, Some(signed_view(s))),
        _ => (kind_of_component(c), None),
    }
}

/// The kind of a field of type `ft` whose `/V` is `value`, with the record
/// that `/V` gives where it is signed; `None` where the field is malformed.
pub open spec fn expected_component(ft: Seq<u8>, value: Option<PdfValue>) -> Option<ComponentView> {
    match kind_of(ft, value) {
        None => None,
        Some(FieldKind::SignedSignature) => Some(
            (FieldKind::SignedSignature, Some(expected_signed(value->Some_0->Dictionary_0@))),
        ),
        Some(k) => Some((k, None)),
    }
}

/// The kind of a field of type `ft` whose `/V` is `value`; `None` where the
/// field is malformed: a signature whose `/V` is no dictionary, or is signed
/// without the entries a signed one must have.
pub open spec fn kind_of(ft: Seq<u8>, value: Option<PdfValue>) -> Option<FieldKind> {
    if ft == utf8_of("Btn") {
        Some(FieldKind::Button)
    } else if ft == utf8_of("Tx") {
        Some(FieldKind::Text)
    } else if ft == utf8_of("Ch") {
        Some(FieldKind::Choice)
    } else if ft == utf8_of("Sig") {
        match value {
            None => Some(FieldKind::UnsignedSignature),
            Some(PdfValue::Dictionary(d)) => if entry_of(d@, "Filter") is Some || entry_of(
                d@,
                "Contents",
            ) is Some {
                if signed_record_ok(d@) {
                    Some(FieldKind::SignedSignature)
                } else {
                    None
                }
            } else {
                Some(FieldKind::UnsignedSignature)
            },
            Some(_) => None,
        }
    } else {
        Some(FieldKind::Unknown)
    }
}

/// Classifies a field of type `field_type` whose `/V` is `value`.
pub fn classify(field_type: &[u8], value: &Option<PdfValue>) -> (r: Result<FormComponent, Error>)
    ensures
        r is Err <==> kind_of(field_type@, *value) is None,
        r matches Err(e) ==> e is ParseError,
        r matches Ok(c) ==> kind_of(field_type@, *value) == Some(kind_of_component(c)),
        r matches Ok(c) ==> expected_component(field_type@, *value) == Some(component_view(c)),
{
    if bytes_equal(field_type, bytes_of("Btn").as_slice()) {
        Ok(FormComponent::Button)
    } else if bytes_equal(field_type, bytes_of("Tx").as_slice()) {
        Ok(FormComponent::Text)
    } else if bytes_equal(field_type, bytes_of("Ch").as_slice()) {
        Ok(FormComponent::ComboBox)
    } else if bytes_equal(field_type, bytes_of("Sig").as_slice()) {
        match value {
            None => Ok(FormComponent::EmptySignature),
            Some(PdfValue::Dictionary(d)) => {
                let has_filter = dict_get(d, bytes_of("Filter").as_slice()).is_some();
                let has_contents = dict_get(d, bytes_of("Contents").as_slice()).is_some();
                if has_filter || has_contents {
                    match signed_signature(d) {
                        Ok(record) => Ok(FormComponent::SignedSignature(record)),
                        Err(e) => Err(e),
                    }
                } else {
                    Ok(FormComponent::EmptySignature)
                }
            },
            Some(_) => Err(Error::ParseError),
        }
    } else {
        Ok(FormComponent::Unknown)
    }
}

/// Some child of the node is a field (has a `/T`) rather than only a widget
/// annotation.
pub open spec fn has_field_kids(node: FieldNode) -> bool {
    exists|i: int| 0 <= i < node.kids@.len() && (#[trigger] node.kids@[i]).partial_name is Some
}

/// A node's own `/FT`, or else the one it inherits.
pub open spec fn effective_type(own: Option<Vec<u8>>, inherited: Option<Seq<u8>>) -> Option<Seq<u8>> {
    match own {
        Some(t) => Some(t@),
        None => inherited,
    }
}

/// A recorded field: its object id, partial name, alternate name, and kind
/// with the record of a signed signature.
pub type FieldRecord = (Option<ObjectId>, Option<Seq<u8>>, Option<Seq<u8>>, ComponentView);

/// The bytes of an optional name.
pub open spec fn name_view(n: Option<Vec<u8>>) -> Option<Seq<u8>> {
    match n {
        Some(b) => Some(b@),
        None => None,
    }
}

/// The fields that a scan of `list` records, in order, each as its object id,
/// partial name and kind: the leaves that have a type, own or inherited, where a node with
/// child fields passes its type down to them. `None` where a field is
/// malformed or the tree is deeper than `depth`.
pub open spec fn scan(list: Seq<FieldNode>, inherited: Option<Seq<u8>>, depth: nat) -> Option<
    Seq<FieldRecord>,
>
    decreases depth, list.len(),
{
    if depth == 0 {
        None
    } else if list.len() == 0 {
        Some(Seq::empty())
    } else {
        let node = list.last();
        let ft = effective_type(node.field_type, inherited);
        let mine = if has_field_kids(node) {
            scan(node.kids@, ft, (depth - 1) as nat)
        } else {
            match ft {
                Some(t) => match expected_component(t, node.value) {
                    Some(k) => Some(
                        seq![
                            (
                                node.object_id,
                                name_view(node.partial_name),
                                name_view(node.alternate_name),
                                k,
                            ),
                        ],
                    ),
                    None => None,
                },
                None => Some(Seq::empty()),
            }
        };
        match (scan(list.drop_last(), inherited, depth), mine) {
            (Some(a), Some(b)) => Some(a + b),
            _ => None,
        }
    }
}

/// The object id and kind of each form.
pub open spec fn forms_view(forms: Seq<AcroForm>) -> Seq<FieldRecord> {
    forms.map_values(
        |f: AcroForm|
            (
                f.object_id,
                name_view(f.partial_field_name),
                name_view(f.alternate_field_name),
                component_view(f.form_component),
            ),
    )
}

/// A scan fails as soon as a scan of a prefix of the list fails.
proof fn lemma_scan_prefix_fails(list: Seq<FieldNode>, inherited: Option<Seq<u8>>, depth: nat, j: int)
    requires
        0 <= j <= list.len(),
        scan(list.take(j), inherited, depth) is None,
    ensures
        scan(list, inherited, depth) is None,
    decreases list.len(),
{
    if j == list.len() {
        assert(list.take(j) =~= list);
    } else {
        assert(list.drop_last().take(j) =~= list.take(j));
        lemma_scan_prefix_fails(list.drop_last(), inherited, depth, j);
    }
}

fn has_field_kid(node: &FieldNode) -> (r: bool)
    ensures
        r == has_field_kids(*node),
{
    let mut i: usize = 0;
    while i < node.kids.len()
        invariant
            i <= node.kids@.len(),
            forall|j: int| 0 <= j < i ==> (#[trigger] node.kids@[j]).partial_name is None,
        decreases node.kids@.len() - i,
    {
        if node.kids[i].partial_name.is_some() {
            return true;
        }
        i = i + 1;
    }
    false
}

/// Scans a list of the field tree under `/Root/AcroForm/Fields`: records each
/// leaf field that has a type, own or inherited, with its names and kind.
pub fn load_field_list(list: &Vec<FieldNode>, inherited: Option<&Vec<u8>>, depth: usize) -> (r:
    Result<Vec<AcroForm>, Error>)
    ensures
        ({
            let inh = match inherited {
                Some(t) => Some(t@),
                None => None,
            };
            &&& r is Ok <==> scan(list@, inh, depth as nat) is Some
            &&& r matches Err(e) ==> e is ParseError
            &&& r matches Ok(forms) ==> Some(forms_view(forms@)) == scan(list@, inh, depth as nat)
        }),
    decreases depth,
{
    let ghost inh = match inherited {
        Some(t) => Some(t@),
        None => None,
    };
    if depth == 0 {
        return Err(Error::ParseError);
    }
    let mut form_fields: Vec<AcroForm> = Vec::new();
    let mut i: usize = 0;
    assert(list@.take(0) =~= Seq::<FieldNode>::empty());
    while i < list.len()
        invariant
            i <= list@.len(),
            depth > 0,
            inh == match inherited {
                Some(t) => Some(t@),
                None => None::<Seq<u8>>,
            },
            scan(list@.take(i as int), inh, depth as nat) == Some(forms_view(form_fields@)),
        decreases list@.len() - i,
    {
        let node = &list[i];
        assert(list@.take(i + 1).drop_last() =~= list@.take(i as int));
        assert(list@.take(i + 1).last() == list@[i as int]);
        let ft: Option<&Vec<u8>> = match &node.field_type {
            Some(t) => Some(t),
            None => inherited,
        };
        if has_field_kid(node) {
            match load_field_list(&node.kids, ft, depth - 1) {
                Ok(kids) => {
                    let ghost before = form_fields@;
                    let mut kids = kids;
                    let ghost found = kids@;
                    form_fields.append(&mut kids);
                    assert(forms_view(form_fields@) =~= forms_view(before) + forms_view(found));
                },
                Err(e) => {
                    proof {
                        lemma_scan_prefix_fails(list@, inh, depth as nat, i + 1);
                    }
                    return Err(e);
                },
            }
        } else if let Some(t) = ft {
            match classify(t.as_slice(), &node.value) {
                Ok(component) => {
                    let ghost before = form_fields@;
                    form_fields.push(
                        AcroForm {
                            object_id: node.object_id,
                            partial_field_name: node.partial_name.clone(),
                            alternate_field_name: node.alternate_name.clone(),
                            form_component: component,
                            widgets: widgets(node),
                        },
                    );
                    assert(forms_view(form_fields@) =~= forms_view(before).push(
                        (
                            node.object_id,
                            name_view(node.partial_name),
                            name_view(node.alternate_name),
                            component_view(component),
                        ),
                    ));
                },
                Err(e) => {
                    proof {
                        lemma_scan_prefix_fails(list@, inh, depth as nat, i + 1);
                    }
                    return Err(e);
                },
            }
        }
        i = i + 1;
    }
    assert(list@.take(list@.len() as int) =~= list@);
    Ok(form_fields)
}

/// Scans the form fields of a document: `fields` is its `/AcroForm/Fields`
/// array, `None` where the document has no `/AcroForm`, which has no fields.
pub fn load_all_forms(fields: Option<&Vec<FieldNode>>) -> (r: Result<Vec<AcroForm>, Error>)
    ensures
        fields is None ==> (r matches Ok(forms) && forms@.len() == 0),
        fields matches Some(list) ==> {
            &&& r is Ok <==> scan(list@, None, MAX_FIELD_DEPTH as nat) is Some
            &&& r matches Ok(forms) ==> Some(forms_view(forms@)) == scan(
                list@,
                None,
                MAX_FIELD_DEPTH as nat,
            )
        },
{
    match fields {
        None => Ok(Vec::new()),
        Some(list) => load_field_list(list, None, MAX_FIELD_DEPTH),
    }
}

} // verus!
