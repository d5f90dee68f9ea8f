//! The certificate authority: it issues a certificate for a signing request
//! whose subject has a common name.
//!
//! Keys, certificates and requests are held as PEM text; reading, signing and
//! writing them is left to `rcgen`, `pem` and `x509_parser`.

use crate::digest::{sha256, sha256_spec};
use crate::hex::{colon_hex_encode, colon_hex_spec, digit_value, law_colon_hex_reads_back};
use crate::text::{cat, chars_of, utf8_text};
use rcgen::{DnType, DnValue, SanType};
use vstd::prelude::*;
use vstd::utf8::{decode_utf8, is_ascii_chars, valid_utf8};

verus! {

/// The error type of `rcgen`.
#[verifier::external_type_specification]
#[verifier::external_body]
pub struct ExRcgenError(rcgen::Error);

/// The error type of `pem`.
#[verifier::external_type_specification]
#[verifier::external_body]
pub struct ExPemError(pem::PemError);

/// Why a key, a certificate or a request cannot be made or read.
#[derive(Debug)]
pub enum PkiError {
    KeyGeneration(rcgen::Error),
    Params(rcgen::Error),
    SelfSign(rcgen::Error),
    Load(rcgen::Error),
    CsrParse(rcgen::Error),
    MissingCommonName,
    /// The request holds a name that cannot be written into a certificate.
    UnwritableRequest,
    /// The authority's own name cannot be written into a certificate.
    UnwritableIssuer,
    Signing(rcgen::Error),
    Pem(pem::PemError),
}

/// Calls `to_string` on an error of `rcgen`. Nothing is claimed of its words.
#[verifier::external_body]
fn rcgen_words(error: &rcgen::Error) -> (res: String) {
    error.to_string()
}

/// Calls `to_string` on an error of `pem`. Nothing is claimed of its words.
#[verifier::external_body]
fn pem_words(error: &pem::PemError) -> (res: String) {
    error.to_string()
}

impl PkiError {
    /// What `message` starts with; an outside error's own words follow.
    pub open spec fn heading(&self) -> Seq<char> {
        match *self {
            PkiError::KeyGeneration(_) => "failed to generate key pair: "@,
            PkiError::Params(_) => "failed to build certificate parameters: "@,
            PkiError::SelfSign(_) => "failed to self-sign CA certificate: "@,
            PkiError::Load(_) => "failed to load CA key or certificate: "@,
            PkiError::CsrParse(_) => "failed to parse CSR: "@,
            PkiError::MissingCommonName => "CSR has no usable Common Name in its subject"@,
            PkiError::UnwritableRequest => "CSR holds a name that no certificate can carry"@,
            PkiError::UnwritableIssuer => "CA holds a name that no certificate can carry"@,
            PkiError::Signing(_) => "failed to sign certificate: "@,
            PkiError::Pem(_) => "failed to parse PEM: "@,
        }
    }

    /// Whether `heading` is all that there is to say.
    pub open spec fn is_plain(&self) -> bool {
        *self is MissingCommonName || *self is UnwritableRequest || *self is UnwritableIssuer
    }

    /// The error in words.
    pub fn message(&self) -> (res: String)
        ensures
            self.heading().is_prefix_of(res@),
            self.is_plain() ==> res@ == self.heading(),
    {
        let (heading, words) = match self {
            PkiError::KeyGeneration(e) => ("failed to generate key pair: ", rcgen_words(e)),
            PkiError::Params(e) => ("failed to build certificate parameters: ", rcgen_words(e)),
            PkiError::SelfSign(e) => ("failed to self-sign CA certificate: ", rcgen_words(e)),
            PkiError::Load(e) => ("failed to load CA key or certificate: ", rcgen_words(e)),
            PkiError::CsrParse(e) => ("failed to parse CSR: ", rcgen_words(e)),
            PkiError::MissingCommonName => {
                ("CSR has no usable Common Name in its subject", String::new())
            },
            PkiError::UnwritableRequest => {
                ("CSR holds a name that no certificate can carry", String::new())
            },
            PkiError::UnwritableIssuer => {
                ("CA holds a name that no certificate can carry", String::new())
            },
            PkiError::Signing(e) => ("failed to sign certificate: ", rcgen_words(e)),
            PkiError::Pem(e) => ("failed to parse PEM: ", pem_words(e)),
        };
        let res = cat(heading, &words, "");
        proof {
            reveal_strlit("");
            assert(res@.subrange(0, self.heading().len() as int) =~= self.heading());
            if self.is_plain() {
                assert(res@ =~= self.heading());
            }
        }
        res
    }
}

/// The common name in a subject, by the kind of string it is written in.
#[derive(Debug, PartialEq)]
pub enum SubjectName {
    Utf8(String),
    Printable(String),
    Ia5(String),
    Teletex(String),
    /// In a kind of string that is not read.
    Other,
    /// There is none.
    Missing,
}

/// The model of the common name in a subject.
pub enum SubjectView {
    Utf8(Seq<char>),
    Printable(Seq<char>),
    Ia5(Seq<char>),
    Teletex(Seq<char>),
    Other,
    Missing,
}

impl DeepView for SubjectName {
    type V = SubjectView;

    open spec fn deep_view(&self) -> SubjectView {
        match *self {
            SubjectName::Utf8(s) => SubjectView::Utf8(s@),
            SubjectName::Printable(s) => SubjectView::Printable(s@),
            SubjectName::Ia5(s) => SubjectView::Ia5(s@),
            SubjectName::Teletex(s) => SubjectView::Teletex(s@),
            SubjectName::Other => SubjectView::Other,
            SubjectName::Missing => SubjectView::Missing,
        }
    }
}

/// The identity that a subject names.
pub open spec fn identity_of(subject: SubjectView) -> Option<Seq<char>> {
    match subject {
        SubjectView::Utf8(s) => Some(s),
        SubjectView::Printable(s) => Some(s),
        SubjectView::Ia5(s) => Some(s),
        SubjectView::Teletex(s) => Some(s),
        _ => None,
    }
}

/// The identity that a subject names.
pub fn common_name_of(subject: SubjectName) -> (res: Option<String>)
    ensures
        res.deep_view() == identity_of(subject.deep_view()),
{
    match subject {
        SubjectName::Utf8(s) => Some(s),
        SubjectName::Printable(s) => Some(s),
        SubjectName::Ia5(s) => Some(s),
        SubjectName::Teletex(s) => Some(s),
        SubjectName::Other => None,
        SubjectName::Missing => None,
    }
}

/// What an attribute of a subject is: the common name, another of those that
/// have names of their own, or one with this object identifier.
#[derive(Debug, PartialEq)]
pub enum AttributeKind {
    CommonName,
    Standard,
    Custom(Vec<u64>),
}

/// The model of what an attribute is.
pub enum KindView {
    CommonName,
    Standard,
    Custom(Seq<u64>),
}

impl DeepView for AttributeKind {
    type V = KindView;

    open spec fn deep_view(&self) -> KindView {
        match *self {
            AttributeKind::CommonName => KindView::CommonName,
            AttributeKind::Standard => KindView::Standard,
            AttributeKind::Custom(arcs) => KindView::Custom(arcs@),
        }
    }
}

/// An attribute of a request's subject.
#[derive(Debug, PartialEq)]
pub struct Attribute {
    pub kind: AttributeKind,
    pub value: SubjectName,
}

/// The model of an attribute.
pub struct AttributeView {
    pub kind: KindView,
    pub value: SubjectView,
}

impl DeepView for Attribute {
    type V = AttributeView;

    open spec fn deep_view(&self) -> AttributeView {
        AttributeView { kind: self.kind.deep_view(), value: self.value.deep_view() }
    }
}

/// An alternative name: one under an object identifier, or a plain one.
#[derive(Debug, PartialEq)]
pub enum AltName {
    Other(Vec<u64>),
    Plain,
}

/// The model of an alternative name.
pub enum AltView {
    Other(Seq<u64>),
    Plain,
}

impl DeepView for AltName {
    type V = AltView;

    open spec fn deep_view(&self) -> AltView {
        match *self {
            AltName::Other(arcs) => AltView::Other(arcs@),
            AltName::Plain => AltView::Plain,
        }
    }
}

/// What a signing request asks for: a subject, no attribute twice, and
/// alternative names.
#[derive(Debug, PartialEq)]
pub struct RequestContent {
    pub subject: Vec<Attribute>,
    pub alt_names: Vec<AltName>,
}

/// The model of what a request asks for.
pub struct RequestView {
    pub subject: Seq<AttributeView>,
    pub alt_names: Seq<AltView>,
}

impl DeepView for RequestContent {
    type V = RequestView;

    open spec fn deep_view(&self) -> RequestView {
        RequestView { subject: self.subject.deep_view(), alt_names: self.alt_names.deep_view() }
    }
}

/// An attribute of a certificate's subject, as it is written.
#[derive(Debug, PartialEq)]
pub struct RawAttribute {
    /// The bytes of its object identifier.
    pub oid: Vec<u8>,
    /// The numbers of its object identifier, where each fits 64 bits.
    pub arcs: Option<Vec<u64>>,
    /// The tag of its value.
    pub tag: u32,
    pub value: Vec<u8>,
}

/// The model of an attribute as it is written.
pub struct RawView {
    pub oid: Seq<u8>,
    pub arcs: Option<Seq<u64>>,
    pub tag: u32,
    pub value: Seq<u8>,
}

impl DeepView for RawAttribute {
    type V = RawView;

    open spec fn deep_view(&self) -> RawView {
        RawView {
            oid: self.oid@,
            arcs: match self.arcs {
                Some(arcs) => Some(arcs@),
                None => None,
            },
            tag: self.tag,
            value: self.value@,
        }
    }
}

/// The tag of a UTF-8 string.
pub const TAG_UTF8: u32 = 12;

/// The tag of a numeric string.
pub const TAG_NUMERIC: u32 = 18;

/// The tag of a printable string.
pub const TAG_PRINTABLE: u32 = 19;

/// The tag of an ASCII string.
pub const TAG_IA5: u32 = 22;

/// The object identifier of a common name, 2.5.4.3.
pub open spec fn common_name_oid() -> Seq<u8> {
    seq![0x55, 0x04, 0x03]
}

/// The common name among the attributes of a request's subject.
pub open spec fn common_name_in(subject: Seq<AttributeView>) -> SubjectView
    decreases subject.len(),
{
    if subject.len() == 0 {
        SubjectView::Missing
    } else if subject[0].kind is CommonName {
        subject[0].value
    } else {
        common_name_in(subject.skip(1))
    }
}

/// The common name in the subject of the signing request that a PEM text
/// holds; `None` where it holds no request with a valid signature.
pub open spec fn csr_subject_spec(csr_pem: Seq<char>) -> Option<SubjectView> {
    match csr_content(csr_pem) {
        Some(content) => Some(common_name_in(content.subject)),
        None => None,
    }
}

/// The common name among the attributes of a request's subject.
fn find_common_name(subject: Vec<Attribute>) -> (res: SubjectName)
    ensures
        res.deep_view() == common_name_in(subject.deep_view()),
{
    let ghost all = subject.deep_view();
    assert(all.skip(0) =~= all);
    for attribute in it: subject
        invariant
            it.seq() == subject@,
            all == subject.deep_view(),
            common_name_in(all) == common_name_in(all.skip(it.index() as int)),
    {
        proof {
            let rest = all.skip(it.index() as int);
            assert(rest.skip(1) =~= all.skip(it.index() + 1));
            assert(rest[0] == attribute.deep_view());
        }
        if let AttributeKind::CommonName = attribute.kind {
            return attribute.value;
        }
    }
    assert(all.skip(all.len() as int) =~= seq![]);
    SubjectName::Missing
}

/// The text of an attribute, where its kind of string is one that is read.
pub open spec fn attribute_text(attribute: RawView) -> Option<Seq<char>> {
    let read = attribute.tag == TAG_UTF8 || attribute.tag == TAG_NUMERIC || attribute.tag
        == TAG_PRINTABLE || attribute.tag == TAG_IA5;
    if read && valid_utf8(attribute.value) {
        Some(decode_utf8(attribute.value))
    } else {
        None
    }
}

/// The text of the first common name among the attributes of a subject.
pub open spec fn first_common_name(subject: Seq<RawView>) -> Option<Seq<char>>
    decreases subject.len(),
{
    if subject.len() == 0 {
        None
    } else if subject[0].oid == common_name_oid() {
        attribute_text(subject[0])
    } else {
        first_common_name(subject.skip(1))
    }
}

/// The common name that a DER certificate shows.
pub open spec fn cert_name(der: Seq<u8>) -> Option<Seq<char>> {
    match cert_subject(der) {
        Some(subject) => first_common_name(subject),
        None => None,
    }
}

/// Whether an object identifier can be written: it has at least two numbers,
/// and the first two fit the number that stands for both.
pub open spec fn writable_arcs(arcs: Seq<u64>) -> bool {
    &&& arcs.len() >= 2
    &&& arcs[0] < 3
    &&& arcs[1] < 18446744073709551535
    &&& arcs[0] < 2 ==> arcs[1] < 40
}

/// Whether an attribute of a request can be written into a certificate. A
/// question mark belongs to printable strings, but cannot be written in one.
pub open spec fn writable_attribute(attribute: AttributeView) -> bool {
    &&& attribute.kind matches KindView::Custom(arcs) ==> writable_arcs(arcs)
    &&& attribute.value matches SubjectView::Printable(text) ==> !text.contains('?')
}

/// Whether an alternative name can be written into a certificate.
pub open spec fn writable_alt(name: AltView) -> bool {
    name matches AltView::Other(arcs) ==> writable_arcs(arcs)
}

/// Whether what a request asks for can be written into a certificate.
pub open spec fn writable(content: RequestView) -> bool {
    &&& forall|i: int|
        0 <= i < content.subject.len() ==> writable_attribute(#[trigger] content.subject[i])
    &&& forall|i: int|
        0 <= i < content.alt_names.len() ==> writable_alt(#[trigger] content.alt_names[i])
}

/// Whether a PEM text holds a request that a certificate can be written for.
pub open spec fn writable_request(csr_pem: Seq<char>) -> bool {
    csr_content(csr_pem) matches Some(content) && writable(content)
}

/// Whether the attribute at `i` of an issuer's subject goes into a
/// certificate: of two with one object identifier only the last does.
pub open spec fn is_kept(subject: Seq<RawView>, i: int) -> bool {
    forall|j: int| i < j < subject.len() ==> (#[trigger] subject[j]).arcs != subject[i].arcs
}

/// Whether an attribute of an issuer can be written into a certificate.
pub open spec fn writable_raw(attribute: RawView) -> bool {
    &&& attribute.arcs matches Some(arcs) && writable_arcs(arcs)
    &&& attribute.tag == TAG_PRINTABLE ==> !attribute.value.contains('?' as u8)
}

/// Whether an issuer with this subject can be written into a certificate.
pub open spec fn writable_subject(subject: Seq<RawView>) -> bool {
    forall|i: int| 0 <= i < subject.len() && is_kept(subject, i) ==> writable_raw(#[trigger] subject[i])
}

/// Whether a PEM text holds a certificate whose subject can be written into
/// those that it issues.
pub open spec fn writable_issuer(cert_pem: Seq<char>) -> bool {
    &&& pem_contents(cert_pem) matches Some(der)
    &&& cert_subject(der) matches Some(subject)
    &&& writable_subject(subject)
}

/// Whether an object identifier can be written.
fn can_write_arcs(arcs: &Vec<u64>) -> (res: bool)
    ensures
        res == writable_arcs(arcs@),
{
    arcs.len() >= 2 && arcs[0] < 3 && arcs[1] < 18446744073709551535 && (arcs[0] >= 2 || arcs[1]
        < 40)
}

/// Whether an attribute of a request can be written into a certificate.
fn can_write_attribute(attribute: &Attribute) -> (res: bool)
    ensures
        res == writable_attribute(attribute.deep_view()),
{
    let named = match &attribute.kind {
        AttributeKind::Custom(arcs) => can_write_arcs(arcs),
        _ => true,
    };
    let valued = match &attribute.value {
        SubjectName::Printable(text) => !has_char(text, '?'),
        _ => true,
    };
    named && valued
}

/// Whether what a request asks for can be written into a certificate.
pub fn can_write(content: &RequestContent) -> (res: bool)
    ensures
        res == writable(content.deep_view()),
{
    let ghost model = content.deep_view();
    let mut i: usize = 0;
    while i < content.subject.len()
        invariant
            model == content.deep_view(),
            i <= content.subject@.len(),
            forall|j: int| 0 <= j < i ==> writable_attribute(#[trigger] model.subject[j]),
        decreases content.subject@.len() - i,
    {
        assert(model.subject[i as int] == content.subject@[i as int].deep_view());
        if !can_write_attribute(&content.subject[i]) {
            return false;
        }
        i = i + 1;
    }
    let mut k: usize = 0;
    while k < content.alt_names.len()
        invariant
            model == content.deep_view(),
            k <= content.alt_names@.len(),
            forall|j: int| 0 <= j < k ==> writable_alt(#[trigger] model.alt_names[j]),
        decreases content.alt_names@.len() - k,
    {
        assert(model.alt_names[k as int] == content.alt_names@[k as int].deep_view());
        if let AltName::Other(arcs) = &content.alt_names[k] {
            if !can_write_arcs(arcs) {
                return false;
            }
        }
        k = k + 1;
    }
    true
}

/// Whether two lists hold the same numbers.
fn same_numbers(x: &Vec<u64>, y: &Vec<u64>) -> (res: bool)
    ensures
        res == (x@ == y@),
{
    if x.len() != y.len() {
        return false;
    }
    let mut i: usize = 0;
    while i < x.len()
        invariant
            i <= x@.len() == y@.len(),
            forall|j: int| 0 <= j < i ==> x@[j] == y@[j],
        decreases x@.len() - i,
    {
        if x[i] != y[i] {
            return false;
        }
        i = i + 1;
    }
    assert(x@ =~= y@);
    true
}

/// Whether two attributes have one object identifier.
fn same_arcs(a: &RawAttribute, b: &RawAttribute) -> (res: bool)
    ensures
        res == (a.deep_view().arcs == b.deep_view().arcs),
{
    match (&a.arcs, &b.arcs) {
        (None, None) => true,
        (Some(x), Some(y)) => same_numbers(x, y),
        _ => false,
    }
}

/// Whether an issuer with this subject can be written into a certificate.
pub fn can_write_subject(subject: &Vec<RawAttribute>) -> (res: bool)
    ensures
        res == writable_subject(subject.deep_view()),
{
    let ghost all = subject.deep_view();
    let mut i: usize = 0;
    while i < subject.len()
        invariant
            all == subject.deep_view(),
            i <= subject@.len(),
            forall|k: int| 0 <= k < i && is_kept(all, k) ==> writable_raw(#[trigger] all[k]),
        decreases subject@.len() - i,
    {
        assert(all[i as int] == subject@[i as int].deep_view());
        let mut kept = true;
        let mut j: usize = i + 1;
        while j < subject.len()
            invariant
                all == subject.deep_view(),
                i < j <= subject@.len(),
                kept == (forall|k: int| i < k < j ==> (#[trigger] all[k]).arcs != all[i as int].arcs),
            decreases subject@.len() - j,
        {
            assert(all[j as int] == subject@[j as int].deep_view());
            assert(all[i as int] == subject@[i as int].deep_view());
            if same_arcs(&subject[j], &subject[i]) {
                kept = false;
            }
            j = j + 1;
        }
        assert(kept == is_kept(all, i as int));
        if kept {
            let named = match &subject[i].arcs {
                Some(arcs) => can_write_arcs(arcs),
                None => false,
            };
            if !named || (subject[i].tag == TAG_PRINTABLE && has_byte(&subject[i].value, 0x3f)) {
                return false;
            }
        }
        i = i + 1;
    }
    true
}

/// Whether a byte stands among these.
fn has_byte(bytes: &Vec<u8>, byte: u8) -> (res: bool)
    ensures
        res == bytes@.contains(byte),
{
    let mut i: usize = 0;
    while i < bytes.len()
        invariant
            i <= bytes@.len(),
            forall|j: int| 0 <= j < i ==> bytes@[j] != byte,
        decreases bytes@.len() - i,
    {
        if bytes[i] == byte {
            return true;
        }
        i = i + 1;
    }
    false
}

/// Whether a character stands in a text.
fn has_char(text: &str, c: char) -> (res: bool)
    ensures
        res == text@.contains(c),
{
    let chars = chars_of(text);
    let mut i: usize = 0;
    while i < chars.len()
        invariant
            chars@ == text@,
            i <= chars@.len(),
            forall|j: int| 0 <= j < i ==> chars@[j] != c,
        decreases chars@.len() - i,
    {
        if chars[i] == c {
            return true;
        }
        i = i + 1;
    }
    false
}

/// The text of the first common name among the attributes of a subject.
pub fn read_common_name(subject: &Vec<RawAttribute>) -> (res: Option<String>)
    ensures
        res.deep_view() == first_common_name(subject.deep_view()),
{
    let ghost all = subject.deep_view();
    let mut i: usize = 0;
    assert(all.skip(0) =~= all);
    while i < subject.len()
        invariant
            all == subject.deep_view(),
            i <= subject@.len(),
            first_common_name(all) == first_common_name(all.skip(i as int)),
        decreases subject@.len() - i,
    {
        let attribute = &subject[i];
        proof {
            let rest = all.skip(i as int);
            assert(rest.skip(1) =~= all.skip(i + 1));
            assert(rest[0] == attribute.deep_view());
        }
        let oid = &attribute.oid;
        let is_name = oid.len() == 3 && oid[0] == 0x55 && oid[1] == 0x04 && oid[2] == 0x03;
        assert(is_name == (oid@ == common_name_oid())) by {
            if is_name {
                assert(oid@ =~= common_name_oid());
            }
        }
        if is_name {
            let tag = attribute.tag;
            if tag == TAG_UTF8 || tag == TAG_NUMERIC || tag == TAG_PRINTABLE || tag == TAG_IA5 {
                return utf8_text(&attribute.value);
            }
            return None;
        }
        i = i + 1;
    }
    assert(all.skip(i as int) =~= seq![]);
    None
}

/// The earliest second that a certificate can name, at the start of the year 0.
pub const EARLIEST_TIME: i64 = -62167219200;

/// The latest second that a certificate can name, at the end of the year 9999.
pub const LATEST_TIME: i64 = 253402300799;

/// How long an authority's own certificate is valid, in seconds.
pub const AUTHORITY_VALIDITY: i64 = 315360000;

/// A time that a certificate can name.
pub open spec fn nameable_time(unix: int) -> bool {
    EARLIEST_TIME <= unix <= LATEST_TIME
}

/// The text that `rcgen` writes for the private key that a PEM text holds.
pub uninterp spec fn key_text(key_pem: Seq<char>) -> Option<Seq<char>>;

/// Whether a PEM text holds a certificate that can issue others.
pub uninterp spec fn issuing_cert(cert_pem: Seq<char>) -> bool;

/// The attributes in the subject of the signing request that a PEM text holds;
/// `None` where it holds no request with a valid signature.
pub uninterp spec fn csr_attributes(csr_pem: Seq<char>) -> Option<Seq<AttributeView>>;

/// The alternative names in the signing request that a PEM text holds; `None`
/// where it holds no request with a valid signature.
pub uninterp spec fn csr_alt_names(csr_pem: Seq<char>) -> Option<Seq<AltView>>;

/// What the signing request that a PEM text holds asks for; `None` where it
/// holds no request with a valid signature.
pub open spec fn csr_content(csr_pem: Seq<char>) -> Option<RequestView> {
    match (csr_attributes(csr_pem), csr_alt_names(csr_pem)) {
        (Some(subject), Some(alt_names)) => Some(RequestView { subject, alt_names }),
        _ => None,
    }
}

/// Whether a PEM text holds a self-signed certificate for this key with this
/// profile.
pub uninterp spec fn self_signed(
    cert_pem: Seq<char>,
    key_pem: Seq<char>,
    profile: ProfileView,
) -> bool;

/// Whether a PEM text holds a certificate for the subject and the key of this
/// request, issued under this certificate and key, valid between these times.
pub uninterp spec fn certifies(
    cert_pem: Seq<char>,
    ca_cert_pem: Seq<char>,
    ca_key_pem: Seq<char>,
    csr_pem: Seq<char>,
    not_before: i64,
    not_after: i64,
) -> bool;

/// Whether a PEM text holds a signing request for this key that asks for this
/// common name and these alternative names.
pub uninterp spec fn requests(
    csr_pem: Seq<char>,
    key_pem: Seq<char>,
    common_name: Seq<char>,
    dns_names: Seq<Seq<char>>,
) -> bool;

/// The bytes that a PEM text holds.
pub uninterp spec fn pem_contents(text: Seq<char>) -> Option<Seq<u8>>;

/// The attributes in the subject of a DER certificate, in order; `None` for
/// what is no certificate.
pub uninterp spec fn cert_subject(der: Seq<u8>) -> Option<Seq<RawView>>;

/// The name that a PEM certificate shows to those who read it.
pub open spec fn shown_by(cert_pem: Seq<char>) -> Option<Seq<char>> {
    match pem_contents(cert_pem) {
        Some(der) => cert_name(der),
        None => None,
    }
}

/// The name that a certificate for a subject shows: a common name in a
/// teletex string is written but not read.
pub open spec fn shown_name(subject: SubjectView) -> Option<Seq<char>> {
    match subject {
        SubjectView::Utf8(s) => Some(s),
        SubjectView::Printable(s) => Some(s),
        SubjectView::Ia5(s) => Some(s),
        _ => None,
    }
}

/// Whether a text is short enough to be read again once it stands in a
/// certificate: an object of four gigabytes is not read.
pub open spec fn fits_certificate(text: Seq<char>) -> bool {
    text.len() < 0x1000_0000
}

/// Whether alternative names are few and short enough to be read again.
pub open spec fn names_fit(names: Seq<Seq<char>>) -> bool {
    &&& names.len() < 0x1000
    &&& forall|i: int| 0 <= i < names.len() ==> (#[trigger] names[i]).len() < 0x1_0000
}

/// A certificate for a request shows the request's common name and never
/// another.
pub open spec fn named_as_requested(
    cert_pem: Seq<char>,
    ca_cert_pem: Seq<char>,
    csr_pem: Seq<char>,
) -> bool {
    &&& csr_subject_spec(csr_pem) is Some
    &&& pem_contents(cert_pem) is Some
    &&& shown_by(cert_pem) is Some || (fits_certificate(ca_cert_pem) && fits_certificate(csr_pem))
        ==> shown_by(cert_pem) == shown_name(csr_subject_spec(csr_pem)->0)
}

/// What a request for a common name and `n` plain alternative names asks for.
pub open spec fn asked(common_name: Seq<char>, n: nat) -> RequestView {
    RequestView {
        subject: seq![
            AttributeView { kind: KindView::CommonName, value: SubjectView::Utf8(common_name) },
        ],
        alt_names: Seq::new(n, |i: int| AltView::Plain),
    }
}

/// A request is read back with what it was made to ask for.
pub open spec fn read_as_asked(
    csr_pem: Seq<char>,
    common_name: Seq<char>,
    dns_names: Seq<Seq<char>>,
) -> bool {
    csr_content(csr_pem) is Some || (fits_certificate(common_name) && names_fit(dns_names))
        ==> csr_content(csr_pem) == Some(asked(common_name, dns_names.len()))
}

/// Calls `rcgen::KeyPair::generate` and writes the key as PEM. Believed of it:
/// what it writes is read back as the same key and written the same, and is
/// read by `pem::parse`.
#[verifier::external_body]
fn new_key() -> (res: Result<String, rcgen::Error>)
    ensures
        res matches Ok(key) ==> key_text(key@) == Some(key@) && pem_contents(key@) is Some,
{
    Ok(rcgen::KeyPair::generate()?.serialize_pem())
}

/// Calls `rcgen::KeyPair::from_pem` and writes the key again. Believed of it:
/// what is written depends on the text alone, and is read back the same. It
/// draws random bytes and fails where it gets none, so nothing is claimed of a
/// failure.
#[verifier::external_body]
fn load_key(key_pem: &str) -> (res: Result<String, rcgen::Error>)
    ensures
        res matches Ok(key) ==> key_text(key_pem@) == Some(key@) && key_text(key@) == Some(key@),
{
    Ok(rcgen::KeyPair::from_pem(key_pem)?.serialize_pem())
}

/// Calls `rcgen::Issuer::from_ca_cert_pem` with this key. Believed of it: it
/// succeeds only on a certificate that can issue others, which depends on its
/// text alone; such a text is read by `pem::parse`. Nothing is claimed of a
/// failure, which can come from loading the key.
#[verifier::external_body]
fn check_issuer(cert_pem: &str, key_pem: &str) -> (res: Result<(), rcgen::Error>)
    ensures
        res is Ok ==> issuing_cert(cert_pem@) && pem_contents(cert_pem@) is Some,
{
    let key = rcgen::KeyPair::from_pem(key_pem)?;
    let _ = rcgen::Issuer::from_ca_cert_pem(cert_pem, key)?;
    Ok(())
}

/// What an authority's certificate lets it do with its key.
#[derive(Debug, Clone, Copy, PartialEq, Eq, Structural)]
pub enum KeyUse {
    SignCertificates,
    SignRevocationLists,
}

/// How many authorities may stand below an authority.
#[derive(Debug, Clone, Copy, PartialEq, Eq, Structural)]
pub enum PathLimit {
    Unlimited,
    AtMost(u8),
}

/// What an authority's own certificate says.
#[derive(Debug)]
pub struct AuthorityProfile {
    pub common_name: String,
    pub path_limit: PathLimit,
    pub key_uses: Vec<KeyUse>,
    pub not_before: i64,
    pub not_after: i64,
}

/// The model of what an authority's own certificate says.
pub struct ProfileView {
    pub common_name: Seq<char>,
    pub path_limit: PathLimit,
    pub key_uses: Seq<KeyUse>,
    pub not_before: i64,
    pub not_after: i64,
}

impl DeepView for AuthorityProfile {
    type V = ProfileView;

    open spec fn deep_view(&self) -> ProfileView {
        ProfileView {
            common_name: self.common_name@,
            path_limit: self.path_limit,
            key_uses: self.key_uses@,
            not_before: self.not_before,
            not_after: self.not_after,
        }
    }
}

/// What a new authority's own certificate says: it may have any number of
/// authorities below it, and may sign certificates and revocation lists.
pub open spec fn authority_profile(common_name: Seq<char>, now_unix: i64) -> ProfileView {
    ProfileView {
        common_name,
        path_limit: PathLimit::Unlimited,
        key_uses: seq![KeyUse::SignCertificates, KeyUse::SignRevocationLists],
        not_before: now_unix,
        not_after: (now_unix + AUTHORITY_VALIDITY) as i64,
    }
}

/// Calls `rcgen::CertificateParams::self_signed`. Believed of it: the
/// certificate is for this key with this profile, is read by `pem::parse`, and,
/// unless its name is too long to be read again, can issue others, with its
/// name, a UTF-8 string, as their issuer's.
#[verifier::external_body]
fn self_sign(key_pem: &str, profile: &AuthorityProfile) -> (res: Result<String, rcgen::Error>)
    requires
        key_text(key_pem@) is Some,
        nameable_time(profile.not_before as int),
        nameable_time(profile.not_after as int),
    ensures
        res matches Ok(cert) ==> {
            &&& self_signed(cert@, key_pem@, profile.deep_view())
            &&& pem_contents(cert@) is Some
            &&& fits_certificate(profile.common_name@) ==> issuing_cert(cert@) && writable_issuer(
                cert@,
            )
        },
{
    let mut params = rcgen::CertificateParams::default();
    params.distinguished_name = rcgen::DistinguishedName::new();
    params.distinguished_name.push(rcgen::DnType::CommonName, profile.common_name.as_str());
    params.is_ca = rcgen::IsCa::Ca(match profile.path_limit {
        PathLimit::Unlimited => rcgen::BasicConstraints::Unconstrained,
        PathLimit::AtMost(n) => rcgen::BasicConstraints::Constrained(n),
    });
    params.key_usages = profile.key_uses.iter().map(|u| match u {
        KeyUse::SignCertificates => rcgen::KeyUsagePurpose::KeyCertSign,
        KeyUse::SignRevocationLists => rcgen::KeyUsagePurpose::CrlSign,
    }).collect();
    params.not_before = time::OffsetDateTime::from_unix_timestamp(profile.not_before).unwrap();
    params.not_after = time::OffsetDateTime::from_unix_timestamp(profile.not_after).unwrap();
    Ok(params.self_signed(&rcgen::KeyPair::from_pem(key_pem)?)?.pem())
}

/// Calls `rcgen::CertificateSigningRequestParams::from_pem` and hands out the
/// attributes of the subject. Believed of it: what it finds depends on the text
/// alone.
#[verifier::external_body]
fn read_attributes(csr_pem: &str) -> (res: Result<Vec<Attribute>, rcgen::Error>)
    ensures
        match res {
            Ok(subject) => csr_attributes(csr_pem@) == Some(subject.deep_view()),
            Err(_) => csr_attributes(csr_pem@) is None,
        },
{
    let csr = rcgen::CertificateSigningRequestParams::from_pem(csr_pem)?;
    Ok(csr.params.distinguished_name.iter().map(|(kind, value)| Attribute {
        kind: match kind {
            DnType::CommonName => AttributeKind::CommonName,
            DnType::CustomDnType(arcs) => AttributeKind::Custom(arcs.clone()),
            _ => AttributeKind::Standard,
        },
        value: match value {
            DnValue::Utf8String(s) => SubjectName::Utf8(s.clone()),
            DnValue::PrintableString(s) => SubjectName::Printable(s.to_string()),
            DnValue::Ia5String(s) => SubjectName::Ia5(s.to_string()),
            DnValue::TeletexString(s) => SubjectName::Teletex(s.to_string()),
            _ => SubjectName::Other,
        },
    }).collect())
}

/// Calls `rcgen::CertificateSigningRequestParams::from_pem` and hands out the
/// alternative names. Believed of it: what it finds depends on the text alone.
#[verifier::external_body]
fn read_alt_names(csr_pem: &str) -> (res: Result<Vec<AltName>, rcgen::Error>)
    ensures
        match res {
            Ok(names) => csr_alt_names(csr_pem@) == Some(names.deep_view()),
            Err(_) => csr_alt_names(csr_pem@) is None,
        },
{
    let csr = rcgen::CertificateSigningRequestParams::from_pem(csr_pem)?;
    Ok(csr.params.subject_alt_names.into_iter().map(|name| match name {
        SanType::OtherName((arcs, _)) => AltName::Other(arcs),
        _ => AltName::Plain,
    }).collect())
}

/// What the signing request that a PEM text holds asks for.
fn read_request(csr_pem: &str) -> (res: Result<RequestContent, rcgen::Error>)
    ensures
        match res {
            Ok(content) => csr_content(csr_pem@) == Some(content.deep_view()),
            Err(_) => csr_content(csr_pem@) is None,
        },
{
    let subject = match read_attributes(csr_pem) {
        Ok(subject) => subject,
        Err(error) => {
            return Err(error);
        },
    };
    match read_alt_names(csr_pem) {
        Ok(alt_names) => Ok(RequestContent { subject, alt_names }),
        Err(error) => Err(error),
    }
}

/// Calls `rcgen::CertificateSigningRequestParams::signed_by`. Believed of it:
/// the certificate is one for this request under this authority, valid between
/// these times, and `x509_parser` reads the request's common name out of it
/// where it reads one at all. Which one comes out rests on chance. It panics on
/// a name of the request or of the issuer that cannot be written.
#[verifier::external_body]
fn issue(ca_cert_pem: &str, ca_key_pem: &str, csr_pem: &str, not_before: i64, not_after: i64) -> (res:
    Result<String, rcgen::Error>)
    requires
        writable_issuer(ca_cert_pem@),
        writable_request(csr_pem@),
        nameable_time(not_before as int),
        nameable_time(not_after as int),
    ensures
        res matches Ok(cert) ==> {
            &&& certifies(cert@, ca_cert_pem@, ca_key_pem@, csr_pem@, not_before, not_after)
            &&& named_as_requested(cert@, ca_cert_pem@, csr_pem@)
        },
{
    let key = rcgen::KeyPair::from_pem(ca_key_pem)?;
    let issuer = rcgen::Issuer::from_ca_cert_pem(ca_cert_pem, key)?;
    let mut csr = rcgen::CertificateSigningRequestParams::from_pem(csr_pem)?;
    csr.params.not_before = time::OffsetDateTime::from_unix_timestamp(not_before).unwrap();
    csr.params.not_after = time::OffsetDateTime::from_unix_timestamp(not_after).unwrap();
    Ok(csr.signed_by(&issuer)?.pem())
}

/// Calls `rcgen::CertificateParams::new`. Believed of it: it accepts exactly
/// the names that are all ASCII.
#[verifier::external_body]
fn check_names(dns_names: &Vec<String>) -> (res: Result<(), rcgen::Error>)
    ensures
        res is Ok <==> forall|i: int|
            0 <= i < dns_names@.len() ==> is_ascii_chars(#[trigger] dns_names.deep_view()[i]),
{
    let _ = rcgen::CertificateParams::new(dns_names.clone())?;
    Ok(())
}

/// Calls `rcgen::CertificateParams::serialize_request`. Believed of it: the
/// request is for this key and these names, and is read back with them, its
/// common name as a UTF-8 string, unless they are too long to be read again.
/// Which request comes out rests on chance.
#[verifier::external_body]
fn request(key_pem: &str, common_name: &str, dns_names: &Vec<String>) -> (res: Result<
    String,
    rcgen::Error,
>)
    ensures
        res matches Ok(csr) ==> {
            &&& requests(csr@, key_pem@, common_name@, dns_names.deep_view())
            &&& read_as_asked(csr@, common_name@, dns_names.deep_view())
        },
{
    let mut params = rcgen::CertificateParams::new(dns_names.clone())?;
    params.distinguished_name = rcgen::DistinguishedName::new();
    params.distinguished_name.push(rcgen::DnType::CommonName, common_name);
    params.serialize_request(&rcgen::KeyPair::from_pem(key_pem)?)?.pem()
}

/// Calls `pem::parse`. Believed of it: what it reads depends on the text alone.
#[verifier::external_body]
fn read_pem(text: &str) -> (res: Result<Vec<u8>, pem::PemError>)
    ensures
        match res {
            Ok(bytes) => pem_contents(text@) == Some(bytes@),
            Err(_) => pem_contents(text@) is None,
        },
{
    Ok(pem::parse(text)?.contents().to_vec())
}

/// Calls `x509_parser::parse_x509_certificate` and hands out the attributes of
/// the subject. Believed of it: what it finds depends on the bytes alone.
#[verifier::external_body]
fn read_subject(der: &[u8]) -> (res: Option<Vec<RawAttribute>>)
    ensures
        match res {
            Some(subject) => cert_subject(der@) == Some(subject.deep_view()),
            None => cert_subject(der@) is None,
        },
{
    let (_, cert) = x509_parser::parse_x509_certificate(der).ok()?;
    Some(cert.subject().iter_attributes().map(|attribute| RawAttribute {
        oid: attribute.attr_type().as_bytes().to_vec(),
        arcs: attribute.attr_type().iter().map(|arcs| arcs.collect()),
        tag: attribute.attr_value().tag().0,
        value: attribute.attr_value().data.to_vec(),
    }).collect())
}

/// An issued certificate.
#[derive(Debug, Clone)]
pub struct SignedCertificate {
    pub cert_pem: String,
    /// The identity that the request asked for.
    pub common_name: String,
}

/// An authority.
pub struct CertificateAuthority {
    cert_pem: String,
    key_pem: String,
}

/// What signing a request under a certificate comes to: the names in both
/// decide, and only the signing itself can still fail.
pub open spec fn signing_answer(
    ca_cert_pem: Seq<char>,
    csr_pem: Seq<char>,
    res: Result<SignedCertificate, PkiError>,
) -> bool {
    match csr_subject_spec(csr_pem) {
        None => res matches Err(e) && e is CsrParse,
        Some(subject) => match identity_of(subject) {
            None => res matches Err(e) && e is MissingCommonName,
            Some(name) => if !writable_request(csr_pem) {
                res matches Err(e) && e is UnwritableRequest
            } else if !writable_issuer(ca_cert_pem) {
                res matches Err(e) && e is UnwritableIssuer
            } else {
                match res {
                    Ok(signed) => signed.common_name@ == name,
                    Err(e) => e is Signing,
                }
            },
        },
    }
}

impl CertificateAuthority {
    /// The certificate's text.
    pub closed spec fn cert_text(&self) -> Seq<char> {
        self.cert_pem@
    }

    /// The private key's text.
    pub closed spec fn private_key(&self) -> Seq<char> {
        self.key_pem@
    }

    /// The key is one that can be loaded, and the certificate can issue others.
    pub open spec fn wf(&self) -> bool {
        &&& key_text(self.private_key()) == Some(self.private_key())
        &&& issuing_cert(self.cert_text())
        &&& pem_contents(self.cert_text()) is Some
    }

    /// A new authority with this common name, valid from `now_unix` on.
    pub fn generate(common_name: &str, now_unix: i64) -> (res: Result<Self, PkiError>)
        requires
            nameable_time(now_unix as int),
            nameable_time(now_unix + AUTHORITY_VALIDITY),
        ensures
            match res {
                Ok(ca) => {
                    &&& fits_certificate(common_name@) ==> ca.wf() && writable_issuer(
                        ca.cert_text(),
                    )
                    &&& key_text(ca.private_key()) == Some(ca.private_key())
                    &&& self_signed(
                        ca.cert_text(),
                        ca.private_key(),
                        authority_profile(common_name@, now_unix),
                    )
                },
                Err(error) => error is KeyGeneration || error is SelfSign,
            },
    {
        let key_pem = match new_key() {
            Ok(key) => key,
            Err(error) => {
                return Err(PkiError::KeyGeneration(error));
            },
        };
        let profile = AuthorityProfile {
            common_name: common_name.to_owned(),
            path_limit: PathLimit::Unlimited,
            key_uses: vec![KeyUse::SignCertificates, KeyUse::SignRevocationLists],
            not_before: now_unix,
            not_after: now_unix + AUTHORITY_VALIDITY,
        };
        assert(profile.deep_view().key_uses =~= authority_profile(common_name@, now_unix).key_uses);
        match self_sign(&key_pem, &profile) {
            Ok(cert_pem) => Ok(CertificateAuthority { cert_pem, key_pem }),
            Err(error) => Err(PkiError::SelfSign(error)),
        }
    }

    /// The authority with this certificate and this private key.
    pub fn from_pem(cert_pem: &str, key_pem: &str) -> (res: Result<Self, PkiError>)
        ensures
            match res {
                Ok(ca) => {
                    &&& ca.wf()
                    &&& ca.cert_text() == cert_pem@
                    &&& key_text(key_pem@) == Some(ca.private_key())
                },
                Err(error) => error is Load,
            },
    {
        let key = match load_key(key_pem) {
            Ok(key) => key,
            Err(error) => {
                return Err(PkiError::Load(error));
            },
        };
        match check_issuer(cert_pem, &key) {
            Ok(()) => Ok(CertificateAuthority { cert_pem: cert_pem.to_owned(), key_pem: key }),
            Err(error) => Err(PkiError::Load(error)),
        }
    }

    /// The certificate, as clients are to trust it.
    pub fn ca_cert_pem(&self) -> (res: String)
        ensures
            res@ == self.cert_text(),
    {
        self.cert_pem.clone()
    }

    /// The private key, to be kept and never to be served.
    pub fn ca_key_pem(&self) -> (res: String)
        ensures
            res@ == self.private_key(),
    {
        self.key_pem.clone()
    }

    /// Issues a certificate for a request, valid for `validity_seconds` from
    /// `now_unix` on.
    pub fn sign_csr(&self, csr_pem: &str, validity_seconds: i64, now_unix: i64) -> (res: Result<
        SignedCertificate,
        PkiError,
    >)
        requires
            nameable_time(now_unix as int),
            nameable_time(now_unix + validity_seconds),
        ensures
            signing_answer(self.cert_text(), csr_pem@, res),
            res matches Ok(signed) ==> {
                &&& certifies(
                    signed.cert_pem@,
                    self.cert_text(),
                    self.private_key(),
                    csr_pem@,
                    now_unix,
                    (now_unix + validity_seconds) as i64,
                )
                &&& named_as_requested(signed.cert_pem@, self.cert_text(), csr_pem@)
            },
    {
        let content = match read_request(csr_pem) {
            Ok(content) => content,
            Err(error) => {
                return Err(PkiError::CsrParse(error));
            },
        };
        let request_fits = can_write(&content);
        let common_name = match common_name_of(find_common_name(content.subject)) {
            Some(name) => name,
            None => {
                return Err(PkiError::MissingCommonName);
            },
        };
        if !request_fits {
            return Err(PkiError::UnwritableRequest);
        }
        if !can_issue(&self.cert_pem) {
            return Err(PkiError::UnwritableIssuer);
        }
        let until: i64 = now_unix + validity_seconds;
        match issue(&self.cert_pem, &self.key_pem, csr_pem, now_unix, until) {
            Ok(cert_pem) => Ok(SignedCertificate { cert_pem, common_name }),
            Err(error) => Err(PkiError::Signing(error)),
        }
    }
}

/// Whether a PEM text holds a certificate whose subject can be written into
/// those that it issues.
pub fn can_issue(cert_pem: &str) -> (res: bool)
    ensures
        res == writable_issuer(cert_pem@),
{
    match read_pem(cert_pem) {
        Ok(der) => match read_subject(&der) {
            Some(subject) => can_write_subject(&subject),
            None => false,
        },
        Err(_) => false,
    }
}

/// The DER bytes of a PEM certificate.
pub fn cert_pem_to_der(pem_str: &str) -> (res: Result<Vec<u8>, PkiError>)
    ensures
        match res {
            Ok(der) => pem_contents(pem_str@) == Some(der@),
            Err(error) => error is Pem && pem_contents(pem_str@) is None,
        },
{
    match read_pem(pem_str) {
        Ok(der) => Ok(der),
        Err(error) => Err(PkiError::Pem(error)),
    }
}

/// The common name of a DER certificate's subject.
pub fn common_name_from_cert_der(der: &[u8]) -> (res: Option<String>)
    ensures
        res.deep_view() == cert_name(der@),
{
    match read_subject(der) {
        Some(subject) => read_common_name(&subject),
        None => None,
    }
}

/// The fingerprint of a PEM certificate: the SHA-256 digest of its DER bytes
/// in upper-case hexadecimal with colons.
pub open spec fn fingerprint_spec(cert_pem: Seq<char>) -> Option<Seq<char>> {
    match pem_contents(cert_pem) {
        Some(der) => Some(colon_hex_spec(sha256_spec(der))),
        None => None,
    }
}

/// The fingerprint of a PEM certificate; `None` for what is none.
pub fn fingerprint_sha256_colon_hex(cert_pem: &str) -> (res: Option<String>)
    ensures
        res.deep_view() == fingerprint_spec(cert_pem@),
{
    match read_pem(cert_pem) {
        Ok(der) => {
            let digest = sha256(&der);
            Some(colon_hex_encode(&digest))
        },
        Err(_) => None,
    }
}

/// A signing request for a new key, and that key.
pub fn build_csr(common_name: &str) -> (res: Result<(String, String), PkiError>)
    ensures
        match res {
            Ok((csr, key)) => {
                &&& requests(csr@, key@, common_name@, seq![])
                &&& read_as_asked(csr@, common_name@, seq![])
                &&& key_text(key@) == Some(key@)
                &&& pem_contents(key@) is Some
            },
            Err(error) => error is KeyGeneration || error is Signing,
        },
{
    let names: Vec<String> = Vec::new();
    assert(names.deep_view() =~= seq![]);
    build_csr_with_san(common_name, names)
}

/// A signing request for a new key that also asks for these DNS names.
pub fn build_csr_with_san(common_name: &str, dns_names: Vec<String>) -> (res: Result<
    (String, String),
    PkiError,
>)
    ensures
        match res {
            Ok((csr, key)) => {
                &&& requests(csr@, key@, common_name@, dns_names.deep_view())
                &&& read_as_asked(csr@, common_name@, dns_names.deep_view())
                &&& key_text(key@) == Some(key@)
                &&& pem_contents(key@) is Some
                &&& forall|i: int|
                    0 <= i < dns_names@.len() ==> is_ascii_chars(
                        #[trigger] dns_names.deep_view()[i],
                    )
            },
            Err(PkiError::Params(_)) => exists|i: int|
                0 <= i < dns_names@.len() && !is_ascii_chars(#[trigger] dns_names.deep_view()[i]),
            Err(error) => error is KeyGeneration || error is Signing,
        },
{
    let key = match new_key() {
        Ok(key) => key,
        Err(error) => {
            return Err(PkiError::KeyGeneration(error));
        },
    };
    if let Err(error) = check_names(&dns_names) {
        return Err(PkiError::Params(error));
    }
    match request(&key, common_name, &dns_names) {
        Ok(csr) => Ok((csr, key)),
        Err(error) => Err(PkiError::Signing(error)),
    }
}

/// An authority that was kept as text and is loaded again is the same one: its
/// certificate and its key have the same texts.
pub proof fn law_authority_survives_a_reload(ca: CertificateAuthority, again: CertificateAuthority)
    requires
        ca.wf(),
        again.cert_text() == ca.cert_text(),
        key_text(ca.private_key()) == Some(again.private_key()),
    ensures
        again.wf(),
        again.private_key() == ca.private_key(),
{
}

/// A request that was built is one that a certificate can be written for, and
/// is read back with the name that it was built for.
pub proof fn law_built_requests_can_be_signed(
    csr_pem: Seq<char>,
    common_name: Seq<char>,
    dns_names: Seq<Seq<char>>,
)
    requires
        read_as_asked(csr_pem, common_name, dns_names),
        fits_certificate(common_name),
        names_fit(dns_names),
    ensures
        writable_request(csr_pem),
        csr_subject_spec(csr_pem) == Some(SubjectView::Utf8(common_name)),
{
}

/// A request that was built for a name is signed for that name or not at all.
pub proof fn law_certificate_is_for_the_requested_name(
    ca_cert_pem: Seq<char>,
    csr_pem: Seq<char>,
    common_name: Seq<char>,
    res: Result<SignedCertificate, PkiError>,
)
    requires
        csr_subject_spec(csr_pem) == Some(SubjectView::Utf8(common_name)),
        writable_request(csr_pem),
        signing_answer(ca_cert_pem, csr_pem, res),
    ensures
        match res {
            Ok(signed) => signed.common_name@ == common_name,
            Err(error) => error is Signing || (error is UnwritableIssuer && !writable_issuer(
                ca_cert_pem,
            )),
        },
{
}

/// What a device shows when it connects is what it was enrolled under: its
/// certificate shows no other name than the one that it was issued for, and
/// shows that one unless the request wrote it in a teletex string.
pub proof fn law_certificate_shows_its_name(
    csr_pem: Seq<char>,
    ca_cert_pem: Seq<char>,
    signed: SignedCertificate,
)
    requires
        signing_answer(ca_cert_pem, csr_pem, Ok(signed)),
        named_as_requested(signed.cert_pem@, ca_cert_pem, csr_pem),
    ensures
        shown_by(signed.cert_pem@) is Some ==> shown_by(signed.cert_pem@) == Some(
            signed.common_name@,
        ),
        fits_certificate(ca_cert_pem) && fits_certificate(csr_pem) && !(csr_subject_spec(
            csr_pem,
        )->0 is Teletex) ==> shown_by(signed.cert_pem@) == Some(signed.common_name@),
{
}

/// The common name of a request is the first of its subject's attributes that is
/// one, whatever stands around it, and missing where there is none. In each kind
/// of string that is read it names the identity as it is written.
pub proof fn law_a_request_is_for_its_first_common_name(
    before: Seq<AttributeView>,
    name: AttributeView,
    behind: Seq<AttributeView>,
    text: Seq<char>,
)
    requires
        forall|i: int| 0 <= i < before.len() ==> !((#[trigger] before[i]).kind is CommonName),
        name.kind is CommonName,
    ensures
        common_name_in(before + seq![name] + behind) == name.value,
        common_name_in(before) is Missing,
        identity_of(SubjectView::Utf8(text)) == Some(text),
        identity_of(SubjectView::Printable(text)) == Some(text),
        identity_of(SubjectView::Ia5(text)) == Some(text),
        identity_of(SubjectView::Teletex(text)) == Some(text),
        identity_of(SubjectView::Other) is None,
        identity_of(SubjectView::Missing) is None,
    decreases before.len(),
{
    let whole = before + seq![name] + behind;
    if before.len() == 0 {
        assert(whole[0] == name);
    } else {
        let rest = before.skip(1);
        assert forall|i: int| 0 <= i < rest.len() implies !((
        #[trigger] rest[i]).kind is CommonName) by {
            assert(rest[i] == before[i + 1]);
        }
        law_a_request_is_for_its_first_common_name(rest, name, behind, text);
        assert(whole[0] == before[0]);
        assert(whole.skip(1) =~= rest + seq![name] + behind);
    }
}

/// A certificate shows the first of its subject's attributes that is a common
/// name, as the text that it encodes, where it is in a kind of string that is
/// read; a later one never stands in for it.
pub proof fn law_a_certificate_shows_its_first_common_name(
    before: Seq<RawView>,
    name: RawView,
    behind: Seq<RawView>,
)
    requires
        forall|i: int|
            0 <= i < before.len() ==> (#[trigger] before[i]).oid != seq![0x55u8, 0x04u8, 0x03u8],
        name.oid == seq![0x55u8, 0x04u8, 0x03u8],
    ensures
        first_common_name(before) is None,
        first_common_name(before + seq![name] + behind) == if (name.tag == 12 || name.tag == 18
            || name.tag == 19 || name.tag == 22) && valid_utf8(name.value) {
            Some(decode_utf8(name.value))
        } else {
            None
        },
    decreases before.len(),
{
    let whole = before + seq![name] + behind;
    if before.len() == 0 {
        assert(whole[0] == name);
    } else {
        let rest = before.skip(1);
        assert forall|i: int| 0 <= i < rest.len() implies (#[trigger] rest[i]).oid
            != seq![0x55u8, 0x04u8, 0x03u8] by {
            assert(rest[i] == before[i + 1]);
        }
        assert(before[0].oid != seq![0x55u8, 0x04u8, 0x03u8]);
        law_a_certificate_shows_its_first_common_name(rest, name, behind);
        assert(whole[0] == before[0]);
        assert(whole.skip(1) =~= rest + seq![name] + behind);
    }
}

/// A new authority is valid for ten years from now under the name that it is
/// given; it may sign certificates and revocation lists, with any number of
/// authorities below it.
pub proof fn law_what_a_new_authority_may_do(common_name: Seq<char>, now_unix: i64)
    requires
        nameable_time(now_unix as int),
        nameable_time(now_unix + AUTHORITY_VALIDITY),
    ensures
        ({
            let profile = authority_profile(common_name, now_unix);
            &&& profile.common_name == common_name
            &&& profile.not_before == now_unix
            &&& profile.not_after - profile.not_before == 3650 * 24 * 60 * 60
            &&& profile.path_limit is Unlimited
            &&& profile.key_uses.contains(KeyUse::SignCertificates)
            &&& profile.key_uses.contains(KeyUse::SignRevocationLists)
        }),
{
    let uses = authority_profile(common_name, now_unix).key_uses;
    assert(uses[0] == KeyUse::SignCertificates);
    assert(uses[1] == KeyUse::SignRevocationLists);
}

/// The fingerprint of a certificate is the digest of what its text holds: each
/// of the digest's bytes is read back from it, and texts that hold the same have
/// the same.
pub proof fn law_fingerprints_are_digests(
    cert_pem: Seq<char>,
    other_pem: Seq<char>,
    der: Seq<u8>,
    i: int,
)
    requires
        pem_contents(cert_pem) == Some(der),
        0 <= i < sha256_spec(der).len(),
    ensures
        fingerprint_spec(cert_pem) matches Some(text) && text.len() == 3 * sha256_spec(der).len() - 1
            && digit_value(text[3 * i]) * 16 + digit_value(text[3 * i + 1]) == sha256_spec(der)[i],
        pem_contents(other_pem) == Some(der) ==> fingerprint_spec(other_pem) == fingerprint_spec(
            cert_pem,
        ),
        pem_contents(other_pem) is None ==> fingerprint_spec(other_pem) is None,
{
    law_colon_hex_reads_back(sha256_spec(der), i);
}

/// What signing a request comes to, in full: one that cannot be read, names
/// nobody, or cannot be written is refused as such, and so is any under an
/// issuer that cannot be written; any other is signed for the name that it asks
/// for, unless the signing itself fails.
pub proof fn law_requests_are_signed_for_whom_they_name(
    ca_cert_pem: Seq<char>,
    csr_pem: Seq<char>,
    res: Result<SignedCertificate, PkiError>,
)
    requires
        signing_answer(ca_cert_pem, csr_pem, res),
    ensures
        res matches Ok(signed) ==> {
            &&& csr_content(csr_pem) matches Some(content)
            &&& identity_of(common_name_in(content.subject)) == Some(signed.common_name@)
            &&& writable(content)
            &&& writable_issuer(ca_cert_pem)
        },
        csr_content(csr_pem) is None <==> (res matches Err(error) && error is CsrParse),
        (csr_content(csr_pem) matches Some(content) && identity_of(
            common_name_in(content.subject),
        ) is None) <==> (res matches Err(error) && error is MissingCommonName),
        (csr_content(csr_pem) matches Some(content) && identity_of(
            common_name_in(content.subject),
        ) is Some && writable(content) && writable_issuer(ca_cert_pem)) <==> (res is Ok || (
        res matches Err(error) && error is Signing)),
{
}

/// Object identifiers that can be written: those below the first two arcs of the
/// tree have a second number under forty, those below the third any that leaves
/// room for the number that stands for both.
pub proof fn law_object_identifiers_that_can_be_written(arcs: Seq<u64>)
    ensures
        arcs.len() < 2 ==> !writable_arcs(arcs),
        arcs.len() >= 2 && arcs[0] < 2 ==> (writable_arcs(arcs) <==> arcs[1] < 40),
        arcs.len() >= 2 && arcs[0] == 2 ==> (writable_arcs(arcs) <==> arcs[1] + 80 < u64::MAX),
        arcs.len() >= 2 && arcs[0] > 2 ==> !writable_arcs(arcs),
{
}

/// An attribute of a request can be written unless it stands under an object
/// identifier that cannot, or has a question mark in a printable string; an
/// issuer's, under the same conditions, and only the last of those with one
/// identifier counts.
pub proof fn law_which_attributes_can_be_written(
    arcs: Seq<u64>,
    text: Seq<char>,
    subject: Seq<RawView>,
    i: int,
)
    ensures
        writable_attribute(
            AttributeView { kind: KindView::CommonName, value: SubjectView::Utf8(text) },
        ),
        writable_attribute(
            AttributeView { kind: KindView::Standard, value: SubjectView::Ia5(text) },
        ),
        writable_attribute(
            AttributeView { kind: KindView::CommonName, value: SubjectView::Printable(text) },
        ) <==> !text.contains('?'),
        writable_attribute(
            AttributeView { kind: KindView::Custom(arcs), value: SubjectView::Utf8(text) },
        ) <==> writable_arcs(arcs),
        writable_alt(AltView::Plain),
        writable_alt(AltView::Other(arcs)) <==> writable_arcs(arcs),
        0 <= i < subject.len() && subject[i].arcs is None && i == subject.len() - 1
            ==> !writable_subject(subject),
        (forall|k: int| 0 <= k < subject.len() ==> writable_raw(#[trigger] subject[k]))
            ==> writable_subject(subject),
        0 <= i < subject.len() && writable_subject(subject) && (forall|k: int|
            i < k < subject.len() ==> (#[trigger] subject[k]).arcs != subject[i].arcs)
            ==> writable_raw(subject[i]),
{
    if 0 <= i < subject.len() && i == subject.len() - 1 {
        assert(is_kept(subject, i));
    }
    if 0 <= i < subject.len() && (forall|k: int|
        i < k < subject.len() ==> (#[trigger] subject[k]).arcs != subject[i].arcs) {
        assert(is_kept(subject, i));
    }
}

} // verus!
