//! The certificate authority the proxy uses to intercept TLS for domains
//! with header rules.

use vstd::prelude::*;
use crate::error::prefixed;
use crate::text::{texts, opt_text};

verus! {

#[verifier::external_type_specification]
#[verifier::external_body]
pub struct ExKeyPair(rcgen::KeyPair);

#[verifier::external_type_specification]
#[verifier::external_body]
pub struct ExCertificate(rcgen::Certificate);

#[verifier::external_type_specification]
#[verifier::external_body]
pub struct ExCertificateParams(rcgen::CertificateParams);

/// A calendar date that exists, in the years the `time` crate handles.
pub open spec fn valid_date(y: i32, m: u8, d: u8) -> bool {
    let leap = (y % 4 == 0 && y % 100 != 0) || y % 400 == 0;
    let days: u8 = if m == 2 {
        if leap { 29 } else { 28 }
    } else if m == 4 || m == 6 || m == 9 || m == 11 {
        30
    } else {
        31
    };
    -9999 <= y <= 9999 && 1 <= m <= 12 && 1 <= d <= days
}

/// A new key pair, by `rcgen::KeyPair::generate`, or the error's text.
/// The key is random: nothing is claimed about it.
#[verifier::external_body]
fn generate_key_pair() -> (r: Result<rcgen::KeyPair, String>) {
    rcgen::KeyPair::generate().map_err(|e| e.to_string())
}

/// A key pair read from PEM text, by `rcgen::KeyPair::from_pem`, or the
/// error's text. Nothing is claimed about which texts are accepted.
#[verifier::external_body]
fn key_pair_from_pem(pem: &str) -> (r: Result<rcgen::KeyPair, String>) {
    rcgen::KeyPair::from_pem(pem).map_err(|e| e.to_string())
}

/// PEM text of one block tagged `tag`, as the `pem` crate writes it with no
/// headers: the `BEGIN` line first and the `END` line, with its line ending
/// (`\n`, or `\r\n` on Windows), last.
pub open spec fn pem_block(tag: Seq<char>, t: Seq<char>) -> bool {
    &&& ("-----BEGIN "@ + tag + "-----"@).is_prefix_of(t)
    &&& (("-----END "@ + tag + "-----\n"@).is_suffix_of(t)
        || ("-----END "@ + tag + "-----\r\n"@).is_suffix_of(t))
}

/// The PEM text of a key pair, by `rcgen::KeyPair::serialize_pem`: one
/// `PRIVATE KEY` block (written by `pem::encode_config`). Nothing is claimed
/// about the encoded key between its first and last line.
#[verifier::external_body]
fn key_pair_pem(k: &rcgen::KeyPair) -> (r: String)
    ensures
        pem_block("PRIVATE KEY"@, r@),
{
    k.serialize_pem()
}

/// The PEM text of a certificate, by `rcgen::Certificate::pem`: one
/// `CERTIFICATE` block (written by `pem::encode_config`). Nothing is claimed
/// about the encoded certificate between its first and last line.
#[verifier::external_body]
fn certificate_pem(c: &rcgen::Certificate) -> (r: String)
    ensures
        pem_block("CERTIFICATE"@, r@),
{
    c.pem()
}

/// What a certificate is requested as. Each field goes into rcgen's
/// certificate parameters as it is (see `request_params`).
pub struct CertRequest {
    /// Subject alternative names (DNS names or IP addresses).
    pub names: Vec<String>,
    /// Whether the certificate is an unconstrained CA.
    pub is_ca: bool,
    /// The subject's common name, if any.
    pub common_name: Option<String>,
    /// First and last day of validity; without them rcgen's defaults hold.
    pub validity: Option<((i32, u8, u8), (i32, u8, u8))>,
}

/// The abstract contents of a `CertRequest`.
pub struct CertRequestView {
    pub names: Seq<Seq<char>>,
    pub is_ca: bool,
    pub common_name: Option<Seq<char>>,
    pub validity: Option<((i32, u8, u8), (i32, u8, u8))>,
}

impl View for CertRequest {
    type V = CertRequestView;

    open spec fn view(&self) -> CertRequestView {
        CertRequestView {
            names: texts(self.names@),
            is_ca: self.is_ca,
            common_name: opt_text(self.common_name),
            validity: self.validity,
        }
    }
}

/// Both validity dates, when given, exist.
pub open spec fn dates_valid(v: CertRequestView) -> bool {
    match v.validity {
        Some((from, until)) => valid_date(from.0, from.1, from.2) && valid_date(until.0, until.1, until.2),
        None => true,
    }
}

/// Certificate parameters holding `req`, by `rcgen::CertificateParams::new`
/// on its names (a name that is neither an IP address nor a valid DNS name
/// is refused with the error's text), then `is_ca` set to an unconstrained CA
/// or to no CA, the common name pushed as a UTF-8 string when there is one,
/// and `not_before` / `not_after` set to midnight UTC of the validity dates
/// by `rcgen::date_time_ymd` when given (which panics on dates that do not
/// exist, hence the requirement). Nothing is claimed about which names are
/// accepted.
#[verifier::external_body]
fn request_params(req: &CertRequest) -> (r: Result<rcgen::CertificateParams, String>)
    requires
        dates_valid(req@),
{
    let mut p = rcgen::CertificateParams::new(req.names.clone()).map_err(|e| e.to_string())?;
    p.is_ca = if req.is_ca { rcgen::IsCa::Ca(rcgen::BasicConstraints::Unconstrained) } else { rcgen::IsCa::NoCa };
    if let Some(n) = &req.common_name {
        p.distinguished_name.push(rcgen::DnType::CommonName, rcgen::DnValue::Utf8String(n.clone()));
    }
    if let Some((f, u)) = req.validity {
        p.not_before = rcgen::date_time_ymd(f.0, f.1, f.2);
        p.not_after = rcgen::date_time_ymd(u.0, u.1, u.2);
    }
    Ok(p)
}

/// A certificate signed by its own key, by
/// `rcgen::CertificateParams::self_signed`, or the error's text.
/// Nothing is claimed about the certificate.
#[verifier::external_body]
fn self_sign(params: rcgen::CertificateParams, key: &rcgen::KeyPair) -> (r: Result<rcgen::Certificate, String>) {
    params.self_signed(key).map_err(|e| e.to_string())
}

/// A certificate for `key`'s public key issued by `issuer` with
/// `issuer_key`, by `rcgen::CertificateParams::signed_by`, or the error's
/// text. Nothing is claimed about the certificate.
#[verifier::external_body]
fn sign_with(
    params: rcgen::CertificateParams,
    key: &rcgen::KeyPair,
    issuer: &rcgen::Certificate,
    issuer_key: &rcgen::KeyPair,
) -> (r: Result<rcgen::Certificate, String>) {
    params.signed_by(key, issuer, issuer_key).map_err(|e| e.to_string())
}

/// Common name of the authority's certificate.
pub const CA_NAME: &'static str = "Rustbox CA";

/// A CA certificate and its private key, both as PEM text.
pub struct CertificateAuthority {
    pub cert_pem: String,
    pub key_pem: String,
    /// What the certificate in `cert_pem` was requested as.
    pub request: Ghost<CertRequestView>,
}

/// A certificate issued by a `CertificateAuthority` and its fresh private
/// key, both as PEM text.
pub struct IssuedCert {
    pub cert_pem: String,
    pub key_pem: String,
    /// What the certificate was requested as.
    pub request: Ghost<CertRequestView>,
    /// What the signing CA certificate was requested as.
    pub issuer: Ghost<CertRequestView>,
    /// The PEM text the signing key was read from.
    pub issuer_key_pem: Ghost<Seq<char>>,
}

/// First and last day of the authority's validity.
pub const CA_VALID_FROM: (i32, u8, u8) = (2024, 1, 1);
pub const CA_VALID_UNTIL: (i32, u8, u8) = (2025, 12, 31);

/// The authority's own certificate: an unconstrained CA named `CA_NAME`
/// with no alternative names, valid from `CA_VALID_FROM` to
/// `CA_VALID_UNTIL`.
pub open spec fn ca_request_view() -> CertRequestView {
    CertRequestView {
        names: Seq::empty(),
        is_ca: true,
        common_name: Some(CA_NAME@),
        validity: Some((CA_VALID_FROM, CA_VALID_UNTIL)),
    }
}

/// A server certificate for `domain`: that one alternative name, no CA, no
/// common name, rcgen's default validity.
pub open spec fn server_request_view(domain: Seq<char>) -> CertRequestView {
    CertRequestView { names: seq![domain], is_ca: false, common_name: None, validity: None }
}

/// The request for the authority's own certificate.
pub fn ca_request() -> (r: CertRequest)
    ensures
        r@ == ca_request_view(),
        dates_valid(r@),
{
    let r = CertRequest {
        names: Vec::new(),
        is_ca: true,
        common_name: Some(CA_NAME.to_owned()),
        validity: Some((CA_VALID_FROM, CA_VALID_UNTIL)),
    };
    assert(texts(r.names@) =~= Seq::<Seq<char>>::empty());
    r
}

/// The request for a server certificate for `domain`.
pub fn server_request(domain: &str) -> (r: CertRequest)
    ensures
        r@ == server_request_view(domain@),
        r@.names == seq![domain@],
        !r@.is_ca,
        dates_valid(r@),
{
    let mut names: Vec<String> = Vec::new();
    names.push(domain.to_owned());
    let r = CertRequest { names, is_ca: false, common_name: None, validity: None };
    assert(texts(r.names@) =~= seq![domain@]);
    r
}

/// The CA certificate for `key`, made from `ca_request()` and signed by
/// `key` itself; with it, what it was requested as.
fn ca_certificate(key: &rcgen::KeyPair) -> (r: Result<(rcgen::Certificate, Ghost<CertRequestView>), String>)
    ensures
        r matches Ok(c) ==> c.1@ == ca_request_view(),
{
    let req = ca_request();
    let params = match request_params(&req) {
        Ok(p) => p,
        Err(e) => return Err(e),
    };
    match self_sign(params, key) {
        Ok(c) => Ok((c, Ghost(req@))),
        Err(e) => Err(e),
    }
}

/// A failure text with its stage in front.
fn stage(what: &str, e: String) -> (r: String)
    ensures
        r@ == what@ + ": "@ + e@,
        staged(what@, r@),
{
    let mut r = prefixed(what, ": ");
    crate::text::push_str(&mut r, e.as_str());
    assert((what@ + ": "@) =~= r@.subrange(0, (what@ + ": "@).len() as int));
    r
}

/// A failure text that names its stage: the stage, `: `, then the cause.
pub open spec fn staged(what: Seq<char>, m: Seq<char>) -> bool {
    (what + ": "@).is_prefix_of(m)
}

impl CertificateAuthority {
    /// Generates a new self-signed CA: a fresh key and a certificate made
    /// from `ca_request()` and signed by that key, each as one PEM block. A
    /// failure says at which stage: `keygen: ...` or `cert gen: ...`.
    pub fn generate() -> (r: Result<CertificateAuthority, String>)
        ensures
            r matches Err(m) ==> staged("keygen"@, m@) || staged("cert gen"@, m@),
            r matches Ok(ca) ==> pem_block("CERTIFICATE"@, ca.cert_pem@) && pem_block("PRIVATE KEY"@, ca.key_pem@),
            r matches Ok(ca) ==> ca.request@ == ca_request_view(),
    {
        let key = match generate_key_pair() {
            Ok(k) => k,
            Err(e) => return Err(stage("keygen", e)),
        };
        let (cert, request) = match ca_certificate(&key) {
            Ok(c) => c,
            Err(e) => return Err(stage("cert gen", e)),
        };
        Ok(CertificateAuthority { cert_pem: certificate_pem(&cert), key_pem: key_pair_pem(&key), request })
    }

    /// Issues a certificate and a fresh private key (each one PEM block) for
    /// `domain`: made from `server_request(domain)` and signed with the key
    /// read from `key_pem`, under the CA certificate rebuilt from that key
    /// and `ca_request()`. A failure says at which stage: `parse ca key`,
    /// `ca cert`, `server keygen`, `server cert params` or `sign cert`.
    pub fn issue_cert(&self, domain: &str) -> (r: Result<IssuedCert, String>)
        ensures
            r matches Err(m) ==> staged("parse ca key"@, m@) || staged("ca cert"@, m@)
                || staged("server keygen"@, m@) || staged("server cert params"@, m@) || staged("sign cert"@, m@),
            r matches Ok(c) ==> pem_block("CERTIFICATE"@, c.cert_pem@) && pem_block("PRIVATE KEY"@, c.key_pem@),
            r matches Ok(c) ==> c.request@ == server_request_view(domain@) && c.issuer@ == ca_request_view()
                && c.issuer_key_pem@ == self.key_pem@,
            r matches Ok(c) ==> c.request@.names == seq![domain@] && !c.request@.is_ca && c.issuer@.is_ca,
    {
        let ca_key = match key_pair_from_pem(self.key_pem.as_str()) {
            Ok(k) => k,
            Err(e) => return Err(stage("parse ca key", e)),
        };
        let (ca_cert, issuer) = match ca_certificate(&ca_key) {
            Ok(c) => c,
            Err(e) => return Err(stage("ca cert", e)),
        };
        let server_key = match generate_key_pair() {
            Ok(k) => k,
            Err(e) => return Err(stage("server keygen", e)),
        };
        let req = server_request(domain);
        let params = match request_params(&req) {
            Ok(p) => p,
            Err(e) => return Err(stage("server cert params", e)),
        };
        let cert = match sign_with(params, &server_key, &ca_cert, &ca_key) {
            Ok(c) => c,
            Err(e) => return Err(stage("sign cert", e)),
        };
        Ok(IssuedCert {
            cert_pem: certificate_pem(&cert),
            key_pem: key_pair_pem(&server_key),
            request: Ghost(req@),
            issuer,
            issuer_key_pem: Ghost(self.key_pem@),
        })
    }
}

} // verus!
