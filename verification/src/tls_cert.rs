//! Certificate and key of the TLS acceptor, from the bytes of their PEM files.

use rustls::pki_types::pem::{self, PemObject};
use rustls::pki_types::{CertificateDer, PrivateKeyDer};
use vstd::prelude::*;

use crate::fault_inject::Failure;

verus! {

/// How a private key is encoded.
#[derive(Clone, Copy, Debug, PartialEq, Eq, Structural)]
pub enum KeyKind {
    Pkcs1,
    Sec1,
    Pkcs8,
}

/// A private key.
pub struct PrivateKey {
    pub kind: KeyKind,
    pub der: Vec<u8>,
}

/// The certificates that `rustls` decodes from PEM bytes, in order, or the text of the first error.
pub uninterp spec fn pem_certs(pem: Seq<u8>) -> Result<Seq<Seq<u8>>, Seq<char>>;

/// The first private key that `rustls` decodes from PEM bytes, nothing where there is none, or the
/// text of the error that came first.
pub uninterp spec fn pem_key(pem: Seq<u8>) -> Result<Option<(KeyKind, Seq<u8>)>, Seq<char>>;

/// What each of the vectors holds.
pub open spec fn der_views(v: Seq<Vec<u8>>) -> Seq<Seq<u8>> {
    Seq::new(v.len(), |i: int| v[i]@)
}

/// What was decoded, as plain values.
pub open spec fn certs_view(found: Result<Vec<Vec<u8>>, String>) -> Result<
    Seq<Seq<u8>>,
    Seq<char>,
> {
    match found {
        Ok(v) => Ok(der_views(v@)),
        Err(e) => Err(e@),
    }
}

/// What was decoded, as plain values.
pub open spec fn key_view(found: Result<Option<(KeyKind, Vec<u8>)>, String>) -> Result<
    Option<(KeyKind, Seq<u8>)>,
    Seq<char>,
> {
    match found {
        Ok(Some(key)) => Ok(Some((key.0, key.1@))),
        Ok(None) => Ok(None),
        Err(e) => Err(e@),
    }
}

/// `CertificateDer::pem_reader_iter` of `rustls` on bytes in memory, read to its end or its first
/// error: the certificates, or the error, depend on the bytes alone.
#[verifier::external_body]
fn decode_certs(pem: &Vec<u8>) -> (r: Result<Vec<Vec<u8>>, String>)
    ensures
        certs_view(r) == pem_certs(pem@),
{
    CertificateDer::pem_reader_iter(pem.as_slice())
        .map(|cert| cert.map(|c| c.to_vec()).map_err(|e| e.to_string()))
        .collect()
}

/// `PrivateKeyDer::from_pem_reader` of `rustls` on bytes in memory: the key, or the error, depends
/// on the bytes alone. That nothing was found comes as `Ok(None)`; the call makes no key of a kind
/// other than the three.
#[verifier::external_body]
fn decode_key(pem: &Vec<u8>) -> (r: Result<Option<(KeyKind, Vec<u8>)>, String>)
    ensures
        key_view(r) == pem_key(pem@),
{
    match PrivateKeyDer::from_pem_reader(pem.as_slice()) {
        Ok(PrivateKeyDer::Pkcs1(k)) => Ok(Some((KeyKind::Pkcs1, k.secret_pkcs1_der().to_vec()))),
        Ok(PrivateKeyDer::Sec1(k)) => Ok(Some((KeyKind::Sec1, k.secret_sec1_der().to_vec()))),
        Ok(PrivateKeyDer::Pkcs8(k)) => Ok(Some((KeyKind::Pkcs8, k.secret_pkcs8_der().to_vec()))),
        Ok(_) | Err(pem::Error::NoItemsFound) => Ok(None),
        Err(e) => Err(e.to_string()),
    }
}

/// `r` is what the certificates `found` come to.
pub open spec fn certs_outcome(
    found: Result<Seq<Seq<u8>>, Seq<char>>,
    r: Result<Vec<Vec<u8>>, Failure>,
) -> bool {
    match found {
        Ok(certs) => r is Ok && der_views(r->Ok_0@) == certs,
        Err(text) => r is Err && r->Err_0.says_under(text, "parse cert"@),
    }
}

/// `r` is what the key `found` comes to: a file without a key is no good.
pub open spec fn key_outcome(
    found: Result<Option<(KeyKind, Seq<u8>)>, Seq<char>>,
    r: Result<PrivateKey, Failure>,
) -> bool {
    match found {
        Ok(Some(key)) => r is Ok && r->Ok_0.kind == key.0 && r->Ok_0.der@ == key.1,
        Ok(None) => r is Err && r->Err_0.says_under(
            "no private key in key file"@,
            "parse key"@,
        ),
        Err(text) => r is Err && r->Err_0.says_under(text, "parse key"@),
    }
}

/// Judges the certificates that were decoded.
pub fn judge_certs(found: Result<Vec<Vec<u8>>, String>) -> (r: Result<Vec<Vec<u8>>, Failure>)
    ensures
        certs_outcome(certs_view(found), r),
{
    match found {
        Ok(certs) => Ok(certs),
        Err(e) => Err(Failure::new(e.as_str()).context("parse cert")),
    }
}

/// Judges the key that was decoded.
pub fn judge_key(found: Result<Option<(KeyKind, Vec<u8>)>, String>) -> (r: Result<
    PrivateKey,
    Failure,
>)
    ensures
        key_outcome(key_view(found), r),
{
    match found {
        Ok(Some((kind, der))) => Ok(PrivateKey { kind, der }),
        Ok(None) => Err(Failure::new("no private key in key file").context("parse key")),
        Err(e) => Err(Failure::new(e.as_str()).context("parse key")),
    }
}

/// The certificates in the bytes of a PEM file, in order.
pub fn load_certs(pem: &Vec<u8>) -> (r: Result<Vec<Vec<u8>>, Failure>)
    ensures
        certs_outcome(pem_certs(pem@), r),
{
    judge_certs(decode_certs(pem))
}

/// The private key in the bytes of a PEM file.
pub fn load_key(pem: &Vec<u8>) -> (r: Result<PrivateKey, Failure>)
    ensures
        key_outcome(pem_key(pem@), r),
{
    judge_key(decode_key(pem))
}

// Laws
/// Certificates that were decoded are handed out as they are, in order; a key likewise, with its
/// encoding. A file without a key is refused, and so is one that cannot be decoded.
pub proof fn decoded_material_is_handed_out(
    certs: Seq<Seq<u8>>,
    kind: KeyKind,
    der: Seq<u8>,
    text: Seq<char>,
    c: Result<Vec<Vec<u8>>, Failure>,
    k: Result<PrivateKey, Failure>,
)
    ensures
        certs_outcome(Ok(certs), c) ==> c is Ok && c->Ok_0@.len() == certs.len(),
        certs_outcome(Ok(certs), c) ==> forall|i: int|
            0 <= i < certs.len() ==> (#[trigger] c->Ok_0@[i])@ == certs[i],
        certs_outcome(Err(text), c) ==> c is Err && c->Err_0.message@ == text,
        key_outcome(Ok(Some((kind, der))), k) ==> k is Ok && k->Ok_0.kind == kind && k->Ok_0.der@
            == der,
        key_outcome(Ok(None), k) ==> k is Err,
        key_outcome(Err(text), k) ==> k is Err && k->Err_0.message@ == text,
{
    if certs_outcome(Ok(certs), c) {
        assert(der_views(c->Ok_0@).len() == certs.len());
        assert forall|i: int| 0 <= i < certs.len() implies (#[trigger] c->Ok_0@[i])@
            == certs[i] by {
            assert(der_views(c->Ok_0@)[i] == certs[i]);
        }
    }
}

} // verus!
