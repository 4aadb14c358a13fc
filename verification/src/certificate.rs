//! What the chain builder reads of a certificate: the bytes it was decoded
//! from, the signed part, the signature over it, the identifier of the
//! signature algorithm, and the public key that its subject holds.

use vstd::prelude::*;
use vstd::slice::slice_to_vec;
use vstd::string::*;
use x509_parser::certificate::X509Certificate;
use x509_parser::prelude::FromDer;

verus! {

/// The parts of a decoded certificate that signature verification reads.
pub struct SignedParts {
    /// The to-be-signed bytes.
    pub tbs: Vec<u8>,
    /// The signature over the to-be-signed bytes.
    pub signature: Vec<u8>,
    /// The object identifier of the signature algorithm, in dotted decimal
    /// notation.
    pub algorithm_id: String,
    /// The encoded public key of the subject.
    pub public_key: Vec<u8>,
}

/// The mathematical value of `SignedParts`.
pub struct SignedPartsView {
    pub tbs: Seq<u8>,
    pub signature: Seq<u8>,
    pub algorithm_id: Seq<char>,
    pub public_key: Seq<u8>,
}

impl View for SignedParts {
    type V = SignedPartsView;

    open spec fn view(&self) -> SignedPartsView {
        SignedPartsView {
            tbs: self.tbs@,
            signature: self.signature@,
            algorithm_id: self.algorithm_id@,
            public_key: self.public_key@,
        }
    }
}

/// A certificate: the DER bytes it was given as, and what they decode to.
pub struct Certificate {
    pub der: Vec<u8>,
    pub signed: SignedParts,
}

/// The mathematical value of a `Certificate`.
pub struct CertificateView {
    pub der: Seq<u8>,
    pub signed: SignedPartsView,
}

impl View for Certificate {
    type V = CertificateView;

    open spec fn view(&self) -> CertificateView {
        CertificateView { der: self.der@, signed: self.signed@ }
    }
}

/// What the DER decoder makes of a byte string: the signed parts of the
/// certificate it holds, or nothing where the bytes are not a
/// certificate. The decoder is not part of this library; this is the name
/// of its result.
pub uninterp spec fn decoded_certificate(der: Seq<u8>) -> Option<SignedPartsView>;

/// The certificate that a byte string stands for, if it decodes.
pub open spec fn spec_certificate(der: Seq<u8>) -> Option<CertificateView> {
    match decoded_certificate(der) {
        Some(signed) => Some(CertificateView { der, signed }),
        None => None,
    }
}

/// The values of a pool of certificates, in the order of the pool.
pub open spec fn certificate_views(pool: Seq<Certificate>) -> Seq<CertificateView> {
    Seq::new(pool.len(), |i: int| pool[i]@)
}

/// Calls `X509Certificate::from_der` of x509-parser and copies out the
/// raw to-be-signed bytes, the signature bits, the signature algorithm's
/// identifier (`Oid::to_id_string`) and the raw subject public key info.
/// Trusted: the result is the one that `decoded_certificate` names, and
/// it is `None` exactly where the decoder reports an error. Bytes that
/// follow the certificate are ignored: the decoder hands them back unread.
#[verifier::external_body]
fn decode_certificate(der: &[u8]) -> (res: Option<SignedParts>)
    ensures
        res matches Some(signed) ==> decoded_certificate(der@) == Some(signed@),
        res is None ==> decoded_certificate(der@) is None,
{
    match X509Certificate::from_der(der) {
        Ok((_, certificate)) => Some(
            SignedParts {
                tbs: certificate.tbs_certificate.as_ref().to_vec(),
                signature: certificate.signature_value.data.to_vec(),
                algorithm_id: certificate.signature_algorithm.algorithm.to_id_string(),
                public_key: certificate.tbs_certificate.subject_pki.raw.to_vec(),
            },
        ),
        Err(_) => None,
    }
}

impl Certificate {
    /// Decodes a certificate from DER bytes, and keeps the bytes with it.
    pub fn from_der(der: &[u8]) -> (res: Option<Certificate>)
        ensures
            res matches Some(certificate) ==> spec_certificate(der@) == Some(certificate@),
            res is None <==> spec_certificate(der@) is None,
    {
        match decode_certificate(der) {
            Some(signed) => Some(Certificate { der: slice_to_vec(der), signed }),
            None => None,
        }
    }
}

} // verus!
