//! Verification of one signature: the algorithm is looked up by its
//! identifier, the cryptographic primitive decides.

use vstd::prelude::*;
use vstd::string::*;
use aws_lc_rs::signature::{
    UnparsedPublicKey, VerificationAlgorithm, ECDSA_P256_SHA256_ASN1, ECDSA_P384_SHA384_ASN1,
    ECDSA_P521_SHA512_ASN1, RSA_PKCS1_2048_8192_SHA256, RSA_PKCS1_2048_8192_SHA384,
    RSA_PKCS1_2048_8192_SHA512,
};
use crate::algorithm::SignatureAlgorithm;

verus! {

/// Why a signature was not accepted.
#[derive(Clone, Copy, Debug, PartialEq, Eq, Structural)]
pub enum VerifyError {
    /// The algorithm identifier is not in the registry.
    UnsupportedAlgorithm,
    /// The primitive of this algorithm rejected the signature.
    VerificationFailed(SignatureAlgorithm),
}

/// Whether the cryptographic primitive of `algorithm` accepts `signature`
/// as a signature of `message` under `public_key`. The primitive is not
/// part of this library; this is the name of its answer.
pub uninterp spec fn signature_valid(
    algorithm: SignatureAlgorithm,
    public_key: Seq<u8>,
    message: Seq<u8>,
    signature: Seq<u8>,
) -> bool;

/// The outcome of a verification once the primitive has answered.
pub open spec fn spec_verdict(algorithm: SignatureAlgorithm, valid: bool) -> Result<
    (),
    VerifyError,
> {
    if valid {
        Ok(())
    } else {
        Err(VerifyError::VerificationFailed(algorithm))
    }
}

/// The outcome of verifying `signature` over `tbs` with the key of a
/// candidate issuer, under the algorithm that `algorithm_id` names.
pub open spec fn spec_verify_signature(
    tbs: Seq<u8>,
    signature: Seq<u8>,
    algorithm_id: Seq<char>,
    issuer_key: Seq<u8>,
) -> Result<(), VerifyError> {
    match SignatureAlgorithm::spec_from_identifier(algorithm_id) {
        None => Err(VerifyError::UnsupportedAlgorithm),
        Some(algorithm) => spec_verdict(
            algorithm,
            signature_valid(algorithm, issuer_key, tbs, signature),
        ),
    }
}

/// The text of a failure: an unsupported algorithm is reported with the
/// identifier that was asked for, a rejected signature with the name of
/// the algorithm that rejected it.
pub open spec fn spec_failure_message(error: VerifyError, algorithm_id: Seq<char>) -> Seq<char> {
    match error {
        VerifyError::UnsupportedAlgorithm => "unsupported signature algorithm: "@ + algorithm_id,
        VerifyError::VerificationFailed(algorithm) => "signature verification failed: "@
            + algorithm.spec_label(),
    }
}

/// Calls `aws_lc_rs::signature::UnparsedPublicKey::verify` with the
/// verification parameters that belong to `algorithm`. Trusted: the answer
/// is the one that `signature_valid` names; the same inputs always get the
/// same answer, and a malformed key or signature is answered with `false`.
#[verifier::external_body]
fn primitive_verify(
    algorithm: SignatureAlgorithm,
    public_key: &[u8],
    message: &[u8],
    signature: &[u8],
) -> (valid: bool)
    ensures
        valid == signature_valid(algorithm, public_key@, message@, signature@),
{
    let parameters: &'static dyn VerificationAlgorithm = match algorithm {
        SignatureAlgorithm::RsaPkcs1Sha256 => &RSA_PKCS1_2048_8192_SHA256,
        SignatureAlgorithm::RsaPkcs1Sha384 => &RSA_PKCS1_2048_8192_SHA384,
        SignatureAlgorithm::RsaPkcs1Sha512 => &RSA_PKCS1_2048_8192_SHA512,
        SignatureAlgorithm::EcdsaP256Sha256 => &ECDSA_P256_SHA256_ASN1,
        SignatureAlgorithm::EcdsaP384Sha384 => &ECDSA_P384_SHA384_ASN1,
        SignatureAlgorithm::EcdsaP521Sha512 => &ECDSA_P521_SHA512_ASN1,
    };
    UnparsedPublicKey::new(parameters, public_key).verify(message, signature).is_ok()
}

/// Turns the answer of the primitive into the outcome of the verification.
pub fn verdict(algorithm: SignatureAlgorithm, valid: bool) -> (res: Result<(), VerifyError>)
    ensures
        res == spec_verdict(algorithm, valid),
{
    if valid {
        Ok(())
    } else {
        Err(VerifyError::VerificationFailed(algorithm))
    }
}

/// Verifies that the key of a candidate issuer signed `tbs`.
///
/// An identifier outside the registry fails as unsupported before any key
/// or signature is looked at; otherwise the primitive of the algorithm
/// decides between success and a verification failure.
pub fn verify_signature(
    tbs: &[u8],
    signature: &[u8],
    algorithm_id: &str,
    issuer_key: &[u8],
) -> (res: Result<(), VerifyError>)
    ensures
        res == spec_verify_signature(tbs@, signature@, algorithm_id@, issuer_key@),
        SignatureAlgorithm::spec_from_identifier(algorithm_id@) is None ==> res == Err::<
            (),
            VerifyError,
        >(VerifyError::UnsupportedAlgorithm),
{
    match SignatureAlgorithm::from_identifier(algorithm_id) {
        None => Err(VerifyError::UnsupportedAlgorithm),
        Some(algorithm) => verdict(
            algorithm,
            primitive_verify(algorithm, issuer_key, tbs, signature),
        ),
    }
}

/// The text that reports a failed verification of a signature made under
/// the algorithm identifier `algorithm_id`.
pub fn failure_message(error: VerifyError, algorithm_id: &str) -> (message: String)
    ensures
        message@ == spec_failure_message(error, algorithm_id@),
{
    match error {
        VerifyError::UnsupportedAlgorithm => {
            let mut message = String::from_str("unsupported signature algorithm: ");
            message.append(algorithm_id);
            message
        },
        VerifyError::VerificationFailed(algorithm) => {
            let mut message = String::from_str("signature verification failed: ");
            message.append(algorithm.label());
            message
        },
    }
}

} // verus!
