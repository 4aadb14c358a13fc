//! Trust validation for certificate material seen during a handshake:
//! signature verification by algorithm identifier, ordering an unordered
//! bag of certificates into a chain, and the revocation data carried by
//! certificate revocation lists and OCSP responses.

pub mod algorithm;
pub mod certificate;
pub mod chain;
pub mod chain_laws;
pub mod crl;
pub mod ocsp;
pub mod reason;
pub mod signature;
pub mod text;
pub mod wire;

pub use crate::chain::rebuild_chain;
pub use crate::crl::{CertificateRevocationList, CryptoError, RevokedCertificate};
pub use crate::ocsp::{OCSPCertStatus, OCSPRequest, OCSPResponse, OCSPResponseStatus};
pub use crate::reason::ReasonFlags;
pub use crate::signature::verify_signature;
