//! The registry of signature algorithms: which identifiers are known, and
//! what digest and signature scheme each one stands for.

use vstd::prelude::*;
use vstd::string::*;
use crate::text::str_equal;

verus! {

/// The digest that a signature is computed over.
#[derive(Clone, Copy, Debug, PartialEq, Eq, Structural)]
pub enum DigestAlgorithm {
    Sha256,
    Sha384,
    Sha512,
}

/// The signature scheme, with the curve where there is one.
#[derive(Clone, Copy, Debug, PartialEq, Eq, Structural)]
pub enum SignatureScheme {
    RsaPkcs1,
    EcdsaP256,
    EcdsaP384,
    EcdsaP521,
}

/// A signature algorithm of the registry. The set is fixed; an identifier
/// outside it is unsupported.
#[derive(Clone, Copy, Debug, PartialEq, Eq, Structural)]
pub enum SignatureAlgorithm {
    RsaPkcs1Sha256,
    RsaPkcs1Sha384,
    RsaPkcs1Sha512,
    EcdsaP256Sha256,
    EcdsaP384Sha384,
    EcdsaP521Sha512,
}

impl SignatureAlgorithm {
    /// The object identifier of an algorithm, in dotted decimal notation.
    pub open spec fn spec_identifier(self) -> Seq<char> {
        match self {
            SignatureAlgorithm::RsaPkcs1Sha256 => "1.2.840.113549.1.1.11"@,
            SignatureAlgorithm::RsaPkcs1Sha384 => "1.2.840.113549.1.1.12"@,
            SignatureAlgorithm::RsaPkcs1Sha512 => "1.2.840.113549.1.1.13"@,
            SignatureAlgorithm::EcdsaP256Sha256 => "1.2.840.10045.4.3.2"@,
            SignatureAlgorithm::EcdsaP384Sha384 => "1.2.840.10045.4.3.3"@,
            SignatureAlgorithm::EcdsaP521Sha512 => "1.2.840.10045.4.3.4"@,
        }
    }

    /// The algorithm that an identifier names: the one whose identifier it
    /// equals, character for character.
    pub open spec fn spec_from_identifier(identifier: Seq<char>) -> Option<SignatureAlgorithm> {
        if identifier == "1.2.840.113549.1.1.11"@ {
            Some(SignatureAlgorithm::RsaPkcs1Sha256)
        } else if identifier == "1.2.840.113549.1.1.12"@ {
            Some(SignatureAlgorithm::RsaPkcs1Sha384)
        } else if identifier == "1.2.840.113549.1.1.13"@ {
            Some(SignatureAlgorithm::RsaPkcs1Sha512)
        } else if identifier == "1.2.840.10045.4.3.2"@ {
            Some(SignatureAlgorithm::EcdsaP256Sha256)
        } else if identifier == "1.2.840.10045.4.3.3"@ {
            Some(SignatureAlgorithm::EcdsaP384Sha384)
        } else if identifier == "1.2.840.10045.4.3.4"@ {
            Some(SignatureAlgorithm::EcdsaP521Sha512)
        } else {
            None
        }
    }

    pub open spec fn spec_digest(self) -> DigestAlgorithm {
        match self {
            SignatureAlgorithm::RsaPkcs1Sha256 => DigestAlgorithm::Sha256,
            SignatureAlgorithm::RsaPkcs1Sha384 => DigestAlgorithm::Sha384,
            SignatureAlgorithm::RsaPkcs1Sha512 => DigestAlgorithm::Sha512,
            SignatureAlgorithm::EcdsaP256Sha256 => DigestAlgorithm::Sha256,
            SignatureAlgorithm::EcdsaP384Sha384 => DigestAlgorithm::Sha384,
            SignatureAlgorithm::EcdsaP521Sha512 => DigestAlgorithm::Sha512,
        }
    }

    pub open spec fn spec_scheme(self) -> SignatureScheme {
        match self {
            SignatureAlgorithm::RsaPkcs1Sha256 => SignatureScheme::RsaPkcs1,
            SignatureAlgorithm::RsaPkcs1Sha384 => SignatureScheme::RsaPkcs1,
            SignatureAlgorithm::RsaPkcs1Sha512 => SignatureScheme::RsaPkcs1,
            SignatureAlgorithm::EcdsaP256Sha256 => SignatureScheme::EcdsaP256,
            SignatureAlgorithm::EcdsaP384Sha384 => SignatureScheme::EcdsaP384,
            SignatureAlgorithm::EcdsaP521Sha512 => SignatureScheme::EcdsaP521,
        }
    }

    /// The name of an algorithm, as it is written in diagnostics.
    pub open spec fn spec_label(self) -> Seq<char> {
        match self {
            SignatureAlgorithm::RsaPkcs1Sha256 => "RSA+SHA256"@,
            SignatureAlgorithm::RsaPkcs1Sha384 => "RSA+SHA384"@,
            SignatureAlgorithm::RsaPkcs1Sha512 => "RSA+SHA512"@,
            SignatureAlgorithm::EcdsaP256Sha256 => "ECDSA P-256+SHA256"@,
            SignatureAlgorithm::EcdsaP384Sha384 => "ECDSA P-384+SHA384"@,
            SignatureAlgorithm::EcdsaP521Sha512 => "ECDSA P-521+SHA512"@,
        }
    }

    /// Looks an identifier up in the registry. Nothing but exact equality
    /// with a registered identifier finds an algorithm.
    pub fn from_identifier(identifier: &str) -> (found: Option<SignatureAlgorithm>)
        ensures
            found == Self::spec_from_identifier(identifier@),
    {
        if str_equal(identifier, "1.2.840.113549.1.1.11") {
            Some(SignatureAlgorithm::RsaPkcs1Sha256)
        } else if str_equal(identifier, "1.2.840.113549.1.1.12") {
            Some(SignatureAlgorithm::RsaPkcs1Sha384)
        } else if str_equal(identifier, "1.2.840.113549.1.1.13") {
            Some(SignatureAlgorithm::RsaPkcs1Sha512)
        } else if str_equal(identifier, "1.2.840.10045.4.3.2") {
            Some(SignatureAlgorithm::EcdsaP256Sha256)
        } else if str_equal(identifier, "1.2.840.10045.4.3.3") {
            Some(SignatureAlgorithm::EcdsaP384Sha384)
        } else if str_equal(identifier, "1.2.840.10045.4.3.4") {
            Some(SignatureAlgorithm::EcdsaP521Sha512)
        } else {
            None
        }
    }

    pub fn identifier(self) -> (identifier: &'static str)
        ensures
            identifier@ == self.spec_identifier(),
    {
        match self {
            SignatureAlgorithm::RsaPkcs1Sha256 => "1.2.840.113549.1.1.11",
            SignatureAlgorithm::RsaPkcs1Sha384 => "1.2.840.113549.1.1.12",
            SignatureAlgorithm::RsaPkcs1Sha512 => "1.2.840.113549.1.1.13",
            SignatureAlgorithm::EcdsaP256Sha256 => "1.2.840.10045.4.3.2",
            SignatureAlgorithm::EcdsaP384Sha384 => "1.2.840.10045.4.3.3",
            SignatureAlgorithm::EcdsaP521Sha512 => "1.2.840.10045.4.3.4",
        }
    }

    pub fn digest(self) -> (digest: DigestAlgorithm)
        ensures
            digest == self.spec_digest(),
    {
        match self {
            SignatureAlgorithm::RsaPkcs1Sha256 => DigestAlgorithm::Sha256,
            SignatureAlgorithm::RsaPkcs1Sha384 => DigestAlgorithm::Sha384,
            SignatureAlgorithm::RsaPkcs1Sha512 => DigestAlgorithm::Sha512,
            SignatureAlgorithm::EcdsaP256Sha256 => DigestAlgorithm::Sha256,
            SignatureAlgorithm::EcdsaP384Sha384 => DigestAlgorithm::Sha384,
            SignatureAlgorithm::EcdsaP521Sha512 => DigestAlgorithm::Sha512,
        }
    }

    pub fn scheme(self) -> (scheme: SignatureScheme)
        ensures
            scheme == self.spec_scheme(),
    {
        match self {
            SignatureAlgorithm::RsaPkcs1Sha256 => SignatureScheme::RsaPkcs1,
            SignatureAlgorithm::RsaPkcs1Sha384 => SignatureScheme::RsaPkcs1,
            SignatureAlgorithm::RsaPkcs1Sha512 => SignatureScheme::RsaPkcs1,
            SignatureAlgorithm::EcdsaP256Sha256 => SignatureScheme::EcdsaP256,
            SignatureAlgorithm::EcdsaP384Sha384 => SignatureScheme::EcdsaP384,
            SignatureAlgorithm::EcdsaP521Sha512 => SignatureScheme::EcdsaP521,
        }
    }

    pub fn label(self) -> (label: &'static str)
        ensures
            label@ == self.spec_label(),
    {
        match self {
            SignatureAlgorithm::RsaPkcs1Sha256 => "RSA+SHA256",
            SignatureAlgorithm::RsaPkcs1Sha384 => "RSA+SHA384",
            SignatureAlgorithm::RsaPkcs1Sha512 => "RSA+SHA512",
            SignatureAlgorithm::EcdsaP256Sha256 => "ECDSA P-256+SHA256",
            SignatureAlgorithm::EcdsaP384Sha384 => "ECDSA P-384+SHA384",
            SignatureAlgorithm::EcdsaP521Sha512 => "ECDSA P-521+SHA512",
        }
    }

    /// Every algorithm of the registry is found under its own identifier,
    /// and an identifier finds no algorithm but the one it belongs to.
    pub proof fn lemma_registry_is_exact(algorithm: SignatureAlgorithm, identifier: Seq<char>)
        ensures
            Self::spec_from_identifier(algorithm.spec_identifier()) == Some(algorithm),
            Self::spec_from_identifier(identifier) == Some(algorithm) <==> identifier
                == algorithm.spec_identifier(),
    {
        reveal_strlit("1.2.840.113549.1.1.11");
        reveal_strlit("1.2.840.113549.1.1.12");
        reveal_strlit("1.2.840.113549.1.1.13");
        reveal_strlit("1.2.840.10045.4.3.2");
        reveal_strlit("1.2.840.10045.4.3.3");
        reveal_strlit("1.2.840.10045.4.3.4");
        let rsa256 = "1.2.840.113549.1.1.11"@;
        let rsa384 = "1.2.840.113549.1.1.12"@;
        let rsa512 = "1.2.840.113549.1.1.13"@;
        let p256 = "1.2.840.10045.4.3.2"@;
        let p384 = "1.2.840.10045.4.3.3"@;
        let p521 = "1.2.840.10045.4.3.4"@;
        assert(rsa256[20] == '1' && rsa384[20] == '2' && rsa512[20] == '3');
        assert(p256[18] == '2' && p384[18] == '3' && p521[18] == '4');
        assert(rsa256.len() == 21 && rsa384.len() == 21 && rsa512.len() == 21);
        assert(p256.len() == 19 && p384.len() == 19 && p521.len() == 19);
    }
}

} // verus!
