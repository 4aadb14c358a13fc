//! The reasons for which a certificate can be revoked (RFC 5280, CRLReason).

use vstd::prelude::*;
use vstd::string::*;

verus! {

/// Why a certificate was revoked. Each value is bound to the numeric code
/// that RFC 5280 gives it; the code 7 is not assigned.
#[allow(non_camel_case_types)]
#[derive(Clone, Copy, Debug, PartialEq, Eq, Structural)]
pub enum ReasonFlags {
    unspecified,
    key_compromise,
    ca_compromise,
    affiliation_changed,
    superseded,
    cessation_of_operation,
    certificate_hold,
    privilege_withdrawn,
    aa_compromise,
    remove_from_crl,
}

impl ReasonFlags {
    /// The RFC 5280 code of a reason.
    pub open spec fn spec_code(self) -> u8 {
        match self {
            ReasonFlags::unspecified => 0,
            ReasonFlags::key_compromise => 1,
            ReasonFlags::ca_compromise => 2,
            ReasonFlags::affiliation_changed => 3,
            ReasonFlags::superseded => 4,
            ReasonFlags::cessation_of_operation => 5,
            ReasonFlags::certificate_hold => 6,
            ReasonFlags::remove_from_crl => 8,
            ReasonFlags::privilege_withdrawn => 9,
            ReasonFlags::aa_compromise => 10,
        }
    }

    /// The reason that a code stands for, if it stands for one.
    pub open spec fn spec_from_code(code: u8) -> Option<ReasonFlags> {
        if code == 0 {
            Some(ReasonFlags::unspecified)
        } else if code == 1 {
            Some(ReasonFlags::key_compromise)
        } else if code == 2 {
            Some(ReasonFlags::ca_compromise)
        } else if code == 3 {
            Some(ReasonFlags::affiliation_changed)
        } else if code == 4 {
            Some(ReasonFlags::superseded)
        } else if code == 5 {
            Some(ReasonFlags::cessation_of_operation)
        } else if code == 6 {
            Some(ReasonFlags::certificate_hold)
        } else if code == 8 {
            Some(ReasonFlags::remove_from_crl)
        } else if code == 9 {
            Some(ReasonFlags::privilege_withdrawn)
        } else if code == 10 {
            Some(ReasonFlags::aa_compromise)
        } else {
            None
        }
    }

    /// The reason recorded for an optional code where a reason is always
    /// wanted: `unspecified` stands in for an absent or unknown code.
    pub open spec fn spec_from_code_or_unspecified(code: Option<u8>) -> ReasonFlags {
        match code {
            Some(c) => match Self::spec_from_code(c) {
                Some(reason) => reason,
                None => ReasonFlags::unspecified,
            },
            None => ReasonFlags::unspecified,
        }
    }

    /// The name of a reason, as it is written in diagnostics.
    pub open spec fn spec_name(self) -> Seq<char> {
        match self {
            ReasonFlags::unspecified => "unspecified"@,
            ReasonFlags::key_compromise => "key_compromise"@,
            ReasonFlags::ca_compromise => "ca_compromise"@,
            ReasonFlags::affiliation_changed => "affiliation_changed"@,
            ReasonFlags::superseded => "superseded"@,
            ReasonFlags::cessation_of_operation => "cessation_of_operation"@,
            ReasonFlags::certificate_hold => "certificate_hold"@,
            ReasonFlags::remove_from_crl => "remove_from_crl"@,
            ReasonFlags::privilege_withdrawn => "privilege_withdrawn"@,
            ReasonFlags::aa_compromise => "aa_compromise"@,
        }
    }

    pub fn code(self) -> (code: u8)
        ensures
            code == self.spec_code(),
    {
        match self {
            ReasonFlags::unspecified => 0,
            ReasonFlags::key_compromise => 1,
            ReasonFlags::ca_compromise => 2,
            ReasonFlags::affiliation_changed => 3,
            ReasonFlags::superseded => 4,
            ReasonFlags::cessation_of_operation => 5,
            ReasonFlags::certificate_hold => 6,
            ReasonFlags::remove_from_crl => 8,
            ReasonFlags::privilege_withdrawn => 9,
            ReasonFlags::aa_compromise => 10,
        }
    }

    pub fn from_code(code: u8) -> (reason: Option<ReasonFlags>)
        ensures
            reason == Self::spec_from_code(code),
    {
        match code {
            0 => Some(ReasonFlags::unspecified),
            1 => Some(ReasonFlags::key_compromise),
            2 => Some(ReasonFlags::ca_compromise),
            3 => Some(ReasonFlags::affiliation_changed),
            4 => Some(ReasonFlags::superseded),
            5 => Some(ReasonFlags::cessation_of_operation),
            6 => Some(ReasonFlags::certificate_hold),
            8 => Some(ReasonFlags::remove_from_crl),
            9 => Some(ReasonFlags::privilege_withdrawn),
            10 => Some(ReasonFlags::aa_compromise),
            _ => None,
        }
    }

    pub fn from_code_or_unspecified(code: Option<u8>) -> (reason: ReasonFlags)
        ensures
            reason == Self::spec_from_code_or_unspecified(code),
    {
        match code {
            Some(c) => match Self::from_code(c) {
                Some(reason) => reason,
                None => ReasonFlags::unspecified,
            },
            None => ReasonFlags::unspecified,
        }
    }

    pub fn name(self) -> (name: String)
        ensures
            name@ == self.spec_name(),
    {
        let text: &str = match self {
            ReasonFlags::unspecified => "unspecified",
            ReasonFlags::key_compromise => "key_compromise",
            ReasonFlags::ca_compromise => "ca_compromise",
            ReasonFlags::affiliation_changed => "affiliation_changed",
            ReasonFlags::superseded => "superseded",
            ReasonFlags::cessation_of_operation => "cessation_of_operation",
            ReasonFlags::certificate_hold => "certificate_hold",
            ReasonFlags::remove_from_crl => "remove_from_crl",
            ReasonFlags::privilege_withdrawn => "privilege_withdrawn",
            ReasonFlags::aa_compromise => "aa_compromise",
        };
        text.to_owned()
    }

    /// A reason is found again from its code, and a code that stands for a
    /// reason is the code of that reason.
    pub proof fn lemma_code_round_trip(reason: ReasonFlags, code: u8)
        ensures
            Self::spec_from_code(reason.spec_code()) == Some(reason),
            Self::spec_from_code(code) == Some(reason) ==> reason.spec_code() == code,
            Self::spec_from_code(code) is Some <==> code <= 10 && code != 7,
    {
    }
}

} // verus!
