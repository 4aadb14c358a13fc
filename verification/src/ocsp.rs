//! OCSP: reading the status of a certificate out of a response, and
//! building the request that asks for it.

use vstd::prelude::*;
use vstd::slice::slice_to_vec;
use der::{Decode, Encode};
use sha1::Sha1;
use x509_ocsp::builder::OcspRequestBuilder;
use x509_ocsp::{BasicOcspResponse, CertStatus, OcspResponse, Request};
use crate::reason::ReasonFlags;
use crate::wire::{lemma_u64_round_trip, parse_u64, put_u64, take_u64, u64_bytes};

verus! {

/// The status of an OCSP response as a whole (RFC 6960, OCSPResponseStatus).
/// The code 4 is not assigned.
#[allow(non_camel_case_types)]
#[derive(Clone, Copy, Debug, PartialEq, Eq, Structural)]
pub enum OCSPResponseStatus {
    SUCCESSFUL,
    MALFORMED_REQUEST,
    INTERNAL_ERROR,
    TRY_LATER,
    SIG_REQUIRED,
    UNAUTHORIZED,
}

/// The status of one certificate in an OCSP response (RFC 6960, CertStatus).
#[allow(non_camel_case_types)]
#[derive(Clone, Copy, Debug, PartialEq, Eq, Structural)]
pub enum OCSPCertStatus {
    GOOD,
    REVOKED,
    UNKNOWN,
}

/// Why an OCSP response could not be read or a request not be built.
#[derive(Clone, Copy, Debug, PartialEq, Eq, Structural)]
pub enum OcspError {
    /// The bytes are not an OCSP response.
    InvalidDer,
    /// The response carries no payload, or a payload without any
    /// per-certificate response.
    NoAnswers,
    /// The payload of the response is not a basic OCSP response.
    InvalidPayload,
    /// No request could be built for the two certificates.
    RequestNotGenerated,
    /// The bytes are not the persisted form of a status record.
    InvalidEncoding,
}

impl OCSPResponseStatus {
    /// The RFC 6960 code of a response status.
    pub open spec fn spec_code(self) -> u8 {
        match self {
            OCSPResponseStatus::SUCCESSFUL => 0,
            OCSPResponseStatus::MALFORMED_REQUEST => 1,
            OCSPResponseStatus::INTERNAL_ERROR => 2,
            OCSPResponseStatus::TRY_LATER => 3,
            OCSPResponseStatus::SIG_REQUIRED => 5,
            OCSPResponseStatus::UNAUTHORIZED => 6,
        }
    }

    /// The response status that a code stands for, if it stands for one.
    pub open spec fn spec_from_code(code: u8) -> Option<OCSPResponseStatus> {
        if code == 0 {
            Some(OCSPResponseStatus::SUCCESSFUL)
        } else if code == 1 {
            Some(OCSPResponseStatus::MALFORMED_REQUEST)
        } else if code == 2 {
            Some(OCSPResponseStatus::INTERNAL_ERROR)
        } else if code == 3 {
            Some(OCSPResponseStatus::TRY_LATER)
        } else if code == 5 {
            Some(OCSPResponseStatus::SIG_REQUIRED)
        } else if code == 6 {
            Some(OCSPResponseStatus::UNAUTHORIZED)
        } else {
            None
        }
    }

    pub fn code(self) -> (code: u8)
        ensures
            code == self.spec_code(),
    {
        match self {
            OCSPResponseStatus::SUCCESSFUL => 0,
            OCSPResponseStatus::MALFORMED_REQUEST => 1,
            OCSPResponseStatus::INTERNAL_ERROR => 2,
            OCSPResponseStatus::TRY_LATER => 3,
            OCSPResponseStatus::SIG_REQUIRED => 5,
            OCSPResponseStatus::UNAUTHORIZED => 6,
        }
    }

    pub fn from_code(code: u8) -> (status: Option<OCSPResponseStatus>)
        ensures
            status == Self::spec_from_code(code),
    {
        match code {
            0 => Some(OCSPResponseStatus::SUCCESSFUL),
            1 => Some(OCSPResponseStatus::MALFORMED_REQUEST),
            2 => Some(OCSPResponseStatus::INTERNAL_ERROR),
            3 => Some(OCSPResponseStatus::TRY_LATER),
            5 => Some(OCSPResponseStatus::SIG_REQUIRED),
            6 => Some(OCSPResponseStatus::UNAUTHORIZED),
            _ => None,
        }
    }

    /// A response status is found again from its code, and a code that
    /// stands for a status is the code of that status.
    pub proof fn lemma_code_round_trip(status: OCSPResponseStatus, code: u8)
        ensures
            Self::spec_from_code(status.spec_code()) == Some(status),
            Self::spec_from_code(code) == Some(status) ==> status.spec_code() == code,
    {
    }
}

impl OCSPCertStatus {
    /// The RFC 6960 code of a certificate status.
    pub open spec fn spec_code(self) -> u8 {
        match self {
            OCSPCertStatus::GOOD => 0,
            OCSPCertStatus::REVOKED => 1,
            OCSPCertStatus::UNKNOWN => 2,
        }
    }

    /// The certificate status that a code stands for, if it stands for one.
    pub open spec fn spec_from_code(code: u8) -> Option<OCSPCertStatus> {
        if code == 0 {
            Some(OCSPCertStatus::GOOD)
        } else if code == 1 {
            Some(OCSPCertStatus::REVOKED)
        } else if code == 2 {
            Some(OCSPCertStatus::UNKNOWN)
        } else {
            None
        }
    }

    pub fn code(self) -> (code: u8)
        ensures
            code == self.spec_code(),
    {
        match self {
            OCSPCertStatus::GOOD => 0,
            OCSPCertStatus::REVOKED => 1,
            OCSPCertStatus::UNKNOWN => 2,
        }
    }

    pub fn from_code(code: u8) -> (status: Option<OCSPCertStatus>)
        ensures
            status == Self::spec_from_code(code),
    {
        match code {
            0 => Some(OCSPCertStatus::GOOD),
            1 => Some(OCSPCertStatus::REVOKED),
            2 => Some(OCSPCertStatus::UNKNOWN),
            _ => None,
        }
    }

    /// A certificate status is found again from its code, and a code that
    /// stands for a status is the code of that status.
    pub proof fn lemma_code_round_trip(status: OCSPCertStatus, code: u8)
        ensures
            Self::spec_from_code(status.spec_code()) == Some(status),
            Self::spec_from_code(code) == Some(status) ==> status.spec_code() == code,
    {
    }
}

impl OcspError {
    /// The text that reports the error.
    pub open spec fn spec_message(self) -> Seq<char> {
        match self {
            OcspError::InvalidDer => "OCSP DER given is invalid"@,
            OcspError::NoAnswers => "OCSP Server did not provide answers"@,
            OcspError::InvalidPayload => "OCSP response payload is invalid"@,
            OcspError::RequestNotGenerated => "unable to generate the request"@,
            OcspError::InvalidEncoding => "unable to restore the OCSP response"@,
        }
    }

    pub fn message(self) -> (message: &'static str)
        ensures
            message@ == self.spec_message(),
    {
        match self {
            OcspError::InvalidDer => "OCSP DER given is invalid",
            OcspError::NoAnswers => "OCSP Server did not provide answers",
            OcspError::InvalidPayload => "OCSP response payload is invalid",
            OcspError::RequestNotGenerated => "unable to generate the request",
            OcspError::InvalidEncoding => "unable to restore the OCSP response",
        }
    }
}

/// The outer structure of an OCSP response, as decoded: the code of the
/// response status, and the payload if one is embedded.
pub struct DecodedOcspResponse {
    pub status_code: u8,
    pub payload: Option<Vec<u8>>,
}

/// The mathematical value of a `DecodedOcspResponse`.
pub struct DecodedOcspResponseView {
    pub status_code: u8,
    pub payload: Option<Seq<u8>>,
}

impl View for DecodedOcspResponse {
    type V = DecodedOcspResponseView;

    open spec fn view(&self) -> DecodedOcspResponseView {
        DecodedOcspResponseView {
            status_code: self.status_code,
            payload: match self.payload {
                Some(bytes) => Some(bytes@),
                None => None,
            },
        }
    }
}

/// One per-certificate response of a payload, as decoded: the status of
/// the certificate, the code of the revocation reason where the
/// certificate is revoked and a reason is given, and the time of the next
/// update, in seconds since the epoch, where one is given.
#[derive(Clone, Copy, Debug, PartialEq, Eq, Structural)]
pub struct DecodedSingleResponse {
    pub certificate_status: OCSPCertStatus,
    pub reason_code: Option<u8>,
    pub next_update: Option<u64>,
}

/// What the DER decoder makes of the bytes of an OCSP response. The
/// decoder is not part of this library; this is the name of its result.
pub uninterp spec fn decoded_ocsp_response(der: Seq<u8>) -> Option<DecodedOcspResponseView>;

/// What the DER decoder makes of the payload of an OCSP response: its
/// per-certificate responses, in their order. The decoder is not part of
/// this library; this is the name of its result.
pub uninterp spec fn decoded_basic_response(payload: Seq<u8>) -> Option<
    Seq<DecodedSingleResponse>,
>;

/// The DER bytes of the request that asks for the status of `peer`, a
/// certificate issued by `issuer`, where both decode and the request can
/// be encoded. The encoder is not part of this library; this is the name
/// of its result.
pub uninterp spec fn encoded_ocsp_request(peer: Seq<u8>, issuer: Seq<u8>) -> Option<Seq<u8>>;

/// Calls `OcspResponse::from_der` of x509-ocsp and copies out the number
/// of the response status and the bytes of the embedded response.
/// Trusted: the result is the one that `decoded_ocsp_response` names, and
/// it is `None` exactly where the decoder reports an error.
#[verifier::external_body]
fn decode_ocsp_response(der: &[u8]) -> (res: Option<DecodedOcspResponse>)
    ensures
        res matches Some(outer) ==> decoded_ocsp_response(der@) == Some(outer@),
        res is None ==> decoded_ocsp_response(der@) is None,
{
    match OcspResponse::from_der(der) {
        Ok(response) => Some(
            DecodedOcspResponse {
                status_code: response.response_status as u8,
                payload: response.response_bytes.map(|bytes| bytes.response.into_bytes()),
            },
        ),
        Err(_) => None,
    }
}

/// Calls `BasicOcspResponse::from_der` of x509-ocsp and copies out, for
/// each per-certificate response in its order, the kind of status, the
/// number of the revocation reason and the next update as seconds since
/// the epoch (`GeneralizedTime::to_unix_duration`). Trusted: the result
/// is the one that `decoded_basic_response` names, and it is `None`
/// exactly where the decoder reports an error.
#[verifier::external_body]
fn decode_basic_response(payload: &[u8]) -> (res: Option<Vec<DecodedSingleResponse>>)
    ensures
        res matches Some(responses) ==> decoded_basic_response(payload@) == Some(responses@),
        res is None ==> decoded_basic_response(payload@) is None,
{
    let basic = BasicOcspResponse::from_der(payload).ok()?;
    Some(basic.tbs_response_data.responses.iter().map(|single| {
        let (certificate_status, reason_code) = match single.cert_status {
            CertStatus::Good(_) => (OCSPCertStatus::GOOD, None),
            CertStatus::Revoked(info) => (
                OCSPCertStatus::REVOKED,
                info.revocation_reason.map(|reason| reason as u8),
            ),
            CertStatus::Unknown(_) => (OCSPCertStatus::UNKNOWN, None),
        };
        let next_update = single.next_update.map(|time| time.0.to_unix_duration().as_secs());
        DecodedSingleResponse { certificate_status, reason_code, next_update }
    }).collect())
}

/// Decodes both certificates with `Certificate::from_der` of x509-cert,
/// identifies the peer with `Request::from_cert` under SHA-1, and encodes
/// the request that `OcspRequestBuilder` builds for it. Trusted: the
/// result is the one that `encoded_ocsp_request` names, and it is `None`
/// exactly where one of these steps reports an error.
#[verifier::external_body]
fn encode_ocsp_request(peer: &[u8], issuer: &[u8]) -> (res: Option<Vec<u8>>)
    ensures
        res matches Some(der) ==> encoded_ocsp_request(peer@, issuer@) == Some(der@),
        res is None ==> encoded_ocsp_request(peer@, issuer@) is None,
{
    let issuer = x509_cert::Certificate::from_der(issuer).ok()?;
    let peer = x509_cert::Certificate::from_der(peer).ok()?;
    let request = Request::from_cert::<Sha1>(&issuer, &peer).ok()?;
    OcspRequestBuilder::default().with_request(request).build().to_der().ok()
}

/// The status of a certificate, as read out of an OCSP response.
#[derive(Clone, Copy, Debug)]
pub struct OCSPResponse {
    next_update: u64,
    response_status: OCSPResponseStatus,
    certificate_status: OCSPCertStatus,
    revocation_reason: Option<ReasonFlags>,
}

/// The mathematical value of an `OCSPResponse`.
pub struct OCSPResponseView {
    pub next_update: u64,
    pub response_status: OCSPResponseStatus,
    pub certificate_status: OCSPCertStatus,
    pub revocation_reason: Option<ReasonFlags>,
}

impl OCSPResponseView {
    /// A reason for revocation is recorded for a revoked certificate only.
    pub open spec fn is_valid(self) -> bool {
        self.revocation_reason is Some ==> self.certificate_status == OCSPCertStatus::REVOKED
    }
}

impl View for OCSPResponse {
    type V = OCSPResponseView;

    closed spec fn view(&self) -> OCSPResponseView {
        OCSPResponseView {
            next_update: self.next_update,
            response_status: self.response_status,
            certificate_status: self.certificate_status,
            revocation_reason: self.revocation_reason,
        }
    }
}

/// What a per-certificate response says of the certificate. The reason is
/// read for a revoked certificate only, and is absent where no code is
/// given or the code stands for no reason. A response without a time of
/// next update is recorded with the time 0.
pub open spec fn spec_status_record(
    status: OCSPResponseStatus,
    single: DecodedSingleResponse,
) -> OCSPResponseView {
    OCSPResponseView {
        next_update: match single.next_update {
            Some(seconds) => seconds,
            None => 0,
        },
        response_status: status,
        certificate_status: single.certificate_status,
        revocation_reason: match (single.certificate_status, single.reason_code) {
            (OCSPCertStatus::REVOKED, Some(code)) => ReasonFlags::spec_from_code(code),
            _ => None,
        },
    }
}

/// The payload that the outer structure of a response carries. A status
/// code that stands for no status makes the response invalid; a response
/// without a payload holds no answer.
pub open spec fn spec_embedded_payload(outer: DecodedOcspResponseView) -> Result<
    Seq<u8>,
    OcspError,
> {
    if OCSPResponseStatus::spec_from_code(outer.status_code) is None {
        Err(OcspError::InvalidDer)
    } else {
        match outer.payload {
            None => Err(OcspError::NoAnswers),
            Some(payload) => Ok(payload),
        }
    }
}

/// The record that is read out of the decoded parts of a response: that
/// of the first per-certificate response, and of no other.
pub open spec fn spec_interpret(status_code: u8, responses: Seq<DecodedSingleResponse>) -> Result<
    OCSPResponseView,
    OcspError,
> {
    match OCSPResponseStatus::spec_from_code(status_code) {
        None => Err(OcspError::InvalidDer),
        Some(status) => if responses.len() == 0 {
            Err(OcspError::NoAnswers)
        } else {
            Ok(spec_status_record(status, responses[0]))
        },
    }
}

/// The record that is read out of the bytes of a response.
pub open spec fn spec_parse_response(raw_response: Seq<u8>) -> Result<OCSPResponseView, OcspError> {
    match decoded_ocsp_response(raw_response) {
        None => Err(OcspError::InvalidDer),
        Some(outer) => match spec_embedded_payload(outer) {
            Err(error) => Err(error),
            Ok(payload) => match decoded_basic_response(payload) {
                None => Err(OcspError::InvalidPayload),
                Some(responses) => spec_interpret(outer.status_code, responses),
            },
        },
    }
}

/// The bytes that record the reason of a revocation: a zero where there
/// is none, else a one and the code of the reason.
pub open spec fn reason_bytes(reason: Option<ReasonFlags>) -> Seq<u8> {
    match reason {
        None => seq![0u8],
        Some(reason) => seq![1u8, reason.spec_code()],
    }
}

/// The persisted form of a status record: the time of the next update,
/// the codes of the response status and of the certificate status, and
/// the reason.
pub open spec fn spec_serialize(record: OCSPResponseView) -> Seq<u8> {
    u64_bytes(record.next_update) + seq![
        record.response_status.spec_code(),
        record.certificate_status.spec_code(),
    ] + reason_bytes(record.revocation_reason)
}

/// The record that has `encoded` as its persisted form, if a valid record
/// has.
pub open spec fn spec_deserialize(encoded: Seq<u8>) -> Option<OCSPResponseView> {
    if exists|record: OCSPResponseView| record.is_valid() && spec_serialize(record) == encoded {
        Some(choose|record: OCSPResponseView| record.is_valid() && spec_serialize(record) == encoded)
    } else {
        None
    }
}

/// The reason that the bytes after the two status codes record.
pub open spec fn parse_reason(bytes: Seq<u8>) -> Option<Option<ReasonFlags>> {
    if bytes.len() == 1 && bytes[0] == 0 {
        Some(None)
    } else if bytes.len() == 2 && bytes[0] == 1 {
        match ReasonFlags::spec_from_code(bytes[1]) {
            Some(reason) => Some(Some(reason)),
            None => None,
        }
    } else {
        None
    }
}

/// Reads a persisted status record, field by field. Bytes that are left
/// over, a code that stands for nothing, and a reason given for a
/// certificate that is not revoked make the bytes invalid.
pub open spec fn parse_record(encoded: Seq<u8>) -> Option<OCSPResponseView> {
    match parse_u64(encoded) {
        None => None,
        Some((next_update, rest)) => if rest.len() < 2 {
            None
        } else {
            match (
                OCSPResponseStatus::spec_from_code(rest[0]),
                OCSPCertStatus::spec_from_code(rest[1]),
                parse_reason(rest.skip(2)),
            ) {
                (Some(response_status), Some(certificate_status), Some(revocation_reason)) => {
                    let record = OCSPResponseView {
                        next_update,
                        response_status,
                        certificate_status,
                        revocation_reason,
                    };
                    if record.is_valid() {
                        Some(record)
                    } else {
                        None
                    }
                },
                _ => None,
            }
        },
    }
}

/// Reading the persisted form of a valid record gives the record back.
pub proof fn lemma_parse_inverts_serialize(record: OCSPResponseView)
    requires
        record.is_valid(),
    ensures
        parse_record(spec_serialize(record)) == Some(record),
{
    let tail = seq![record.response_status.spec_code(), record.certificate_status.spec_code()]
        + reason_bytes(record.revocation_reason);
    let encoded = spec_serialize(record);
    assert(encoded =~= u64_bytes(record.next_update) + tail);
    lemma_u64_round_trip(record.next_update, encoded, tail);
    assert(tail.skip(2) =~= reason_bytes(record.revocation_reason));
    OCSPResponseStatus::lemma_code_round_trip(record.response_status, 0);
    OCSPCertStatus::lemma_code_round_trip(record.certificate_status, 0);
    if record.revocation_reason is Some {
        ReasonFlags::lemma_code_round_trip(record.revocation_reason->0, 0);
    }
}

/// What is read as a record is valid, and was written as that record.
pub proof fn lemma_serialize_inverts_parse(encoded: Seq<u8>, record: OCSPResponseView)
    requires
        parse_record(encoded) == Some(record),
    ensures
        record.is_valid(),
        spec_serialize(record) == encoded,
{
    let (next_update, rest) = parse_u64(encoded)->0;
    lemma_u64_round_trip(next_update, encoded, rest);
    OCSPResponseStatus::lemma_code_round_trip(record.response_status, rest[0]);
    OCSPCertStatus::lemma_code_round_trip(record.certificate_status, rest[1]);
    if record.revocation_reason is Some {
        ReasonFlags::lemma_code_round_trip(record.revocation_reason->0, rest.skip(2)[1]);
    }
    assert(rest.skip(2) =~= reason_bytes(record.revocation_reason));
    assert(rest =~= seq![rest[0], rest[1]] + rest.skip(2));
    assert(encoded =~= spec_serialize(record));
}

/// Reading field by field finds the record that has the bytes as its
/// persisted form, and finds none where no valid record has.
pub proof fn lemma_parse_is_deserialize(encoded: Seq<u8>)
    ensures
        parse_record(encoded) == spec_deserialize(encoded),
{
    if exists|record: OCSPResponseView| record.is_valid() && spec_serialize(record) == encoded {
        let record = choose|record: OCSPResponseView|
            record.is_valid() && spec_serialize(record) == encoded;
        lemma_parse_inverts_serialize(record);
    } else {
        if parse_record(encoded) is Some {
            lemma_serialize_inverts_parse(encoded, parse_record(encoded)->0);
        }
    }
}

/// A status record that is persisted and restored is the same record: all
/// its fields are kept. No two valid records have the same persisted form.
pub proof fn lemma_serialize_round_trip(record: OCSPResponseView, other: OCSPResponseView)
    requires
        record.is_valid(),
    ensures
        spec_deserialize(spec_serialize(record)) == Some(record),
        other.is_valid() && spec_serialize(other) == spec_serialize(record) ==> other == record,
{
    lemma_parse_inverts_serialize(record);
    lemma_parse_is_deserialize(spec_serialize(record));
    if other.is_valid() {
        lemma_parse_inverts_serialize(other);
    }
}

/// Hands out the payload of a decoded response.
pub fn embedded_payload(outer: &DecodedOcspResponse) -> (res: Result<&Vec<u8>, OcspError>)
    ensures
        match res {
            Ok(payload) => spec_embedded_payload(outer@) == Ok::<Seq<u8>, OcspError>(payload@),
            Err(error) => spec_embedded_payload(outer@) == Err::<Seq<u8>, OcspError>(error),
        },
{
    if OCSPResponseStatus::from_code(outer.status_code).is_none() {
        return Err(OcspError::InvalidDer);
    }
    match &outer.payload {
        None => Err(OcspError::NoAnswers),
        Some(payload) => Ok(payload),
    }
}

impl OCSPResponse {
    #[verifier::type_invariant]
    spec fn reason_only_when_revoked(self) -> bool {
        self.revocation_reason is Some ==> self.certificate_status == OCSPCertStatus::REVOKED
    }

    /// Reads the status record out of the decoded parts of a response.
    /// Only the first per-certificate response is read.
    pub fn interpret(status_code: u8, responses: &Vec<DecodedSingleResponse>) -> (res: Result<
        OCSPResponse,
        OcspError,
    >)
        ensures
            match res {
                Ok(response) => spec_interpret(status_code, responses@) == Ok::<
                    OCSPResponseView,
                    OcspError,
                >(response@),
                Err(error) => spec_interpret(status_code, responses@) == Err::<
                    OCSPResponseView,
                    OcspError,
                >(error),
            },
    {
        let status = match OCSPResponseStatus::from_code(status_code) {
            Some(status) => status,
            None => {
                return Err(OcspError::InvalidDer);
            },
        };
        if responses.len() == 0 {
            return Err(OcspError::NoAnswers);
        }
        let first = &responses[0];
        let next_update = match first.next_update {
            Some(seconds) => seconds,
            None => 0,
        };
        let revocation_reason = match (first.certificate_status, first.reason_code) {
            (OCSPCertStatus::REVOKED, Some(code)) => ReasonFlags::from_code(code),
            _ => None,
        };
        Ok(
            OCSPResponse {
                next_update,
                response_status: status,
                certificate_status: first.certificate_status,
                revocation_reason,
            },
        )
    }

    /// Reads the status record out of the DER bytes of an OCSP response.
    ///
    /// Fails where the bytes do not decode, where the response carries no
    /// payload, where the payload does not decode, and where it holds no
    /// per-certificate response.
    pub fn py_new(raw_response: &[u8]) -> (res: Result<OCSPResponse, OcspError>)
        ensures
            match res {
                Ok(response) => spec_parse_response(raw_response@) == Ok::<
                    OCSPResponseView,
                    OcspError,
                >(response@),
                Err(error) => spec_parse_response(raw_response@) == Err::<
                    OCSPResponseView,
                    OcspError,
                >(error),
            },
    {
        let outer = match decode_ocsp_response(raw_response) {
            Some(outer) => outer,
            None => {
                return Err(OcspError::InvalidDer);
            },
        };
        let payload = match embedded_payload(&outer) {
            Ok(payload) => payload,
            Err(error) => {
                return Err(error);
            },
        };
        match decode_basic_response(payload.as_slice()) {
            None => Err(OcspError::InvalidPayload),
            Some(responses) => Self::interpret(outer.status_code, &responses),
        }
    }

    /// The persisted form of the record.
    pub fn serialize(&self) -> (encoded: Vec<u8>)
        ensures
            encoded@ == spec_serialize(self@),
            self@.is_valid(),
    {
        proof {
            use_type_invariant(self);
        }
        let mut out: Vec<u8> = Vec::new();
        put_u64(&mut out, self.next_update);
        out.push(self.response_status.code());
        out.push(self.certificate_status.code());
        match self.revocation_reason {
            None => {
                out.push(0);
            },
            Some(reason) => {
                out.push(1);
                out.push(reason.code());
            },
        }
        assert(out@ =~= spec_serialize(self@));
        out
    }

    /// Restores a record from its persisted form. Bytes that are not the
    /// persisted form of a valid record are refused.
    pub fn deserialize(encoded: &[u8]) -> (res: Result<OCSPResponse, OcspError>)
        ensures
            match res {
                Ok(response) => spec_deserialize(encoded@) == Some(response@),
                Err(error) => error == OcspError::InvalidEncoding && spec_deserialize(encoded@)
                    is None,
            },
    {
        proof {
            lemma_parse_is_deserialize(encoded@);
            assert(encoded@.skip(0) =~= encoded@);
        }
        let (next_update, at) = match take_u64(encoded, 0) {
            Some(read) => read,
            None => {
                return Err(OcspError::InvalidEncoding);
            },
        };
        let ghost rest = encoded@.skip(at as int);
        if encoded.len() - at < 3 {
            assert(rest.len() >= 2 ==> rest.skip(2).len() == 0);
            return Err(OcspError::InvalidEncoding);
        }
        assert(rest[0] == encoded@[at as int] && rest[1] == encoded@[at + 1]);
        assert(rest.skip(2)[0] == encoded@[at + 2]);
        let response_status = match OCSPResponseStatus::from_code(encoded[at]) {
            Some(status) => status,
            None => {
                return Err(OcspError::InvalidEncoding);
            },
        };
        let certificate_status = match OCSPCertStatus::from_code(encoded[at + 1]) {
            Some(status) => status,
            None => {
                return Err(OcspError::InvalidEncoding);
            },
        };
        let tag = encoded[at + 2];
        let length = encoded.len() - at;
        let revocation_reason = if tag == 0 && length == 3 {
            None
        } else if tag == 1 && length == 4 {
            assert(rest.skip(2)[1] == encoded@[at + 3]);
            match ReasonFlags::from_code(encoded[at + 3]) {
                Some(reason) => Some(reason),
                None => {
                    return Err(OcspError::InvalidEncoding);
                },
            }
        } else {
            return Err(OcspError::InvalidEncoding);
        };
        if revocation_reason.is_some() {
            match certificate_status {
                OCSPCertStatus::REVOKED => {},
                _ => {
                    return Err(OcspError::InvalidEncoding);
                },
            }
        }
        Ok(OCSPResponse { next_update, response_status, certificate_status, revocation_reason })
    }

    pub fn next_update(&self) -> (seconds: u64)
        ensures
            seconds == self@.next_update,
    {
        self.next_update
    }

    pub fn response_status(&self) -> (status: OCSPResponseStatus)
        ensures
            status == self@.response_status,
    {
        self.response_status
    }

    pub fn certificate_status(&self) -> (status: OCSPCertStatus)
        ensures
            status == self@.certificate_status,
    {
        self.certificate_status
    }

    pub fn revocation_reason(&self) -> (reason: Option<ReasonFlags>)
        ensures
            reason == self@.revocation_reason,
            reason is Some ==> self@.certificate_status == OCSPCertStatus::REVOKED,
    {
        proof {
            use_type_invariant(self);
        }
        self.revocation_reason
    }
}

/// An OCSP request, ready to be sent: the DER bytes that ask a responder
/// for the status of one certificate.
pub struct OCSPRequest {
    inner_request: Vec<u8>,
}

impl View for OCSPRequest {
    type V = Seq<u8>;

    closed spec fn view(&self) -> Seq<u8> {
        self.inner_request@
    }
}

impl OCSPRequest {
    /// Builds the request for the status of `peer_certificate`, which
    /// `issuer_certificate` issued.
    pub fn py_new(peer_certificate: &[u8], issuer_certificate: &[u8]) -> (res: Result<
        OCSPRequest,
        OcspError,
    >)
        ensures
            match res {
                Ok(request) => encoded_ocsp_request(peer_certificate@, issuer_certificate@)
                    == Some(request@),
                Err(error) => error == OcspError::RequestNotGenerated && encoded_ocsp_request(
                    peer_certificate@,
                    issuer_certificate@,
                ) is None,
            },
    {
        match encode_ocsp_request(peer_certificate, issuer_certificate) {
            Some(der) => Ok(OCSPRequest { inner_request: der }),
            None => Err(OcspError::RequestNotGenerated),
        }
    }

    /// The DER bytes of the request.
    pub fn public_bytes(&self) -> (bytes: Vec<u8>)
        ensures
            bytes@ == self@,
    {
        slice_to_vec(self.inner_request.as_slice())
    }
}

/// Of a well-formed response that holds one per-certificate response with
/// the status good, the record says good, and gives no reason. A payload
/// without per-certificate responses gives no record.
pub proof fn lemma_good_response_has_no_reason(
    status_code: u8,
    responses: Seq<DecodedSingleResponse>,
)
    ensures
        responses.len() == 0 ==> spec_interpret(status_code, responses) is Err,
        OCSPResponseStatus::spec_from_code(status_code) is Some && responses.len() > 0
            && responses[0].certificate_status == OCSPCertStatus::GOOD ==> {
            &&& spec_interpret(status_code, responses) matches Ok(record)
            &&& record.certificate_status == OCSPCertStatus::GOOD
            &&& record.revocation_reason is None
        },
        spec_interpret(status_code, responses) matches Ok(record) ==> record.is_valid(),
{
}

} // verus!
