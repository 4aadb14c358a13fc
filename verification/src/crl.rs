//! The revocation list of an issuer: which serial numbers it revoked,
//! why and when, and until when the list is fresh.

use vstd::prelude::*;
use vstd::string::*;
use x509_parser::prelude::FromDer;
use x509_parser::time::ASN1Time;
use crate::reason::ReasonFlags;
use crate::wire::{
    i64_bytes, lemma_i64_round_trip, lemma_text_round_trip, lemma_u64_round_trip, parse_i64,
    parse_text, parse_u64, parse_u8, put_i64, put_text, put_u64, take_i64, take_text, take_u64,
    take_u8, text_bytes, text_fits, u64_bytes,
};

verus! {

/// Why a revocation list could not be read.
#[derive(Clone, Copy, Debug, PartialEq, Eq, Structural)]
pub enum CryptoError {
    /// The bytes are not a certificate revocation list.
    UnableToParseCrl,
    /// The bytes are not the persisted form of a revocation list.
    InvalidEncoding,
}

impl CryptoError {
    /// The text that reports the error.
    pub open spec fn spec_message(self) -> Seq<char> {
        match self {
            CryptoError::UnableToParseCrl => "unable to parse crl"@,
            CryptoError::InvalidEncoding => "unable to restore crl"@,
        }
    }

    pub fn message(self) -> (message: &'static str)
        ensures
            message@ == self.spec_message(),
    {
        match self {
            CryptoError::UnableToParseCrl => "unable to parse crl",
            CryptoError::InvalidEncoding => "unable to restore crl",
        }
    }
}

/// One entry of a revocation list, as decoded: the serial number in its
/// canonical text form, the code of the reason where one is given, and
/// the time of the revocation in seconds since the epoch.
pub struct DecodedRevocation {
    pub serial: String,
    pub reason_code: Option<u8>,
    pub revoked_at: i64,
}

/// The mathematical value of a `DecodedRevocation`.
pub struct DecodedRevocationView {
    pub serial: Seq<char>,
    pub reason_code: Option<u8>,
    pub revoked_at: i64,
}

impl View for DecodedRevocation {
    type V = DecodedRevocationView;

    open spec fn view(&self) -> DecodedRevocationView {
        DecodedRevocationView {
            serial: self.serial@,
            reason_code: self.reason_code,
            revoked_at: self.revoked_at,
        }
    }
}

/// A revocation list, as decoded: its entries in the order of the list,
/// the name of the issuer, and the times of this update and, where the
/// list gives one, of the next, in seconds since the epoch.
pub struct DecodedCrl {
    pub revoked: Vec<DecodedRevocation>,
    pub issuer: String,
    pub last_update: i64,
    pub next_update: Option<i64>,
}

/// The mathematical value of a `DecodedCrl`.
pub struct DecodedCrlView {
    pub revoked: Seq<DecodedRevocationView>,
    pub issuer: Seq<char>,
    pub last_update: i64,
    pub next_update: Option<i64>,
}

impl View for DecodedCrl {
    type V = DecodedCrlView;

    open spec fn view(&self) -> DecodedCrlView {
        DecodedCrlView {
            revoked: Seq::new(self.revoked@.len(), |i: int| self.revoked@[i]@),
            issuer: self.issuer@,
            last_update: self.last_update,
            next_update: self.next_update,
        }
    }
}

/// What the DER decoder makes of the bytes of a revocation list. The
/// decoder is not part of this library; this is the name of its result.
pub uninterp spec fn decoded_crl(der: Seq<u8>) -> Option<DecodedCrlView>;

/// The furthest that the clock's timestamp can be from the epoch, in
/// seconds.
pub const CLOCK_RANGE: i64 = 0x4000_0000_0000;

/// How long a list without a time of next update is taken to be fresh, in
/// seconds: one hour.
pub const DEFAULT_FRESHNESS: i64 = 3600;

/// Calls `CertificateRevocationList::from_der` of x509-parser and copies
/// out, for each revoked certificate in the order of the list, the serial
/// (`raw_serial_as_string`), the number of the reason code where the entry
/// has one, and the revocation date as a timestamp; then the issuer's name
/// as it is displayed and the timestamps of the last and the next update.
/// Trusted: the result is the one that `decoded_crl` names, and it is
/// `None` exactly where the decoder reports an error.
#[verifier::external_body]
fn decode_crl(der: &[u8]) -> (res: Option<DecodedCrl>)
    ensures
        res matches Some(list) ==> decoded_crl(der@) == Some(list@),
        res is None ==> decoded_crl(der@) is None,
{
    match x509_parser::revocation_list::CertificateRevocationList::from_der(der) {
        Ok((_, list)) => Some(DecodedCrl {
            revoked: list.iter_revoked_certificates().map(|entry| DecodedRevocation {
                serial: entry.raw_serial_as_string(),
                reason_code: entry.reason_code().map(|(_, code)| code.0),
                revoked_at: entry.revocation_date.timestamp(),
            }).collect(),
            issuer: list.issuer().to_string(),
            last_update: list.last_update().timestamp(),
            next_update: list.next_update().map(|time| time.timestamp()),
        }),
        Err(_) => None,
    }
}

/// Calls `ASN1Time::now` of x509-parser and takes its timestamp. Trusted:
/// no more than that the timestamp is within `CLOCK_RANGE` of the epoch;
/// the calendar of the `time` crate ends long before that. Two calls may
/// give two results.
#[verifier::external_body]
fn current_timestamp() -> (now: i64)
    ensures
        -CLOCK_RANGE <= now <= CLOCK_RANGE,
{
    ASN1Time::now().timestamp()
}

/// One revoked certificate of a revocation list.
pub struct RevokedCertificate {
    serial_number: String,
    reason: ReasonFlags,
    expired_at: i64,
}

/// The mathematical value of a `RevokedCertificate`.
pub struct RevokedCertificateView {
    pub serial_number: Seq<char>,
    pub reason: ReasonFlags,
    pub expired_at: i64,
}

impl View for RevokedCertificate {
    type V = RevokedCertificateView;

    closed spec fn view(&self) -> RevokedCertificateView {
        RevokedCertificateView {
            serial_number: self.serial_number@,
            reason: self.reason,
            expired_at: self.expired_at,
        }
    }
}

impl Clone for RevokedCertificate {
    fn clone(&self) -> (copy: Self)
        ensures
            copy@ == self@,
    {
        RevokedCertificate {
            serial_number: self.serial_number.clone(),
            reason: self.reason,
            expired_at: self.expired_at,
        }
    }
}

/// The entry that a decoded entry is stored as. Where the entry gives no
/// reason, or one whose code stands for none, the reason is `unspecified`.
pub open spec fn spec_revoked(entry: DecodedRevocationView) -> RevokedCertificateView {
    RevokedCertificateView {
        serial_number: entry.serial,
        reason: ReasonFlags::spec_from_code_or_unspecified(entry.reason_code),
        expired_at: entry.revoked_at,
    }
}

/// The text that describes an entry.
pub open spec fn spec_repr(entry: RevokedCertificateView) -> Seq<char> {
    "<RevokedCertificate S/N \""@ + entry.serial_number + "\" reason="@
        + entry.reason.spec_name() + ">"@
}

impl RevokedCertificate {
    /// Stores a decoded entry.
    pub fn from_decoded(entry: &DecodedRevocation) -> (revoked: RevokedCertificate)
        ensures
            revoked@ == spec_revoked(entry@),
    {
        RevokedCertificate {
            serial_number: entry.serial.clone(),
            reason: ReasonFlags::from_code_or_unspecified(entry.reason_code),
            expired_at: entry.revoked_at,
        }
    }

    pub fn serial_number(&self) -> (serial: &String)
        ensures
            serial@ == self@.serial_number,
    {
        &self.serial_number
    }

    pub fn reason(&self) -> (reason: ReasonFlags)
        ensures
            reason == self@.reason,
    {
        self.reason
    }

    pub fn expired_at(&self) -> (seconds: i64)
        ensures
            seconds == self@.expired_at,
    {
        self.expired_at
    }

    /// A description of the entry for diagnostics.
    pub fn __repr__(&self) -> (text: String)
        ensures
            text@ == spec_repr(self@),
    {
        let mut text = String::from_str("<RevokedCertificate S/N \"");
        text.append(self.serial_number.as_str());
        text.append("\" reason=");
        text.append(self.reason.name().as_str());
        text.append(">");
        text
    }
}

/// A revocation list, as it is kept: the entries in the order of the
/// source, and the freshness bounds.
pub struct CertificateRevocationList {
    container: Vec<RevokedCertificate>,
    issuer: String,
    last_updated_at: i64,
    next_update_at: i64,
}

/// The mathematical value of a `CertificateRevocationList`.
pub struct CertificateRevocationListView {
    pub entries: Seq<RevokedCertificateView>,
    pub issuer: Seq<char>,
    pub last_updated_at: i64,
    pub next_update_at: i64,
}

impl View for CertificateRevocationList {
    type V = CertificateRevocationListView;

    closed spec fn view(&self) -> CertificateRevocationListView {
        CertificateRevocationListView {
            entries: Seq::new(self.container@.len(), |i: int| self.container@[i]@),
            issuer: self.issuer@,
            last_updated_at: self.last_updated_at,
            next_update_at: self.next_update_at,
        }
    }
}

impl Clone for CertificateRevocationList {
    fn clone(&self) -> (copy: Self)
        ensures
            copy@ == self@,
    {
        let mut container: Vec<RevokedCertificate> = Vec::new();
        let mut i: usize = 0;
        while i < self.container.len()
            invariant
                i <= self.container.len(),
                container.len() == i,
                forall|k: int| 0 <= k < i ==> (#[trigger] container[k])@ == self.container[k]@,
            decreases self.container.len() - i,
        {
            container.push(self.container[i].clone());
            i += 1;
        }
        let copy = CertificateRevocationList {
            container,
            issuer: self.issuer.clone(),
            last_updated_at: self.last_updated_at,
            next_update_at: self.next_update_at,
        };
        assert(copy@.entries =~= self@.entries);
        copy
    }
}

/// The list that is kept for a decoded list, at the time `now`. A list
/// that gives no time of next update is taken to be fresh for one hour
/// from `now`.
pub open spec fn spec_store(list: DecodedCrlView, now: i64) -> CertificateRevocationListView {
    CertificateRevocationListView {
        entries: Seq::new(list.revoked.len(), |i: int| spec_revoked(list.revoked[i])),
        issuer: list.issuer,
        last_updated_at: list.last_update,
        next_update_at: match list.next_update {
            Some(seconds) => seconds,
            None => (now + DEFAULT_FRESHNESS) as i64,
        },
    }
}

/// Whether `entries[i]` is the first entry with the serial number `serial`.
pub open spec fn is_first_match(entries: Seq<RevokedCertificateView>, serial: Seq<char>, i: int) -> bool {
    &&& 0 <= i < entries.len()
    &&& entries[i].serial_number == serial
    &&& forall|j: int| 0 <= j < i ==> (#[trigger] entries[j]).serial_number != serial
}

/// Whether some entry has the serial number `serial`.
pub open spec fn lists_serial(entries: Seq<RevokedCertificateView>, serial: Seq<char>) -> bool {
    exists|i: int| 0 <= i < entries.len() && (#[trigger] entries[i]).serial_number == serial
}

/// The persisted form of an entry: the serial number, the code of the
/// reason, and the time of the revocation.
pub open spec fn entry_bytes(entry: RevokedCertificateView) -> Seq<u8> {
    text_bytes(entry.serial_number) + seq![entry.reason.spec_code()] + i64_bytes(entry.expired_at)
}

/// The persisted forms of the entries, one after the other.
pub open spec fn entries_bytes(entries: Seq<RevokedCertificateView>) -> Seq<u8>
    decreases entries.len(),
{
    if entries.len() == 0 {
        Seq::empty()
    } else {
        entry_bytes(entries[0]) + entries_bytes(entries.drop_first())
    }
}

/// The persisted form of a list: the number of entries, the entries in
/// their order, the issuer, and the times of the last and the next update.
pub open spec fn spec_serialize(list: CertificateRevocationListView) -> Seq<u8> {
    u64_bytes(list.entries.len() as u64) + entries_bytes(list.entries) + text_bytes(list.issuer)
        + i64_bytes(list.last_updated_at) + i64_bytes(list.next_update_at)
}

/// Whether the lengths that the persisted form of a list holds can be
/// written down. It is so for every list that fits in memory.
pub open spec fn list_fits(list: CertificateRevocationListView) -> bool {
    &&& list.entries.len() <= u64::MAX
    &&& text_fits(list.issuer)
    &&& forall|i: int| 0 <= i < list.entries.len() ==> text_fits(
        (#[trigger] list.entries[i]).serial_number,
    )
}

/// The list that has `encoded` as its persisted form, if a list has.
pub open spec fn spec_deserialize(encoded: Seq<u8>) -> Option<CertificateRevocationListView> {
    if exists|list: CertificateRevocationListView| list_fits(list) && spec_serialize(list) == encoded {
        Some(
            choose|list: CertificateRevocationListView|
                list_fits(list) && spec_serialize(list) == encoded,
        )
    } else {
        None
    }
}

/// Reads an entry off the front of `bytes`.
pub open spec fn parse_entry(bytes: Seq<u8>) -> Option<(RevokedCertificateView, Seq<u8>)> {
    match parse_text(bytes) {
        None => None,
        Some((serial_number, after_serial)) => match parse_u8(after_serial) {
            None => None,
            Some((code, after_code)) => match (
                ReasonFlags::spec_from_code(code),
                parse_i64(after_code),
            ) {
                (Some(reason), Some((expired_at, rest))) => Some(
                    (RevokedCertificateView { serial_number, reason, expired_at }, rest),
                ),
                _ => None,
            },
        },
    }
}

/// Reads `count` entries off the front of `bytes`.
pub open spec fn parse_entries(bytes: Seq<u8>, count: nat) -> Option<
    (Seq<RevokedCertificateView>, Seq<u8>),
>
    decreases count,
{
    if count == 0 {
        Some((Seq::empty(), bytes))
    } else {
        match parse_entry(bytes) {
            None => None,
            Some((entry, after_entry)) => match parse_entries(after_entry, (count - 1) as nat) {
                None => None,
                Some((entries, rest)) => Some((seq![entry] + entries, rest)),
            },
        }
    }
}

/// What follows the entries of a persisted list: the issuer and the two
/// times, and nothing after them.
pub open spec fn parse_trailer(bytes: Seq<u8>) -> Option<(Seq<char>, i64, i64)> {
    match parse_text(bytes) {
        None => None,
        Some((issuer, after_issuer)) => match parse_i64(after_issuer) {
            None => None,
            Some((last_updated_at, after_last)) => match parse_i64(after_last) {
                None => None,
                Some((next_update_at, rest)) => if rest.len() == 0 {
                    Some((issuer, last_updated_at, next_update_at))
                } else {
                    None
                },
            },
        },
    }
}

/// Reads a persisted list, field by field. Bytes that are left over, a
/// text that is not UTF-8 and a code that stands for no reason make the
/// bytes invalid.
pub open spec fn parse_list(encoded: Seq<u8>) -> Option<CertificateRevocationListView> {
    match parse_u64(encoded) {
        None => None,
        Some((count, after_count)) => match parse_entries(after_count, count as nat) {
            None => None,
            Some((entries, after_entries)) => match parse_trailer(after_entries) {
                None => None,
                Some((issuer, last_updated_at, next_update_at)) => Some(
                    CertificateRevocationListView {
                        entries,
                        issuer,
                        last_updated_at,
                        next_update_at,
                    },
                ),
            },
        },
    }
}

/// An entry is read back from its persisted form, whatever follows it;
/// and what is read as an entry was written as one.
pub proof fn lemma_entry_round_trip(entry: RevokedCertificateView, bytes: Seq<u8>, rest: Seq<u8>)
    ensures
        text_fits(entry.serial_number) ==> parse_entry(entry_bytes(entry) + rest) == Some(
            (entry, rest),
        ),
        parse_entry(bytes) == Some((entry, rest)) ==> bytes == entry_bytes(entry) + rest
            && text_fits(entry.serial_number),
{
    let code = entry.reason.spec_code();
    if text_fits(entry.serial_number) {
        let after_code = i64_bytes(entry.expired_at) + rest;
        let after_serial = seq![code] + after_code;
        let written = entry_bytes(entry) + rest;
        assert(written =~= text_bytes(entry.serial_number) + after_serial);
        lemma_text_round_trip(entry.serial_number, written, after_serial);
        assert(after_serial.skip(1) =~= after_code);
        ReasonFlags::lemma_code_round_trip(entry.reason, code);
        lemma_i64_round_trip(entry.expired_at, after_code, rest);
    }
    if parse_entry(bytes) == Some((entry, rest)) {
        let (serial_number, after_serial) = parse_text(bytes)->0;
        lemma_text_round_trip(serial_number, bytes, after_serial);
        let (read_code, after_code) = parse_u8(after_serial)->0;
        assert(after_serial =~= seq![read_code] + after_code);
        ReasonFlags::lemma_code_round_trip(entry.reason, read_code);
        lemma_i64_round_trip(entry.expired_at, after_code, rest);
        assert(bytes =~= entry_bytes(entry) + rest);
    }
}

/// The persisted form of a sequence of entries that is longer by one
/// entry is longer by the persisted form of that entry.
pub proof fn lemma_entries_bytes_push(
    entries: Seq<RevokedCertificateView>,
    entry: RevokedCertificateView,
)
    ensures
        entries_bytes(entries.push(entry)) == entries_bytes(entries) + entry_bytes(entry),
    decreases entries.len(),
{
    let longer = entries.push(entry);
    if entries.len() == 0 {
        assert(longer.drop_first() =~= Seq::<RevokedCertificateView>::empty());
        assert(entries_bytes(longer.drop_first()) =~= Seq::<u8>::empty());
        assert(longer[0] == entry);
        assert(entries_bytes(longer) =~= entry_bytes(entry));
        assert(entries_bytes(entries) + entry_bytes(entry) =~= entry_bytes(entry));
    } else {
        assert(longer.drop_first() =~= entries.drop_first().push(entry));
        lemma_entries_bytes_push(entries.drop_first(), entry);
        assert(entries_bytes(longer) =~= entries_bytes(entries) + entry_bytes(entry));
    }
}

/// Entries are read back from their persisted form, whatever follows
/// them.
pub proof fn lemma_parse_inverts_entries(entries: Seq<RevokedCertificateView>, rest: Seq<u8>)
    requires
        forall|i: int| 0 <= i < entries.len() ==> text_fits((#[trigger] entries[i]).serial_number),
    ensures
        parse_entries(entries_bytes(entries) + rest, entries.len()) == Some((entries, rest)),
    decreases entries.len(),
{
    if entries.len() == 0 {
        assert(entries_bytes(entries) + rest =~= rest);
        assert(entries =~= Seq::<RevokedCertificateView>::empty());
    } else {
        let first = entries[0];
        let others = entries.drop_first();
        let after_first = entries_bytes(others) + rest;
        assert(entries_bytes(entries) + rest =~= entry_bytes(first) + after_first);
        lemma_entry_round_trip(first, Seq::empty(), after_first);
        assert forall|i: int| 0 <= i < others.len() implies text_fits(
            (#[trigger] others[i]).serial_number,
        ) by {
            assert(others[i] == entries[i + 1]);
        }
        lemma_parse_inverts_entries(others, rest);
        assert(seq![first] + others =~= entries);
    }
}

/// What is read as a number of entries was written as these entries.
pub proof fn lemma_entries_invert_parse(
    bytes: Seq<u8>,
    count: nat,
    entries: Seq<RevokedCertificateView>,
    rest: Seq<u8>,
)
    requires
        parse_entries(bytes, count) == Some((entries, rest)),
    ensures
        entries.len() == count,
        bytes == entries_bytes(entries) + rest,
        forall|i: int| 0 <= i < entries.len() ==> text_fits((#[trigger] entries[i]).serial_number),
    decreases count,
{
    if count == 0 {
        assert(entries_bytes(entries) + rest =~= rest);
    } else {
        let (first, after_first) = parse_entry(bytes)->0;
        let (others, end) = parse_entries(after_first, (count - 1) as nat)->0;
        lemma_entry_round_trip(first, bytes, after_first);
        lemma_entries_invert_parse(after_first, (count - 1) as nat, others, end);
        assert(entries.drop_first() =~= others);
        assert(bytes =~= entries_bytes(entries) + rest);
        assert forall|i: int| 0 <= i < entries.len() implies text_fits(
            (#[trigger] entries[i]).serial_number,
        ) by {
            if i > 0 {
                assert(entries[i] == others[i - 1]);
            }
        }
    }
}

/// Reading the persisted form of a list gives the list back.
pub proof fn lemma_parse_inverts_serialize(list: CertificateRevocationListView)
    requires
        list_fits(list),
    ensures
        parse_list(spec_serialize(list)) == Some(list),
{
    let after_last = i64_bytes(list.next_update_at);
    let after_issuer = i64_bytes(list.last_updated_at) + after_last;
    let after_entries = text_bytes(list.issuer) + after_issuer;
    let after_count = entries_bytes(list.entries) + after_entries;
    let encoded = spec_serialize(list);
    assert(encoded =~= u64_bytes(list.entries.len() as u64) + after_count);
    lemma_u64_round_trip(list.entries.len() as u64, encoded, after_count);
    lemma_parse_inverts_entries(list.entries, after_entries);
    lemma_text_round_trip(list.issuer, Seq::empty(), after_issuer);
    lemma_i64_round_trip(list.last_updated_at, Seq::empty(), after_last);
    assert(after_last =~= i64_bytes(list.next_update_at) + Seq::<u8>::empty());
    lemma_i64_round_trip(list.next_update_at, Seq::empty(), Seq::empty());
}

/// What is read as a list was written as that list.
pub proof fn lemma_serialize_inverts_parse(encoded: Seq<u8>, list: CertificateRevocationListView)
    requires
        parse_list(encoded) == Some(list),
    ensures
        list_fits(list),
        spec_serialize(list) == encoded,
{
    let (count, after_count) = parse_u64(encoded)->0;
    lemma_u64_round_trip(count, encoded, after_count);
    let (entries, after_entries) = parse_entries(after_count, count as nat)->0;
    lemma_entries_invert_parse(after_count, count as nat, entries, after_entries);
    let (issuer, after_issuer) = parse_text(after_entries)->0;
    lemma_text_round_trip(issuer, after_entries, after_issuer);
    let (last_updated_at, after_last) = parse_i64(after_issuer)->0;
    lemma_i64_round_trip(last_updated_at, after_issuer, after_last);
    let (next_update_at, rest) = parse_i64(after_last)->0;
    lemma_i64_round_trip(next_update_at, after_last, rest);
    assert(after_last =~= i64_bytes(next_update_at));
    assert(encoded =~= spec_serialize(list));
}

/// Reading field by field finds the list that has the bytes as its
/// persisted form, and finds none where no list has.
pub proof fn lemma_parse_is_deserialize(encoded: Seq<u8>)
    ensures
        parse_list(encoded) == spec_deserialize(encoded),
{
    if exists|list: CertificateRevocationListView| list_fits(list) && spec_serialize(list) == encoded {
        let list = choose|list: CertificateRevocationListView|
            list_fits(list) && spec_serialize(list) == encoded;
        lemma_parse_inverts_serialize(list);
    } else {
        if parse_list(encoded) is Some {
            lemma_serialize_inverts_parse(encoded, parse_list(encoded)->0);
        }
    }
}

/// A list that is persisted and restored is the same list: the same
/// entries in the same order, the same issuer, the same times. No two
/// lists have the same persisted form.
pub proof fn lemma_serialize_round_trip(
    list: CertificateRevocationListView,
    other: CertificateRevocationListView,
)
    requires
        list_fits(list),
    ensures
        spec_deserialize(spec_serialize(list)) == Some(list),
        list_fits(other) && spec_serialize(other) == spec_serialize(list) ==> other == list,
{
    lemma_parse_inverts_serialize(list);
    lemma_parse_is_deserialize(spec_serialize(list));
    if list_fits(other) {
        lemma_parse_inverts_serialize(other);
    }
}

/// The values of a sequence of entries, in its order.
pub open spec fn entry_views(entries: Seq<RevokedCertificate>) -> Seq<RevokedCertificateView> {
    Seq::new(entries.len(), |i: int| entries[i]@)
}

/// Reads the entry that starts at the position `at`.
fn take_entry(input: &[u8], at: usize) -> (res: Option<(RevokedCertificate, usize)>)
    requires
        at <= input.len(),
    ensures
        match res {
            Some((entry, next)) => at <= next <= input.len() && parse_entry(
                input@.skip(at as int),
            ) == Some((entry@, input@.skip(next as int))),
            None => parse_entry(input@.skip(at as int)) is None,
        },
{
    let (serial_number, after_serial) = match take_text(input, at) {
        Some(read) => read,
        None => {
            return None;
        },
    };
    let (code, after_code) = match take_u8(input, after_serial) {
        Some(read) => read,
        None => {
            return None;
        },
    };
    let reason = match ReasonFlags::from_code(code) {
        Some(reason) => reason,
        None => {
            return None;
        },
    };
    let (expired_at, next) = match take_i64(input, after_code) {
        Some(read) => read,
        None => {
            return None;
        },
    };
    Some((RevokedCertificate { serial_number, reason, expired_at }, next))
}

impl CertificateRevocationList {
    /// Stores a decoded list, at the time `now`.
    pub fn from_decoded(list: &DecodedCrl, now: i64) -> (stored: CertificateRevocationList)
        requires
            now + DEFAULT_FRESHNESS <= i64::MAX,
        ensures
            stored@ == spec_store(list@, now),
    {
        let mut container: Vec<RevokedCertificate> = Vec::new();
        let mut i: usize = 0;
        while i < list.revoked.len()
            invariant
                i <= list.revoked.len(),
                container.len() == i,
                forall|k: int|
                    0 <= k < i ==> (#[trigger] container[k])@ == spec_revoked(list@.revoked[k]),
            decreases list.revoked.len() - i,
        {
            container.push(RevokedCertificate::from_decoded(&list.revoked[i]));
            i += 1;
        }
        let next_update_at = match list.next_update {
            Some(seconds) => seconds,
            None => now + DEFAULT_FRESHNESS,
        };
        let stored = CertificateRevocationList {
            container,
            issuer: list.issuer.clone(),
            last_updated_at: list.last_update,
            next_update_at,
        };
        assert(stored@.entries =~= spec_store(list@, now).entries);
        stored
    }

    /// Reads a revocation list from its DER bytes. The clock is asked for
    /// the time: it is what a list without a time of next update is fresh
    /// from.
    pub fn py_new(crl: &[u8]) -> (res: Result<CertificateRevocationList, CryptoError>)
        ensures
            match res {
                Ok(stored) => decoded_crl(crl@) matches Some(list) && exists|now: i64|
                    -CLOCK_RANGE <= now <= CLOCK_RANGE && stored@ == #[trigger] spec_store(
                        list,
                        now,
                    ),
                Err(error) => error == CryptoError::UnableToParseCrl && decoded_crl(crl@) is None,
            },
    {
        match decode_crl(crl) {
            Some(list) => {
                let now = current_timestamp();
                Ok(Self::from_decoded(&list, now))
            },
            None => Err(CryptoError::UnableToParseCrl),
        }
    }

    /// Looks a serial number up. The first entry with exactly this serial
    /// number is returned; there is none for any other text.
    pub fn is_revoked(&self, serial_number: String) -> (found: Option<RevokedCertificate>)
        ensures
            found is Some <==> lists_serial(self@.entries, serial_number@),
            found matches Some(entry) ==> exists|i: int|
                is_first_match(self@.entries, serial_number@, i) && entry@
                    == #[trigger] self@.entries[i],
    {
        let mut i: usize = 0;
        while i < self.container.len()
            invariant
                i <= self.container.len(),
                forall|j: int|
                    0 <= j < i ==> (#[trigger] self@.entries[j]).serial_number != serial_number@,
            decreases self.container.len() - i,
        {
            let revoked = &self.container[i];
            assert(self@.entries[i as int] == revoked@);
            if revoked.serial_number == serial_number {
                assert(is_first_match(self@.entries, serial_number@, i as int));
                return Some(revoked.clone());
            }
            i += 1;
        }
        None
    }

    /// The persisted form of the list.
    pub fn serialize(&self) -> (encoded: Vec<u8>)
        ensures
            encoded@ == spec_serialize(self@),
            list_fits(self@),
    {
        let ghost entries = self@.entries;
        let count = self.container.len();
        let mut out: Vec<u8> = Vec::new();
        put_u64(&mut out, count as u64);
        assert(entries_bytes(entries.take(0)) =~= Seq::<u8>::empty());
        assert(out@ =~= u64_bytes(count as u64) + entries_bytes(entries.take(0)));
        let mut i: usize = 0;
        while i < count
            invariant
                i <= count,
                count == self.container.len(),
                entries == self@.entries,
                out@ == u64_bytes(count as u64) + entries_bytes(entries.take(i as int)),
                forall|k: int| 0 <= k < i ==> text_fits((#[trigger] entries[k]).serial_number),
            decreases count - i,
        {
            let entry = &self.container[i];
            let ghost before = out@;
            put_text(&mut out, entry.serial_number.as_str());
            out.push(entry.reason.code());
            put_i64(&mut out, entry.expired_at);
            proof {
                assert(entries[i as int] == entry@);
                assert(out@ =~= before + entry_bytes(entry@));
                lemma_entries_bytes_push(entries.take(i as int), entry@);
                assert(entries.take(i + 1) =~= entries.take(i as int).push(entry@));
                assert(out@ =~= u64_bytes(count as u64) + entries_bytes(entries.take(i + 1)));
            }
            i += 1;
        }
        assert(entries.take(count as int) =~= entries);
        put_text(&mut out, self.issuer.as_str());
        put_i64(&mut out, self.last_updated_at);
        put_i64(&mut out, self.next_update_at);
        assert(out@ =~= spec_serialize(self@));
        out
    }

    /// Restores a list from its persisted form. Bytes that are not the
    /// persisted form of a list are refused.
    pub fn deserialize(encoded: &[u8]) -> (res: Result<CertificateRevocationList, CryptoError>)
        ensures
            match res {
                Ok(list) => spec_deserialize(encoded@) == Some(list@),
                Err(error) => error == CryptoError::InvalidEncoding && spec_deserialize(encoded@)
                    is None,
            },
    {
        proof {
            lemma_parse_is_deserialize(encoded@);
            assert(encoded@.skip(0) =~= encoded@);
        }
        let (count, start) = match take_u64(encoded, 0) {
            Some(read) => read,
            None => {
                return Err(CryptoError::InvalidEncoding);
            },
        };
        let ghost after_count = encoded@.skip(start as int);
        let mut container: Vec<RevokedCertificate> = Vec::new();
        let mut at: usize = start;
        let mut read: u64 = 0;
        assert(entry_views(container@) =~= Seq::<RevokedCertificateView>::empty());
        assert(parse_entries(after_count, count as nat) == match parse_entries(
            encoded@.skip(at as int),
            (count - read) as nat,
        ) {
            Some((entries, rest)) => Some((entry_views(container@) + entries, rest)),
            None => None,
        }) by {
            let parsed = parse_entries(after_count, count as nat);
            if parsed is Some {
                let (entries, rest) = parsed->0;
                assert(entry_views(container@) + entries =~= entries);
            }
        }
        while read < count
            invariant
                at <= encoded.len(),
                read <= count,
                container.len() == read,
                parse_list(encoded@) == spec_deserialize(encoded@),
                parse_u64(encoded@) == Some((count, after_count)),
                parse_entries(after_count, count as nat) == match parse_entries(
                    encoded@.skip(at as int),
                    (count - read) as nat,
                ) {
                    Some((entries, rest)) => Some((entry_views(container@) + entries, rest)),
                    None => None,
                },
            decreases count - read,
        {
            let ghost done = entry_views(container@);
            let ghost remaining = (count - read) as nat;
            match take_entry(encoded, at) {
                None => {
                    return Err(CryptoError::InvalidEncoding);
                },
                Some((entry, next)) => {
                    proof {
                        let later = parse_entries(
                            encoded@.skip(next as int),
                            (remaining - 1) as nat,
                        );
                        assert(done.push(entry@) =~= entry_views(container@.push(entry)));
                        if later is Some {
                            let (entries, rest) = later->0;
                            assert(done + (seq![entry@] + entries) =~= done.push(entry@)
                                + entries);
                        }
                    }
                    container.push(entry);
                    at = next;
                    read += 1;
                },
            }
        }
        let (issuer, after_issuer) = match take_text(encoded, at) {
            Some(read) => read,
            None => {
                return Err(CryptoError::InvalidEncoding);
            },
        };
        let (last_updated_at, after_last) = match take_i64(encoded, after_issuer) {
            Some(read) => read,
            None => {
                return Err(CryptoError::InvalidEncoding);
            },
        };
        let (next_update_at, end) = match take_i64(encoded, after_last) {
            Some(read) => read,
            None => {
                return Err(CryptoError::InvalidEncoding);
            },
        };
        if end != encoded.len() {
            return Err(CryptoError::InvalidEncoding);
        }
        proof {
            assert(entry_views(container@) + Seq::<RevokedCertificateView>::empty()
                =~= entry_views(container@));
        }
        let list = CertificateRevocationList { container, issuer, last_updated_at, next_update_at };
        assert(list@.entries =~= entry_views(list.container@));
        Ok(list)
    }

    pub fn next_update_at(&self) -> (seconds: i64)
        ensures
            seconds == self@.next_update_at,
    {
        self.next_update_at
    }

    pub fn last_updated_at(&self) -> (seconds: i64)
        ensures
            seconds == self@.last_updated_at,
    {
        self.last_updated_at
    }

    pub fn issuer(&self) -> (issuer: String)
        ensures
            issuer@ == self@.issuer,
    {
        self.issuer.clone()
    }

    /// The number of entries.
    pub fn __len__(&self) -> (count: usize)
        ensures
            count == self@.entries.len(),
    {
        self.container.len()
    }
}

} // verus!
