use pki_trust::crl::{
    CertificateRevocationList, CryptoError, DecodedCrl, DecodedRevocation, RevokedCertificate,
};
use pki_trust::reason::ReasonFlags;

const CRL: &str = "308201153081bc020101300a06082a8648ce3d040302301e311c301a06035504030c135465737420496e7465726d6564 \
     696174652041170d3236313032383031343731395a170d3236313132373031343731395a305c302002010a170d323430 \
     3230333034303530365a300c300a0603551d1504030a01043014020300ff00170d3234303330343035303630375a3022 \
     0203010203170d3234303130323033303430355a300c300a0603551d1504030a0101a00f300d300b0603551d14040402 \
     021000300a06082a8648ce3d0403020348003045022012e5d6e92e40e57a56ad4dceca8619a17a1e4391a1bb4ceb435b \
     151791e5d165022100cd716f49652c303c9300b506b6dbce933d6833f157969a8520d51ff2961feb10";
const CRL_WITHOUT_NEXT_UPDATE: &str = "308201063081ad020101300a06082a8648ce3d040302301e311c301a06035504030c135465737420496e7465726d6564 \
     696174652041170d3236313032383031343731395a305c302002010a170d3234303230333034303530365a300c300a06 \
     03551d1504030a01043014020300ff00170d3234303330343035303630375a30220203010203170d3234303130323033 \
     303430355a300c300a0603551d1504030a0101a00f300d300b0603551d14040402021000300a06082a8648ce3d040302 \
     0348003045022012e5d6e92e40e57a56ad4dceca8619a17a1e4391a1bb4ceb435b151791e5d165022100cd716f49652c \
     303c9300b506b6dbce933d6833f157969a8520d51ff2961feb10";
const CRL_WITHOUT_ENTRIES: &str = "3081b6305e020101300a06082a8648ce3d040302301e311c301a06035504030c135465737420496e7465726d65646961 \
     74652041170d3236313032383031343731395a170d3236313132373031343731395aa00f300d300b0603551d14040402 \
     021000300a06082a8648ce3d0403020348003045022012e5d6e92e40e57a56ad4dceca8619a17a1e4391a1bb4ceb435b \
     151791e5d165022100cd716f49652c303c9300b506b6dbce933d6833f157969a8520d51ff2961feb10";

fn hex(text: &str) -> Vec<u8> {
    let digits: Vec<u32> = text.chars().filter_map(|c| c.to_digit(16)).collect();
    digits.chunks(2).map(|pair| (pair[0] * 16 + pair[1]) as u8).collect()
}

fn entry(serial: &str, reason_code: Option<u8>, revoked_at: i64) -> DecodedRevocation {
    DecodedRevocation { serial: serial.to_string(), reason_code, revoked_at }
}

fn one_entry_list() -> CertificateRevocationList {
    let decoded = DecodedCrl {
        revoked: vec![entry("01:02:03", Some(1), 1704164645)],
        issuer: "CN=Issuer".to_string(),
        last_update: 1700000000,
        next_update: Some(1800000000),
    };
    CertificateRevocationList::from_decoded(&decoded, 0)
}

fn failure(result: Result<CertificateRevocationList, CryptoError>) -> CryptoError {
    match result {
        Ok(_) => panic!("a list was accepted"),
        Err(error) => error,
    }
}

fn same_list(a: &CertificateRevocationList, b: &CertificateRevocationList, serials: &[&str]) {
    assert_eq!(a.__len__(), b.__len__());
    assert_eq!(a.issuer(), b.issuer());
    assert_eq!(a.last_updated_at(), b.last_updated_at());
    assert_eq!(a.next_update_at(), b.next_update_at());
    for serial in serials {
        let x = a.is_revoked(serial.to_string());
        let y = b.is_revoked(serial.to_string());
        assert_eq!(x.is_some(), y.is_some());
        if let (Some(x), Some(y)) = (x, y) {
            assert_eq!(x.serial_number(), y.serial_number());
            assert_eq!(x.reason(), y.reason());
            assert_eq!(x.expired_at(), y.expired_at());
        }
    }
}

#[test]
fn listed_serial_is_found_and_others_are_not() {
    let list = one_entry_list();
    let found = list.is_revoked("01:02:03".to_string()).expect("the serial is listed");
    assert_eq!(found.serial_number(), "01:02:03");
    assert_eq!(found.reason(), ReasonFlags::key_compromise);
    assert_eq!(found.expired_at(), 1704164645);
    assert!(list.is_revoked("FF".to_string()).is_none());
}

#[test]
fn lookup_is_exact_and_case_sensitive() {
    let decoded = DecodedCrl {
        revoked: vec![entry("0a:ff", None, 5), entry("", Some(2), 6)],
        issuer: String::new(),
        last_update: 0,
        next_update: Some(0),
    };
    let list = CertificateRevocationList::from_decoded(&decoded, 0);
    assert!(list.is_revoked("0a:ff".to_string()).is_some());
    assert_eq!(list.is_revoked(String::new()).unwrap().reason(), ReasonFlags::ca_compromise);
    for serial in ["0A:FF", "0a:FF", "0a:ff ", " 0a:ff", "0a", "0aff", "0a:ff:", "a:ff", "00:0a:ff"] {
        assert!(list.is_revoked(serial.to_string()).is_none());
    }
    assert!(one_entry_list().is_revoked(String::new()).is_none());
}

#[test]
fn first_of_equal_serials_is_returned() {
    let decoded = DecodedCrl {
        revoked: vec![entry("0b", Some(4), 10), entry("0a", Some(1), 20), entry("0a", Some(5), 30)],
        issuer: "CN=Issuer".to_string(),
        last_update: 1,
        next_update: Some(2),
    };
    let list = CertificateRevocationList::from_decoded(&decoded, 0);
    let found = list.is_revoked("0a".to_string()).unwrap();
    assert_eq!(found.reason(), ReasonFlags::key_compromise);
    assert_eq!(found.expired_at(), 20);
    assert_eq!(list.__len__(), 3);
}

#[test]
fn reason_defaults_to_unspecified() {
    let codes: [(Option<u8>, ReasonFlags); 14] = [
        (None, ReasonFlags::unspecified),
        (Some(0), ReasonFlags::unspecified),
        (Some(1), ReasonFlags::key_compromise),
        (Some(2), ReasonFlags::ca_compromise),
        (Some(3), ReasonFlags::affiliation_changed),
        (Some(4), ReasonFlags::superseded),
        (Some(5), ReasonFlags::cessation_of_operation),
        (Some(6), ReasonFlags::certificate_hold),
        (Some(7), ReasonFlags::unspecified),
        (Some(8), ReasonFlags::remove_from_crl),
        (Some(9), ReasonFlags::privilege_withdrawn),
        (Some(10), ReasonFlags::aa_compromise),
        (Some(11), ReasonFlags::unspecified),
        (Some(255), ReasonFlags::unspecified),
    ];
    for (code, reason) in codes {
        let stored = RevokedCertificate::from_decoded(&entry("01", code, -7));
        assert_eq!(stored.reason(), reason);
        assert_eq!(stored.serial_number(), "01");
        assert_eq!(stored.expired_at(), -7);
    }
}

#[test]
fn missing_next_update_is_one_hour_from_now() {
    let mut decoded = DecodedCrl {
        revoked: Vec::new(),
        issuer: "CN=Issuer".to_string(),
        last_update: 1700000000,
        next_update: None,
    };
    assert_eq!(CertificateRevocationList::from_decoded(&decoded, 1700000500).next_update_at(), 1700004100);
    assert_eq!(CertificateRevocationList::from_decoded(&decoded, 0).next_update_at(), 3600);
    assert_eq!(CertificateRevocationList::from_decoded(&decoded, -3600).next_update_at(), 0);
    decoded.next_update = Some(1700090000);
    let list = CertificateRevocationList::from_decoded(&decoded, 1700000500);
    assert_eq!(list.next_update_at(), 1700090000);
    assert_eq!(list.last_updated_at(), 1700000000);
    assert_eq!(list.issuer(), "CN=Issuer");
    assert_eq!(list.__len__(), 0);
}

#[test]
fn revocation_list_is_read_from_der() {
    let list = CertificateRevocationList::py_new(&hex(CRL)).ok().expect("the list decodes");
    assert_eq!(list.__len__(), 3);
    assert_eq!(list.issuer(), "CN=Test Intermediate A");
    assert_eq!(list.last_updated_at(), 1793152039);
    assert_eq!(list.next_update_at(), 1795744039);
    let first = list.is_revoked("01:02:03".to_string()).unwrap();
    assert_eq!(first.reason(), ReasonFlags::key_compromise);
    assert_eq!(first.expired_at(), 1704164645);
    let second = list.is_revoked("0a".to_string()).unwrap();
    assert_eq!(second.reason(), ReasonFlags::superseded);
    assert_eq!(second.expired_at(), 1706933106);
    let third = list.is_revoked("00:ff:00".to_string()).unwrap();
    assert_eq!(third.reason(), ReasonFlags::unspecified);
    assert_eq!(third.expired_at(), 1709528767);
    for serial in ["FF", "", "0A", "ff:00", "01:02", "0b", "010203"] {
        assert!(list.is_revoked(serial.to_string()).is_none());
    }
}

#[test]
fn list_without_next_update_is_fresh_for_an_hour() {
    let clock = || {
        std::time::SystemTime::now()
            .duration_since(std::time::UNIX_EPOCH)
            .unwrap()
            .as_secs() as i64
    };
    let before = clock();
    let list = CertificateRevocationList::py_new(&hex(CRL_WITHOUT_NEXT_UPDATE)).ok().unwrap();
    let after = clock();
    assert!(before + 3600 <= list.next_update_at());
    assert!(list.next_update_at() <= after + 3600);
    assert_eq!(list.last_updated_at(), 1793152039);
    assert_eq!(list.__len__(), 3);
}

#[test]
fn list_without_entries_is_empty() {
    let list = CertificateRevocationList::py_new(&hex(CRL_WITHOUT_ENTRIES)).ok().unwrap();
    assert_eq!(list.__len__(), 0);
    assert_eq!(list.next_update_at(), 1795744039);
    assert!(list.is_revoked("01:02:03".to_string()).is_none());
}

#[test]
fn undecodable_list_is_refused() {
    assert_eq!(failure(CertificateRevocationList::py_new(&[])), CryptoError::UnableToParseCrl);
    assert_eq!(failure(CertificateRevocationList::py_new(&[0x30, 0x00])), CryptoError::UnableToParseCrl);
    let mut truncated = hex(CRL);
    truncated.truncate(100);
    assert_eq!(failure(CertificateRevocationList::py_new(&truncated)), CryptoError::UnableToParseCrl);
    assert_eq!(CryptoError::UnableToParseCrl.message(), "unable to parse crl");
    assert_eq!(CryptoError::InvalidEncoding.message(), "unable to restore crl");
}

#[test]
fn entry_is_described() {
    let found = one_entry_list().is_revoked("01:02:03".to_string()).unwrap();
    assert_eq!(found.__repr__(), "<RevokedCertificate S/N \"01:02:03\" reason=key_compromise>");
    let plain = RevokedCertificate::from_decoded(&entry("", None, 0));
    assert_eq!(plain.__repr__(), "<RevokedCertificate S/N \"\" reason=unspecified>");
    let copy = found.clone();
    assert_eq!(copy.serial_number(), found.serial_number());
    assert_eq!(copy.reason(), found.reason());
    assert_eq!(copy.expired_at(), found.expired_at());
}

#[test]
fn persisted_form_is_exact() {
    let mut expected: Vec<u8> = Vec::new();
    expected.extend_from_slice(&1u64.to_le_bytes());
    expected.extend_from_slice(&8u64.to_le_bytes());
    expected.extend_from_slice(b"01:02:03");
    expected.push(1);
    expected.extend_from_slice(&1704164645i64.to_le_bytes());
    expected.extend_from_slice(&9u64.to_le_bytes());
    expected.extend_from_slice(b"CN=Issuer");
    expected.extend_from_slice(&1700000000i64.to_le_bytes());
    expected.extend_from_slice(&1800000000i64.to_le_bytes());
    assert_eq!(one_entry_list().serialize(), expected);

    let empty = DecodedCrl { revoked: Vec::new(), issuer: String::new(), last_update: -1, next_update: Some(i64::MIN) };
    let mut expected: Vec<u8> = vec![0; 16];
    expected.extend_from_slice(&[0xff; 8]);
    expected.extend_from_slice(&[0, 0, 0, 0, 0, 0, 0, 0x80]);
    assert_eq!(CertificateRevocationList::from_decoded(&empty, 0).serialize(), expected);
}

#[test]
fn persisted_list_is_restored() {
    let list = one_entry_list();
    let restored = CertificateRevocationList::deserialize(&list.serialize()).ok().unwrap();
    same_list(&list, &restored, &["01:02:03", "FF", ""]);
    assert_eq!(restored.serialize(), list.serialize());

    let decoded = DecodedCrl {
        revoked: vec![
            entry("0b", Some(10), i64::MAX),
            entry("", Some(9), i64::MIN),
            entry("s\u{e9}rie \u{1f512}", Some(8), -1),
            entry("0b", None, 0),
        ],
        issuer: "CN=\u{c9}metteur, O=\u{4f8b}".to_string(),
        last_update: -5,
        next_update: None,
    };
    let list = CertificateRevocationList::from_decoded(&decoded, 41);
    let restored = CertificateRevocationList::deserialize(&list.serialize()).ok().unwrap();
    same_list(&list, &restored, &["0b", "", "s\u{e9}rie \u{1f512}", "0B"]);
    assert_eq!(restored.next_update_at(), 3641);
    assert_eq!(restored.is_revoked("0b".to_string()).unwrap().reason(), ReasonFlags::aa_compromise);
    assert_eq!(restored.serialize(), list.serialize());

    let real = CertificateRevocationList::py_new(&hex(CRL)).ok().unwrap();
    let restored = CertificateRevocationList::deserialize(&real.serialize()).ok().unwrap();
    same_list(&real, &restored, &["01:02:03", "0a", "00:ff:00", "FF"]);
}

#[test]
fn invalid_persisted_form_is_refused() {
    let valid = one_entry_list().serialize();
    assert!(CertificateRevocationList::deserialize(&valid).is_ok());
    assert_eq!(failure(CertificateRevocationList::deserialize(&[])), CryptoError::InvalidEncoding);
    for length in 0..valid.len() {
        assert_eq!(
            failure(CertificateRevocationList::deserialize(&valid[..length])),
            CryptoError::InvalidEncoding
        );
    }
    let mut longer = valid.clone();
    longer.push(0);
    assert_eq!(failure(CertificateRevocationList::deserialize(&longer)), CryptoError::InvalidEncoding);
    let mut bad_reason = valid.clone();
    bad_reason[24] = 7;
    assert_eq!(failure(CertificateRevocationList::deserialize(&bad_reason)), CryptoError::InvalidEncoding);
    let mut bad_text = valid.clone();
    bad_text[16] = 0xff;
    assert_eq!(failure(CertificateRevocationList::deserialize(&bad_text)), CryptoError::InvalidEncoding);
    let mut more_entries = valid.clone();
    more_entries[0] = 2;
    assert_eq!(failure(CertificateRevocationList::deserialize(&more_entries)), CryptoError::InvalidEncoding);
    let mut huge_count = valid.clone();
    huge_count[7] = 0xff;
    assert_eq!(failure(CertificateRevocationList::deserialize(&huge_count)), CryptoError::InvalidEncoding);
    let mut huge_text = valid;
    huge_text[15] = 0xff;
    assert_eq!(failure(CertificateRevocationList::deserialize(&huge_text)), CryptoError::InvalidEncoding);
}
