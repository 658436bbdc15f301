use conductor_agent::tls::{collect_roots, note_rejection};

// A self-signed certificate for the name "Test Root".
const ROOT: [u8; 385] = [
    0x30, 0x82, 0x01, 0x7d, 0x30, 0x82, 0x01, 0x23, 0xa0, 0x03, 0x02, 0x01, 0x02, 0x02, 0x14, 0x78,
    0x23, 0x2c, 0x91, 0x47, 0x43, 0x98, 0x75, 0xb3, 0x2a, 0x2e, 0xd2, 0x98, 0xa6, 0x60, 0xb6, 0xf9,
    0x85, 0xdd, 0xea, 0x30, 0x0a, 0x06, 0x08, 0x2a, 0x86, 0x48, 0xce, 0x3d, 0x04, 0x03, 0x02, 0x30,
    0x14, 0x31, 0x12, 0x30, 0x10, 0x06, 0x03, 0x55, 0x04, 0x03, 0x0c, 0x09, 0x54, 0x65, 0x73, 0x74,
    0x20, 0x52, 0x6f, 0x6f, 0x74, 0x30, 0x1e, 0x17, 0x0d, 0x32, 0x36, 0x31, 0x31, 0x31, 0x35, 0x31,
    0x39, 0x33, 0x30, 0x30, 0x39, 0x5a, 0x17, 0x0d, 0x33, 0x36, 0x31, 0x31, 0x31, 0x32, 0x31, 0x39,
    0x33, 0x30, 0x30, 0x39, 0x5a, 0x30, 0x14, 0x31, 0x12, 0x30, 0x10, 0x06, 0x03, 0x55, 0x04, 0x03,
    0x0c, 0x09, 0x54, 0x65, 0x73, 0x74, 0x20, 0x52, 0x6f, 0x6f, 0x74, 0x30, 0x59, 0x30, 0x13, 0x06,
    0x07, 0x2a, 0x86, 0x48, 0xce, 0x3d, 0x02, 0x01, 0x06, 0x08, 0x2a, 0x86, 0x48, 0xce, 0x3d, 0x03,
    0x01, 0x07, 0x03, 0x42, 0x00, 0x04, 0xf5, 0xaa, 0xb4, 0xf0, 0x3e, 0x9c, 0x84, 0xba, 0xa9, 0x9c,
    0x85, 0x62, 0x76, 0x74, 0x94, 0x5e, 0x8d, 0xd2, 0x69, 0x21, 0x8e, 0xe5, 0x5a, 0x44, 0x2f, 0xb3,
    0x1b, 0xdb, 0x4c, 0x43, 0x41, 0x52, 0x1d, 0x97, 0xce, 0x08, 0xbe, 0xcb, 0x7a, 0x34, 0x0a, 0x72,
    0x77, 0x89, 0x19, 0x21, 0xa4, 0x64, 0x66, 0x71, 0xb5, 0x94, 0xfc, 0xb0, 0x5c, 0xeb, 0x35, 0xa3,
    0xf6, 0x55, 0x82, 0x73, 0xc0, 0x7f, 0xa3, 0x53, 0x30, 0x51, 0x30, 0x1d, 0x06, 0x03, 0x55, 0x1d,
    0x0e, 0x04, 0x16, 0x04, 0x14, 0xa5, 0xc2, 0xf5, 0x44, 0xf2, 0xa9, 0x0b, 0xe3, 0xba, 0xe0, 0xa1,
    0x4e, 0x34, 0xdd, 0x7a, 0xb4, 0x17, 0x6b, 0xc8, 0xa2, 0x30, 0x1f, 0x06, 0x03, 0x55, 0x1d, 0x23,
    0x04, 0x18, 0x30, 0x16, 0x80, 0x14, 0xa5, 0xc2, 0xf5, 0x44, 0xf2, 0xa9, 0x0b, 0xe3, 0xba, 0xe0,
    0xa1, 0x4e, 0x34, 0xdd, 0x7a, 0xb4, 0x17, 0x6b, 0xc8, 0xa2, 0x30, 0x0f, 0x06, 0x03, 0x55, 0x1d,
    0x13, 0x01, 0x01, 0xff, 0x04, 0x05, 0x30, 0x03, 0x01, 0x01, 0xff, 0x30, 0x0a, 0x06, 0x08, 0x2a,
    0x86, 0x48, 0xce, 0x3d, 0x04, 0x03, 0x02, 0x03, 0x48, 0x00, 0x30, 0x45, 0x02, 0x20, 0x1a, 0x53,
    0x14, 0xfa, 0xc8, 0x5e, 0x23, 0x5c, 0x60, 0x1e, 0xb2, 0x68, 0xe9, 0x4e, 0x59, 0xcd, 0x48, 0xe8,
    0x13, 0x00, 0x48, 0x35, 0xbf, 0x81, 0xc3, 0xa1, 0x2e, 0x0d, 0x49, 0x1f, 0x69, 0x8b, 0x02, 0x21,
    0x00, 0xcf, 0x99, 0xd0, 0xee, 0x50, 0x1d, 0xde, 0x9d, 0x2e, 0x59, 0xd5, 0xd5, 0x68, 0x6f, 0x84,
    0x53, 0xe6, 0x6b, 0xee, 0x14, 0x0e, 0x09, 0xbc, 0x25, 0x7b, 0x68, 0x96, 0xbd, 0x4d, 0xf4, 0x42,
    0xa2,
];

#[test]
fn readable_certificates_are_used_and_others_passed_over() {
    let found = collect_roots(vec![vec![1, 2, 3], ROOT.to_vec(), vec![]]);
    assert_eq!(found.store.len(), 1);
    let positions: Vec<usize> = found.rejected.iter().map(|r| r.0).collect();
    assert_eq!(positions, vec![0, 2]);
    let refused = rustls::RootCertStore::empty().add(vec![1, 2, 3].into()).unwrap_err();
    assert_eq!(found.rejected[0].1, refused.to_string());
    assert!(found.rejected[0].1.starts_with("invalid peer certificate: "));
}

#[test]
fn rejections_are_noted_in_order() {
    let mut rejected = Vec::new();
    note_rejection(&mut rejected, 0, Ok(()));
    note_rejection(&mut rejected, 1, Err("unreadable".to_string()));
    note_rejection(&mut rejected, 5, Err("old".to_string()));
    assert_eq!(rejected, [(1, "unreadable".to_string()), (5, "old".to_string())]);
}

#[test]
fn anchor_holds_the_subject_of_its_certificate() {
    let found = collect_roots(vec![ROOT.to_vec()]);
    let subject: &[u8] = found.store.roots[0].subject.as_ref();
    assert!(subject.windows(9).any(|w| w == b"Test Root"));
    assert!(found.rejected.is_empty());
}

#[test]
fn every_certificate_is_used_or_rejected() {
    let found = collect_roots(vec![ROOT.to_vec(), vec![0x30, 0x00], ROOT.to_vec()]);
    assert_eq!(found.store.len() + found.rejected.len(), 3);
    assert_eq!(found.store.len(), 2);
}

#[test]
fn no_certificates_give_an_empty_store() {
    let found = collect_roots(vec![]);
    assert!(found.store.is_empty());
    assert!(found.rejected.is_empty());
}
