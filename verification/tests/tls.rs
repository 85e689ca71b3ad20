use signal_stream::error::ConnectErrorOf;
use signal_stream::tls::{root_store, trust_roots, Trust};

/// A certificate with nothing in it but what a root needs.
fn root(serial: u8) -> Vec<u8> {
    let mut der = vec![0x30, 0x1a, 0x30, 0x12, 0xa0, 0x03, 0x02, 0x01, 0x02, 0x02, 0x01, serial];
    for _ in 0..6 {
        der.extend([0x30, 0x00]);
    }
    der.extend([0x03, 0x02, 0x00, 0x00]);
    der
}

#[test]
fn readable_roots_are_all_kept() {
    assert_eq!(root_store(vec![]).unwrap().len(), 0);
    assert_eq!(root_store(vec![root(1), root(2), root(3)]).unwrap().len(), 3);
}

#[test]
fn one_unreadable_root_fails_all() {
    for certs in [vec![vec![]], vec![root(1), vec![0x30, 0x00], root(2)], vec![root(1)[1..].to_vec()]] {
        match root_store(certs) {
            Err(ConnectErrorOf::InvalidRoot(why)) => {
                assert_eq!(why, "InvalidCertificate(BadEncoding)")
            }
            other => panic!("{:?}", other),
        }
    }
}

#[test]
fn roots_to_trust() {
    match trust_roots(Some(vec![root(1)])) {
        Ok(Trust::Roots(store)) => assert_eq!(store.len(), 1),
        other => panic!("{:?}", other),
    }
    assert!(matches!(trust_roots(Some(vec![vec![1]])), Err(ConnectErrorOf::InvalidRoot(_))));
}

#[test]
fn nothing_is_trusted_where_roots_could_not_be_loaded() {
    match trust_roots(None) {
        Ok(Trust::Roots(store)) => assert!(store.is_empty()),
        other => panic!("{:?}", other),
    }
}
