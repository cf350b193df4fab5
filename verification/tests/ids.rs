use engram_core::types::ids::{HostId, SessionId, Uuid};

#[test]
fn id_roundtrip_via_string() {
    let a = SessionId::new();
    let s = a.to_string();
    let b: SessionId = s.parse().unwrap();
    assert_eq!(a, b);
}

#[test]
fn identifiers_are_written_in_groups() {
    let id = HostId::from(Uuid::from_u128(0x0123_4567_89ab_cdef_0011_2233_4455_6677));
    assert_eq!(id.to_string(), "01234567-89ab-cdef-0011-223344556677");
    assert_eq!(
        HostId::parse_str("01234567-89AB-CDEF-0011-223344556677").unwrap(),
        id
    );
    assert_eq!(
        HostId::parse_str("0123456789abcdef0011223344556677").unwrap(),
        id
    );
    assert_eq!(id.as_uuid().bits, 0x0123_4567_89ab_cdef_0011_2233_4455_6677);
}

#[test]
fn what_is_no_identifier_is_refused() {
    for bad in ["", "x", "01234567-89ab-cdef-0011-22334455667", "{"] {
        assert!(HostId::parse_str(bad).is_err(), "{bad}");
        assert!(bad.parse::<Uuid>().is_err(), "{bad}");
    }
}

#[test]
fn new_identifiers_differ() {
    assert_ne!(SessionId::new(), SessionId::new());
    assert_ne!(SessionId::default(), SessionId::default());
}
