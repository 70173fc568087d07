use collab_board::ident::Oid;

#[test]
fn parses_lower_and_upper_hex_ids() {
    let a = Oid::parse("0123456789abcdef01234567").unwrap();
    let b = Oid::parse("0123456789ABCDEF01234567").unwrap();
    assert_eq!(a, b);
    assert_eq!(a.value, 0x0123456789abcdef01234567u128);
}

#[test]
fn rejects_bad_id_text() {
    assert!(Oid::parse("").is_none());
    assert!(Oid::parse("0123456789abcdef0123456").is_none());
    assert!(Oid::parse("0123456789abcdef012345678").is_none());
    assert!(Oid::parse("0123456789abcdef0123456g").is_none());
    assert!(Oid::parse("0123456789abcdef0123456é").is_none());
    assert!(Oid::parse("0123456789abcdef01234567 ").is_none());
}

#[test]
fn bytes_roundtrip() {
    let bytes: Vec<u8> = vec![0x65, 0x1f, 0x00, 0xff, 1, 2, 3, 4, 5, 6, 7, 0x80];
    let id = Oid::from_bytes(&bytes);
    assert_eq!(id.value, 0x651f00ff0102030405060780u128);
    assert_eq!(id.to_bytes(), bytes);
    let back = Oid::from_bytes(&id.to_bytes());
    assert_eq!(back, id);
}

#[test]
fn zero_and_max_ids() {
    let zero = Oid::from_bytes(&[0u8; 12]);
    assert_eq!(zero.value, 0);
    assert_eq!(zero.to_bytes(), vec![0u8; 12]);
    let max = Oid::from_bytes(&[0xffu8; 12]);
    assert_eq!(max.value, (1u128 << 96) - 1);
    assert_eq!(max.to_bytes(), vec![0xffu8; 12]);
}

#[test]
fn fresh_ids_are_twelve_bytes_and_distinct() {
    let a = Oid::fresh();
    let b = Oid::fresh();
    assert!(a.value < (1u128 << 96));
    assert_ne!(a, b);
}
