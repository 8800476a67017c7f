use soroban_templates::address::{address_from_xdr, address_xdr, addr_eq, Addr, AddressKind};

#[test]
fn account_xdr_layout() {
    let a = Addr { kind: AddressKind::Account, key: [7u8; 32] };
    let mut expected = vec![0, 0, 0, 18, 0, 0, 0, 0, 0, 0, 0, 0];
    expected.extend_from_slice(&[7u8; 32]);
    assert_eq!(address_xdr(&a), expected);
}

#[test]
fn contract_xdr_layout() {
    let a = Addr { kind: AddressKind::Contract, key: [9u8; 32] };
    let mut expected = vec![0, 0, 0, 18, 0, 0, 0, 1];
    expected.extend_from_slice(&[9u8; 32]);
    assert_eq!(address_xdr(&a), expected);
}

#[test]
fn xdr_roundtrip() {
    for kind in [AddressKind::Account, AddressKind::Contract] {
        let mut key = [0u8; 32];
        for (i, b) in key.iter_mut().enumerate() {
            *b = i as u8 * 3;
        }
        let a = Addr { kind, key };
        assert_eq!(address_from_xdr(&address_xdr(&a)), Some(a));
    }
}

#[test]
fn xdr_rejects_other_values() {
    assert_eq!(address_from_xdr(&[0, 0, 0, 18]), None);
    let mut bytes = vec![0, 0, 0, 17, 0, 0, 0, 1];
    bytes.extend_from_slice(&[1u8; 32]);
    assert_eq!(address_from_xdr(&bytes), None);
}

#[test]
fn address_equality() {
    let a = Addr { kind: AddressKind::Account, key: [1u8; 32] };
    let b = Addr { kind: AddressKind::Contract, key: [1u8; 32] };
    let mut k = [1u8; 32];
    k[31] = 2;
    let c = Addr { kind: AddressKind::Account, key: k };
    assert!(addr_eq(&a, &a));
    assert!(!addr_eq(&a, &b));
    assert!(!addr_eq(&a, &c));
}
