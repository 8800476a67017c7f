//! Stellar addresses as plain values, and their XDR encoding.
//!
//! A Stellar address is either an account (an ed25519 public key) or a
//! contract (the 32-byte hash of its id). The contracts only compare
//! addresses and serialise them; both are done here on the plain value.
use vstd::prelude::*;

verus! {

broadcast use vstd::array::group_array_axioms;

/// Which kind of ledger entity an address names.
#[derive(Clone, Copy, Debug, PartialEq, Eq, Hash, Structural)]
pub enum AddressKind {
    /// A classic `G...` account, named by its ed25519 public key.
    Account,
    /// A `C...` contract, named by the hash of its contract id.
    Contract,
}

/// A Stellar address.
#[derive(Clone, Copy, Debug, PartialEq, Eq, Hash)]
pub struct Addr {
    pub kind: AddressKind,
    /// The ed25519 public key of an account, or the hash of a contract.
    pub key: [u8; 32],
}

/// The 32 bytes of a key are equal.
fn keys_equal(a: &[u8; 32], b: &[u8; 32]) -> (r: bool)
    ensures
        r == (*a == *b),
{
    let mut i: usize = 0;
    while i < 32
        invariant
            i <= 32,
            a@.len() == 32,
            b@.len() == 32,
            forall|j: int| 0 <= j < i ==> a@[j] == b@[j],
        decreases 32 - i,
    {
        if a[i] != b[i] {
            assert(a@[i as int] != b@[i as int]);
            return false;
        }
        i = i + 1;
    }
    assert(*a =~= *b);
    true
}

/// Whether two addresses are equal.
pub fn addr_eq(a: &Addr, b: &Addr) -> (r: bool)
    ensures
        r == (*a == *b),
{
    let same_kind = match (a.kind, b.kind) {
        (AddressKind::Account, AddressKind::Account) => true,
        (AddressKind::Contract, AddressKind::Contract) => true,
        _ => false,
    };
    same_kind && keys_equal(&a.key, &b.key)
}

/// The XDR bytes that precede the key: `ScVal::Address` (type 18), then the
/// address type (account 0, contract 1) and, for an account, the ed25519
/// public-key type 0.
pub open spec fn xdr_prefix(kind: AddressKind) -> Seq<u8> {
    match kind {
        AddressKind::Account => seq![0u8, 0, 0, 18, 0, 0, 0, 0, 0, 0, 0, 0],
        AddressKind::Contract => seq![0u8, 0, 0, 18, 0, 0, 0, 1],
    }
}

/// The XDR serialisation of an address as an `ScVal`.
pub open spec fn spec_address_xdr(a: Addr) -> Seq<u8> {
    xdr_prefix(a.kind) + a.key@
}

/// Two addresses with the same XDR are the same address.
pub proof fn lemma_xdr_injective(a: Addr, b: Addr)
    requires
        spec_address_xdr(a) == spec_address_xdr(b),
    ensures
        a == b,
{
    assert(a.key@.len() == 32 && b.key@.len() == 32);
    assert(xdr_prefix(AddressKind::Account).len() == 12);
    assert(xdr_prefix(AddressKind::Contract).len() == 8);
    assert(spec_address_xdr(a).len() == spec_address_xdr(b).len());
    assert(a.kind == b.kind) by {
        if a.kind != b.kind {
            assert(xdr_prefix(a.kind).len() != xdr_prefix(b.kind).len());
            assert(spec_address_xdr(a).len() == xdr_prefix(a.kind).len() + 32);
            assert(spec_address_xdr(b).len() == xdr_prefix(b.kind).len() + 32);
        }
    }
    let n = xdr_prefix(a.kind).len() as int;
    assert(a.key@ =~= spec_address_xdr(a).subrange(n, n + 32));
    assert(b.key@ =~= spec_address_xdr(b).subrange(n, n + 32));
    assert(a.key =~= b.key);
}

/// Serialise an address to XDR (what `Address::to_xdr` yields).
pub fn address_xdr(a: &Addr) -> (v: Vec<u8>)
    ensures
        v@ == spec_address_xdr(*a),
{
    let mut v: Vec<u8> = Vec::new();
    v.push(0);
    v.push(0);
    v.push(0);
    v.push(18);
    match a.kind {
        AddressKind::Account => {
            v.push(0);
            v.push(0);
            v.push(0);
            v.push(0);
            v.push(0);
            v.push(0);
            v.push(0);
            v.push(0);
        },
        AddressKind::Contract => {
            v.push(0);
            v.push(0);
            v.push(0);
            v.push(1);
        },
    }
    let ghost prefix = v@;
    assert(prefix =~= xdr_prefix(a.kind));
    crate::bytes::append_bytes(&mut v, &a.key);
    v
}

fn key_at(bytes: &[u8], start: usize) -> (key: [u8; 32])
    requires
        start + 32 <= bytes@.len(),
    ensures
        key@ == bytes@.subrange(start as int, start + 32),
{
    let n = bytes.len();
    let mut key = [0u8; 32];
    let mut i: usize = 0;
    while i < 32
        invariant
            n == bytes@.len(),
            i <= 32,
            start + 32 <= bytes@.len(),
            key@.len() == 32,
            forall|j: int| 0 <= j < i ==> key@[j] == bytes@[start + j],
        decreases 32 - i,
    {
        key[i] = bytes[start + i];
        i = i + 1;
    }
    assert(key@ =~= bytes@.subrange(start as int, start + 32));
    key
}

/// Parse the XDR of an address; `None` when `bytes` encodes no account or
/// contract address.
pub fn address_from_xdr(bytes: &[u8]) -> (r: Option<Addr>)
    ensures
        r matches Some(a) ==> spec_address_xdr(a) == bytes@,
        r is None ==> forall|a: Addr| spec_address_xdr(a) != bytes@,
{
    let n = bytes.len();
    if n == 44 && bytes[0] == 0 && bytes[1] == 0 && bytes[2] == 0 && bytes[3] == 18 && bytes[4]
        == 0 && bytes[5] == 0 && bytes[6] == 0 && bytes[7] == 0 && bytes[8] == 0 && bytes[9] == 0
        && bytes[10] == 0 && bytes[11] == 0 {
        let a = Addr { kind: AddressKind::Account, key: key_at(bytes, 12) };
        assert(spec_address_xdr(a) =~= bytes@);
        Some(a)
    } else if n == 40 && bytes[0] == 0 && bytes[1] == 0 && bytes[2] == 0 && bytes[3] == 18
        && bytes[4] == 0 && bytes[5] == 0 && bytes[6] == 0 && bytes[7] == 1 {
        let a = Addr { kind: AddressKind::Contract, key: key_at(bytes, 8) };
        assert(spec_address_xdr(a) =~= bytes@);
        Some(a)
    } else {
        proof {
            assert forall|a: Addr| spec_address_xdr(a) != bytes@ by {
                if spec_address_xdr(a) == bytes@ {
                    let p = xdr_prefix(a.kind);
                    assert(forall|j: int| 0 <= j < p.len() ==> bytes@[j] == p[j]);
                    assert(bytes@[0] == p[0] && bytes@[3] == p[3] && bytes@[7] == p[7]);
                }
            }
        }
        None
    }
}

} // verus!
