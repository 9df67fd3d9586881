//! Stealth addresses on secp256k1, with arkworks' `ark-secp256k1` for the
//! field and group arithmetic.
use vstd::prelude::*;
use ark_ec::Group;
use ark_ff::PrimeField;
use ark_serialize::{CanonicalDeserialize, CanonicalSerialize};
use ark_std::UniformRand;
use crate::bytes::{le_value, low_u64, low_u64_of_le};
use crate::stealth_addresses::{HasViewTag, StealthAddressOnCurve, ToBytesFromProjective};

verus! {

/// The order of the secp256k1 group: the modulus of its scalar field.
pub open spec fn secp256k1_order() -> nat {
    115792089237316195423570985008687907852837564279074904382605163141518161494337nat
}

/// The compressed encoding (33 bytes) of `G * k` on secp256k1, `G` its
/// standard generator.
pub uninterp spec fn secp256k1_generator_multiple(k: nat) -> Seq<u8>;

/// `b` encodes a point of the secp256k1 group.
pub open spec fn is_secp256k1_point(b: Seq<u8>) -> bool {
    exists|k: nat| k < secp256k1_order() && b == secp256k1_generator_multiple(k)
}

/// Relies on `ark_secp256k1::Fr::rand` with `OsRng`: a uniform scalar, whose
/// compressed encoding is its value in 32 little-endian bytes.
#[verifier::external_body]
fn ark_random_fr() -> (r: [u8; 32])
    ensures
        le_value(r@) < secp256k1_order(),
{
    let s = ark_secp256k1::Fr::rand(&mut ark_std::rand::rngs::OsRng);
    let mut out = [0u8; 32];
    s.serialize_compressed(&mut out[..]).unwrap();
    out
}

/// Relies on `ark_secp256k1::Fr::from_le_bytes_mod_order`: the little-endian
/// integer reduced modulo the group order.
#[verifier::external_body]
fn ark_fr_from_le_bytes_mod_order(b: &[u8; 32]) -> (r: [u8; 32])
    ensures
        le_value(r@) == le_value(b@) % secp256k1_order(),
{
    let s = ark_secp256k1::Fr::from_le_bytes_mod_order(&b[..]);
    let mut out = [0u8; 32];
    s.serialize_compressed(&mut out[..]).unwrap();
    out
}

/// Relies on `+` of `ark_secp256k1::Fr`: addition modulo the group order.
#[verifier::external_body]
fn ark_fr_add(a: &[u8; 32], b: &[u8; 32]) -> (r: [u8; 32])
    requires
        le_value(a@) < secp256k1_order(),
        le_value(b@) < secp256k1_order(),
    ensures
        le_value(r@) == (le_value(a@) + le_value(b@)) % secp256k1_order(),
{
    let x = ark_secp256k1::Fr::deserialize_compressed(&a[..]).unwrap();
    let y = ark_secp256k1::Fr::deserialize_compressed(&b[..]).unwrap();
    let mut out = [0u8; 32];
    (x + y).serialize_compressed(&mut out[..]).unwrap();
    out
}

/// Relies on `ark_secp256k1::Fr::deserialize_compressed`: 32 little-endian
/// bytes are accepted when their integer is below the modulus, and refused
/// with `InvalidData` otherwise.
#[verifier::external_body]
fn ark_fr_check(b: &[u8; 32]) -> (r: Result<(), ark_serialize::SerializationError>)
    ensures
        le_value(b@) < secp256k1_order() <==> r is Ok,
        r is Err ==> r->Err_0 == ark_serialize::SerializationError::InvalidData,
{
    match ark_secp256k1::Fr::deserialize_compressed(&b[..]) {
        Ok(_) => Ok(()),
        Err(e) => Err(e),
    }
}

/// Relies on `ark_secp256k1::Projective::generator()` and `*` by a scalar:
/// the multiple `k` of the generator, compressed. The generator has order
/// `secp256k1_order()`, so the multiples below it are distinct points, with
/// distinct encodings.
#[verifier::external_body]
fn ark_generator_mul(k: &[u8; 32]) -> (r: [u8; 33])
    requires
        le_value(k@) < secp256k1_order(),
    ensures
        r@ == secp256k1_generator_multiple(le_value(k@)),
        forall|j: nat|
            j < secp256k1_order() && j != le_value(k@) ==> r@
                != #[trigger] secp256k1_generator_multiple(j),
{
    let s = ark_secp256k1::Fr::deserialize_compressed(&k[..]).unwrap();
    let p = ark_secp256k1::Projective::generator() * s;
    let mut out = [0u8; 33];
    p.serialize_compressed(&mut out[..]).unwrap();
    out
}

/// Relies on `*` of `ark_secp256k1::Projective` by a scalar: `G * x` times
/// `k` is `G * (x * k)`, the group having prime order.
#[verifier::external_body]
fn ark_point_mul(p: &[u8; 33], k: &[u8; 32]) -> (r: [u8; 33])
    requires
        is_secp256k1_point(p@),
        le_value(k@) < secp256k1_order(),
    ensures
        forall|x: nat|
            p@ == #[trigger] secp256k1_generator_multiple(x) ==> r@
                == secp256k1_generator_multiple((x * le_value(k@)) % secp256k1_order()),
{
    let q = ark_secp256k1::Projective::deserialize_compressed(&p[..]).unwrap();
    let s = ark_secp256k1::Fr::deserialize_compressed(&k[..]).unwrap();
    let mut out = [0u8; 33];
    (q * s).serialize_compressed(&mut out[..]).unwrap();
    out
}

/// Relies on `+` of `ark_secp256k1::Projective`: `G * x + G * y` is
/// `G * (x + y)`.
#[verifier::external_body]
fn ark_point_add(a: &[u8; 33], b: &[u8; 33]) -> (r: [u8; 33])
    requires
        is_secp256k1_point(a@),
        is_secp256k1_point(b@),
    ensures
        forall|x: nat, y: nat|
            a@ == #[trigger] secp256k1_generator_multiple(x) && b@
                == #[trigger] secp256k1_generator_multiple(y) ==> r@
                == secp256k1_generator_multiple((x + y) % secp256k1_order()),
{
    let p = ark_secp256k1::Projective::deserialize_compressed(&a[..]).unwrap();
    let q = ark_secp256k1::Projective::deserialize_compressed(&b[..]).unwrap();
    let mut out = [0u8; 33];
    (p + q).serialize_compressed(&mut out[..]).unwrap();
    out
}

/// Relies on `ark_secp256k1::Projective::deserialize_compressed`, which checks
/// that the point is on the curve, and `serialize_compressed`: what decodes is
/// a point of the group, given back in its canonical encoding, and a canonical
/// encoding decodes to itself.
#[verifier::external_body]
fn ark_point_decode(b: &[u8; 33]) -> (r: Result<[u8; 33], ark_serialize::SerializationError>)
    ensures
        r is Ok ==> is_secp256k1_point(r->Ok_0@),
        is_secp256k1_point(b@) ==> (r is Ok && r->Ok_0 == *b),
{
    match ark_secp256k1::Projective::deserialize_compressed(&b[..]) {
        Ok(p) => {
            let mut out = [0u8; 33];
            p.serialize_compressed(&mut out[..]).unwrap();
            Ok(out)
        },
        Err(e) => Err(e),
    }
}

/// A secp256k1 scalar, held as its 32 canonical little-endian bytes.
#[derive(Debug, Clone, Copy, PartialEq, Eq)]
pub struct Secp256k1Fr {
    bytes: [u8; 32],
}

impl Secp256k1Fr {
    #[verifier::type_invariant]
    spec fn inv(self) -> bool {
        le_value(self.bytes@) < secp256k1_order()
    }

    /// The integer this scalar stands for.
    pub closed spec fn value(self) -> nat {
        le_value(self.bytes@)
    }

    /// The container that encodes this scalar.
    pub closed spec fn repr(self) -> [u8; 32] {
        self.bytes
    }
}

/// A point of the secp256k1 group, held as its 33-byte compressed encoding.
#[derive(Debug, Clone, Copy, PartialEq, Eq)]
pub struct Secp256k1Projective {
    bytes: [u8; 33],
}

impl Secp256k1Projective {
    #[verifier::type_invariant]
    spec fn inv(self) -> bool {
        is_secp256k1_point(self.bytes@)
    }

    /// The compressed encoding of this point.
    pub closed spec fn encoding(self) -> Seq<u8> {
        self.bytes@
    }

    /// The container that encodes this point.
    pub closed spec fn repr(self) -> [u8; 33] {
        self.bytes
    }
}

impl HasViewTag for Secp256k1Fr {
    open spec fn spec_view_tag(&self) -> u64 {
        low_u64(self.value())
    }

    fn get_view_tag(&self) -> (r: u64) {
        low_u64_of_le(&self.bytes)
    }
}

impl ToBytesFromProjective for Secp256k1Projective {
    open spec fn spec_to_bytes(&self) -> Seq<u8> {
        self.encoding()
    }

    fn to_bytes(&self) -> (r: Vec<u8>) {
        crate::bytes::array_to_vec(&self.bytes)
    }
}

/// The secp256k1 curve.
pub struct Secp256k1;

impl StealthAddressOnCurve for Secp256k1 {
    type Fr = Secp256k1Fr;
    type Projective = Secp256k1Projective;
    type FrRepr = [u8; 32];
    type ProjectiveRepr = [u8; 33];

    open spec fn order() -> nat {
        secp256k1_order()
    }

    open spec fn generator_multiple(k: nat) -> Seq<u8> {
        secp256k1_generator_multiple(k)
    }

    open spec fn fr_value(s: Secp256k1Fr) -> nat {
        s.value()
    }

    open spec fn fr_size() -> nat {
        32
    }

    open spec fn fr_repr_bytes(r: [u8; 32]) -> Seq<u8> {
        r@
    }

    open spec fn projective_repr_bytes(r: [u8; 33]) -> Seq<u8> {
        r@
    }

    open spec fn fr_encode(s: Secp256k1Fr) -> [u8; 32] {
        s.repr()
    }

    open spec fn projective_encode(p: Secp256k1Projective) -> [u8; 33] {
        p.repr()
    }

    proof fn lemma_order_bound() {
        crate::bytes::lemma_pow256_32();
    }

    proof fn lemma_fr_encode_injective(a: Secp256k1Fr, b: Secp256k1Fr) {
    }

    proof fn lemma_projective_encode_injective(a: Secp256k1Projective, b: Secp256k1Projective) {
    }

    proof fn lemma_fr_repr_len(r: [u8; 32]) {
    }

    proof fn lemma_fr_value_injective(a: Secp256k1Fr, b: Secp256k1Fr) {
        crate::bytes::lemma_le_value_injective(a.bytes@, b.bytes@);
        assert(a.bytes =~= b.bytes);
    }

    proof fn lemma_projective_bytes_injective(a: Secp256k1Projective, b: Secp256k1Projective) {
        assert(a.spec_to_bytes() == a.encoding());
        assert(b.spec_to_bytes() == b.encoding());
        assert(a.bytes =~= b.bytes);
    }

    proof fn lemma_projective_encode_bytes(p: Secp256k1Projective) {
        assert(p.spec_to_bytes() == p.encoding());
    }

    proof fn lemma_view_tag(s: Secp256k1Fr) {
        assert(s.spec_view_tag() == low_u64(s.value()));
        assert(Self::fr_value(s) == s.value());
    }

    fn fr_to_repr(s: &Secp256k1Fr) -> (r: [u8; 32]) {
        proof {
            use_type_invariant(s);
        }
        s.bytes
    }

    fn fr_from_repr(r: &[u8; 32]) -> (res: Result<Secp256k1Fr, ark_serialize::SerializationError>) {
        match ark_fr_check(r) {
            Ok(()) => Ok(Secp256k1Fr { bytes: *r }),
            Err(e) => Err(e),
        }
    }

    fn projective_to_repr(p: &Secp256k1Projective) -> (r: [u8; 33]) {
        proof {
            use_type_invariant(p);
            let x = choose|x: nat| x < secp256k1_order() && p.bytes@ == secp256k1_generator_multiple(x);
            assert(x < Self::order() && p.spec_to_bytes() == Self::generator_multiple(x));
        }
        p.bytes
    }

    fn projective_from_repr(r: &[u8; 33]) -> (res: Result<
        Secp256k1Projective,
        ark_serialize::SerializationError,
    >) {
        match ark_point_decode(r) {
            Ok(c) => {
                if crate::bytes::bytes_equal(&c, r) {
                    let p = Secp256k1Projective { bytes: c };
                    proof {
                        assert(p.spec_to_bytes() == c@);
                        let x = choose|x: nat| x < secp256k1_order() && c@ == secp256k1_generator_multiple(x);
                        assert(x < Self::order() && Self::projective_repr_bytes(*r)
                            == Self::generator_multiple(x));
                    }
                    Ok(p)
                } else {
                    proof {
                        assert(!is_secp256k1_point(r@));
                    }
                    Err(ark_serialize::SerializationError::InvalidData)
                }
            },
            Err(e) => {
                proof {
                    assert(!is_secp256k1_point(r@));
                }
                Err(e)
            },
        }
    }

    fn fr_zero() -> (r: Secp256k1Fr) {
        let bytes = [0u8; 32];
        proof {
            crate::bytes::lemma_le_value_zeros(bytes@);
        }
        Secp256k1Fr { bytes }
    }

    fn derive_public_key(private_key: &Secp256k1Fr) -> (r: Secp256k1Projective) {
        proof {
            use_type_invariant(private_key);
        }
        let bytes = ark_generator_mul(&private_key.bytes);
        let r = Secp256k1Projective { bytes };
        proof {
            assert(r.spec_to_bytes() == bytes@);
        }
        r
    }

    fn generate_random_fr() -> (r: Secp256k1Fr) {
        Secp256k1Fr { bytes: ark_random_fr() }
    }

    fn compute_shared_point(private_key: Secp256k1Fr, public_key: Secp256k1Projective) -> (r:
        Secp256k1Projective) {
        proof {
            use_type_invariant(&private_key);
            use_type_invariant(&public_key);
        }
        let bytes = ark_point_mul(&public_key.bytes, &private_key.bytes);
        proof {
            let x = choose|x: nat| x < secp256k1_order() && public_key.bytes@
                == secp256k1_generator_multiple(x);
            vstd::arithmetic::div_mod::lemma_mod_bound(
                (x * le_value(private_key.bytes@)) as int,
                secp256k1_order() as int,
            );
        }
        let r = Secp256k1Projective { bytes };
        proof {
            assert(r.spec_to_bytes() == bytes@);
        }
        r
    }

    fn fr_from_le_bytes_mod_order(bytes: &[u8; 32]) -> (r: Secp256k1Fr) {
        let out = ark_fr_from_le_bytes_mod_order(bytes);
        Secp256k1Fr { bytes: out }
    }

    fn add_fr(a: Secp256k1Fr, b: Secp256k1Fr) -> (r: Secp256k1Fr) {
        proof {
            use_type_invariant(&a);
            use_type_invariant(&b);
        }
        Secp256k1Fr { bytes: ark_fr_add(&a.bytes, &b.bytes) }
    }

    fn add_projective(a: Secp256k1Projective, b: Secp256k1Projective) -> (r:
        Secp256k1Projective) {
        proof {
            use_type_invariant(&a);
            use_type_invariant(&b);
        }
        let bytes = ark_point_add(&a.bytes, &b.bytes);
        proof {
            let x = choose|x: nat| x < secp256k1_order() && a.bytes@
                == secp256k1_generator_multiple(x);
            let y = choose|y: nat| y < secp256k1_order() && b.bytes@
                == secp256k1_generator_multiple(y);
            assert(bytes@ == secp256k1_generator_multiple((x + y) % secp256k1_order()));
        }
        let r = Secp256k1Projective { bytes };
        proof {
            assert(r.spec_to_bytes() == bytes@);
        }
        r
    }
}

} // verus!
