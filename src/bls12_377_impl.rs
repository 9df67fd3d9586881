//! Stealth addresses on BLS12-377, with arkworks' `ark-bls12-377` for the
//! field and group arithmetic. The group is the prime-order subgroup G1.
use vstd::prelude::*;
use ark_ec::Group;
use ark_ff::PrimeField;
use ark_serialize::{CanonicalDeserialize, CanonicalSerialize};
use ark_std::UniformRand;
use crate::bytes::{le_value, low_u64, low_u64_of_le};
use crate::stealth_addresses::{HasViewTag, StealthAddressOnCurve, ToBytesFromProjective};

verus! {

/// The order of the BLS12-377 group: the modulus of its scalar field.
pub open spec fn bls12_377_order() -> nat {
    8444461749428370424248824938781546531375899335154063827935233455917409239041nat
}

/// The compressed encoding (48 bytes) of `G * k` on BLS12-377, `G` its
/// standard generator.
pub uninterp spec fn bls12_377_generator_multiple(k: nat) -> Seq<u8>;

/// `b` encodes a point of the BLS12-377 group.
pub open spec fn is_bls12_377_point(b: Seq<u8>) -> bool {
    exists|k: nat| k < bls12_377_order() && b == bls12_377_generator_multiple(k)
}

/// Relies on `ark_bls12_377::Fr::rand` with `OsRng`: a uniform scalar, whose
/// compressed encoding is its value in 32 little-endian bytes.
#[verifier::external_body]
fn ark_random_fr() -> (r: [u8; 32])
    ensures
        le_value(r@) < bls12_377_order(),
{
    let s = ark_bls12_377::Fr::rand(&mut ark_std::rand::rngs::OsRng);
    let mut out = [0u8; 32];
    s.serialize_compressed(&mut out[..]).unwrap();
    out
}

/// Relies on `ark_bls12_377::Fr::from_le_bytes_mod_order`: the little-endian
/// integer reduced modulo the group order.
#[verifier::external_body]
fn ark_fr_from_le_bytes_mod_order(b: &[u8; 32]) -> (r: [u8; 32])
    ensures
        le_value(r@) == le_value(b@) % bls12_377_order(),
{
    let s = ark_bls12_377::Fr::from_le_bytes_mod_order(&b[..]);
    let mut out = [0u8; 32];
    s.serialize_compressed(&mut out[..]).unwrap();
    out
}

/// Relies on `+` of `ark_bls12_377::Fr`: addition modulo the group order.
#[verifier::external_body]
fn ark_fr_add(a: &[u8; 32], b: &[u8; 32]) -> (r: [u8; 32])
    requires
        le_value(a@) < bls12_377_order(),
        le_value(b@) < bls12_377_order(),
    ensures
        le_value(r@) == (le_value(a@) + le_value(b@)) % bls12_377_order(),
{
    let x = ark_bls12_377::Fr::deserialize_compressed(&a[..]).unwrap();
    let y = ark_bls12_377::Fr::deserialize_compressed(&b[..]).unwrap();
    let mut out = [0u8; 32];
    (x + y).serialize_compressed(&mut out[..]).unwrap();
    out
}

/// Relies on `ark_bls12_377::Fr::deserialize_compressed`: 32 little-endian
/// bytes are accepted when their integer is below the modulus, and refused
/// with `InvalidData` otherwise.
#[verifier::external_body]
fn ark_fr_check(b: &[u8; 32]) -> (r: Result<(), ark_serialize::SerializationError>)
    ensures
        le_value(b@) < bls12_377_order() <==> r is Ok,
        r is Err ==> r->Err_0 == ark_serialize::SerializationError::InvalidData,
{
    match ark_bls12_377::Fr::deserialize_compressed(&b[..]) {
        Ok(_) => Ok(()),
        Err(e) => Err(e),
    }
}

/// Relies on `ark_bls12_377::G1Projective::generator()` and `*` by a scalar:
/// the multiple `k` of the generator, compressed. The generator has order
/// `bls12_377_order()`, so the multiples below it are distinct points, with
/// distinct encodings.
#[verifier::external_body]
fn ark_generator_mul(k: &[u8; 32]) -> (r: [u8; 48])
    requires
        le_value(k@) < bls12_377_order(),
    ensures
        r@ == bls12_377_generator_multiple(le_value(k@)),
        forall|j: nat|
            j < bls12_377_order() && j != le_value(k@) ==> r@
                != #[trigger] bls12_377_generator_multiple(j),
{
    let s = ark_bls12_377::Fr::deserialize_compressed(&k[..]).unwrap();
    let p = ark_bls12_377::G1Projective::generator() * s;
    let mut out = [0u8; 48];
    p.serialize_compressed(&mut out[..]).unwrap();
    out
}

/// Relies on `*` of `ark_bls12_377::G1Projective` by a scalar: `G * x` times
/// `k` is `G * (x * k)`, the subgroup having prime order.
#[verifier::external_body]
fn ark_point_mul(p: &[u8; 48], k: &[u8; 32]) -> (r: [u8; 48])
    requires
        is_bls12_377_point(p@),
        le_value(k@) < bls12_377_order(),
    ensures
        forall|x: nat|
            p@ == #[trigger] bls12_377_generator_multiple(x) ==> r@
                == bls12_377_generator_multiple((x * le_value(k@)) % bls12_377_order()),
{
    let q = ark_bls12_377::G1Projective::deserialize_compressed(&p[..]).unwrap();
    let s = ark_bls12_377::Fr::deserialize_compressed(&k[..]).unwrap();
    let mut out = [0u8; 48];
    (q * s).serialize_compressed(&mut out[..]).unwrap();
    out
}

/// Relies on `+` of `ark_bls12_377::G1Projective`: `G * x + G * y` is
/// `G * (x + y)`.
#[verifier::external_body]
fn ark_point_add(a: &[u8; 48], b: &[u8; 48]) -> (r: [u8; 48])
    requires
        is_bls12_377_point(a@),
        is_bls12_377_point(b@),
    ensures
        forall|x: nat, y: nat|
            a@ == #[trigger] bls12_377_generator_multiple(x) && b@
                == #[trigger] bls12_377_generator_multiple(y) ==> r@
                == bls12_377_generator_multiple((x + y) % bls12_377_order()),
{
    let p = ark_bls12_377::G1Projective::deserialize_compressed(&a[..]).unwrap();
    let q = ark_bls12_377::G1Projective::deserialize_compressed(&b[..]).unwrap();
    let mut out = [0u8; 48];
    (p + q).serialize_compressed(&mut out[..]).unwrap();
    out
}

/// Relies on `ark_bls12_377::G1Projective::deserialize_compressed`, which checks
/// that the point is on the curve and in the prime-order subgroup, and `serialize_compressed`: what decodes is
/// a point of the group, given back in its canonical encoding, and a canonical
/// encoding decodes to itself.
#[verifier::external_body]
fn ark_point_decode(b: &[u8; 48]) -> (r: Result<[u8; 48], ark_serialize::SerializationError>)
    ensures
        r is Ok ==> is_bls12_377_point(r->Ok_0@),
        is_bls12_377_point(b@) ==> (r is Ok && r->Ok_0 == *b),
{
    match ark_bls12_377::G1Projective::deserialize_compressed(&b[..]) {
        Ok(p) => {
            let mut out = [0u8; 48];
            p.serialize_compressed(&mut out[..]).unwrap();
            Ok(out)
        },
        Err(e) => Err(e),
    }
}

/// A BLS12-377 scalar, held as its 32 canonical little-endian bytes.
#[derive(Debug, Clone, Copy, PartialEq, Eq)]
pub struct Bls12_377Fr {
    bytes: [u8; 32],
}

impl Bls12_377Fr {
    #[verifier::type_invariant]
    spec fn inv(self) -> bool {
        le_value(self.bytes@) < bls12_377_order()
    }

    /// The integer this scalar stands for.
    pub closed spec fn value(self) -> nat {
        le_value(self.bytes@)
    }

    /// The container that encodes this scalar.
    pub closed spec fn repr(self) -> [u8; 32] {
        self.bytes
    }
}

/// A point of the BLS12-377 group, held as its 48-byte compressed encoding.
#[derive(Debug, Clone, Copy, PartialEq, Eq)]
pub struct Bls12_377Projective {
    bytes: [u8; 48],
}

impl Bls12_377Projective {
    #[verifier::type_invariant]
    spec fn inv(self) -> bool {
        is_bls12_377_point(self.bytes@)
    }

    /// The compressed encoding of this point.
    pub closed spec fn encoding(self) -> Seq<u8> {
        self.bytes@
    }

    /// The container that encodes this point.
    pub closed spec fn repr(self) -> [u8; 48] {
        self.bytes
    }
}

impl HasViewTag for Bls12_377Fr {
    open spec fn spec_view_tag(&self) -> u64 {
        low_u64(self.value())
    }

    fn get_view_tag(&self) -> (r: u64) {
        low_u64_of_le(&self.bytes)
    }
}

impl ToBytesFromProjective for Bls12_377Projective {
    open spec fn spec_to_bytes(&self) -> Seq<u8> {
        self.encoding()
    }

    fn to_bytes(&self) -> (r: Vec<u8>) {
        crate::bytes::array_to_vec(&self.bytes)
    }
}

/// The BLS12-377 curve, with G1 for its group.
#[allow(non_camel_case_types)]
pub struct Bls12_377;

impl StealthAddressOnCurve for Bls12_377 {
    type Fr = Bls12_377Fr;
    type Projective = Bls12_377Projective;
    type FrRepr = [u8; 32];
    type ProjectiveRepr = [u8; 48];

    open spec fn order() -> nat {
        bls12_377_order()
    }

    open spec fn generator_multiple(k: nat) -> Seq<u8> {
        bls12_377_generator_multiple(k)
    }

    open spec fn fr_value(s: Bls12_377Fr) -> nat {
        s.value()
    }

    open spec fn fr_size() -> nat {
        32
    }

    open spec fn fr_repr_bytes(r: [u8; 32]) -> Seq<u8> {
        r@
    }

    open spec fn projective_repr_bytes(r: [u8; 48]) -> Seq<u8> {
        r@
    }

    open spec fn fr_encode(s: Bls12_377Fr) -> [u8; 32] {
        s.repr()
    }

    open spec fn projective_encode(p: Bls12_377Projective) -> [u8; 48] {
        p.repr()
    }

    proof fn lemma_order_bound() {
        crate::bytes::lemma_pow256_32();
    }

    proof fn lemma_fr_encode_injective(a: Bls12_377Fr, b: Bls12_377Fr) {
    }

    proof fn lemma_projective_encode_injective(a: Bls12_377Projective, b: Bls12_377Projective) {
    }

    proof fn lemma_fr_repr_len(r: [u8; 32]) {
    }

    proof fn lemma_fr_value_injective(a: Bls12_377Fr, b: Bls12_377Fr) {
        crate::bytes::lemma_le_value_injective(a.bytes@, b.bytes@);
        assert(a.bytes =~= b.bytes);
    }

    proof fn lemma_projective_bytes_injective(a: Bls12_377Projective, b: Bls12_377Projective) {
        assert(a.spec_to_bytes() == a.encoding());
        assert(b.spec_to_bytes() == b.encoding());
        assert(a.bytes =~= b.bytes);
    }

    proof fn lemma_projective_encode_bytes(p: Bls12_377Projective) {
        assert(p.spec_to_bytes() == p.encoding());
    }

    proof fn lemma_view_tag(s: Bls12_377Fr) {
        assert(s.spec_view_tag() == low_u64(s.value()));
        assert(Self::fr_value(s) == s.value());
    }

    fn fr_to_repr(s: &Bls12_377Fr) -> (r: [u8; 32]) {
        proof {
            use_type_invariant(s);
        }
        s.bytes
    }

    fn fr_from_repr(r: &[u8; 32]) -> (res: Result<Bls12_377Fr, ark_serialize::SerializationError>) {
        match ark_fr_check(r) {
            Ok(()) => Ok(Bls12_377Fr { bytes: *r }),
            Err(e) => Err(e),
        }
    }

    fn projective_to_repr(p: &Bls12_377Projective) -> (r: [u8; 48]) {
        proof {
            use_type_invariant(p);
            let x = choose|x: nat| x < bls12_377_order() && p.bytes@ == bls12_377_generator_multiple(x);
            assert(x < Self::order() && p.spec_to_bytes() == Self::generator_multiple(x));
        }
        p.bytes
    }

    fn projective_from_repr(r: &[u8; 48]) -> (res: Result<
        Bls12_377Projective,
        ark_serialize::SerializationError,
    >) {
        match ark_point_decode(r) {
            Ok(c) => {
                if crate::bytes::bytes_equal(&c, r) {
                    let p = Bls12_377Projective { bytes: c };
                    proof {
                        assert(p.spec_to_bytes() == c@);
                        let x = choose|x: nat| x < bls12_377_order() && c@ == bls12_377_generator_multiple(x);
                        assert(x < Self::order() && Self::projective_repr_bytes(*r)
                            == Self::generator_multiple(x));
                    }
                    Ok(p)
                } else {
                    proof {
                        assert(!is_bls12_377_point(r@));
                    }
                    Err(ark_serialize::SerializationError::InvalidData)
                }
            },
            Err(e) => {
                proof {
                    assert(!is_bls12_377_point(r@));
                }
                Err(e)
            },
        }
    }

    fn fr_zero() -> (r: Bls12_377Fr) {
        let bytes = [0u8; 32];
        proof {
            crate::bytes::lemma_le_value_zeros(bytes@);
        }
        Bls12_377Fr { bytes }
    }

    fn derive_public_key(private_key: &Bls12_377Fr) -> (r: Bls12_377Projective) {
        proof {
            use_type_invariant(private_key);
        }
        let bytes = ark_generator_mul(&private_key.bytes);
        let r = Bls12_377Projective { bytes };
        proof {
            assert(r.spec_to_bytes() == bytes@);
        }
        r
    }

    fn generate_random_fr() -> (r: Bls12_377Fr) {
        Bls12_377Fr { bytes: ark_random_fr() }
    }

    fn compute_shared_point(private_key: Bls12_377Fr, public_key: Bls12_377Projective) -> (r:
        Bls12_377Projective) {
        proof {
            use_type_invariant(&private_key);
            use_type_invariant(&public_key);
        }
        let bytes = ark_point_mul(&public_key.bytes, &private_key.bytes);
        proof {
            let x = choose|x: nat| x < bls12_377_order() && public_key.bytes@
                == bls12_377_generator_multiple(x);
            vstd::arithmetic::div_mod::lemma_mod_bound(
                (x * le_value(private_key.bytes@)) as int,
                bls12_377_order() as int,
            );
        }
        let r = Bls12_377Projective { bytes };
        proof {
            assert(r.spec_to_bytes() == bytes@);
        }
        r
    }

    fn fr_from_le_bytes_mod_order(bytes: &[u8; 32]) -> (r: Bls12_377Fr) {
        let out = ark_fr_from_le_bytes_mod_order(bytes);
        Bls12_377Fr { bytes: out }
    }

    fn add_fr(a: Bls12_377Fr, b: Bls12_377Fr) -> (r: Bls12_377Fr) {
        proof {
            use_type_invariant(&a);
            use_type_invariant(&b);
        }
        Bls12_377Fr { bytes: ark_fr_add(&a.bytes, &b.bytes) }
    }

    fn add_projective(a: Bls12_377Projective, b: Bls12_377Projective) -> (r:
        Bls12_377Projective) {
        proof {
            use_type_invariant(&a);
            use_type_invariant(&b);
        }
        let bytes = ark_point_add(&a.bytes, &b.bytes);
        proof {
            let x = choose|x: nat| x < bls12_377_order() && a.bytes@
                == bls12_377_generator_multiple(x);
            let y = choose|y: nat| y < bls12_377_order() && b.bytes@
                == bls12_377_generator_multiple(y);
            assert(bytes@ == bls12_377_generator_multiple((x + y) % bls12_377_order()));
        }
        let r = Bls12_377Projective { bytes };
        proof {
            assert(r.spec_to_bytes() == bytes@);
        }
        r
    }
}

} // verus!
