//! Stealth addresses on BLS12-381, with arkworks' `ark-bls12-381` for the
//! field and group arithmetic. Two instances share the scalar field: one with
//! the prime-order subgroup G1 for its group, one with G2.
use vstd::prelude::*;
use ark_ec::Group;
use ark_ff::PrimeField;
use ark_serialize::{CanonicalDeserialize, CanonicalSerialize};
use ark_std::UniformRand;
use crate::bytes::{le_value, low_u64, low_u64_of_le};
use crate::stealth_addresses::{HasViewTag, StealthAddressOnCurve, ToBytesFromProjective};

verus! {

/// The order of the BLS12-381 group: the modulus of its scalar field.
pub open spec fn bls12_381_order() -> nat {
    52435875175126190479447740508185965837690552500527637822603658699938581184513nat
}

/// The compressed encoding (48 bytes) of `G * k` in the group G1 of BLS12-381,
/// `G` its standard generator.
pub uninterp spec fn bls12_381_generator_multiple(k: nat) -> Seq<u8>;

/// `b` encodes a point of the group G1 of BLS12-381.
pub open spec fn is_bls12_381_point(b: Seq<u8>) -> bool {
    exists|k: nat| k < bls12_381_order() && b == bls12_381_generator_multiple(k)
}

/// Relies on `ark_bls12_381::Fr::rand` with `OsRng`: a uniform scalar, whose
/// compressed encoding is its value in 32 little-endian bytes.
#[verifier::external_body]
fn ark_random_fr() -> (r: [u8; 32])
    ensures
        le_value(r@) < bls12_381_order(),
{
    let s = ark_bls12_381::Fr::rand(&mut ark_std::rand::rngs::OsRng);
    let mut out = [0u8; 32];
    s.serialize_compressed(&mut out[..]).unwrap();
    out
}

/// Relies on `ark_bls12_381::Fr::from_le_bytes_mod_order`: the little-endian
/// integer reduced modulo the group order.
#[verifier::external_body]
fn ark_fr_from_le_bytes_mod_order(b: &[u8; 32]) -> (r: [u8; 32])
    ensures
        le_value(r@) == le_value(b@) % bls12_381_order(),
{
    let s = ark_bls12_381::Fr::from_le_bytes_mod_order(&b[..]);
    let mut out = [0u8; 32];
    s.serialize_compressed(&mut out[..]).unwrap();
    out
}

/// Relies on `+` of `ark_bls12_381::Fr`: addition modulo the group order.
#[verifier::external_body]
fn ark_fr_add(a: &[u8; 32], b: &[u8; 32]) -> (r: [u8; 32])
    requires
        le_value(a@) < bls12_381_order(),
        le_value(b@) < bls12_381_order(),
    ensures
        le_value(r@) == (le_value(a@) + le_value(b@)) % bls12_381_order(),
{
    let x = ark_bls12_381::Fr::deserialize_compressed(&a[..]).unwrap();
    let y = ark_bls12_381::Fr::deserialize_compressed(&b[..]).unwrap();
    let mut out = [0u8; 32];
    (x + y).serialize_compressed(&mut out[..]).unwrap();
    out
}

/// Relies on `ark_bls12_381::Fr::deserialize_compressed`: 32 little-endian
/// bytes are accepted when their integer is below the modulus, and refused
/// with `InvalidData` otherwise.
#[verifier::external_body]
fn ark_fr_check(b: &[u8; 32]) -> (r: Result<(), ark_serialize::SerializationError>)
    ensures
        le_value(b@) < bls12_381_order() <==> r is Ok,
        r is Err ==> r->Err_0 == ark_serialize::SerializationError::InvalidData,
{
    match ark_bls12_381::Fr::deserialize_compressed(&b[..]) {
        Ok(_) => Ok(()),
        Err(e) => Err(e),
    }
}

/// Relies on `ark_bls12_381::G1Projective::generator()` and `*` by a scalar:
/// the multiple `k` of the generator, compressed. The generator has order
/// `bls12_381_order()`, so the multiples below it are distinct points, with
/// distinct encodings.
#[verifier::external_body]
fn ark_generator_mul(k: &[u8; 32]) -> (r: [u8; 48])
    requires
        le_value(k@) < bls12_381_order(),
    ensures
        r@ == bls12_381_generator_multiple(le_value(k@)),
        forall|j: nat|
            j < bls12_381_order() && j != le_value(k@) ==> r@
                != #[trigger] bls12_381_generator_multiple(j),
{
    let s = ark_bls12_381::Fr::deserialize_compressed(&k[..]).unwrap();
    let p = ark_bls12_381::G1Projective::generator() * s;
    let mut out = [0u8; 48];
    p.serialize_compressed(&mut out[..]).unwrap();
    out
}

/// Relies on `*` of `ark_bls12_381::G1Projective` by a scalar: `G * x` times
/// `k` is `G * (x * k)`, the subgroup having prime order.
#[verifier::external_body]
fn ark_point_mul(p: &[u8; 48], k: &[u8; 32]) -> (r: [u8; 48])
    requires
        is_bls12_381_point(p@),
        le_value(k@) < bls12_381_order(),
    ensures
        forall|x: nat|
            p@ == #[trigger] bls12_381_generator_multiple(x) ==> r@
                == bls12_381_generator_multiple((x * le_value(k@)) % bls12_381_order()),
{
    let q = ark_bls12_381::G1Projective::deserialize_compressed(&p[..]).unwrap();
    let s = ark_bls12_381::Fr::deserialize_compressed(&k[..]).unwrap();
    let mut out = [0u8; 48];
    (q * s).serialize_compressed(&mut out[..]).unwrap();
    out
}

/// Relies on `+` of `ark_bls12_381::G1Projective`: `G * x + G * y` is
/// `G * (x + y)`.
#[verifier::external_body]
fn ark_point_add(a: &[u8; 48], b: &[u8; 48]) -> (r: [u8; 48])
    requires
        is_bls12_381_point(a@),
        is_bls12_381_point(b@),
    ensures
        forall|x: nat, y: nat|
            a@ == #[trigger] bls12_381_generator_multiple(x) && b@
                == #[trigger] bls12_381_generator_multiple(y) ==> r@
                == bls12_381_generator_multiple((x + y) % bls12_381_order()),
{
    let p = ark_bls12_381::G1Projective::deserialize_compressed(&a[..]).unwrap();
    let q = ark_bls12_381::G1Projective::deserialize_compressed(&b[..]).unwrap();
    let mut out = [0u8; 48];
    (p + q).serialize_compressed(&mut out[..]).unwrap();
    out
}

/// Relies on `ark_bls12_381::G1Projective::deserialize_compressed`, which checks
/// that the point is on the curve and in the prime-order subgroup, and `serialize_compressed`: what decodes is
/// a point of the group, given back in its canonical encoding, and a canonical
/// encoding decodes to itself.
#[verifier::external_body]
fn ark_point_decode(b: &[u8; 48]) -> (r: Result<[u8; 48], ark_serialize::SerializationError>)
    ensures
        r is Ok ==> is_bls12_381_point(r->Ok_0@),
        is_bls12_381_point(b@) ==> (r is Ok && r->Ok_0 == *b),
{
    match ark_bls12_381::G1Projective::deserialize_compressed(&b[..]) {
        Ok(p) => {
            let mut out = [0u8; 48];
            p.serialize_compressed(&mut out[..]).unwrap();
            Ok(out)
        },
        Err(e) => Err(e),
    }
}

/// A BLS12-381 scalar, held as its 32 canonical little-endian bytes.
#[derive(Debug, Clone, Copy, PartialEq, Eq)]
pub struct Bls12_381Fr {
    bytes: [u8; 32],
}

impl Bls12_381Fr {
    #[verifier::type_invariant]
    spec fn inv(self) -> bool {
        le_value(self.bytes@) < bls12_381_order()
    }

    /// The integer this scalar stands for.
    pub closed spec fn value(self) -> nat {
        le_value(self.bytes@)
    }

    /// The container that encodes this scalar.
    pub closed spec fn repr(self) -> [u8; 32] {
        self.bytes
    }
}

/// A point of the group G1 of BLS12-381, held as its 48-byte compressed encoding.
#[derive(Debug, Clone, Copy, PartialEq, Eq)]
pub struct Bls12_381Projective {
    bytes: [u8; 48],
}

impl Bls12_381Projective {
    #[verifier::type_invariant]
    spec fn inv(self) -> bool {
        is_bls12_381_point(self.bytes@)
    }

    /// The compressed encoding of this point.
    pub closed spec fn encoding(self) -> Seq<u8> {
        self.bytes@
    }

    /// The container that encodes this point.
    pub closed spec fn repr(self) -> [u8; 48] {
        self.bytes
    }
}

impl HasViewTag for Bls12_381Fr {
    open spec fn spec_view_tag(&self) -> u64 {
        low_u64(self.value())
    }

    fn get_view_tag(&self) -> (r: u64) {
        low_u64_of_le(&self.bytes)
    }
}

impl ToBytesFromProjective for Bls12_381Projective {
    open spec fn spec_to_bytes(&self) -> Seq<u8> {
        self.encoding()
    }

    fn to_bytes(&self) -> (r: Vec<u8>) {
        crate::bytes::array_to_vec(&self.bytes)
    }
}

/// The BLS12-381 curve, with G1 for its group.
#[allow(non_camel_case_types)]
pub struct Bls12_381;

impl StealthAddressOnCurve for Bls12_381 {
    type Fr = Bls12_381Fr;
    type Projective = Bls12_381Projective;
    type FrRepr = [u8; 32];
    type ProjectiveRepr = [u8; 48];

    open spec fn order() -> nat {
        bls12_381_order()
    }

    open spec fn generator_multiple(k: nat) -> Seq<u8> {
        bls12_381_generator_multiple(k)
    }

    open spec fn fr_value(s: Bls12_381Fr) -> nat {
        s.value()
    }

    open spec fn fr_size() -> nat {
        32
    }

    open spec fn fr_repr_bytes(r: [u8; 32]) -> Seq<u8> {
        r@
    }

    open spec fn projective_repr_bytes(r: [u8; 48]) -> Seq<u8> {
        r@
    }

    open spec fn fr_encode(s: Bls12_381Fr) -> [u8; 32] {
        s.repr()
    }

    open spec fn projective_encode(p: Bls12_381Projective) -> [u8; 48] {
        p.repr()
    }

    proof fn lemma_order_bound() {
        crate::bytes::lemma_pow256_32();
    }

    proof fn lemma_fr_encode_injective(a: Bls12_381Fr, b: Bls12_381Fr) {
    }

    proof fn lemma_projective_encode_injective(a: Bls12_381Projective, b: Bls12_381Projective) {
    }

    proof fn lemma_fr_repr_len(r: [u8; 32]) {
    }

    proof fn lemma_fr_value_injective(a: Bls12_381Fr, b: Bls12_381Fr) {
        crate::bytes::lemma_le_value_injective(a.bytes@, b.bytes@);
        assert(a.bytes =~= b.bytes);
    }

    proof fn lemma_projective_bytes_injective(a: Bls12_381Projective, b: Bls12_381Projective) {
        assert(a.spec_to_bytes() == a.encoding());
        assert(b.spec_to_bytes() == b.encoding());
        assert(a.bytes =~= b.bytes);
    }

    proof fn lemma_projective_encode_bytes(p: Bls12_381Projective) {
        assert(p.spec_to_bytes() == p.encoding());
    }

    proof fn lemma_view_tag(s: Bls12_381Fr) {
        assert(s.spec_view_tag() == low_u64(s.value()));
        assert(Self::fr_value(s) == s.value());
    }

    fn fr_to_repr(s: &Bls12_381Fr) -> (r: [u8; 32]) {
        proof {
            use_type_invariant(s);
        }
        s.bytes
    }

    fn fr_from_repr(r: &[u8; 32]) -> (res: Result<Bls12_381Fr, ark_serialize::SerializationError>) {
        match ark_fr_check(r) {
            Ok(()) => Ok(Bls12_381Fr { bytes: *r }),
            Err(e) => Err(e),
        }
    }

    fn projective_to_repr(p: &Bls12_381Projective) -> (r: [u8; 48]) {
        proof {
            use_type_invariant(p);
            let x = choose|x: nat| x < bls12_381_order() && p.bytes@ == bls12_381_generator_multiple(x);
            assert(x < Self::order() && p.spec_to_bytes() == Self::generator_multiple(x));
        }
        p.bytes
    }

    fn projective_from_repr(r: &[u8; 48]) -> (res: Result<
        Bls12_381Projective,
        ark_serialize::SerializationError,
    >) {
        match ark_point_decode(r) {
            Ok(c) => {
                if crate::bytes::bytes_equal(&c, r) {
                    let p = Bls12_381Projective { bytes: c };
                    proof {
                        assert(p.spec_to_bytes() == c@);
                        let x = choose|x: nat| x < bls12_381_order() && c@ == bls12_381_generator_multiple(x);
                        assert(x < Self::order() && Self::projective_repr_bytes(*r)
                            == Self::generator_multiple(x));
                    }
                    Ok(p)
                } else {
                    proof {
                        assert(!is_bls12_381_point(r@));
                    }
                    Err(ark_serialize::SerializationError::InvalidData)
                }
            },
            Err(e) => {
                proof {
                    assert(!is_bls12_381_point(r@));
                }
                Err(e)
            },
        }
    }

    fn fr_zero() -> (r: Bls12_381Fr) {
        let bytes = [0u8; 32];
        proof {
            crate::bytes::lemma_le_value_zeros(bytes@);
        }
        Bls12_381Fr { bytes }
    }

    fn derive_public_key(private_key: &Bls12_381Fr) -> (r: Bls12_381Projective) {
        proof {
            use_type_invariant(private_key);
        }
        let bytes = ark_generator_mul(&private_key.bytes);
        let r = Bls12_381Projective { bytes };
        proof {
            assert(r.spec_to_bytes() == bytes@);
        }
        r
    }

    fn generate_random_fr() -> (r: Bls12_381Fr) {
        Bls12_381Fr { bytes: ark_random_fr() }
    }

    fn compute_shared_point(private_key: Bls12_381Fr, public_key: Bls12_381Projective) -> (r:
        Bls12_381Projective) {
        proof {
            use_type_invariant(&private_key);
            use_type_invariant(&public_key);
        }
        let bytes = ark_point_mul(&public_key.bytes, &private_key.bytes);
        proof {
            let x = choose|x: nat| x < bls12_381_order() && public_key.bytes@
                == bls12_381_generator_multiple(x);
            vstd::arithmetic::div_mod::lemma_mod_bound(
                (x * le_value(private_key.bytes@)) as int,
                bls12_381_order() as int,
            );
        }
        let r = Bls12_381Projective { bytes };
        proof {
            assert(r.spec_to_bytes() == bytes@);
        }
        r
    }

    fn fr_from_le_bytes_mod_order(bytes: &[u8; 32]) -> (r: Bls12_381Fr) {
        let out = ark_fr_from_le_bytes_mod_order(bytes);
        Bls12_381Fr { bytes: out }
    }

    fn add_fr(a: Bls12_381Fr, b: Bls12_381Fr) -> (r: Bls12_381Fr) {
        proof {
            use_type_invariant(&a);
            use_type_invariant(&b);
        }
        Bls12_381Fr { bytes: ark_fr_add(&a.bytes, &b.bytes) }
    }

    fn add_projective(a: Bls12_381Projective, b: Bls12_381Projective) -> (r:
        Bls12_381Projective) {
        proof {
            use_type_invariant(&a);
            use_type_invariant(&b);
        }
        let bytes = ark_point_add(&a.bytes, &b.bytes);
        proof {
            let x = choose|x: nat| x < bls12_381_order() && a.bytes@
                == bls12_381_generator_multiple(x);
            let y = choose|y: nat| y < bls12_381_order() && b.bytes@
                == bls12_381_generator_multiple(y);
            assert(bytes@ == bls12_381_generator_multiple((x + y) % bls12_381_order()));
        }
        let r = Bls12_381Projective { bytes };
        proof {
            assert(r.spec_to_bytes() == bytes@);
        }
        r
    }
}

/// The compressed encoding (96 bytes) of `G * k` in the group G2 of BLS12-381,
/// `G` its standard generator.
pub uninterp spec fn bls12_381_g2_generator_multiple(k: nat) -> Seq<u8>;

/// `b` encodes a point of the group G2 of BLS12-381.
pub open spec fn is_bls12_381_g2_point(b: Seq<u8>) -> bool {
    exists|k: nat| k < bls12_381_order() && b == bls12_381_g2_generator_multiple(k)
}

/// Relies on `ark_bls12_381::G2Projective::generator()` and `*` by a scalar:
/// the multiple `k` of the generator, compressed. The generator has order
/// `bls12_381_order()`, so the multiples below it are distinct points, with
/// distinct encodings.
#[verifier::external_body]
fn ark_g2_generator_mul(k: &[u8; 32]) -> (r: [u8; 96])
    requires
        le_value(k@) < bls12_381_order(),
    ensures
        r@ == bls12_381_g2_generator_multiple(le_value(k@)),
        forall|j: nat|
            j < bls12_381_order() && j != le_value(k@) ==> r@
                != #[trigger] bls12_381_g2_generator_multiple(j),
{
    let s = ark_bls12_381::Fr::deserialize_compressed(&k[..]).unwrap();
    let p = ark_bls12_381::G2Projective::generator() * s;
    let mut out = [0u8; 96];
    p.serialize_compressed(&mut out[..]).unwrap();
    out
}

/// Relies on `*` of `ark_bls12_381::G2Projective` by a scalar: `G * x` times
/// `k` is `G * (x * k)`, the subgroup having prime order.
#[verifier::external_body]
fn ark_g2_point_mul(p: &[u8; 96], k: &[u8; 32]) -> (r: [u8; 96])
    requires
        is_bls12_381_g2_point(p@),
        le_value(k@) < bls12_381_order(),
    ensures
        forall|x: nat|
            p@ == #[trigger] bls12_381_g2_generator_multiple(x) ==> r@
                == bls12_381_g2_generator_multiple((x * le_value(k@)) % bls12_381_order()),
{
    let q = ark_bls12_381::G2Projective::deserialize_compressed(&p[..]).unwrap();
    let s = ark_bls12_381::Fr::deserialize_compressed(&k[..]).unwrap();
    let mut out = [0u8; 96];
    (q * s).serialize_compressed(&mut out[..]).unwrap();
    out
}

/// Relies on `+` of `ark_bls12_381::G2Projective`: `G * x + G * y` is
/// `G * (x + y)`.
#[verifier::external_body]
fn ark_g2_point_add(a: &[u8; 96], b: &[u8; 96]) -> (r: [u8; 96])
    requires
        is_bls12_381_g2_point(a@),
        is_bls12_381_g2_point(b@),
    ensures
        forall|x: nat, y: nat|
            a@ == #[trigger] bls12_381_g2_generator_multiple(x) && b@
                == #[trigger] bls12_381_g2_generator_multiple(y) ==> r@
                == bls12_381_g2_generator_multiple((x + y) % bls12_381_order()),
{
    let p = ark_bls12_381::G2Projective::deserialize_compressed(&a[..]).unwrap();
    let q = ark_bls12_381::G2Projective::deserialize_compressed(&b[..]).unwrap();
    let mut out = [0u8; 96];
    (p + q).serialize_compressed(&mut out[..]).unwrap();
    out
}

/// Relies on `ark_bls12_381::G2Projective::deserialize_compressed`, which checks
/// that the point is on the curve and in the prime-order subgroup, and `serialize_compressed`: what decodes is
/// a point of the group, given back in its canonical encoding, and a canonical
/// encoding decodes to itself.
#[verifier::external_body]
fn ark_g2_point_decode(b: &[u8; 96]) -> (r: Result<[u8; 96], ark_serialize::SerializationError>)
    ensures
        r is Ok ==> is_bls12_381_g2_point(r->Ok_0@),
        is_bls12_381_g2_point(b@) ==> (r is Ok && r->Ok_0 == *b),
{
    match ark_bls12_381::G2Projective::deserialize_compressed(&b[..]) {
        Ok(p) => {
            let mut out = [0u8; 96];
            p.serialize_compressed(&mut out[..]).unwrap();
            Ok(out)
        },
        Err(e) => Err(e),
    }
}

/// A point of the group G2 of BLS12-381, held as its 96-byte compressed encoding.
#[derive(Debug, Clone, Copy, PartialEq, Eq)]
pub struct Bls12_381G2Projective {
    bytes: [u8; 96],
}

impl Bls12_381G2Projective {
    #[verifier::type_invariant]
    spec fn inv(self) -> bool {
        is_bls12_381_g2_point(self.bytes@)
    }

    /// The compressed encoding of this point.
    pub closed spec fn encoding(self) -> Seq<u8> {
        self.bytes@
    }

    /// The container that encodes this point.
    pub closed spec fn repr(self) -> [u8; 96] {
        self.bytes
    }
}

impl ToBytesFromProjective for Bls12_381G2Projective {
    open spec fn spec_to_bytes(&self) -> Seq<u8> {
        self.encoding()
    }

    fn to_bytes(&self) -> (r: Vec<u8>) {
        crate::bytes::array_to_vec(&self.bytes)
    }
}

/// The BLS12-381 curve, with G2 for its group and the same scalar field as G1.
#[allow(non_camel_case_types)]
pub struct Bls12_381_G2;

impl StealthAddressOnCurve for Bls12_381_G2 {
    type Fr = Bls12_381Fr;
    type Projective = Bls12_381G2Projective;
    type FrRepr = [u8; 32];
    type ProjectiveRepr = [u8; 96];

    open spec fn order() -> nat {
        bls12_381_order()
    }

    open spec fn generator_multiple(k: nat) -> Seq<u8> {
        bls12_381_g2_generator_multiple(k)
    }

    open spec fn fr_value(s: Bls12_381Fr) -> nat {
        s.value()
    }

    open spec fn fr_size() -> nat {
        32
    }

    open spec fn fr_repr_bytes(r: [u8; 32]) -> Seq<u8> {
        r@
    }

    open spec fn projective_repr_bytes(r: [u8; 96]) -> Seq<u8> {
        r@
    }

    open spec fn fr_encode(s: Bls12_381Fr) -> [u8; 32] {
        s.repr()
    }

    open spec fn projective_encode(p: Bls12_381G2Projective) -> [u8; 96] {
        p.repr()
    }

    proof fn lemma_order_bound() {
        crate::bytes::lemma_pow256_32();
    }

    proof fn lemma_fr_encode_injective(a: Bls12_381Fr, b: Bls12_381Fr) {
    }

    proof fn lemma_projective_encode_injective(a: Bls12_381G2Projective, b: Bls12_381G2Projective) {
    }

    proof fn lemma_fr_repr_len(r: [u8; 32]) {
    }

    proof fn lemma_fr_value_injective(a: Bls12_381Fr, b: Bls12_381Fr) {
        crate::bytes::lemma_le_value_injective(a.bytes@, b.bytes@);
        assert(a.bytes =~= b.bytes);
    }

    proof fn lemma_projective_bytes_injective(a: Bls12_381G2Projective, b: Bls12_381G2Projective) {
        assert(a.spec_to_bytes() == a.encoding());
        assert(b.spec_to_bytes() == b.encoding());
        assert(a.bytes =~= b.bytes);
    }

    proof fn lemma_projective_encode_bytes(p: Bls12_381G2Projective) {
        assert(p.spec_to_bytes() == p.encoding());
    }

    proof fn lemma_view_tag(s: Bls12_381Fr) {
        assert(s.spec_view_tag() == low_u64(s.value()));
        assert(Self::fr_value(s) == s.value());
    }

    fn fr_to_repr(s: &Bls12_381Fr) -> (r: [u8; 32]) {
        proof {
            use_type_invariant(s);
        }
        s.bytes
    }

    fn fr_from_repr(r: &[u8; 32]) -> (res: Result<Bls12_381Fr, ark_serialize::SerializationError>) {
        match ark_fr_check(r) {
            Ok(()) => Ok(Bls12_381Fr { bytes: *r }),
            Err(e) => Err(e),
        }
    }

    fn projective_to_repr(p: &Bls12_381G2Projective) -> (r: [u8; 96]) {
        proof {
            use_type_invariant(p);
            let x = choose|x: nat| x < bls12_381_order() && p.bytes@ == bls12_381_g2_generator_multiple(x);
            assert(x < Self::order() && p.spec_to_bytes() == Self::generator_multiple(x));
        }
        p.bytes
    }

    fn projective_from_repr(r: &[u8; 96]) -> (res: Result<
        Bls12_381G2Projective,
        ark_serialize::SerializationError,
    >) {
        match ark_g2_point_decode(r) {
            Ok(c) => {
                if crate::bytes::bytes_equal(&c, r) {
                    let p = Bls12_381G2Projective { bytes: c };
                    proof {
                        assert(p.spec_to_bytes() == c@);
                        let x = choose|x: nat| x < bls12_381_order() && c@ == bls12_381_g2_generator_multiple(x);
                        assert(x < Self::order() && Self::projective_repr_bytes(*r)
                            == Self::generator_multiple(x));
                    }
                    Ok(p)
                } else {
                    proof {
                        assert(!is_bls12_381_g2_point(r@));
                    }
                    Err(ark_serialize::SerializationError::InvalidData)
                }
            },
            Err(e) => {
                proof {
                    assert(!is_bls12_381_g2_point(r@));
                }
                Err(e)
            },
        }
    }

    fn fr_zero() -> (r: Bls12_381Fr) {
        let bytes = [0u8; 32];
        proof {
            crate::bytes::lemma_le_value_zeros(bytes@);
        }
        Bls12_381Fr { bytes }
    }

    fn derive_public_key(private_key: &Bls12_381Fr) -> (r: Bls12_381G2Projective) {
        proof {
            use_type_invariant(private_key);
        }
        let bytes = ark_g2_generator_mul(&private_key.bytes);
        let r = Bls12_381G2Projective { bytes };
        proof {
            assert(r.spec_to_bytes() == bytes@);
        }
        r
    }

    fn generate_random_fr() -> (r: Bls12_381Fr) {
        Bls12_381Fr { bytes: ark_random_fr() }
    }

    fn compute_shared_point(private_key: Bls12_381Fr, public_key: Bls12_381G2Projective) -> (r:
        Bls12_381G2Projective) {
        proof {
            use_type_invariant(&private_key);
            use_type_invariant(&public_key);
        }
        let bytes = ark_g2_point_mul(&public_key.bytes, &private_key.bytes);
        proof {
            let x = choose|x: nat| x < bls12_381_order() && public_key.bytes@
                == bls12_381_g2_generator_multiple(x);
            vstd::arithmetic::div_mod::lemma_mod_bound(
                (x * le_value(private_key.bytes@)) as int,
                bls12_381_order() as int,
            );
        }
        let r = Bls12_381G2Projective { bytes };
        proof {
            assert(r.spec_to_bytes() == bytes@);
        }
        r
    }

    fn fr_from_le_bytes_mod_order(bytes: &[u8; 32]) -> (r: Bls12_381Fr) {
        let out = ark_fr_from_le_bytes_mod_order(bytes);
        Bls12_381Fr { bytes: out }
    }

    fn add_fr(a: Bls12_381Fr, b: Bls12_381Fr) -> (r: Bls12_381Fr) {
        proof {
            use_type_invariant(&a);
            use_type_invariant(&b);
        }
        Bls12_381Fr { bytes: ark_fr_add(&a.bytes, &b.bytes) }
    }

    fn add_projective(a: Bls12_381G2Projective, b: Bls12_381G2Projective) -> (r:
        Bls12_381G2Projective) {
        proof {
            use_type_invariant(&a);
            use_type_invariant(&b);
        }
        let bytes = ark_g2_point_add(&a.bytes, &b.bytes);
        proof {
            let x = choose|x: nat| x < bls12_381_order() && a.bytes@
                == bls12_381_g2_generator_multiple(x);
            let y = choose|y: nat| y < bls12_381_order() && b.bytes@
                == bls12_381_g2_generator_multiple(y);
            assert(bytes@ == bls12_381_g2_generator_multiple((x + y) % bls12_381_order()));
        }
        let r = Bls12_381G2Projective { bytes };
        proof {
            assert(r.spec_to_bytes() == bytes@);
        }
        r
    }
}

} // verus!
