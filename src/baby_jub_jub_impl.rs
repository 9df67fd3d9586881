//! Stealth addresses on Baby Jubjub, the twisted Edwards curve over the BN254
//! scalar field, with arkworks' `ark-ed-on-bn254` for the field and group
//! arithmetic. The group is the curve's subgroup of prime order.
use vstd::prelude::*;
use ark_ec::Group;
use ark_ff::PrimeField;
use ark_serialize::{CanonicalDeserialize, CanonicalSerialize};
use ark_std::UniformRand;
use crate::bytes::{le_value, low_u64, low_u64_of_le};
use crate::stealth_addresses::{HasViewTag, StealthAddressOnCurve, ToBytesFromProjective};

verus! {

/// The order of the Baby Jubjub group: the modulus of its scalar field.
pub open spec fn baby_jub_jub_order() -> nat {
    2736030358979909402780800718157159386076813972158567259200215660948447373041nat
}

/// The compressed encoding (32 bytes) of `G * k` on Baby Jubjub, `G` its
/// standard generator.
pub uninterp spec fn baby_jub_jub_generator_multiple(k: nat) -> Seq<u8>;

/// `b` encodes a point of the Baby Jubjub group.
pub open spec fn is_baby_jub_jub_point(b: Seq<u8>) -> bool {
    exists|k: nat| k < baby_jub_jub_order() && b == baby_jub_jub_generator_multiple(k)
}

/// Relies on `ark_ed_on_bn254::Fr::rand` with `OsRng`: a uniform scalar, whose
/// compressed encoding is its value in 32 little-endian bytes.
#[verifier::external_body]
fn ark_random_fr() -> (r: [u8; 32])
    ensures
        le_value(r@) < baby_jub_jub_order(),
{
    let s = ark_ed_on_bn254::Fr::rand(&mut ark_std::rand::rngs::OsRng);
    let mut out = [0u8; 32];
    s.serialize_compressed(&mut out[..]).unwrap();
    out
}

/// Relies on `ark_ed_on_bn254::Fr::from_le_bytes_mod_order`: the little-endian
/// integer reduced modulo the group order.
#[verifier::external_body]
fn ark_fr_from_le_bytes_mod_order(b: &[u8; 32]) -> (r: [u8; 32])
    ensures
        le_value(r@) == le_value(b@) % baby_jub_jub_order(),
{
    let s = ark_ed_on_bn254::Fr::from_le_bytes_mod_order(&b[..]);
    let mut out = [0u8; 32];
    s.serialize_compressed(&mut out[..]).unwrap();
    out
}

/// Relies on `+` of `ark_ed_on_bn254::Fr`: addition modulo the group order.
#[verifier::external_body]
fn ark_fr_add(a: &[u8; 32], b: &[u8; 32]) -> (r: [u8; 32])
    requires
        le_value(a@) < baby_jub_jub_order(),
        le_value(b@) < baby_jub_jub_order(),
    ensures
        le_value(r@) == (le_value(a@) + le_value(b@)) % baby_jub_jub_order(),
{
    let x = ark_ed_on_bn254::Fr::deserialize_compressed(&a[..]).unwrap();
    let y = ark_ed_on_bn254::Fr::deserialize_compressed(&b[..]).unwrap();
    let mut out = [0u8; 32];
    (x + y).serialize_compressed(&mut out[..]).unwrap();
    out
}

/// Relies on `ark_ed_on_bn254::Fr::deserialize_compressed`: 32 little-endian
/// bytes are accepted when their integer is below the modulus, and refused
/// with `InvalidData` otherwise.
#[verifier::external_body]
fn ark_fr_check(b: &[u8; 32]) -> (r: Result<(), ark_serialize::SerializationError>)
    ensures
        le_value(b@) < baby_jub_jub_order() <==> r is Ok,
        r is Err ==> r->Err_0 == ark_serialize::SerializationError::InvalidData,
{
    match ark_ed_on_bn254::Fr::deserialize_compressed(&b[..]) {
        Ok(_) => Ok(()),
        Err(e) => Err(e),
    }
}

/// Relies on `ark_ed_on_bn254::EdwardsProjective::generator()` and `*` by a scalar:
/// the multiple `k` of the generator, compressed. The generator has order
/// `baby_jub_jub_order()`, so the multiples below it are distinct points, with
/// distinct encodings.
#[verifier::external_body]
fn ark_generator_mul(k: &[u8; 32]) -> (r: [u8; 32])
    requires
        le_value(k@) < baby_jub_jub_order(),
    ensures
        r@ == baby_jub_jub_generator_multiple(le_value(k@)),
        forall|j: nat|
            j < baby_jub_jub_order() && j != le_value(k@) ==> r@
                != #[trigger] baby_jub_jub_generator_multiple(j),
{
    let s = ark_ed_on_bn254::Fr::deserialize_compressed(&k[..]).unwrap();
    let p = ark_ed_on_bn254::EdwardsProjective::generator() * s;
    let mut out = [0u8; 32];
    p.serialize_compressed(&mut out[..]).unwrap();
    out
}

/// Relies on `*` of `ark_ed_on_bn254::EdwardsProjective` by a scalar: `G * x` times
/// `k` is `G * (x * k)`, the subgroup having prime order.
#[verifier::external_body]
fn ark_point_mul(p: &[u8; 32], k: &[u8; 32]) -> (r: [u8; 32])
    requires
        is_baby_jub_jub_point(p@),
        le_value(k@) < baby_jub_jub_order(),
    ensures
        forall|x: nat|
            p@ == #[trigger] baby_jub_jub_generator_multiple(x) ==> r@
                == baby_jub_jub_generator_multiple((x * le_value(k@)) % baby_jub_jub_order()),
{
    let q = ark_ed_on_bn254::EdwardsProjective::deserialize_compressed(&p[..]).unwrap();
    let s = ark_ed_on_bn254::Fr::deserialize_compressed(&k[..]).unwrap();
    let mut out = [0u8; 32];
    (q * s).serialize_compressed(&mut out[..]).unwrap();
    out
}

/// Relies on `+` of `ark_ed_on_bn254::EdwardsProjective`: `G * x + G * y` is
/// `G * (x + y)`.
#[verifier::external_body]
fn ark_point_add(a: &[u8; 32], b: &[u8; 32]) -> (r: [u8; 32])
    requires
        is_baby_jub_jub_point(a@),
        is_baby_jub_jub_point(b@),
    ensures
        forall|x: nat, y: nat|
            a@ == #[trigger] baby_jub_jub_generator_multiple(x) && b@
                == #[trigger] baby_jub_jub_generator_multiple(y) ==> r@
                == baby_jub_jub_generator_multiple((x + y) % baby_jub_jub_order()),
{
    let p = ark_ed_on_bn254::EdwardsProjective::deserialize_compressed(&a[..]).unwrap();
    let q = ark_ed_on_bn254::EdwardsProjective::deserialize_compressed(&b[..]).unwrap();
    let mut out = [0u8; 32];
    (p + q).serialize_compressed(&mut out[..]).unwrap();
    out
}

/// Relies on `ark_ed_on_bn254::EdwardsProjective::deserialize_compressed`, which checks
/// that the point is on the curve and in the prime-order subgroup, and `serialize_compressed`: what decodes is
/// a point of the group, given back in its canonical encoding, and a canonical
/// encoding decodes to itself.
#[verifier::external_body]
fn ark_point_decode(b: &[u8; 32]) -> (r: Result<[u8; 32], ark_serialize::SerializationError>)
    ensures
        r is Ok ==> is_baby_jub_jub_point(r->Ok_0@),
        is_baby_jub_jub_point(b@) ==> (r is Ok && r->Ok_0 == *b),
{
    match ark_ed_on_bn254::EdwardsProjective::deserialize_compressed(&b[..]) {
        Ok(p) => {
            let mut out = [0u8; 32];
            p.serialize_compressed(&mut out[..]).unwrap();
            Ok(out)
        },
        Err(e) => Err(e),
    }
}

/// A Baby Jubjub scalar, held as its 32 canonical little-endian bytes.
#[derive(Debug, Clone, Copy, PartialEq, Eq)]
pub struct BabyJubJubFr {
    bytes: [u8; 32],
}

impl BabyJubJubFr {
    #[verifier::type_invariant]
    spec fn inv(self) -> bool {
        le_value(self.bytes@) < baby_jub_jub_order()
    }

    /// The integer this scalar stands for.
    pub closed spec fn value(self) -> nat {
        le_value(self.bytes@)
    }

    /// The container that encodes this scalar.
    pub closed spec fn repr(self) -> [u8; 32] {
        self.bytes
    }
}

/// A point of the Baby Jubjub group, held as its 32-byte compressed encoding.
#[derive(Debug, Clone, Copy, PartialEq, Eq)]
pub struct BabyJubJubProjective {
    bytes: [u8; 32],
}

impl BabyJubJubProjective {
    #[verifier::type_invariant]
    spec fn inv(self) -> bool {
        is_baby_jub_jub_point(self.bytes@)
    }

    /// The compressed encoding of this point.
    pub closed spec fn encoding(self) -> Seq<u8> {
        self.bytes@
    }

    /// The container that encodes this point.
    pub closed spec fn repr(self) -> [u8; 32] {
        self.bytes
    }
}

impl HasViewTag for BabyJubJubFr {
    open spec fn spec_view_tag(&self) -> u64 {
        low_u64(self.value())
    }

    fn get_view_tag(&self) -> (r: u64) {
        low_u64_of_le(&self.bytes)
    }
}

impl ToBytesFromProjective for BabyJubJubProjective {
    open spec fn spec_to_bytes(&self) -> Seq<u8> {
        self.encoding()
    }

    fn to_bytes(&self) -> (r: Vec<u8>) {
        crate::bytes::array_to_vec(&self.bytes)
    }
}

/// The Baby Jubjub curve.
pub struct BabyJubJub;

impl StealthAddressOnCurve for BabyJubJub {
    type Fr = BabyJubJubFr;
    type Projective = BabyJubJubProjective;
    type FrRepr = [u8; 32];
    type ProjectiveRepr = [u8; 32];

    open spec fn order() -> nat {
        baby_jub_jub_order()
    }

    open spec fn generator_multiple(k: nat) -> Seq<u8> {
        baby_jub_jub_generator_multiple(k)
    }

    open spec fn fr_value(s: BabyJubJubFr) -> nat {
        s.value()
    }

    open spec fn fr_size() -> nat {
        32
    }

    open spec fn fr_repr_bytes(r: [u8; 32]) -> Seq<u8> {
        r@
    }

    open spec fn projective_repr_bytes(r: [u8; 32]) -> Seq<u8> {
        r@
    }

    open spec fn fr_encode(s: BabyJubJubFr) -> [u8; 32] {
        s.repr()
    }

    open spec fn projective_encode(p: BabyJubJubProjective) -> [u8; 32] {
        p.repr()
    }

    proof fn lemma_order_bound() {
        crate::bytes::lemma_pow256_32();
    }

    proof fn lemma_fr_encode_injective(a: BabyJubJubFr, b: BabyJubJubFr) {
    }

    proof fn lemma_projective_encode_injective(a: BabyJubJubProjective, b: BabyJubJubProjective) {
    }

    proof fn lemma_fr_repr_len(r: [u8; 32]) {
    }

    proof fn lemma_fr_value_injective(a: BabyJubJubFr, b: BabyJubJubFr) {
        crate::bytes::lemma_le_value_injective(a.bytes@, b.bytes@);
        assert(a.bytes =~= b.bytes);
    }

    proof fn lemma_projective_bytes_injective(a: BabyJubJubProjective, b: BabyJubJubProjective) {
        assert(a.spec_to_bytes() == a.encoding());
        assert(b.spec_to_bytes() == b.encoding());
        assert(a.bytes =~= b.bytes);
    }

    proof fn lemma_projective_encode_bytes(p: BabyJubJubProjective) {
        assert(p.spec_to_bytes() == p.encoding());
    }

    proof fn lemma_view_tag(s: BabyJubJubFr) {
        assert(s.spec_view_tag() == low_u64(s.value()));
        assert(Self::fr_value(s) == s.value());
    }

    fn fr_to_repr(s: &BabyJubJubFr) -> (r: [u8; 32]) {
        proof {
            use_type_invariant(s);
        }
        s.bytes
    }

    fn fr_from_repr(r: &[u8; 32]) -> (res: Result<BabyJubJubFr, ark_serialize::SerializationError>) {
        match ark_fr_check(r) {
            Ok(()) => Ok(BabyJubJubFr { bytes: *r }),
            Err(e) => Err(e),
        }
    }

    fn projective_to_repr(p: &BabyJubJubProjective) -> (r: [u8; 32]) {
        proof {
            use_type_invariant(p);
            let x = choose|x: nat| x < baby_jub_jub_order() && p.bytes@ == baby_jub_jub_generator_multiple(x);
            assert(x < Self::order() && p.spec_to_bytes() == Self::generator_multiple(x));
        }
        p.bytes
    }

    fn projective_from_repr(r: &[u8; 32]) -> (res: Result<
        BabyJubJubProjective,
        ark_serialize::SerializationError,
    >) {
        match ark_point_decode(r) {
            Ok(c) => {
                if crate::bytes::bytes_equal(&c, r) {
                    let p = BabyJubJubProjective { bytes: c };
                    proof {
                        assert(p.spec_to_bytes() == c@);
                        let x = choose|x: nat| x < baby_jub_jub_order() && c@ == baby_jub_jub_generator_multiple(x);
                        assert(x < Self::order() && Self::projective_repr_bytes(*r)
                            == Self::generator_multiple(x));
                    }
                    Ok(p)
                } else {
                    proof {
                        assert(!is_baby_jub_jub_point(r@));
                    }
                    Err(ark_serialize::SerializationError::InvalidData)
                }
            },
            Err(e) => {
                proof {
                    assert(!is_baby_jub_jub_point(r@));
                }
                Err(e)
            },
        }
    }

    fn fr_zero() -> (r: BabyJubJubFr) {
        let bytes = [0u8; 32];
        proof {
            crate::bytes::lemma_le_value_zeros(bytes@);
        }
        BabyJubJubFr { bytes }
    }

    fn derive_public_key(private_key: &BabyJubJubFr) -> (r: BabyJubJubProjective) {
        proof {
            use_type_invariant(private_key);
        }
        let bytes = ark_generator_mul(&private_key.bytes);
        let r = BabyJubJubProjective { bytes };
        proof {
            assert(r.spec_to_bytes() == bytes@);
        }
        r
    }

    fn generate_random_fr() -> (r: BabyJubJubFr) {
        BabyJubJubFr { bytes: ark_random_fr() }
    }

    fn compute_shared_point(private_key: BabyJubJubFr, public_key: BabyJubJubProjective) -> (r:
        BabyJubJubProjective) {
        proof {
            use_type_invariant(&private_key);
            use_type_invariant(&public_key);
        }
        let bytes = ark_point_mul(&public_key.bytes, &private_key.bytes);
        proof {
            let x = choose|x: nat| x < baby_jub_jub_order() && public_key.bytes@
                == baby_jub_jub_generator_multiple(x);
            vstd::arithmetic::div_mod::lemma_mod_bound(
                (x * le_value(private_key.bytes@)) as int,
                baby_jub_jub_order() as int,
            );
        }
        let r = BabyJubJubProjective { bytes };
        proof {
            assert(r.spec_to_bytes() == bytes@);
        }
        r
    }

    fn fr_from_le_bytes_mod_order(bytes: &[u8; 32]) -> (r: BabyJubJubFr) {
        let out = ark_fr_from_le_bytes_mod_order(bytes);
        BabyJubJubFr { bytes: out }
    }

    fn add_fr(a: BabyJubJubFr, b: BabyJubJubFr) -> (r: BabyJubJubFr) {
        proof {
            use_type_invariant(&a);
            use_type_invariant(&b);
        }
        BabyJubJubFr { bytes: ark_fr_add(&a.bytes, &b.bytes) }
    }

    fn add_projective(a: BabyJubJubProjective, b: BabyJubJubProjective) -> (r:
        BabyJubJubProjective) {
        proof {
            use_type_invariant(&a);
            use_type_invariant(&b);
        }
        let bytes = ark_point_add(&a.bytes, &b.bytes);
        proof {
            let x = choose|x: nat| x < baby_jub_jub_order() && a.bytes@
                == baby_jub_jub_generator_multiple(x);
            let y = choose|y: nat| y < baby_jub_jub_order() && b.bytes@
                == baby_jub_jub_generator_multiple(y);
            assert(bytes@ == baby_jub_jub_generator_multiple((x + y) % baby_jub_jub_order()));
        }
        let r = BabyJubJubProjective { bytes };
        proof {
            assert(r.spec_to_bytes() == bytes@);
        }
        r
    }
}

} // verus!
