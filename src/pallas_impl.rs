//! Stealth addresses on Pallas, with arkworks' `ark-pallas` for the
//! field and group arithmetic.
use vstd::prelude::*;
use ark_ec::Group;
use ark_ff::PrimeField;
use ark_serialize::{CanonicalDeserialize, CanonicalSerialize};
use ark_std::UniformRand;
use crate::bytes::{le_value, low_u64, low_u64_of_le};
use crate::stealth_addresses::{HasViewTag, StealthAddressOnCurve, ToBytesFromProjective};

verus! {

/// The order of the Pallas group: the modulus of its scalar field.
pub open spec fn pallas_order() -> nat {
    28948022309329048855892746252171976963363056481941647379679742748393362948097nat
}

/// The compressed encoding (33 bytes) of `G * k` on Pallas, `G` its
/// standard generator.
pub uninterp spec fn pallas_generator_multiple(k: nat) -> Seq<u8>;

/// `b` encodes a point of the Pallas group.
pub open spec fn is_pallas_point(b: Seq<u8>) -> bool {
    exists|k: nat| k < pallas_order() && b == pallas_generator_multiple(k)
}

/// Relies on `ark_pallas::Fr::rand` with `OsRng`: a uniform scalar, whose
/// compressed encoding is its value in 32 little-endian bytes.
#[verifier::external_body]
fn ark_random_fr() -> (r: [u8; 32])
    ensures
        le_value(r@) < pallas_order(),
{
    let s = ark_pallas::Fr::rand(&mut ark_std::rand::rngs::OsRng);
    let mut out = [0u8; 32];
    s.serialize_compressed(&mut out[..]).unwrap();
    out
}

/// Relies on `ark_pallas::Fr::from_le_bytes_mod_order`: the little-endian
/// integer reduced modulo the group order.
#[verifier::external_body]
fn ark_fr_from_le_bytes_mod_order(b: &[u8; 32]) -> (r: [u8; 32])
    ensures
        le_value(r@) == le_value(b@) % pallas_order(),
{
    let s = ark_pallas::Fr::from_le_bytes_mod_order(&b[..]);
    let mut out = [0u8; 32];
    s.serialize_compressed(&mut out[..]).unwrap();
    out
}

/// Relies on `+` of `ark_pallas::Fr`: addition modulo the group order.
#[verifier::external_body]
fn ark_fr_add(a: &[u8; 32], b: &[u8; 32]) -> (r: [u8; 32])
    requires
        le_value(a@) < pallas_order(),
        le_value(b@) < pallas_order(),
    ensures
        le_value(r@) == (le_value(a@) + le_value(b@)) % pallas_order(),
{
    let x = ark_pallas::Fr::deserialize_compressed(&a[..]).unwrap();
    let y = ark_pallas::Fr::deserialize_compressed(&b[..]).unwrap();
    let mut out = [0u8; 32];
    (x + y).serialize_compressed(&mut out[..]).unwrap();
    out
}

/// Relies on `ark_pallas::Fr::deserialize_compressed`: 32 little-endian
/// bytes are accepted when their integer is below the modulus, and refused
/// with `InvalidData` otherwise.
#[verifier::external_body]
fn ark_fr_check(b: &[u8; 32]) -> (r: Result<(), ark_serialize::SerializationError>)
    ensures
        le_value(b@) < pallas_order() <==> r is Ok,
        r is Err ==> r->Err_0 == ark_serialize::SerializationError::InvalidData,
{
    match ark_pallas::Fr::deserialize_compressed(&b[..]) {
        Ok(_) => Ok(()),
        Err(e) => Err(e),
    }
}

/// Relies on `ark_pallas::Projective::generator()` and `*` by a scalar:
/// the multiple `k` of the generator, compressed. The generator has order
/// `pallas_order()`, so the multiples below it are distinct points, with
/// distinct encodings.
#[verifier::external_body]
fn ark_generator_mul(k: &[u8; 32]) -> (r: [u8; 33])
    requires
        le_value(k@) < pallas_order(),
    ensures
        r@ == pallas_generator_multiple(le_value(k@)),
        forall|j: nat|
            j < pallas_order() && j != le_value(k@) ==> r@
                != #[trigger] pallas_generator_multiple(j),
{
    let s = ark_pallas::Fr::deserialize_compressed(&k[..]).unwrap();
    let p = ark_pallas::Projective::generator() * s;
    let mut out = [0u8; 33];
    p.serialize_compressed(&mut out[..]).unwrap();
    out
}

/// Relies on `*` of `ark_pallas::Projective` by a scalar: `G * x` times
/// `k` is `G * (x * k)`, the group having prime order.
#[verifier::external_body]
fn ark_point_mul(p: &[u8; 33], k: &[u8; 32]) -> (r: [u8; 33])
    requires
        is_pallas_point(p@),
        le_value(k@) < pallas_order(),
    ensures
        forall|x: nat|
            p@ == #[trigger] pallas_generator_multiple(x) ==> r@
                == pallas_generator_multiple((x * le_value(k@)) % pallas_order()),
{
    let q = ark_pallas::Projective::deserialize_compressed(&p[..]).unwrap();
    let s = ark_pallas::Fr::deserialize_compressed(&k[..]).unwrap();
    let mut out = [0u8; 33];
    (q * s).serialize_compressed(&mut out[..]).unwrap();
    out
}

/// Relies on `+` of `ark_pallas::Projective`: `G * x + G * y` is
/// `G * (x + y)`.
#[verifier::external_body]
fn ark_point_add(a: &[u8; 33], b: &[u8; 33]) -> (r: [u8; 33])
    requires
        is_pallas_point(a@),
        is_pallas_point(b@),
    ensures
        forall|x: nat, y: nat|
            a@ == #[trigger] pallas_generator_multiple(x) && b@
                == #[trigger] pallas_generator_multiple(y) ==> r@
                == pallas_generator_multiple((x + y) % pallas_order()),
{
    let p = ark_pallas::Projective::deserialize_compressed(&a[..]).unwrap();
    let q = ark_pallas::Projective::deserialize_compressed(&b[..]).unwrap();
    let mut out = [0u8; 33];
    (p + q).serialize_compressed(&mut out[..]).unwrap();
    out
}

/// Relies on `ark_pallas::Projective::deserialize_compressed`, which checks
/// that the point is on the curve, and `serialize_compressed`: what decodes is
/// a point of the group, given back in its canonical encoding, and a canonical
/// encoding decodes to itself.
#[verifier::external_body]
fn ark_point_decode(b: &[u8; 33]) -> (r: Result<[u8; 33], ark_serialize::SerializationError>)
    ensures
        r is Ok ==> is_pallas_point(r->Ok_0@),
        is_pallas_point(b@) ==> (r is Ok && r->Ok_0 == *b),
{
    match ark_pallas::Projective::deserialize_compressed(&b[..]) {
        Ok(p) => {
            let mut out = [0u8; 33];
            p.serialize_compressed(&mut out[..]).unwrap();
            Ok(out)
        },
        Err(e) => Err(e),
    }
}

/// A Pallas scalar, held as its 32 canonical little-endian bytes.
#[derive(Debug, Clone, Copy, PartialEq, Eq)]
pub struct PallasFr {
    bytes: [u8; 32],
}

impl PallasFr {
    #[verifier::type_invariant]
    spec fn inv(self) -> bool {
        le_value(self.bytes@) < pallas_order()
    }

    /// The integer this scalar stands for.
    pub closed spec fn value(self) -> nat {
        le_value(self.bytes@)
    }

    /// The container that encodes this scalar.
    pub closed spec fn repr(self) -> [u8; 32] {
        self.bytes
    }
}

/// A point of the Pallas group, held as its 33-byte compressed encoding.
#[derive(Debug, Clone, Copy, PartialEq, Eq)]
pub struct PallasProjective {
    bytes: [u8; 33],
}

impl PallasProjective {
    #[verifier::type_invariant]
    spec fn inv(self) -> bool {
        is_pallas_point(self.bytes@)
    }

    /// The compressed encoding of this point.
    pub closed spec fn encoding(self) -> Seq<u8> {
        self.bytes@
    }

    /// The container that encodes this point.
    pub closed spec fn repr(self) -> [u8; 33] {
        self.bytes
    }
}

impl HasViewTag for PallasFr {
    open spec fn spec_view_tag(&self) -> u64 {
        low_u64(self.value())
    }

    fn get_view_tag(&self) -> (r: u64) {
        low_u64_of_le(&self.bytes)
    }
}

impl ToBytesFromProjective for PallasProjective {
    open spec fn spec_to_bytes(&self) -> Seq<u8> {
        self.encoding()
    }

    fn to_bytes(&self) -> (r: Vec<u8>) {
        crate::bytes::array_to_vec(&self.bytes)
    }
}

/// The Pallas curve.
pub struct Pallas;

impl StealthAddressOnCurve for Pallas {
    type Fr = PallasFr;
    type Projective = PallasProjective;
    type FrRepr = [u8; 32];
    type ProjectiveRepr = [u8; 33];

    open spec fn order() -> nat {
        pallas_order()
    }

    open spec fn generator_multiple(k: nat) -> Seq<u8> {
        pallas_generator_multiple(k)
    }

    open spec fn fr_value(s: PallasFr) -> nat {
        s.value()
    }

    open spec fn fr_size() -> nat {
        32
    }

    open spec fn fr_repr_bytes(r: [u8; 32]) -> Seq<u8> {
        r@
    }

    open spec fn projective_repr_bytes(r: [u8; 33]) -> Seq<u8> {
        r@
    }

    open spec fn fr_encode(s: PallasFr) -> [u8; 32] {
        s.repr()
    }

    open spec fn projective_encode(p: PallasProjective) -> [u8; 33] {
        p.repr()
    }

    proof fn lemma_order_bound() {
        crate::bytes::lemma_pow256_32();
    }

    proof fn lemma_fr_encode_injective(a: PallasFr, b: PallasFr) {
    }

    proof fn lemma_projective_encode_injective(a: PallasProjective, b: PallasProjective) {
    }

    proof fn lemma_fr_repr_len(r: [u8; 32]) {
    }

    proof fn lemma_fr_value_injective(a: PallasFr, b: PallasFr) {
        crate::bytes::lemma_le_value_injective(a.bytes@, b.bytes@);
        assert(a.bytes =~= b.bytes);
    }

    proof fn lemma_projective_bytes_injective(a: PallasProjective, b: PallasProjective) {
        assert(a.spec_to_bytes() == a.encoding());
        assert(b.spec_to_bytes() == b.encoding());
        assert(a.bytes =~= b.bytes);
    }

    proof fn lemma_projective_encode_bytes(p: PallasProjective) {
        assert(p.spec_to_bytes() == p.encoding());
    }

    proof fn lemma_view_tag(s: PallasFr) {
        assert(s.spec_view_tag() == low_u64(s.value()));
        assert(Self::fr_value(s) == s.value());
    }

    fn fr_to_repr(s: &PallasFr) -> (r: [u8; 32]) {
        proof {
            use_type_invariant(s);
        }
        s.bytes
    }

    fn fr_from_repr(r: &[u8; 32]) -> (res: Result<PallasFr, ark_serialize::SerializationError>) {
        match ark_fr_check(r) {
            Ok(()) => Ok(PallasFr { bytes: *r }),
            Err(e) => Err(e),
        }
    }

    fn projective_to_repr(p: &PallasProjective) -> (r: [u8; 33]) {
        proof {
            use_type_invariant(p);
            let x = choose|x: nat| x < pallas_order() && p.bytes@ == pallas_generator_multiple(x);
            assert(x < Self::order() && p.spec_to_bytes() == Self::generator_multiple(x));
        }
        p.bytes
    }

    fn projective_from_repr(r: &[u8; 33]) -> (res: Result<
        PallasProjective,
        ark_serialize::SerializationError,
    >) {
        match ark_point_decode(r) {
            Ok(c) => {
                if crate::bytes::bytes_equal(&c, r) {
                    let p = PallasProjective { bytes: c };
                    proof {
                        assert(p.spec_to_bytes() == c@);
                        let x = choose|x: nat| x < pallas_order() && c@ == pallas_generator_multiple(x);
                        assert(x < Self::order() && Self::projective_repr_bytes(*r)
                            == Self::generator_multiple(x));
                    }
                    Ok(p)
                } else {
                    proof {
                        assert(!is_pallas_point(r@));
                    }
                    Err(ark_serialize::SerializationError::InvalidData)
                }
            },
            Err(e) => {
                proof {
                    assert(!is_pallas_point(r@));
                }
                Err(e)
            },
        }
    }

    fn fr_zero() -> (r: PallasFr) {
        let bytes = [0u8; 32];
        proof {
            crate::bytes::lemma_le_value_zeros(bytes@);
        }
        PallasFr { bytes }
    }

    fn derive_public_key(private_key: &PallasFr) -> (r: PallasProjective) {
        proof {
            use_type_invariant(private_key);
        }
        let bytes = ark_generator_mul(&private_key.bytes);
        let r = PallasProjective { bytes };
        proof {
            assert(r.spec_to_bytes() == bytes@);
        }
        r
    }

    fn generate_random_fr() -> (r: PallasFr) {
        PallasFr { bytes: ark_random_fr() }
    }

    fn compute_shared_point(private_key: PallasFr, public_key: PallasProjective) -> (r:
        PallasProjective) {
        proof {
            use_type_invariant(&private_key);
            use_type_invariant(&public_key);
        }
        let bytes = ark_point_mul(&public_key.bytes, &private_key.bytes);
        proof {
            let x = choose|x: nat| x < pallas_order() && public_key.bytes@
                == pallas_generator_multiple(x);
            vstd::arithmetic::div_mod::lemma_mod_bound(
                (x * le_value(private_key.bytes@)) as int,
                pallas_order() as int,
            );
        }
        let r = PallasProjective { bytes };
        proof {
            assert(r.spec_to_bytes() == bytes@);
        }
        r
    }

    fn fr_from_le_bytes_mod_order(bytes: &[u8; 32]) -> (r: PallasFr) {
        let out = ark_fr_from_le_bytes_mod_order(bytes);
        PallasFr { bytes: out }
    }

    fn add_fr(a: PallasFr, b: PallasFr) -> (r: PallasFr) {
        proof {
            use_type_invariant(&a);
            use_type_invariant(&b);
        }
        PallasFr { bytes: ark_fr_add(&a.bytes, &b.bytes) }
    }

    fn add_projective(a: PallasProjective, b: PallasProjective) -> (r:
        PallasProjective) {
        proof {
            use_type_invariant(&a);
            use_type_invariant(&b);
        }
        let bytes = ark_point_add(&a.bytes, &b.bytes);
        proof {
            let x = choose|x: nat| x < pallas_order() && a.bytes@
                == pallas_generator_multiple(x);
            let y = choose|y: nat| y < pallas_order() && b.bytes@
                == pallas_generator_multiple(y);
            assert(bytes@ == pallas_generator_multiple((x + y) % pallas_order()));
        }
        let r = PallasProjective { bytes };
        proof {
            assert(r.spec_to_bytes() == bytes@);
        }
        r
    }
}

} // verus!
