//! Stealth addresses on BW6-761, with arkworks' `ark-bw6-761` for the
//! field and group arithmetic. The group is the prime-order subgroup G1.
use vstd::prelude::*;
use ark_ec::Group;
use ark_ff::PrimeField;
use ark_serialize::{CanonicalDeserialize, CanonicalSerialize};
use ark_std::UniformRand;
use crate::bytes::{le_value, low_u64, low_u64_of_le};
use crate::stealth_addresses::{HasViewTag, StealthAddressOnCurve, ToBytesFromProjective};

verus! {

/// The order of the BW6-761 group: the modulus of its scalar field.
pub open spec fn bw6_761_order() -> nat {
    258664426012969094010652733694893533536393512754914660539884262666720468348340822774968888139573360124440321458177nat
}

/// The compressed encoding (96 bytes) of `G * k` on BW6-761, `G` its
/// standard generator.
pub uninterp spec fn bw6_761_generator_multiple(k: nat) -> Seq<u8>;

/// `b` encodes a point of the BW6-761 group.
pub open spec fn is_bw6_761_point(b: Seq<u8>) -> bool {
    exists|k: nat| k < bw6_761_order() && b == bw6_761_generator_multiple(k)
}

/// Relies on `ark_bw6_761::Fr::rand` with `OsRng`: a uniform scalar, whose
/// compressed encoding is its value in 48 little-endian bytes.
#[verifier::external_body]
fn ark_random_fr() -> (r: [u8; 48])
    ensures
        le_value(r@) < bw6_761_order(),
{
    let s = ark_bw6_761::Fr::rand(&mut ark_std::rand::rngs::OsRng);
    let mut out = [0u8; 48];
    s.serialize_compressed(&mut out[..]).unwrap();
    out
}

/// Relies on `ark_bw6_761::Fr::from_le_bytes_mod_order`: the little-endian
/// integer reduced modulo the group order.
#[verifier::external_body]
fn ark_fr_from_le_bytes_mod_order(b: &[u8; 32]) -> (r: [u8; 48])
    ensures
        le_value(r@) == le_value(b@) % bw6_761_order(),
{
    let s = ark_bw6_761::Fr::from_le_bytes_mod_order(&b[..]);
    let mut out = [0u8; 48];
    s.serialize_compressed(&mut out[..]).unwrap();
    out
}

/// Relies on `+` of `ark_bw6_761::Fr`: addition modulo the group order.
#[verifier::external_body]
fn ark_fr_add(a: &[u8; 48], b: &[u8; 48]) -> (r: [u8; 48])
    requires
        le_value(a@) < bw6_761_order(),
        le_value(b@) < bw6_761_order(),
    ensures
        le_value(r@) == (le_value(a@) + le_value(b@)) % bw6_761_order(),
{
    let x = ark_bw6_761::Fr::deserialize_compressed(&a[..]).unwrap();
    let y = ark_bw6_761::Fr::deserialize_compressed(&b[..]).unwrap();
    let mut out = [0u8; 48];
    (x + y).serialize_compressed(&mut out[..]).unwrap();
    out
}

/// Relies on `ark_bw6_761::Fr::deserialize_compressed`: 48 little-endian
/// bytes are accepted when their integer is below the modulus, and refused
/// with `InvalidData` otherwise.
#[verifier::external_body]
fn ark_fr_check(b: &[u8; 48]) -> (r: Result<(), ark_serialize::SerializationError>)
    ensures
        le_value(b@) < bw6_761_order() <==> r is Ok,
        r is Err ==> r->Err_0 == ark_serialize::SerializationError::InvalidData,
{
    match ark_bw6_761::Fr::deserialize_compressed(&b[..]) {
        Ok(_) => Ok(()),
        Err(e) => Err(e),
    }
}

/// Relies on `ark_bw6_761::G1Projective::generator()` and `*` by a scalar:
/// the multiple `k` of the generator, compressed. The generator has order
/// `bw6_761_order()`, so the multiples below it are distinct points, with
/// distinct encodings.
#[verifier::external_body]
fn ark_generator_mul(k: &[u8; 48]) -> (r: [u8; 96])
    requires
        le_value(k@) < bw6_761_order(),
    ensures
        r@ == bw6_761_generator_multiple(le_value(k@)),
        forall|j: nat|
            j < bw6_761_order() && j != le_value(k@) ==> r@
                != #[trigger] bw6_761_generator_multiple(j),
{
    let s = ark_bw6_761::Fr::deserialize_compressed(&k[..]).unwrap();
    let p = ark_bw6_761::G1Projective::generator() * s;
    let mut out = [0u8; 96];
    p.serialize_compressed(&mut out[..]).unwrap();
    out
}

/// Relies on `*` of `ark_bw6_761::G1Projective` by a scalar: `G * x` times
/// `k` is `G * (x * k)`, the subgroup having prime order.
#[verifier::external_body]
fn ark_point_mul(p: &[u8; 96], k: &[u8; 48]) -> (r: [u8; 96])
    requires
        is_bw6_761_point(p@),
        le_value(k@) < bw6_761_order(),
    ensures
        forall|x: nat|
            p@ == #[trigger] bw6_761_generator_multiple(x) ==> r@
                == bw6_761_generator_multiple((x * le_value(k@)) % bw6_761_order()),
{
    let q = ark_bw6_761::G1Projective::deserialize_compressed(&p[..]).unwrap();
    let s = ark_bw6_761::Fr::deserialize_compressed(&k[..]).unwrap();
    let mut out = [0u8; 96];
    (q * s).serialize_compressed(&mut out[..]).unwrap();
    out
}

/// Relies on `+` of `ark_bw6_761::G1Projective`: `G * x + G * y` is
/// `G * (x + y)`.
#[verifier::external_body]
fn ark_point_add(a: &[u8; 96], b: &[u8; 96]) -> (r: [u8; 96])
    requires
        is_bw6_761_point(a@),
        is_bw6_761_point(b@),
    ensures
        forall|x: nat, y: nat|
            a@ == #[trigger] bw6_761_generator_multiple(x) && b@
                == #[trigger] bw6_761_generator_multiple(y) ==> r@
                == bw6_761_generator_multiple((x + y) % bw6_761_order()),
{
    let p = ark_bw6_761::G1Projective::deserialize_compressed(&a[..]).unwrap();
    let q = ark_bw6_761::G1Projective::deserialize_compressed(&b[..]).unwrap();
    let mut out = [0u8; 96];
    (p + q).serialize_compressed(&mut out[..]).unwrap();
    out
}

/// Relies on `ark_bw6_761::G1Projective::deserialize_compressed`, which checks
/// that the point is on the curve and in the prime-order subgroup, and `serialize_compressed`: what decodes is
/// a point of the group, given back in its canonical encoding, and a canonical
/// encoding decodes to itself.
#[verifier::external_body]
fn ark_point_decode(b: &[u8; 96]) -> (r: Result<[u8; 96], ark_serialize::SerializationError>)
    ensures
        r is Ok ==> is_bw6_761_point(r->Ok_0@),
        is_bw6_761_point(b@) ==> (r is Ok && r->Ok_0 == *b),
{
    match ark_bw6_761::G1Projective::deserialize_compressed(&b[..]) {
        Ok(p) => {
            let mut out = [0u8; 96];
            p.serialize_compressed(&mut out[..]).unwrap();
            Ok(out)
        },
        Err(e) => Err(e),
    }
}

/// A BW6-761 scalar, held as its 48 canonical little-endian bytes.
#[derive(Debug, Clone, Copy, PartialEq, Eq)]
pub struct Bw6_761Fr {
    bytes: [u8; 48],
}

impl Bw6_761Fr {
    #[verifier::type_invariant]
    spec fn inv(self) -> bool {
        le_value(self.bytes@) < bw6_761_order()
    }

    /// The integer this scalar stands for.
    pub closed spec fn value(self) -> nat {
        le_value(self.bytes@)
    }

    /// The container that encodes this scalar.
    pub closed spec fn repr(self) -> [u8; 48] {
        self.bytes
    }
}

/// A point of the BW6-761 group, held as its 96-byte compressed encoding.
#[derive(Debug, Clone, Copy, PartialEq, Eq)]
pub struct Bw6_761Projective {
    bytes: [u8; 96],
}

impl Bw6_761Projective {
    #[verifier::type_invariant]
    spec fn inv(self) -> bool {
        is_bw6_761_point(self.bytes@)
    }

    /// The compressed encoding of this point.
    pub closed spec fn encoding(self) -> Seq<u8> {
        self.bytes@
    }

    /// The container that encodes this point.
    pub closed spec fn repr(self) -> [u8; 96] {
        self.bytes
    }
}

impl HasViewTag for Bw6_761Fr {
    open spec fn spec_view_tag(&self) -> u64 {
        low_u64(self.value())
    }

    fn get_view_tag(&self) -> (r: u64) {
        low_u64_of_le(&self.bytes)
    }
}

impl ToBytesFromProjective for Bw6_761Projective {
    open spec fn spec_to_bytes(&self) -> Seq<u8> {
        self.encoding()
    }

    fn to_bytes(&self) -> (r: Vec<u8>) {
        crate::bytes::array_to_vec(&self.bytes)
    }
}

/// The BW6-761 curve, with G1 for its group.
#[allow(non_camel_case_types)]
pub struct Bw6_761;

impl StealthAddressOnCurve for Bw6_761 {
    type Fr = Bw6_761Fr;
    type Projective = Bw6_761Projective;
    type FrRepr = [u8; 48];
    type ProjectiveRepr = [u8; 96];

    open spec fn order() -> nat {
        bw6_761_order()
    }

    open spec fn generator_multiple(k: nat) -> Seq<u8> {
        bw6_761_generator_multiple(k)
    }

    open spec fn fr_value(s: Bw6_761Fr) -> nat {
        s.value()
    }

    open spec fn fr_size() -> nat {
        48
    }

    open spec fn fr_repr_bytes(r: [u8; 48]) -> Seq<u8> {
        r@
    }

    open spec fn projective_repr_bytes(r: [u8; 96]) -> Seq<u8> {
        r@
    }

    open spec fn fr_encode(s: Bw6_761Fr) -> [u8; 48] {
        s.repr()
    }

    open spec fn projective_encode(p: Bw6_761Projective) -> [u8; 96] {
        p.repr()
    }

    proof fn lemma_order_bound() {
        crate::bytes::lemma_pow256_48();
    }

    proof fn lemma_fr_encode_injective(a: Bw6_761Fr, b: Bw6_761Fr) {
    }

    proof fn lemma_projective_encode_injective(a: Bw6_761Projective, b: Bw6_761Projective) {
    }

    proof fn lemma_fr_repr_len(r: [u8; 48]) {
    }

    proof fn lemma_fr_value_injective(a: Bw6_761Fr, b: Bw6_761Fr) {
        crate::bytes::lemma_le_value_injective(a.bytes@, b.bytes@);
        assert(a.bytes =~= b.bytes);
    }

    proof fn lemma_projective_bytes_injective(a: Bw6_761Projective, b: Bw6_761Projective) {
        assert(a.spec_to_bytes() == a.encoding());
        assert(b.spec_to_bytes() == b.encoding());
        assert(a.bytes =~= b.bytes);
    }

    proof fn lemma_projective_encode_bytes(p: Bw6_761Projective) {
        assert(p.spec_to_bytes() == p.encoding());
    }

    proof fn lemma_view_tag(s: Bw6_761Fr) {
        assert(s.spec_view_tag() == low_u64(s.value()));
        assert(Self::fr_value(s) == s.value());
    }

    fn fr_to_repr(s: &Bw6_761Fr) -> (r: [u8; 48]) {
        proof {
            use_type_invariant(s);
        }
        s.bytes
    }

    fn fr_from_repr(r: &[u8; 48]) -> (res: Result<Bw6_761Fr, ark_serialize::SerializationError>) {
        match ark_fr_check(r) {
            Ok(()) => Ok(Bw6_761Fr { bytes: *r }),
            Err(e) => Err(e),
        }
    }

    fn projective_to_repr(p: &Bw6_761Projective) -> (r: [u8; 96]) {
        proof {
            use_type_invariant(p);
            let x = choose|x: nat| x < bw6_761_order() && p.bytes@ == bw6_761_generator_multiple(x);
            assert(x < Self::order() && p.spec_to_bytes() == Self::generator_multiple(x));
        }
        p.bytes
    }

    fn projective_from_repr(r: &[u8; 96]) -> (res: Result<
        Bw6_761Projective,
        ark_serialize::SerializationError,
    >) {
        match ark_point_decode(r) {
            Ok(c) => {
                if crate::bytes::bytes_equal(&c, r) {
                    let p = Bw6_761Projective { bytes: c };
                    proof {
                        assert(p.spec_to_bytes() == c@);
                        let x = choose|x: nat| x < bw6_761_order() && c@ == bw6_761_generator_multiple(x);
                        assert(x < Self::order() && Self::projective_repr_bytes(*r)
                            == Self::generator_multiple(x));
                    }
                    Ok(p)
                } else {
                    proof {
                        assert(!is_bw6_761_point(r@));
                    }
                    Err(ark_serialize::SerializationError::InvalidData)
                }
            },
            Err(e) => {
                proof {
                    assert(!is_bw6_761_point(r@));
                }
                Err(e)
            },
        }
    }

    fn fr_zero() -> (r: Bw6_761Fr) {
        let bytes = [0u8; 48];
        proof {
            crate::bytes::lemma_le_value_zeros(bytes@);
        }
        Bw6_761Fr { bytes }
    }

    fn derive_public_key(private_key: &Bw6_761Fr) -> (r: Bw6_761Projective) {
        proof {
            use_type_invariant(private_key);
        }
        let bytes = ark_generator_mul(&private_key.bytes);
        let r = Bw6_761Projective { bytes };
        proof {
            assert(r.spec_to_bytes() == bytes@);
        }
        r
    }

    fn generate_random_fr() -> (r: Bw6_761Fr) {
        Bw6_761Fr { bytes: ark_random_fr() }
    }

    fn compute_shared_point(private_key: Bw6_761Fr, public_key: Bw6_761Projective) -> (r:
        Bw6_761Projective) {
        proof {
            use_type_invariant(&private_key);
            use_type_invariant(&public_key);
        }
        let bytes = ark_point_mul(&public_key.bytes, &private_key.bytes);
        proof {
            let x = choose|x: nat| x < bw6_761_order() && public_key.bytes@
                == bw6_761_generator_multiple(x);
            vstd::arithmetic::div_mod::lemma_mod_bound(
                (x * le_value(private_key.bytes@)) as int,
                bw6_761_order() as int,
            );
        }
        let r = Bw6_761Projective { bytes };
        proof {
            assert(r.spec_to_bytes() == bytes@);
        }
        r
    }

    fn fr_from_le_bytes_mod_order(bytes: &[u8; 32]) -> (r: Bw6_761Fr) {
        let out = ark_fr_from_le_bytes_mod_order(bytes);
        Bw6_761Fr { bytes: out }
    }

    fn add_fr(a: Bw6_761Fr, b: Bw6_761Fr) -> (r: Bw6_761Fr) {
        proof {
            use_type_invariant(&a);
            use_type_invariant(&b);
        }
        Bw6_761Fr { bytes: ark_fr_add(&a.bytes, &b.bytes) }
    }

    fn add_projective(a: Bw6_761Projective, b: Bw6_761Projective) -> (r:
        Bw6_761Projective) {
        proof {
            use_type_invariant(&a);
            use_type_invariant(&b);
        }
        let bytes = ark_point_add(&a.bytes, &b.bytes);
        proof {
            let x = choose|x: nat| x < bw6_761_order() && a.bytes@
                == bw6_761_generator_multiple(x);
            let y = choose|y: nat| y < bw6_761_order() && b.bytes@
                == bw6_761_generator_multiple(y);
            assert(bytes@ == bw6_761_generator_multiple((x + y) % bw6_761_order()));
        }
        let r = Bw6_761Projective { bytes };
        proof {
            assert(r.spec_to_bytes() == bytes@);
        }
        r
    }
}

} // verus!
