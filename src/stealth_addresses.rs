//! The stealth-address protocol, written once for every curve that supplies
//! a scalar field and a prime-order group.
use vstd::prelude::*;
use crate::bytes::{le_value, low_u64};
use crate::keccak::{keccak256, keccak256_of};

verus! {

/// A type that has a view tag: a cheap 64-bit filter value.
pub trait HasViewTag {
    spec fn spec_view_tag(&self) -> u64;

    /// Returns the view tag.
    fn get_view_tag(&self) -> (r: u64)
        ensures
            r == self.spec_view_tag(),
    ;
}

/// A group element with a canonical (compressed) byte encoding.
pub trait ToBytesFromProjective {
    spec fn spec_to_bytes(&self) -> Seq<u8>;

    /// The canonical compressed encoding of the point.
    fn to_bytes(&self) -> (r: Vec<u8>)
        ensures
            r@ == self.spec_to_bytes(),
    ;
}

/// Stealth addresses on an elliptic curve.
///
/// An implementation supplies the scalar field and the group; the protocol
/// itself is written once, in the provided methods. A point `p` is the multiple
/// `x` of the generator when `p.spec_to_bytes() == generator_multiple(x)`.
pub trait StealthAddressOnCurve: Sized {
    /// A scalar: an integer modulo the group order.
    type Fr: HasViewTag + Copy;
    /// A point of the prime-order group.
    type Projective: ToBytesFromProjective + Copy;
    /// The fixed-size byte container that carries a scalar across the boundary.
    type FrRepr: Copy;
    /// The fixed-size byte container that carries a point across the boundary.
    type ProjectiveRepr: Copy;

    /// The order of the group, which is the modulus of the scalar field.
    spec fn order() -> nat;

    /// The canonical encoding of `generator * k`.
    spec fn generator_multiple(k: nat) -> Seq<u8>;

    /// The integer that a scalar stands for.
    spec fn fr_value(s: Self::Fr) -> nat;

    /// The bytes a scalar container holds.
    spec fn fr_repr_bytes(r: Self::FrRepr) -> Seq<u8>;

    /// The bytes a point container holds.
    spec fn projective_repr_bytes(r: Self::ProjectiveRepr) -> Seq<u8>;

    /// The container that encodes a scalar.
    spec fn fr_encode(s: Self::Fr) -> Self::FrRepr;

    /// The container that encodes a point.
    spec fn projective_encode(p: Self::Projective) -> Self::ProjectiveRepr;

    /// The number of bytes of a scalar's encoding.
    spec fn fr_size() -> nat;

    /// The group order is above 1 and below `256^fr_size()`, so that scalars
    /// fit their encoding.
    proof fn lemma_order_bound()
        ensures
            1 < Self::order() < crate::bytes::pow256(Self::fr_size()),
    ;

    /// Distinct scalars have distinct encodings.
    proof fn lemma_fr_encode_injective(a: Self::Fr, b: Self::Fr)
        requires
            Self::fr_encode(a) == Self::fr_encode(b),
        ensures
            a == b,
    ;

    /// Distinct scalars stand for distinct integers.
    proof fn lemma_fr_value_injective(a: Self::Fr, b: Self::Fr)
        requires
            Self::fr_value(a) == Self::fr_value(b),
        ensures
            a == b,
    ;

    /// Distinct points have distinct canonical bytes.
    proof fn lemma_projective_bytes_injective(a: Self::Projective, b: Self::Projective)
        requires
            a.spec_to_bytes() == b.spec_to_bytes(),
        ensures
            a == b,
    ;

    /// Distinct points have distinct encodings.
    proof fn lemma_projective_encode_injective(a: Self::Projective, b: Self::Projective)
        requires
            Self::projective_encode(a) == Self::projective_encode(b),
        ensures
            a == b,
    ;

    /// The encoding of a point holds its canonical bytes.
    proof fn lemma_projective_encode_bytes(p: Self::Projective)
        ensures
            Self::projective_repr_bytes(Self::projective_encode(p)) == p.spec_to_bytes(),
    ;

    /// A scalar container holds `fr_size()` bytes.
    proof fn lemma_fr_repr_len(r: Self::FrRepr)
        ensures
            Self::fr_repr_bytes(r).len() == Self::fr_size(),
    ;

    /// The view tag of a scalar is the low 64 bits of its integer value.
    proof fn lemma_view_tag(s: Self::Fr)
        ensures
            s.spec_view_tag() == low_u64(Self::fr_value(s)),
    ;

    /// Encodes a scalar: its canonical little-endian bytes.
    fn fr_to_repr(s: &Self::Fr) -> (r: Self::FrRepr)
        ensures
            r == Self::fr_encode(*s),
            le_value(Self::fr_repr_bytes(r)) == Self::fr_value(*s),
            Self::fr_value(*s) < Self::order(),
    ;

    /// Decodes a scalar container: it is accepted exactly when the
    /// little-endian integer it holds is below the group order.
    fn fr_from_repr(r: &Self::FrRepr) -> (res: Result<Self::Fr, ark_serialize::SerializationError>)
        ensures
            res is Ok <==> le_value(Self::fr_repr_bytes(*r)) < Self::order(),
            res matches Ok(s) ==> Self::fr_encode(s) == *r && Self::fr_value(s) == le_value(
                Self::fr_repr_bytes(*r),
            ),
            res is Err ==> res->Err_0 == ark_serialize::SerializationError::InvalidData,
    ;

    /// Encodes a point: its canonical compressed bytes.
    fn projective_to_repr(p: &Self::Projective) -> (r: Self::ProjectiveRepr)
        ensures
            r == Self::projective_encode(*p),
            Self::projective_repr_bytes(r) == p.spec_to_bytes(),
            exists|x: nat| x < Self::order() && p.spec_to_bytes() == Self::generator_multiple(x),
    ;

    /// Decodes a point container. It is accepted exactly when it holds the
    /// canonical encoding of a point of the group, and then gives that point.
    fn projective_from_repr(r: &Self::ProjectiveRepr) -> (res: Result<
        Self::Projective,
        ark_serialize::SerializationError,
    >)
        ensures
            res is Ok <==> exists|x: nat|
                x < Self::order() && Self::projective_repr_bytes(*r) == Self::generator_multiple(
                    x,
                ),
            res matches Ok(p) ==> Self::projective_encode(p) == *r && p.spec_to_bytes()
                == Self::projective_repr_bytes(*r),
    ;

    /// The scalar zero.
    fn fr_zero() -> (r: Self::Fr)
        ensures
            Self::fr_value(r) == 0,
    ;

    /// Derives a public key from a private key: `generator * private_key`.
    /// The generator has the full group order, so no other scalar below the
    /// order has the same public key.
    fn derive_public_key(private_key: &Self::Fr) -> (r: Self::Projective)
        ensures
            r.spec_to_bytes() == Self::generator_multiple(Self::fr_value(*private_key)),
            forall|j: nat|
                j < Self::order() && j != Self::fr_value(*private_key) ==> r.spec_to_bytes()
                    != #[trigger] Self::generator_multiple(j),
    ;

    /// A scalar drawn uniformly from the field by the operating system's
    /// random source: any scalar of the field may come back.
    fn generate_random_fr() -> (r: Self::Fr)
        ensures
            Self::fr_value(r) < Self::order(),
    ;

    /// Computes the shared point `public_key * private_key`.
    fn compute_shared_point(private_key: Self::Fr, public_key: Self::Projective) -> (r:
        Self::Projective)
        ensures
            forall|x: nat|
                public_key.spec_to_bytes() == #[trigger] Self::generator_multiple(x)
                    ==> r.spec_to_bytes() == Self::generator_multiple(
                    (x * Self::fr_value(private_key)) % Self::order(),
                ),
    ;

    /// The scalar that `bytes`, read as a little-endian integer, is congruent to.
    fn fr_from_le_bytes_mod_order(bytes: &[u8; 32]) -> (r: Self::Fr)
        ensures
            Self::fr_value(r) == le_value(bytes@) % Self::order(),
    ;

    /// The sum of two scalars.
    fn add_fr(a: Self::Fr, b: Self::Fr) -> (r: Self::Fr)
        ensures
            Self::fr_value(r) == (Self::fr_value(a) + Self::fr_value(b)) % Self::order(),
    ;

    /// The sum of two points.
    fn add_projective(a: Self::Projective, b: Self::Projective) -> (r: Self::Projective)
        ensures
            forall|x: nat, y: nat|
                a.spec_to_bytes() == #[trigger] Self::generator_multiple(x) && b.spec_to_bytes()
                    == #[trigger] Self::generator_multiple(y) ==> r.spec_to_bytes()
                    == Self::generator_multiple((x + y) % Self::order()),
    ;

    /// Generates a random key pair `(private_key, generator * private_key)`.
    fn random_keypair() -> (r: (Self::Fr, Self::Projective))
        ensures
            r.1.spec_to_bytes() == Self::generator_multiple(Self::fr_value(r.0)),
            Self::fr_value(r.0) < Self::order(),
    {
        let private_key = Self::generate_random_fr();
        let public_key = Self::derive_public_key(&private_key);
        (private_key, public_key)
    }

    /// Hashes bytes to a scalar: Keccak-256, read as a little-endian integer
    /// and reduced modulo the group order.
    fn hash_to_fr(input: &[u8]) -> (r: Self::Fr)
        ensures
            Self::fr_value(r) == le_value(keccak256_of(input@)) % Self::order(),
    {
        let hash = keccak256(input);
        Self::fr_from_le_bytes_mod_order(&hash)
    }

    /// Generates a stealth address and its view tag from the receiver's
    /// viewing and spending public keys and an ephemeral private key.
    ///
    /// With `h` the hash of the shared point `viewing_public_key *
    /// ephemeral_private_key`, the address is `generator * h +
    /// spending_public_key` and the view tag is the low 64 bits of `h`.
    fn generate_stealth_address(
        viewing_public_key: Self::Projective,
        spending_public_key: Self::Projective,
        ephemeral_private_key: Self::Fr,
    ) -> (r: (Self::Projective, u64))
        ensures
            forall|v: nat, s: nat|
                viewing_public_key.spec_to_bytes() == #[trigger] Self::generator_multiple(v)
                    && spending_public_key.spec_to_bytes() == #[trigger] Self::generator_multiple(s)
                    ==> {
                    let h = le_value(
                        keccak256_of(
                            Self::generator_multiple(
                                (v * Self::fr_value(ephemeral_private_key)) % Self::order(),
                            ),
                        ),
                    ) % Self::order();
                    &&& r.0.spec_to_bytes() == Self::generator_multiple((h + s) % Self::order())
                    &&& r.1 == low_u64(h)
                },
    {
        let q = Self::compute_shared_point(ephemeral_private_key, viewing_public_key);
        let q_bytes = q.to_bytes();
        let q_hashed = Self::hash_to_fr(q_bytes.as_slice());
        let q_hashed_in_group = Self::derive_public_key(&q_hashed);
        let view_tag = q_hashed.get_view_tag();
        let address = Self::add_projective(q_hashed_in_group, spending_public_key);
        proof {
            Self::lemma_view_tag(q_hashed);
        }
        (address, view_tag)
    }

    /// Recovers the stealth private key for an ephemeral public key, or
    /// nothing when the view tag does not match (an output meant for someone
    /// else, which is no error).
    ///
    /// With `h` the hash of the shared point `ephemeral_public_key *
    /// viewing_key`, the key is `spending_key + h`, when the low 64 bits of `h`
    /// are `expected_view_tag`.
    fn generate_stealth_private_key(
        ephemeral_public_key: Self::Projective,
        viewing_key: Self::Fr,
        spending_key: Self::Fr,
        expected_view_tag: u64,
    ) -> (r: Option<Self::Fr>)
        ensures
            forall|e: nat|
                ephemeral_public_key.spec_to_bytes() == #[trigger] Self::generator_multiple(e)
                    ==> {
                    let h = le_value(
                        keccak256_of(
                            Self::generator_multiple(
                                (e * Self::fr_value(viewing_key)) % Self::order(),
                            ),
                        ),
                    ) % Self::order();
                    &&& (r is Some <==> low_u64(h) == expected_view_tag)
                    &&& (r matches Some(k) ==> Self::fr_value(k) == (Self::fr_value(spending_key)
                        + h) % Self::order())
                },
    {
        let q_receiver = Self::compute_shared_point(viewing_key, ephemeral_public_key);
        let q_bytes = q_receiver.to_bytes();
        let q_receiver_hashed = Self::hash_to_fr(q_bytes.as_slice());
        let view_tag = q_receiver_hashed.get_view_tag();
        proof {
            Self::lemma_view_tag(q_receiver_hashed);
        }
        if view_tag == expected_view_tag {
            Some(Self::add_fr(spending_key, q_receiver_hashed))
        } else {
            None
        }
    }
}

} // verus!
