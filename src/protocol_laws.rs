//! What holds of the protocol across calls, proved from the contracts of the
//! functions involved.
use vstd::prelude::*;
use crate::bytes::{le_value, low_u64};
use crate::keccak::keccak256_of;
use crate::stealth_addresses::{StealthAddressOnCurve, ToBytesFromProjective};

verus! {

/// `pk` is `generator * sk`: what `derive_public_key` and `random_keypair` ensure.
pub open spec fn is_keypair<C: StealthAddressOnCurve>(sk: C::Fr, pk: C::Projective) -> bool {
    pk.spec_to_bytes() == C::generator_multiple(C::fr_value(sk))
}

/// `r` is `public_key * private_key`: what `compute_shared_point` ensures.
pub open spec fn shared_point_post<C: StealthAddressOnCurve>(
    private_key: C::Fr,
    public_key: C::Projective,
    r: C::Projective,
) -> bool {
    forall|x: nat|
        public_key.spec_to_bytes() == #[trigger] C::generator_multiple(x) ==> r.spec_to_bytes()
            == C::generator_multiple((x * C::fr_value(private_key)) % C::order())
}

/// The scalar hashed out of the shared point `generator * secret`.
pub open spec fn shared_scalar<C: StealthAddressOnCurve>(secret: nat) -> nat {
    le_value(keccak256_of(C::generator_multiple(secret % C::order()))) % C::order()
}

/// What `generate_stealth_address` ensures of its result `(address, view_tag)`.
pub open spec fn stealth_address_post<C: StealthAddressOnCurve>(
    viewing_public_key: C::Projective,
    spending_public_key: C::Projective,
    ephemeral_private_key: C::Fr,
    address: C::Projective,
    view_tag: u64,
) -> bool {
    forall|v: nat, s: nat|
        viewing_public_key.spec_to_bytes() == #[trigger] C::generator_multiple(v)
            && spending_public_key.spec_to_bytes() == #[trigger] C::generator_multiple(s) ==> {
            let h = shared_scalar::<C>(v * C::fr_value(ephemeral_private_key));
            &&& address.spec_to_bytes() == C::generator_multiple((h + s) % C::order())
            &&& view_tag == low_u64(h)
        }
}

/// What `generate_stealth_private_key` ensures of its result `r`.
pub open spec fn stealth_private_key_post<C: StealthAddressOnCurve>(
    ephemeral_public_key: C::Projective,
    viewing_key: C::Fr,
    spending_key: C::Fr,
    expected_view_tag: u64,
    r: Option<C::Fr>,
) -> bool {
    forall|e: nat|
        ephemeral_public_key.spec_to_bytes() == #[trigger] C::generator_multiple(e) ==> {
            let h = shared_scalar::<C>(e * C::fr_value(viewing_key));
            &&& (r is Some <==> low_u64(h) == expected_view_tag)
            &&& (r matches Some(k) ==> C::fr_value(k) == (C::fr_value(spending_key) + h)
                % C::order())
        }
}

/// Keypair consistency: the public key of a generated key pair is the one
/// that `derive_public_key` gives for its private key.
pub proof fn lemma_keypair_consistency<C: StealthAddressOnCurve>(
    sk: C::Fr,
    pk: C::Projective,
    derived: C::Projective,
)
    requires
        is_keypair::<C>(sk, pk),
        is_keypair::<C>(sk, derived),
    ensures
        derived == pk,
{
    C::lemma_projective_bytes_injective(derived, pk);
}

/// What `derive_public_key` ensures of its result `pk` for the key `sk`.
pub open spec fn derive_public_key_post<C: StealthAddressOnCurve>(
    sk: C::Fr,
    pk: C::Projective,
) -> bool {
    &&& is_keypair::<C>(sk, pk)
    &&& forall|j: nat|
        j < C::order() && j != C::fr_value(sk) ==> pk.spec_to_bytes()
            != #[trigger] C::generator_multiple(j)
}

/// Distinct private keys give distinct public keys, and equal ones equal
/// public keys: the generator has the full prime order of the group.
pub proof fn lemma_public_key_injective<C: StealthAddressOnCurve>(
    a: C::Fr,
    pa: C::Projective,
    b: C::Fr,
    pb: C::Projective,
)
    requires
        C::fr_value(a) < C::order(),
        C::fr_value(b) < C::order(),
        derive_public_key_post::<C>(a, pa),
        derive_public_key_post::<C>(b, pb),
    ensures
        (pa == pb) <==> (a == b),
{
    if pa == pb {
        assert(pa.spec_to_bytes() == C::generator_multiple(C::fr_value(b)));
        C::lemma_fr_value_injective(a, b);
    }
    if a == b {
        C::lemma_projective_bytes_injective(pa, pb);
    }
}

/// ECDH symmetry: each party's private key times the other's public key gives
/// the same shared point.
pub proof fn lemma_ecdh_symmetry<C: StealthAddressOnCurve>(
    sk1: C::Fr,
    pk1: C::Projective,
    sk2: C::Fr,
    pk2: C::Projective,
    shared1: C::Projective,
    shared2: C::Projective,
)
    requires
        is_keypair::<C>(sk1, pk1),
        is_keypair::<C>(sk2, pk2),
        shared_point_post::<C>(sk1, pk2, shared1),
        shared_point_post::<C>(sk2, pk1, shared2),
    ensures
        shared1 == shared2,
{
    let a = C::fr_value(sk1);
    let b = C::fr_value(sk2);
    assert(shared1.spec_to_bytes() == C::generator_multiple((b * a) % C::order()));
    assert(shared2.spec_to_bytes() == C::generator_multiple((a * b) % C::order()));
    assert(a * b == b * a) by (nonlinear_arith);
    C::lemma_projective_bytes_injective(shared1, shared2);
}

/// Hash determinism: hashing the same bytes twice gives the same scalar.
pub proof fn lemma_hash_deterministic<C: StealthAddressOnCurve>(
    input: Seq<u8>,
    r1: C::Fr,
    r2: C::Fr,
)
    requires
        C::fr_value(r1) == le_value(keccak256_of(input)) % C::order(),
        C::fr_value(r2) == le_value(keccak256_of(input)) % C::order(),
    ensures
        r1 == r2,
{
    C::lemma_fr_value_injective(r1, r2);
}

/// End-to-end recovery: for matched spending, viewing and ephemeral key pairs,
/// the receiver recovers a private key whose public key is the stealth address.
pub proof fn lemma_end_to_end_recovery<C: StealthAddressOnCurve>(
    spending_key: C::Fr,
    spending_public_key: C::Projective,
    viewing_key: C::Fr,
    viewing_public_key: C::Projective,
    ephemeral_private_key: C::Fr,
    ephemeral_public_key: C::Projective,
    address: C::Projective,
    view_tag: u64,
    recovered: Option<C::Fr>,
)
    requires
        is_keypair::<C>(spending_key, spending_public_key),
        is_keypair::<C>(viewing_key, viewing_public_key),
        is_keypair::<C>(ephemeral_private_key, ephemeral_public_key),
        stealth_address_post::<C>(
            viewing_public_key,
            spending_public_key,
            ephemeral_private_key,
            address,
            view_tag,
        ),
        stealth_private_key_post::<C>(
            ephemeral_public_key,
            viewing_key,
            spending_key,
            view_tag,
            recovered,
        ),
    ensures
        recovered is Some,
        is_keypair::<C>(recovered->0, address),
{
    let v = C::fr_value(viewing_key);
    let s = C::fr_value(spending_key);
    let e = C::fr_value(ephemeral_private_key);
    assert(v * e == e * v) by (nonlinear_arith);
    let h = shared_scalar::<C>(v * e);
    assert(address.spec_to_bytes() == C::generator_multiple((h + s) % C::order()));
    assert(view_tag == low_u64(h));
    assert(shared_scalar::<C>(e * v) == h);
    assert(recovered is Some);
    assert(C::fr_value(recovered->0) == (s + h) % C::order());
}

/// A view tag with its lowest bit flipped is refused: the receiver recovers
/// nothing for it.
pub proof fn lemma_flipped_view_tag_rejected<C: StealthAddressOnCurve>(
    spending_key: C::Fr,
    spending_public_key: C::Projective,
    viewing_key: C::Fr,
    viewing_public_key: C::Projective,
    ephemeral_private_key: C::Fr,
    ephemeral_public_key: C::Projective,
    address: C::Projective,
    view_tag: u64,
    recovered: Option<C::Fr>,
)
    requires
        is_keypair::<C>(spending_key, spending_public_key),
        is_keypair::<C>(viewing_key, viewing_public_key),
        is_keypair::<C>(ephemeral_private_key, ephemeral_public_key),
        stealth_address_post::<C>(
            viewing_public_key,
            spending_public_key,
            ephemeral_private_key,
            address,
            view_tag,
        ),
        stealth_private_key_post::<C>(
            ephemeral_public_key,
            viewing_key,
            spending_key,
            view_tag ^ 1,
            recovered,
        ),
    ensures
        recovered is None,
{
    let v = C::fr_value(viewing_key);
    let s = C::fr_value(spending_key);
    let e = C::fr_value(ephemeral_private_key);
    assert(v * e == e * v) by (nonlinear_arith);
    let h = shared_scalar::<C>(v * e);
    assert(spending_public_key.spec_to_bytes() == C::generator_multiple(s));
    assert(view_tag == low_u64(h));
    assert(view_tag != view_tag ^ 1) by (bit_vector);
}

/// What `fr_from_repr` ensures of its result `res` for the container `r`.
pub open spec fn fr_decode_post<C: StealthAddressOnCurve>(
    r: C::FrRepr,
    res: Result<C::Fr, ark_serialize::SerializationError>,
) -> bool {
    &&& (res is Ok <==> le_value(C::fr_repr_bytes(r)) < C::order())
    &&& (res matches Ok(s) ==> C::fr_encode(s) == r && C::fr_value(s) == le_value(
        C::fr_repr_bytes(r),
    ))
    &&& (res is Err ==> res->Err_0 == ark_serialize::SerializationError::InvalidData)
}

/// What `projective_from_repr` ensures of its result `res` for the container `r`.
pub open spec fn projective_decode_post<C: StealthAddressOnCurve>(
    r: C::ProjectiveRepr,
    res: Result<C::Projective, ark_serialize::SerializationError>,
) -> bool {
    &&& (res is Ok <==> exists|x: nat|
        x < C::order() && C::projective_repr_bytes(r) == C::generator_multiple(x))
    &&& (res matches Ok(p) ==> C::projective_encode(p) == r && p.spec_to_bytes()
        == C::projective_repr_bytes(r))
}

/// Scalar round trip: decoding the encoding of a scalar gives the scalar back.
pub proof fn lemma_fr_round_trip<C: StealthAddressOnCurve>(
    s: C::Fr,
    res: Result<C::Fr, ark_serialize::SerializationError>,
)
    requires
        C::fr_value(s) < C::order(),
        le_value(C::fr_repr_bytes(C::fr_encode(s))) == C::fr_value(s),
        fr_decode_post::<C>(C::fr_encode(s), res),
    ensures
        res == Ok::<C::Fr, ark_serialize::SerializationError>(s),
{
    C::lemma_fr_encode_injective(res->Ok_0, s);
}

/// A scalar container of all `0xff` bytes is refused with `InvalidData`: its
/// integer is not below the group order.
pub proof fn lemma_fr_all_ones_rejected<C: StealthAddressOnCurve>(
    r: C::FrRepr,
    res: Result<C::Fr, ark_serialize::SerializationError>,
)
    requires
        forall|i: int| 0 <= i < C::fr_repr_bytes(r).len() ==> C::fr_repr_bytes(r)[i] == 0xff,
        fr_decode_post::<C>(r, res),
    ensures
        res is Err,
        res->Err_0 == ark_serialize::SerializationError::InvalidData,
{
    C::lemma_fr_repr_len(r);
    C::lemma_order_bound();
    crate::bytes::lemma_le_value_all_ones(C::fr_repr_bytes(r));
}

/// Point round trip: decoding the encoding of a point of the group gives the
/// point back.
pub proof fn lemma_projective_round_trip<C: StealthAddressOnCurve>(
    p: C::Projective,
    res: Result<C::Projective, ark_serialize::SerializationError>,
)
    requires
        exists|x: nat| x < C::order() && p.spec_to_bytes() == C::generator_multiple(x),
        projective_decode_post::<C>(C::projective_encode(p), res),
    ensures
        res == Ok::<C::Projective, ark_serialize::SerializationError>(p),
{
    C::lemma_projective_encode_bytes(p);
    let x = choose|x: nat| x < C::order() && p.spec_to_bytes() == C::generator_multiple(x);
    assert(C::projective_repr_bytes(C::projective_encode(p)) == C::generator_multiple(x));
    C::lemma_projective_encode_injective(res->Ok_0, p);
}

} // verus!
