//! The boundary layer: each protocol operation on fixed-size byte containers,
//! with absent inputs refused, decoding errors turned into error codes, and a
//! fully formed result on every path.
use vstd::prelude::*;
use crate::bytes::{le_value, low_u64};
use crate::ffi_prelude::{code_of_serialization_error, CErrorCode, CReturn};
use crate::protocol_laws::shared_scalar;
use crate::stealth_addresses::{StealthAddressOnCurve, ToBytesFromProjective};

verus! {

/// A key pair, as containers.
#[derive(Debug, Clone, Copy, PartialEq, Eq)]
pub struct KeyPair<F, P> {
    pub private_key: F,
    pub public_key: P,
}

/// A stealth address and its view tag, as containers.
#[derive(Debug, Clone, Copy, PartialEq, Eq)]
pub struct StealthAddress<P> {
    pub stealth_address: P,
    pub view_tag: u64,
}

/// The integer a scalar container holds.
pub open spec fn fr_repr_value<C: StealthAddressOnCurve>(r: C::FrRepr) -> nat {
    le_value(C::fr_repr_bytes(r))
}

/// A scalar container holds a scalar: an integer below the group order.
pub open spec fn is_fr_repr<C: StealthAddressOnCurve>(r: C::FrRepr) -> bool {
    fr_repr_value::<C>(r) < C::order()
}

/// A point container holds the canonical encoding of `generator * x`.
pub open spec fn repr_has_log<C: StealthAddressOnCurve>(r: C::ProjectiveRepr, x: nat) -> bool {
    C::projective_repr_bytes(r) == C::generator_multiple(x)
}

/// The zero scalar container: all bytes zero.
pub open spec fn is_zero_fr_repr<C: StealthAddressOnCurve>(r: C::FrRepr) -> bool {
    fr_repr_value::<C>(r) == 0 && C::fr_repr_bytes(r).len() == C::fr_size()
}

/// A point container holds the canonical encoding of a point of the group.
pub open spec fn is_projective_repr<C: StealthAddressOnCurve>(r: C::ProjectiveRepr) -> bool {
    exists|x: nat| x < C::order() && #[trigger] repr_has_log::<C>(r, x)
}

/// The zero point container: the encoding of the identity, `generator * 0`.
pub open spec fn is_zero_projective_repr<C: StealthAddressOnCurve>(r: C::ProjectiveRepr) -> bool {
    repr_has_log::<C>(r, 0)
}

/// The zero key pair.
pub open spec fn is_zero_keypair<C: StealthAddressOnCurve>(
    k: KeyPair<C::FrRepr, C::ProjectiveRepr>,
) -> bool {
    is_zero_fr_repr::<C>(k.private_key) && is_zero_projective_repr::<C>(k.public_key)
}

/// The zero stealth address payload.
pub open spec fn is_zero_stealth_address<C: StealthAddressOnCurve>(
    s: StealthAddress<C::ProjectiveRepr>,
) -> bool {
    is_zero_projective_repr::<C>(s.stealth_address) && s.view_tag == 0
}

proof fn lemma_is_projective_repr<C: StealthAddressOnCurve>(r: C::ProjectiveRepr)
    requires
        exists|x: nat| x < C::order() && C::projective_repr_bytes(r) == C::generator_multiple(x),
    ensures
        is_projective_repr::<C>(r),
{
    let x = choose|x: nat| x < C::order() && C::projective_repr_bytes(r) == C::generator_multiple(x);
    assert(repr_has_log::<C>(r, x));
}

fn zero_fr_repr<C: StealthAddressOnCurve>() -> (r: C::FrRepr)
    ensures
        is_zero_fr_repr::<C>(r),
{
    let z = C::fr_zero();
    let r = C::fr_to_repr(&z);
    proof {
        C::lemma_fr_repr_len(r);
    }
    r
}

fn zero_projective_repr<C: StealthAddressOnCurve>() -> (r: C::ProjectiveRepr)
    ensures
        is_zero_projective_repr::<C>(r),
{
    let z = C::fr_zero();
    let p = C::derive_public_key(&z);
    C::projective_to_repr(&p)
}

/// Draws a random scalar and hands back its container.
pub fn ffi_generate_random_fr<C: StealthAddressOnCurve>() -> (r: CReturn<C::FrRepr>)
    ensures
        r.err_code == CErrorCode::NoError,
        is_fr_repr::<C>(r.value),
{
    let s = C::generate_random_fr();
    let value = C::fr_to_repr(&s);
    CReturn { value, err_code: CErrorCode::NoError }
}

/// Derives the public key of a private key container.
pub fn ffi_derive_public_key<C: StealthAddressOnCurve>(private_key: Option<&C::FrRepr>) -> (r:
    CReturn<C::ProjectiveRepr>)
    ensures
        (match private_key {
            None => r.err_code == CErrorCode::InvalidKeys && is_zero_projective_repr::<C>(r.value),
            Some(k) => if is_fr_repr::<C>(*k) {
                r.err_code == CErrorCode::NoError && repr_has_log::<C>(
                    r.value,
                    fr_repr_value::<C>(*k),
                )
            } else {
                r.err_code == CErrorCode::SerializationErrorInvalidData
                    && is_zero_projective_repr::<C>(r.value)
            },
        }),
{
    let private_key = match private_key {
        None => {
            return CReturn { value: zero_projective_repr::<C>(), err_code: CErrorCode::InvalidKeys };
        },
        Some(k) => k,
    };
    let private_key = match C::fr_from_repr(private_key) {
        Ok(s) => s,
        Err(e) => {
            return CReturn { value: zero_projective_repr::<C>(), err_code: CErrorCode::from(e) };
        },
    };
    let public_key = C::derive_public_key(&private_key);
    CReturn { value: C::projective_to_repr(&public_key), err_code: CErrorCode::NoError }
}

/// Generates a random key pair and hands back its containers.
pub fn ffi_random_keypair<C: StealthAddressOnCurve>() -> (r: CReturn<
    KeyPair<C::FrRepr, C::ProjectiveRepr>,
>)
    ensures
        r.err_code == CErrorCode::NoError,
        is_fr_repr::<C>(r.value.private_key),
        repr_has_log::<C>(r.value.public_key, fr_repr_value::<C>(r.value.private_key)),
{
    let (private_key, public_key) = C::random_keypair();
    let value = KeyPair {
        private_key: C::fr_to_repr(&private_key),
        public_key: C::projective_to_repr(&public_key),
    };
    CReturn { value, err_code: CErrorCode::NoError }
}

/// What a sender publishes, from containers: the receiver's viewing and
/// spending public keys and an ephemeral private key.
///
/// An absent input gives `InvalidKeys`; an input that does not decode gives the
/// code of its serialization error. On every error the value is zero.
pub fn ffi_generate_stealth_address<C: StealthAddressOnCurve>(
    viewing_public_key: Option<&C::ProjectiveRepr>,
    spending_public_key: Option<&C::ProjectiveRepr>,
    ephemeral_private_key: Option<&C::FrRepr>,
) -> (r: CReturn<StealthAddress<C::ProjectiveRepr>>)
    ensures
        viewing_public_key is None || spending_public_key is None || ephemeral_private_key is None
            ==> r.err_code == CErrorCode::InvalidKeys,
        r.err_code != CErrorCode::NoError ==> is_zero_stealth_address::<C>(r.value),
        r.err_code == CErrorCode::NoError || r.err_code == CErrorCode::InvalidKeys
            || r.err_code.is_serialization_error(),
        (match (viewing_public_key, spending_public_key, ephemeral_private_key) {
            (Some(vpk), Some(spk), Some(esk)) => {
                &&& !is_projective_repr::<C>(*vpk) || !is_projective_repr::<C>(*spk)
                    ==> r.err_code.is_serialization_error()
                &&& is_projective_repr::<C>(*vpk) && is_projective_repr::<C>(*spk)
                    && !is_fr_repr::<C>(*esk) ==> r.err_code
                    == CErrorCode::SerializationErrorInvalidData
                &&& forall|v: nat, s: nat|
                #![trigger repr_has_log::<C>(*vpk, v), repr_has_log::<C>(*spk, s)]
                v < C::order() && s < C::order() && repr_has_log::<C>(*vpk, v) && repr_has_log::<
                    C,
                >(*spk, s) ==> if is_fr_repr::<C>(*esk) {
                    let h = shared_scalar::<C>(v * fr_repr_value::<C>(*esk));
                    &&& r.err_code == CErrorCode::NoError
                    &&& repr_has_log::<C>(r.value.stealth_address, (h + s) % C::order())
                    &&& r.value.view_tag == low_u64(h)
                } else {
                    r.err_code == CErrorCode::SerializationErrorInvalidData
                }
            },
            _ => true,
        }),
{
    let (vpk_repr, spk_repr, esk_repr) = match (
        viewing_public_key,
        spending_public_key,
        ephemeral_private_key,
    ) {
        (Some(v), Some(s), Some(e)) => (v, s, e),
        _ => {
            return CReturn { value: zero_stealth_address::<C>(), err_code: CErrorCode::InvalidKeys };
        },
    };
    let vpk = match C::projective_from_repr(vpk_repr) {
        Ok(p) => {
            proof {
                lemma_is_projective_repr::<C>(*vpk_repr);
            }
            p
        },
        Err(e) => {
            proof {
                assert(code_of_serialization_error(e).is_serialization_error());
                assert(!is_projective_repr::<C>(*vpk_repr));
            }
            return CReturn { value: zero_stealth_address::<C>(), err_code: CErrorCode::from(e) };
        },
    };
    let spk = match C::projective_from_repr(spk_repr) {
        Ok(p) => {
            proof {
                lemma_is_projective_repr::<C>(*spk_repr);
            }
            p
        },
        Err(e) => {
            proof {
                assert(code_of_serialization_error(e).is_serialization_error());
                assert(!is_projective_repr::<C>(*spk_repr));
            }
            return CReturn { value: zero_stealth_address::<C>(), err_code: CErrorCode::from(e) };
        },
    };
    let esk = match C::fr_from_repr(esk_repr) {
        Ok(k) => k,
        Err(e) => {
            proof {
                assert(e == ark_serialize::SerializationError::InvalidData);
                assert(code_of_serialization_error(e) == CErrorCode::SerializationErrorInvalidData);
            }
            return CReturn { value: zero_stealth_address::<C>(), err_code: CErrorCode::from(e) };
        },
    };
    let (address, view_tag) = C::generate_stealth_address(vpk, spk, esk);
    let value = StealthAddress { stealth_address: C::projective_to_repr(&address), view_tag };
    proof {
        C::lemma_projective_encode_bytes(address);
        assert forall|v: nat, s: nat|
            #![trigger repr_has_log::<C>(*vpk_repr, v), repr_has_log::<C>(*spk_repr, s)]
            v < C::order() && s < C::order() && repr_has_log::<C>(*vpk_repr, v) && repr_has_log::<C>(*spk_repr, s)
            implies {
                let h = shared_scalar::<C>(v * fr_repr_value::<C>(*esk_repr));
                &&& repr_has_log::<C>(value.stealth_address, (h + s) % C::order())
                &&& value.view_tag == low_u64(h)
            } by {
            assert(v < C::order() && C::projective_repr_bytes(*vpk_repr) == C::generator_multiple(v));
            assert(s < C::order() && C::projective_repr_bytes(*spk_repr) == C::generator_multiple(s));
            C::lemma_projective_encode_bytes(vpk);
            C::lemma_projective_encode_bytes(spk);
            assert(vpk.spec_to_bytes() == C::generator_multiple(v));
            assert(spk.spec_to_bytes() == C::generator_multiple(s));
        }
    }
    CReturn { value, err_code: CErrorCode::NoError }
}

/// What the receiver recovers, from containers: the ephemeral public key, the
/// viewing and spending private keys and the expected view tag.
///
/// A view tag that does not match is no error: the code is `NoError` and the
/// value is absent. An absent input gives `InvalidKeys`; an input that does
/// not decode gives the code of its serialization error. On every error the
/// value is absent.
pub fn ffi_generate_stealth_private_key<C: StealthAddressOnCurve>(
    ephemeral_public_key: Option<&C::ProjectiveRepr>,
    viewing_key: Option<&C::FrRepr>,
    spending_key: Option<&C::FrRepr>,
    view_tag: Option<&u64>,
) -> (r: CReturn<Option<C::FrRepr>>)
    ensures
        ephemeral_public_key is None || viewing_key is None || spending_key is None
            || view_tag is None ==> r.err_code == CErrorCode::InvalidKeys,
        r.err_code != CErrorCode::NoError ==> r.value is None,
        r.err_code == CErrorCode::NoError || r.err_code == CErrorCode::InvalidKeys
            || r.err_code.is_serialization_error(),
        (match (ephemeral_public_key, viewing_key, spending_key, view_tag) {
            (Some(epk), Some(vk), Some(sk), Some(tag)) => {
                &&& !is_projective_repr::<C>(*epk) ==> r.err_code.is_serialization_error()
                &&& is_projective_repr::<C>(*epk) && (!is_fr_repr::<C>(*vk) || !is_fr_repr::<C>(
                    *sk,
                )) ==> r.err_code == CErrorCode::SerializationErrorInvalidData
                &&& forall|e: nat|
                e < C::order() && #[trigger] repr_has_log::<C>(*epk, e) ==> if is_fr_repr::<C>(*vk)
                    && is_fr_repr::<C>(*sk) {
                    let h = shared_scalar::<C>(e * fr_repr_value::<C>(*vk));
                    &&& r.err_code == CErrorCode::NoError
                    &&& (r.value is Some <==> low_u64(h) == *tag)
                    &&& (r.value matches Some(k) ==> fr_repr_value::<C>(k) == (fr_repr_value::<C>(
                        *sk,
                    ) + h) % C::order())
                } else {
                    r.err_code == CErrorCode::SerializationErrorInvalidData
                }
            },
            _ => true,
        }),
{
    let (epk_repr, vk_repr, sk_repr, tag) = match (
        ephemeral_public_key,
        viewing_key,
        spending_key,
        view_tag,
    ) {
        (Some(p), Some(v), Some(s), Some(t)) => (p, v, s, *t),
        _ => {
            return CReturn { value: None, err_code: CErrorCode::InvalidKeys };
        },
    };
    let epk = match C::projective_from_repr(epk_repr) {
        Ok(p) => {
            proof {
                lemma_is_projective_repr::<C>(*epk_repr);
            }
            p
        },
        Err(e) => {
            proof {
                assert(code_of_serialization_error(e).is_serialization_error());
                assert(!is_projective_repr::<C>(*epk_repr));
            }
            return CReturn { value: None, err_code: CErrorCode::from(e) };
        },
    };
    let vk = match C::fr_from_repr(vk_repr) {
        Ok(k) => k,
        Err(e) => {
            proof {
                assert(code_of_serialization_error(e) == CErrorCode::SerializationErrorInvalidData);
            }
            return CReturn { value: None, err_code: CErrorCode::from(e) };
        },
    };
    let sk = match C::fr_from_repr(sk_repr) {
        Ok(k) => k,
        Err(e) => {
            proof {
                assert(code_of_serialization_error(e) == CErrorCode::SerializationErrorInvalidData);
            }
            return CReturn { value: None, err_code: CErrorCode::from(e) };
        },
    };
    let recovered = C::generate_stealth_private_key(epk, vk, sk, tag);
    let value = match recovered {
        Some(k) => Some(C::fr_to_repr(&k)),
        None => None,
    };
    proof {
        assert forall|x: nat| x < C::order() && #[trigger] repr_has_log::<C>(*epk_repr, x) implies {
            let h = shared_scalar::<C>(x * fr_repr_value::<C>(*vk_repr));
            &&& (value is Some <==> low_u64(h) == tag)
            &&& (value matches Some(k) ==> fr_repr_value::<C>(k) == (fr_repr_value::<C>(*sk_repr) + h)
                % C::order())
        } by {
            assert(x < C::order() && C::projective_repr_bytes(*epk_repr) == C::generator_multiple(x));
            C::lemma_projective_encode_bytes(epk);
            assert(epk.spec_to_bytes() == C::generator_multiple(x));
        }
    }
    CReturn { value, err_code: CErrorCode::NoError }
}

fn zero_stealth_address<C: StealthAddressOnCurve>() -> (r: StealthAddress<C::ProjectiveRepr>)
    ensures
        is_zero_stealth_address::<C>(r),
{
    StealthAddress { stealth_address: zero_projective_repr::<C>(), view_tag: 0 }
}

} // verus!
