use stealth_address_kit::ffi::{
    ffi_derive_public_key, ffi_generate_random_fr, ffi_generate_stealth_address,
    ffi_generate_stealth_private_key, ffi_random_keypair,
};
use ark_serialize::SerializationError;
use stealth_address_kit::{CErrorCode, HasViewTag, Secp256k1, StealthAddressOnCurve, ToBytesFromProjective};

const ORDER_MINUS_ONE: [u8; 32] = [
    64, 65, 54, 208, 140, 94, 210, 191, 59, 160, 72, 175, 230, 220, 174, 186, 254, 255, 255, 255,
    255, 255, 255, 255, 255, 255, 255, 255, 255, 255, 255, 255,
];

fn scalar(v: u8) -> <Secp256k1 as StealthAddressOnCurve>::Fr {
    let mut b = [0u8; 32];
    b[0] = v;
    Secp256k1::fr_from_repr(&b).unwrap()
}

#[test]
fn random_keypair_happy_path() {
    let (key, pub_key) = Secp256k1::random_keypair();
    assert_eq!(Secp256k1::derive_public_key(&key), pub_key);
}

#[test]
fn hash_to_fr_happy_path() {
    let input_1 = b"input_1";
    let input_2 = b"input_2";
    assert_eq!(Secp256k1::hash_to_fr(input_1), Secp256k1::hash_to_fr(input_1));
    assert_ne!(Secp256k1::hash_to_fr(input_1), Secp256k1::hash_to_fr(input_2));
}

#[test]
fn hash_to_fr_of_empty_input_is_keccak_digest() {
    // Keccak-256 of the empty string, read little-endian; it is below the order.
    let h = Secp256k1::hash_to_fr(b"");
    let expected: [u8; 32] = [
        197, 210, 70, 1, 134, 247, 35, 60, 146, 126, 125, 178, 220, 199, 3, 192, 229, 0, 182, 83,
        202, 130, 39, 59, 123, 250, 216, 4, 93, 133, 164, 112,
    ];
    assert_eq!(Secp256k1::fr_to_repr(&h), expected);
    assert_eq!(h.get_view_tag(), 4333579421379646149);
}

#[test]
fn fr_from_le_bytes_mod_order_reduces() {
    let r = Secp256k1::fr_from_le_bytes_mod_order(&[0xff; 32]);
    let expected: [u8; 32] = [
        190, 190, 201, 47, 115, 161, 45, 64, 196, 95, 183, 80, 25, 35, 81, 69, 1, 0, 0, 0, 0, 0, 0,
        0, 0, 0, 0, 0, 0, 0, 0, 0,
    ];
    assert_eq!(Secp256k1::fr_to_repr(&r), expected);
}

#[test]
fn add_fr_wraps_at_the_order() {
    assert_eq!(Secp256k1::add_fr(scalar(2), scalar(3)), scalar(5));
    let top = Secp256k1::fr_from_repr(&ORDER_MINUS_ONE).unwrap();
    assert_eq!(Secp256k1::add_fr(top, scalar(2)), scalar(1));
}

#[test]
fn view_tag_is_low_64_bits() {
    let mut b = [0u8; 32];
    b[0] = 0x01;
    b[7] = 0x80;
    b[8] = 0xaa;
    let s = Secp256k1::fr_from_repr(&b).unwrap();
    assert_eq!(s.get_view_tag(), 0x8000_0000_0000_0001);
}

#[test]
fn derive_public_key_of_one_is_the_generator() {
    let g = Secp256k1::derive_public_key(&scalar(1));
    let mut expected = vec![
        152, 23, 248, 22, 91, 129, 242, 89, 217, 40, 206, 45, 219, 252, 155, 2, 7, 11, 135, 206,
        149, 98, 160, 85, 172, 187, 220, 249, 126, 102, 190, 121,
    ];
    expected.push(0);
    assert_eq!(g.to_bytes(), expected);
}

#[test]
fn derive_public_key_of_zero_is_the_identity() {
    let z = Secp256k1::derive_public_key(&Secp256k1::fr_zero());
    let mut expected = vec![0u8; 32];
    expected.push(0x40);
    assert_eq!(z.to_bytes(), expected);
}

#[test]
fn add_projective_adds_multiples() {
    let a = Secp256k1::derive_public_key(&scalar(2));
    let b = Secp256k1::derive_public_key(&scalar(3));
    assert_eq!(Secp256k1::add_projective(a, b), Secp256k1::derive_public_key(&scalar(5)));
}

#[test]
fn compute_shared_point_happy_path() {
    let (key1, pub_key1) = Secp256k1::random_keypair();
    let (key2, pub_key2) = Secp256k1::random_keypair();
    let shared1 = Secp256k1::compute_shared_point(key1, pub_key2);
    let shared2 = Secp256k1::compute_shared_point(key2, pub_key1);
    assert_eq!(shared1, shared2);
}

#[test]
fn compute_shared_point_multiplies() {
    let p = Secp256k1::derive_public_key(&scalar(3));
    let q = Secp256k1::compute_shared_point(scalar(7), p);
    assert_eq!(q, Secp256k1::derive_public_key(&scalar(21)));
}

#[test]
fn generate_stealth_address_happy_path() {
    let (spending_key, spending_public_key) = Secp256k1::random_keypair();
    let (viewing_key, viewing_public_key) = Secp256k1::random_keypair();
    let (ephemeral_private_key, ephemeral_public_key) = Secp256k1::random_keypair();

    let (stealth_address, view_tag) = Secp256k1::generate_stealth_address(
        viewing_public_key,
        spending_public_key,
        ephemeral_private_key,
    );
    let stealth_private_key_opt = Secp256k1::generate_stealth_private_key(
        ephemeral_public_key,
        viewing_key,
        spending_key,
        view_tag,
    );
    if stealth_private_key_opt.is_none() {
        panic!("View tags did not match");
    }
    let derived_address = Secp256k1::derive_public_key(&stealth_private_key_opt.unwrap());
    assert_eq!(derived_address, stealth_address);
}

#[test]
fn stealth_private_key_with_flipped_tag_is_none() {
    let (s, big_s) = Secp256k1::random_keypair();
    let (v, big_v) = Secp256k1::random_keypair();
    let (e, big_e) = Secp256k1::random_keypair();
    let (addr, tag) = Secp256k1::generate_stealth_address(big_v, big_s, e);
    let k = Secp256k1::generate_stealth_private_key(big_e, v, s, tag).unwrap();
    assert_eq!(Secp256k1::derive_public_key(&k), addr);
    assert_eq!(Secp256k1::generate_stealth_private_key(big_e, v, s, tag ^ 1), None);
}

#[test]
fn stealth_private_key_with_other_keys_is_none() {
    let (s, big_s) = Secp256k1::random_keypair();
    let (v, big_v) = Secp256k1::random_keypair();
    let (e, big_e) = Secp256k1::random_keypair();
    let (other_v, _) = Secp256k1::random_keypair();
    let (_, other_e) = Secp256k1::random_keypair();
    let (_, tag) = Secp256k1::generate_stealth_address(big_v, big_s, e);
    assert_eq!(Secp256k1::generate_stealth_private_key(big_e, other_v, s, tag), None);
    assert_eq!(Secp256k1::generate_stealth_private_key(other_e, v, s, tag), None);
}

#[test]
fn stealth_address_with_fixed_keys_recovers() {
    let (addr, tag) = Secp256k1::generate_stealth_address(
        Secp256k1::derive_public_key(&scalar(11)),
        Secp256k1::derive_public_key(&scalar(13)),
        scalar(17),
    );
    let k = Secp256k1::generate_stealth_private_key(
        Secp256k1::derive_public_key(&scalar(17)),
        scalar(11),
        scalar(13),
        tag,
    )
    .unwrap();
    assert_eq!(Secp256k1::derive_public_key(&k), addr);
    // The key is the spending key plus the hash of the shared point 187 * G.
    let shared = Secp256k1::derive_public_key(&scalar(187));
    let h = Secp256k1::hash_to_fr(&shared.to_bytes());
    assert_eq!(k, Secp256k1::add_fr(scalar(13), h));
    assert_eq!(tag, h.get_view_tag());
}

#[test]
fn scalar_round_trip() {
    let s = Secp256k1::generate_random_fr();
    let r = Secp256k1::fr_to_repr(&s);
    assert_eq!(Secp256k1::fr_from_repr(&r).unwrap(), s);
}

#[test]
fn point_round_trip() {
    let (_, p) = Secp256k1::random_keypair();
    let r = Secp256k1::projective_to_repr(&p);
    assert_eq!(Secp256k1::projective_from_repr(&r).unwrap(), p);
}

#[test]
fn corrupted_scalar_is_refused() {
    assert!(matches!(
        Secp256k1::fr_from_repr(&[0xff; 32]),
        Err(SerializationError::InvalidData)
    ));
    let mut r = ORDER_MINUS_ONE;
    r[0] += 1;
    assert!(Secp256k1::fr_from_repr(&r).is_err());
    assert!(Secp256k1::fr_from_repr(&ORDER_MINUS_ONE).is_ok());
}

#[test]
fn corrupted_point_is_refused() {
    assert!(Secp256k1::projective_from_repr(&[0xff; 33]).is_err());
}

#[test]
fn non_canonical_point_is_refused() {
    // The point at infinity is encoded with x = 0; arkworks also reads it
    // from any x, which is not canonical.
    let mut identity = [0u8; 33];
    identity[32] = 0x40;
    assert!(Secp256k1::projective_from_repr(&identity).is_ok());
    let mut other = identity;
    other[0] = 1;
    assert!(matches!(
        Secp256k1::projective_from_repr(&other),
        Err(SerializationError::InvalidData)
    ));
    let kp = ffi_random_keypair::<Secp256k1>().value;
    let r = ffi_generate_stealth_address::<Secp256k1>(
        Some(&other),
        Some(&kp.public_key),
        Some(&kp.private_key),
    );
    assert_eq!(r.err_code, CErrorCode::SerializationErrorInvalidData);
}

#[test]
fn distinct_private_keys_give_distinct_public_keys() {
    let a = Secp256k1::derive_public_key(&scalar(2));
    let b = Secp256k1::derive_public_key(&scalar(3));
    assert_ne!(a, b);
    assert_eq!(a, Secp256k1::derive_public_key(&scalar(2)));
}

#[test]
fn ffi_generate_random_fr_happy_path() {
    let r = ffi_generate_random_fr::<Secp256k1>();
    assert_eq!(r.err_code, CErrorCode::NoError);
    assert!(Secp256k1::fr_from_repr(&r.value).is_ok());
}

#[test]
fn ffi_random_keypair_happy_path() {
    let keypair = ffi_random_keypair::<Secp256k1>();
    assert_eq!(keypair.err_code, CErrorCode::NoError);
    let private_key = Secp256k1::fr_from_repr(&keypair.value.private_key).unwrap();
    let public_key = Secp256k1::projective_from_repr(&keypair.value.public_key).unwrap();
    assert_eq!(Secp256k1::derive_public_key(&private_key), public_key);
}

#[test]
fn ffi_generate_stealth_address_happy_path() {
    let spending = ffi_random_keypair::<Secp256k1>().value;
    let viewing = ffi_random_keypair::<Secp256k1>().value;
    let ephemeral = ffi_random_keypair::<Secp256k1>().value;
    let payload = ffi_generate_stealth_address::<Secp256k1>(
        Some(&viewing.public_key),
        Some(&spending.public_key),
        Some(&ephemeral.private_key),
    );
    assert_eq!(payload.err_code, CErrorCode::NoError);
    let key = ffi_generate_stealth_private_key::<Secp256k1>(
        Some(&ephemeral.public_key),
        Some(&viewing.private_key),
        Some(&spending.private_key),
        Some(&payload.value.view_tag),
    );
    assert_eq!(key.err_code, CErrorCode::NoError);
    let key = key.value.unwrap();
    let derived = ffi_derive_public_key::<Secp256k1>(Some(&key));
    assert_eq!(derived.err_code, CErrorCode::NoError);
    assert_eq!(derived.value, payload.value.stealth_address);

    let wrong_tag = payload.value.view_tag ^ 1;
    let none = ffi_generate_stealth_private_key::<Secp256k1>(
        Some(&ephemeral.public_key),
        Some(&viewing.private_key),
        Some(&spending.private_key),
        Some(&wrong_tag),
    );
    assert_eq!(none.err_code, CErrorCode::NoError);
    assert_eq!(none.value, None);
}

#[test]
fn ffi_null_inputs_are_invalid_keys() {
    let kp = ffi_random_keypair::<Secp256k1>().value;
    let tag = 0u64;
    let zero_point = Secp256k1::projective_to_repr(&Secp256k1::derive_public_key(&Secp256k1::fr_zero()));

    let r = ffi_derive_public_key::<Secp256k1>(None);
    assert_eq!(r.err_code, CErrorCode::InvalidKeys);
    assert_eq!(r.value, zero_point);

    for (v, s, e) in [
        (None, Some(&kp.public_key), Some(&kp.private_key)),
        (Some(&kp.public_key), None, Some(&kp.private_key)),
        (Some(&kp.public_key), Some(&kp.public_key), None),
    ] {
        let r = ffi_generate_stealth_address::<Secp256k1>(v, s, e);
        assert_eq!(r.err_code, CErrorCode::InvalidKeys);
        assert_eq!(r.value.stealth_address, zero_point);
        assert_eq!(r.value.view_tag, 0);
    }

    for (p, v, s, t) in [
        (None, Some(&kp.private_key), Some(&kp.private_key), Some(&tag)),
        (Some(&kp.public_key), None, Some(&kp.private_key), Some(&tag)),
        (Some(&kp.public_key), Some(&kp.private_key), None, Some(&tag)),
        (Some(&kp.public_key), Some(&kp.private_key), Some(&kp.private_key), None),
    ] {
        let r = ffi_generate_stealth_private_key::<Secp256k1>(p, v, s, t);
        assert_eq!(r.err_code, CErrorCode::InvalidKeys);
        assert_eq!(r.value, None);
    }
}

#[test]
fn ffi_invalid_scalar_gives_invalid_data() {
    let kp = ffi_random_keypair::<Secp256k1>().value;
    let bad = [0xffu8; 32];
    let r = ffi_derive_public_key::<Secp256k1>(Some(&bad));
    assert_eq!(r.err_code, CErrorCode::SerializationErrorInvalidData);
    let r = ffi_generate_stealth_address::<Secp256k1>(
        Some(&kp.public_key),
        Some(&kp.public_key),
        Some(&bad),
    );
    assert_eq!(r.err_code, CErrorCode::SerializationErrorInvalidData);
    let tag = 0u64;
    let r = ffi_generate_stealth_private_key::<Secp256k1>(
        Some(&kp.public_key),
        Some(&bad),
        Some(&kp.private_key),
        Some(&tag),
    );
    assert_eq!(r.err_code, CErrorCode::SerializationErrorInvalidData);
    assert_eq!(r.value, None);
}

#[test]
fn ffi_invalid_point_gives_serialization_error() {
    let kp = ffi_random_keypair::<Secp256k1>().value;
    let bad = [0xffu8; 33];
    let r = ffi_generate_stealth_address::<Secp256k1>(
        Some(&bad),
        Some(&kp.public_key),
        Some(&kp.private_key),
    );
    assert!(r.err_code.code() >= 1 && r.err_code.code() <= 4);
    assert_eq!(r.value.view_tag, 0);
}

#[test]
fn error_codes_are_stable() {
    assert_eq!(CErrorCode::NoError.code(), 0);
    assert_eq!(CErrorCode::SerializationErrorNotEnoughSpace.code(), 1);
    assert_eq!(CErrorCode::SerializationErrorInvalidData.code(), 2);
    assert_eq!(CErrorCode::SerializationErrorUnexpectedFlags.code(), 3);
    assert_eq!(CErrorCode::SerializationErrorIoError.code(), 4);
    assert_eq!(CErrorCode::InvalidKeys.code(), 5);
}

#[test]
fn serialization_errors_map_one_to_one() {
    assert_eq!(
        CErrorCode::from(SerializationError::NotEnoughSpace),
        CErrorCode::SerializationErrorNotEnoughSpace
    );
    assert_eq!(
        CErrorCode::from(SerializationError::InvalidData),
        CErrorCode::SerializationErrorInvalidData
    );
    assert_eq!(
        CErrorCode::from(SerializationError::UnexpectedFlags),
        CErrorCode::SerializationErrorUnexpectedFlags
    );
    let io = std::io::Error::new(std::io::ErrorKind::UnexpectedEof, "short");
    assert_eq!(
        CErrorCode::from(SerializationError::IoError(io)),
        CErrorCode::SerializationErrorIoError
    );
}
