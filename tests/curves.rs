use stealth_address_kit::ffi::{
    ffi_derive_public_key, ffi_generate_stealth_address, ffi_generate_stealth_private_key,
    ffi_random_keypair,
};
use stealth_address_kit::{
    BabyJubJub, Bls12_377, Bls12_381, Bls12_381_G2, Bn254, Bw6_761, CErrorCode, HasViewTag, Pallas, Secp256r1,
    StealthAddressOnCurve, ToBytesFromProjective, Vesta,
};
use std::fmt::Debug;

fn scalar<C: StealthAddressOnCurve<FrRepr = [u8; N]>, const N: usize>(v: u8) -> C::Fr
where
    C::Fr: Debug,
{
    let mut b = [0u8; N];
    b[0] = v;
    C::fr_from_repr(&b).unwrap()
}

fn check_keypair<C: StealthAddressOnCurve>()
where
    C::Projective: PartialEq + Debug,
{
    let (key, pub_key) = C::random_keypair();
    assert_eq!(C::derive_public_key(&key), pub_key);
}

fn check_hash<C: StealthAddressOnCurve>()
where
    C::Fr: PartialEq + Debug,
{
    assert_eq!(C::hash_to_fr(b"input_1"), C::hash_to_fr(b"input_1"));
    assert_ne!(C::hash_to_fr(b"input_1"), C::hash_to_fr(b"input_2"));
}

fn check_arithmetic<C: StealthAddressOnCurve<FrRepr = [u8; N]>, const N: usize>(
    order_minus_one: [u8; N],
)
where
    C::Fr: PartialEq + Debug,
    C::Projective: PartialEq + Debug,
{
    assert_eq!(C::add_fr(scalar::<C, N>(2), scalar::<C, N>(3)), scalar::<C, N>(5));
    let top = C::fr_from_repr(&order_minus_one).unwrap();
    assert_eq!(C::add_fr(top, scalar::<C, N>(2)), scalar::<C, N>(1));
    let mut order = order_minus_one;
    order[0] += 1;
    assert!(C::fr_from_repr(&order).is_err());
    if N == 32 {
        let mut wide = [0u8; 32];
        wide.copy_from_slice(&order[..32]);
        assert_eq!(C::fr_from_le_bytes_mod_order(&wide), C::fr_zero());
    }
    let a = C::derive_public_key(&scalar::<C, N>(2));
    let b = C::derive_public_key(&scalar::<C, N>(3));
    assert_eq!(C::add_projective(a, b), C::derive_public_key(&scalar::<C, N>(5)));
    assert_eq!(C::compute_shared_point(scalar::<C, N>(7), b), C::derive_public_key(&scalar::<C, N>(21)));
}

fn check_shared_point<C: StealthAddressOnCurve>()
where
    C::Projective: PartialEq + Debug,
{
    let (key1, pub_key1) = C::random_keypair();
    let (key2, pub_key2) = C::random_keypair();
    assert_eq!(C::compute_shared_point(key1, pub_key2), C::compute_shared_point(key2, pub_key1));
}

fn check_stealth_address<C: StealthAddressOnCurve>()
where
    C::Fr: PartialEq + Debug,
    C::Projective: PartialEq + Debug,
{
    let (s, big_s) = C::random_keypair();
    let (v, big_v) = C::random_keypair();
    let (e, big_e) = C::random_keypair();
    let (addr, tag) = C::generate_stealth_address(big_v, big_s, e);
    let k = C::generate_stealth_private_key(big_e, v, s, tag).unwrap();
    assert_eq!(C::derive_public_key(&k), addr);
    assert_eq!(C::generate_stealth_private_key(big_e, v, s, tag ^ 1), None);
    let (other_v, _) = C::random_keypair();
    assert_eq!(C::generate_stealth_private_key(big_e, other_v, s, tag), None);
    let shared = C::compute_shared_point(v, big_e);
    let h = C::hash_to_fr(&shared.to_bytes());
    assert_eq!(tag, h.get_view_tag());
    assert_eq!(k, C::add_fr(s, h));
}

fn check_round_trip<C: StealthAddressOnCurve<FrRepr = [u8; N]>, const N: usize>()
where
    C::Fr: PartialEq + Debug,
    C::Projective: PartialEq + Debug,
{
    let (s, p) = C::random_keypair();
    assert_eq!(C::fr_from_repr(&C::fr_to_repr(&s)).unwrap(), s);
    assert_eq!(C::projective_from_repr(&C::projective_to_repr(&p)).unwrap(), p);
    assert!(C::fr_from_repr(&[0xff; N]).is_err());
}

fn check_ffi<C: StealthAddressOnCurve>()
where
    C::FrRepr: PartialEq + Debug,
    C::ProjectiveRepr: PartialEq + Debug,
{
    let spending = ffi_random_keypair::<C>().value;
    let viewing = ffi_random_keypair::<C>().value;
    let ephemeral = ffi_random_keypair::<C>().value;
    let payload = ffi_generate_stealth_address::<C>(
        Some(&viewing.public_key),
        Some(&spending.public_key),
        Some(&ephemeral.private_key),
    );
    assert_eq!(payload.err_code, CErrorCode::NoError);
    let key = ffi_generate_stealth_private_key::<C>(
        Some(&ephemeral.public_key),
        Some(&viewing.private_key),
        Some(&spending.private_key),
        Some(&payload.value.view_tag),
    );
    assert_eq!(key.err_code, CErrorCode::NoError);
    let derived = ffi_derive_public_key::<C>(Some(&key.value.unwrap()));
    assert_eq!(derived.err_code, CErrorCode::NoError);
    assert_eq!(derived.value, payload.value.stealth_address);

    assert_eq!(ffi_derive_public_key::<C>(None).err_code, CErrorCode::InvalidKeys);
    let r = ffi_generate_stealth_address::<C>(None, Some(&spending.public_key), Some(&ephemeral.private_key));
    assert_eq!(r.err_code, CErrorCode::InvalidKeys);
    assert_eq!(r.value.view_tag, 0);
    let r = ffi_generate_stealth_private_key::<C>(
        Some(&ephemeral.public_key),
        Some(&viewing.private_key),
        Some(&spending.private_key),
        None,
    );
    assert_eq!(r.err_code, CErrorCode::InvalidKeys);
    assert_eq!(r.value, None);
}

#[test]
fn secp256r1_random_keypair_happy_path() {
    check_keypair::<Secp256r1>();
}

#[test]
fn secp256r1_hash_to_fr_happy_path() {
    check_hash::<Secp256r1>();
}

#[test]
fn secp256r1_arithmetic_wraps_at_the_order() {
    check_arithmetic::<Secp256r1, 32>([
        80, 37, 99, 252, 194, 202, 185, 243, 132, 158, 23, 167, 173, 250, 230, 188, 255, 255, 255, 255, 255, 255, 255, 255, 0, 0, 0, 0, 255, 255, 255, 255,
    ]);
}

#[test]
fn secp256r1_compute_shared_point_happy_path() {
    check_shared_point::<Secp256r1>();
}

#[test]
fn secp256r1_generate_stealth_address_happy_path() {
    check_stealth_address::<Secp256r1>();
}

#[test]
fn secp256r1_serialization_round_trip() {
    check_round_trip::<Secp256r1, 32>();
}

#[test]
fn secp256r1_ffi_happy_path_and_null_inputs() {
    check_ffi::<Secp256r1>();
}

#[test]
fn pallas_random_keypair_happy_path() {
    check_keypair::<Pallas>();
}

#[test]
fn pallas_hash_to_fr_happy_path() {
    check_hash::<Pallas>();
}

#[test]
fn pallas_arithmetic_wraps_at_the_order() {
    check_arithmetic::<Pallas, 32>([
        0, 0, 0, 0, 33, 235, 70, 140, 221, 168, 148, 9, 252, 152, 70, 34, 0, 0, 0, 0, 0, 0, 0, 0, 0, 0, 0, 0, 0, 0, 0, 64,
    ]);
}

#[test]
fn pallas_compute_shared_point_happy_path() {
    check_shared_point::<Pallas>();
}

#[test]
fn pallas_generate_stealth_address_happy_path() {
    check_stealth_address::<Pallas>();
}

#[test]
fn pallas_serialization_round_trip() {
    check_round_trip::<Pallas, 32>();
}

#[test]
fn pallas_ffi_happy_path_and_null_inputs() {
    check_ffi::<Pallas>();
}

#[test]
fn vesta_random_keypair_happy_path() {
    check_keypair::<Vesta>();
}

#[test]
fn vesta_hash_to_fr_happy_path() {
    check_hash::<Vesta>();
}

#[test]
fn vesta_arithmetic_wraps_at_the_order() {
    check_arithmetic::<Vesta, 32>([
        0, 0, 0, 0, 237, 48, 45, 153, 27, 249, 76, 9, 252, 152, 70, 34, 0, 0, 0, 0, 0, 0, 0, 0, 0, 0, 0, 0, 0, 0, 0, 64,
    ]);
}

#[test]
fn vesta_compute_shared_point_happy_path() {
    check_shared_point::<Vesta>();
}

#[test]
fn vesta_generate_stealth_address_happy_path() {
    check_stealth_address::<Vesta>();
}

#[test]
fn vesta_serialization_round_trip() {
    check_round_trip::<Vesta, 32>();
}

#[test]
fn vesta_ffi_happy_path_and_null_inputs() {
    check_ffi::<Vesta>();
}

#[test]
fn baby_jub_jub_random_keypair_happy_path() {
    check_keypair::<BabyJubJub>();
}

#[test]
fn baby_jub_jub_hash_to_fr_happy_path() {
    check_hash::<BabyJubJub>();
}

#[test]
fn baby_jub_jub_arithmetic_wraps_at_the_order() {
    check_arithmetic::<BabyJubJub, 32>([
        240, 38, 33, 57, 220, 151, 114, 103, 10, 238, 32, 57, 184, 237, 62, 171, 11, 43, 48, 208, 182, 8, 10, 55, 5, 52, 38, 92, 206, 137, 12, 6,
    ]);
}

#[test]
fn baby_jub_jub_compute_shared_point_happy_path() {
    check_shared_point::<BabyJubJub>();
}

#[test]
fn baby_jub_jub_generate_stealth_address_happy_path() {
    check_stealth_address::<BabyJubJub>();
}

#[test]
fn baby_jub_jub_serialization_round_trip() {
    check_round_trip::<BabyJubJub, 32>();
}

#[test]
fn baby_jub_jub_ffi_happy_path_and_null_inputs() {
    check_ffi::<BabyJubJub>();
}

#[test]
fn bn254_random_keypair_happy_path() {
    check_keypair::<Bn254>();
}

#[test]
fn bn254_hash_to_fr_happy_path() {
    check_hash::<Bn254>();
}

#[test]
fn bn254_arithmetic_wraps_at_the_order() {
    check_arithmetic::<Bn254, 32>([
        0, 0, 0, 240, 147, 245, 225, 67, 145, 112, 185, 121, 72, 232, 51, 40, 93, 88, 129, 129, 182, 69, 80, 184, 41, 160, 49, 225, 114, 78, 100, 48,
    ]);
}

#[test]
fn bn254_compute_shared_point_happy_path() {
    check_shared_point::<Bn254>();
}

#[test]
fn bn254_generate_stealth_address_happy_path() {
    check_stealth_address::<Bn254>();
}

#[test]
fn bn254_serialization_round_trip() {
    check_round_trip::<Bn254, 32>();
}

#[test]
fn bn254_ffi_happy_path_and_null_inputs() {
    check_ffi::<Bn254>();
}

#[test]
fn bls12_381_random_keypair_happy_path() {
    check_keypair::<Bls12_381>();
}

#[test]
fn bls12_381_hash_to_fr_happy_path() {
    check_hash::<Bls12_381>();
}

#[test]
fn bls12_381_arithmetic_wraps_at_the_order() {
    check_arithmetic::<Bls12_381, 32>([
        0, 0, 0, 0, 255, 255, 255, 255, 254, 91, 254, 255, 2, 164, 189, 83, 5, 216, 161, 9, 8, 216, 57, 51, 72, 125, 157, 41, 83, 167, 237, 115,
    ]);
}

#[test]
fn bls12_381_compute_shared_point_happy_path() {
    check_shared_point::<Bls12_381>();
}

#[test]
fn bls12_381_generate_stealth_address_happy_path() {
    check_stealth_address::<Bls12_381>();
}

#[test]
fn bls12_381_serialization_round_trip() {
    check_round_trip::<Bls12_381, 32>();
}

#[test]
fn bls12_381_ffi_happy_path_and_null_inputs() {
    check_ffi::<Bls12_381>();
}

#[test]
fn bls12_377_random_keypair_happy_path() {
    check_keypair::<Bls12_377>();
}

#[test]
fn bls12_377_hash_to_fr_happy_path() {
    check_hash::<Bls12_377>();
}

#[test]
fn bls12_377_arithmetic_wraps_at_the_order() {
    check_arithmetic::<Bls12_377, 32>([
        0, 0, 0, 0, 0, 128, 17, 10, 1, 0, 0, 208, 254, 118, 170, 89, 1, 176, 55, 92, 30, 77, 180, 96, 86, 165, 44, 154, 94, 101, 171, 18,
    ]);
}

#[test]
fn bls12_377_compute_shared_point_happy_path() {
    check_shared_point::<Bls12_377>();
}

#[test]
fn bls12_377_generate_stealth_address_happy_path() {
    check_stealth_address::<Bls12_377>();
}

#[test]
fn bls12_377_serialization_round_trip() {
    check_round_trip::<Bls12_377, 32>();
}

#[test]
fn bls12_377_ffi_happy_path_and_null_inputs() {
    check_ffi::<Bls12_377>();
}

#[test]
fn bls12_381_on_g2_random_keypair_happy_path() {
    check_keypair::<Bls12_381_G2>();
}

#[test]
fn bls12_381_on_g2_hash_to_fr_happy_path() {
    check_hash::<Bls12_381_G2>();
}

#[test]
fn bls12_381_on_g2_arithmetic_wraps_at_the_order() {
    check_arithmetic::<Bls12_381_G2, 32>([
        0, 0, 0, 0, 255, 255, 255, 255, 254, 91, 254, 255, 2, 164, 189, 83, 5, 216, 161, 9, 8, 216, 57, 51, 72, 125, 157, 41, 83, 167, 237, 115,
    ]);
}

#[test]
fn bls12_381_on_g2_compute_shared_point_happy_path() {
    check_shared_point::<Bls12_381_G2>();
}

#[test]
fn bls12_381_on_g2_generate_stealth_address_happy_path() {
    check_stealth_address::<Bls12_381_G2>();
}

#[test]
fn bls12_381_on_g2_serialization_round_trip() {
    check_round_trip::<Bls12_381_G2, 32>();
}

#[test]
fn bls12_381_on_g2_ffi_happy_path_and_null_inputs() {
    check_ffi::<Bls12_381_G2>();
}

#[test]
fn bw6_761_random_keypair_happy_path() {
    check_keypair::<Bw6_761>();
}

#[test]
fn bw6_761_hash_to_fr_happy_path() {
    check_hash::<Bw6_761>();
}

#[test]
fn bw6_761_arithmetic_wraps_at_the_order() {
    check_arithmetic::<Bw6_761, 48>([
        0, 0, 0, 0, 0, 192, 8, 133, 0, 0, 0, 48, 68, 93, 11, 23, 0, 72, 9, 186, 47, 98, 243, 30, 143, 19, 245, 0, 243, 217, 34, 26, 59, 73, 161, 108, 192, 5, 59, 198, 234, 16, 197, 23, 70, 58, 174, 1,
    ]);
}

#[test]
fn bw6_761_compute_shared_point_happy_path() {
    check_shared_point::<Bw6_761>();
}

#[test]
fn bw6_761_generate_stealth_address_happy_path() {
    check_stealth_address::<Bw6_761>();
}

#[test]
fn bw6_761_serialization_round_trip() {
    check_round_trip::<Bw6_761, 48>();
}

#[test]
fn bw6_761_ffi_happy_path_and_null_inputs() {
    check_ffi::<Bw6_761>();
}
