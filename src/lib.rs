//! Stealth addresses over elliptic curves: one-time public keys that only the
//! holder of a viewing key can recognise and only the holder of the matching
//! spending key can spend from.
use vstd::prelude::*;

pub mod baby_jub_jub_impl;
pub mod bls12_377_impl;
pub mod bls12_381_impl;
pub mod bn254_impl;
pub mod bw6_761_impl;
pub mod bytes;
pub mod ffi;
pub mod ffi_prelude;
pub mod keccak;
pub mod pallas_impl;
pub mod protocol_laws;
pub mod secp256k1_impl;
pub mod secp256r1_impl;
pub mod stealth_addresses;
pub mod vesta_impl;

pub use ffi_prelude::{CErrorCode, CReturn};
pub use baby_jub_jub_impl::BabyJubJub;
pub use bls12_377_impl::Bls12_377;
pub use bls12_381_impl::{Bls12_381, Bls12_381_G2};
pub use bn254_impl::Bn254;
pub use bw6_761_impl::Bw6_761;
pub use pallas_impl::Pallas;
pub use secp256k1_impl::Secp256k1;
pub use secp256r1_impl::Secp256r1;
pub use stealth_addresses::{HasViewTag, StealthAddressOnCurve, ToBytesFromProjective};
pub use vesta_impl::Vesta;

verus! {

} // verus!
