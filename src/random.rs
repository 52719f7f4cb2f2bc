use vstd::prelude::*;

verus! {

/// The seedable random source that every random draw of the library goes through.
#[verifier::external_type_specification]
#[verifier::external_body]
pub struct ExChaCha8Rng(rand_chacha::ChaCha8Rng);

/// Relies on `rand::Rng::gen_ratio(1, 2)`: a fair coin, drawing one `u64`
/// from the source exactly as `gen_bool(0.5)` does.
#[verifier::external_body]
pub(crate) fn coin_flip(rng: &mut rand_chacha::ChaCha8Rng) -> (r: bool) {
    rand::Rng::gen_ratio(rng, 1, 2)
}

} // verus!
