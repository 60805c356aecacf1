//! What the machine takes from its surroundings on each cycle: the keys that
//! are pressed and a source of random bytes.

use vstd::prelude::*;
use rand::Rng;

verus! {

/// `rand::rngs::StdRng`, the generator of the `rand` crate. Nothing is known
/// of what it holds.
#[verifier::external_type_specification]
#[verifier::external_body]
pub struct ExStdRng(rand::rngs::StdRng);

/// The surroundings of one cycle.
pub struct Env {
    /// The source of the random bytes of `Randomize`.
    pub rng: rand::rngs::StdRng,
    /// The sixteen keys: whether each is pressed.
    pub keyboard: [bool; 16],
}

/// `Rng::gen::<u8>` of the `rand` crate: the next byte of the generator.
/// Nothing is claimed of the byte.
#[verifier::external_body]
pub(crate) fn random_byte(rng: &mut rand::rngs::StdRng) -> (byte: u8) {
    rng.gen::<u8>()
}

impl Env {
    /// The surroundings with the given generator and no key pressed.
    pub fn new(rng: rand::rngs::StdRng) -> (env: Env)
        ensures
            env.rng == rng,
            env.keyboard@ == Seq::new(16, |i: int| false),
    {
        let env = Env { rng, keyboard: [false;16] };
        assert(env.keyboard@ =~= Seq::new(16, |i: int| false));
        env
    }
}

} // verus!
