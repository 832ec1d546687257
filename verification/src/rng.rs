//! Random fill colours for generated images.

use rand::Rng;
use vstd::prelude::*;

verus! {

/// An RGB colour.
#[derive(Clone, Copy, Debug, PartialEq, Eq, Structural)]
pub struct Colour {
    pub r: u8,
    pub g: u8,
    pub b: u8,
}

/// `rand::rngs::ThreadRng`, the handle to a thread's own generator. Its state is
/// not visible to the verifier.
#[verifier::external_type_specification]
#[verifier::external_body]
pub struct ExThreadRng(rand::rngs::ThreadRng);

/// Calls `rand::thread_rng`, which hands out the calling thread's generator,
/// seeded by the operating system on first use. Nothing is claimed of it.
/// The call panics if the operating system provides no entropy for the seed.
#[verifier::external_body]
fn thread_generator() -> rand::rngs::ThreadRng {
    rand::thread_rng()
}

/// Calls `Rng::gen::<u8>` on the generator. The byte depends on the
/// generator's hidden state, so nothing is claimed of it beyond its type.
/// The generator reseeds itself from time to time, and the call panics if
/// the operating system then provides no entropy.
#[verifier::external_body]
fn next_byte(rng: &mut rand::rngs::ThreadRng) -> u8 {
    rng.gen()
}

/// Draws a colour from the calling thread's generator: three bytes, in the
/// order red, green, blue.
pub fn random_colour() -> Colour {
    let mut rng = thread_generator();
    let r: u8 = next_byte(&mut rng);
    let g: u8 = next_byte(&mut rng);
    let b: u8 = next_byte(&mut rng);
    Colour { r, g, b }
}

} // verus!
