use vstd::prelude::*;

use rand_chacha::rand_core::RngCore;
use rand_chacha::rand_core::SeedableRng;

verus! {

#[verifier::external_type_specification]
#[verifier::external_body]
pub struct ExChaCha8Rng(rand_chacha::ChaCha8Rng);

/// Word `k` of the 64-bit output stream of a ChaCha8 generator seeded with
/// thirty-two copies of `seed`.  rand_chacha documents its generators as
/// deterministic and portable, so this stream is a function of the seed and
/// the position alone.
pub uninterp spec fn stream_word(seed: u8, k: nat) -> u64;

/// A seeded pseudo-random word stream.  The generator itself is opaque; the
/// ghost seed and position locate every draw inside the stream named by
/// `stream_word`, which makes a whole search reproducible from its seed.
pub struct SeededRng {
    inner: rand_chacha::ChaCha8Rng,
    ghost_seed: Ghost<u8>,
    ghost_drawn: Ghost<nat>,
}

impl SeededRng {
    /// The byte this stream was seeded with.
    pub closed spec fn seed(self) -> u8 {
        self.ghost_seed@
    }

    /// How many words have been drawn so far.
    pub closed spec fn drawn(self) -> nat {
        self.ghost_drawn@
    }

    /// Draw the next word of the stream.
    ///
    /// Relies on `ChaCha8Rng::next_u64` (via `rand_core::RngCore`): the next
    /// word of the generator's documented deterministic stream.
    #[verifier::external_body]
    pub fn next_word(&mut self) -> (w: u64)
        ensures
            final(self).seed() == old(self).seed(),
            final(self).drawn() == old(self).drawn() + 1,
            w == stream_word(old(self).seed(), old(self).drawn()),
    {
        self.inner.next_u64()
    }
}

/// A reproducible generator: a ChaCha8 stream seeded with thirty-two copies
/// of `seed_num`, positioned at its first word.
///
/// Relies on `ChaCha8Rng::from_seed` (via `rand_core::SeedableRng`): seeding
/// determines the whole output stream.
#[verifier::external_body]
pub fn fix_random_seed(seed_num: u8) -> (r: SeededRng)
    ensures
        r.seed() == seed_num,
        r.drawn() == 0,
{
    SeededRng {
        inner: rand_chacha::ChaCha8Rng::from_seed([seed_num; 32]),
        ghost_seed: Ghost(seed_num),
        ghost_drawn: Ghost(0nat),
    }
}

} // verus!
