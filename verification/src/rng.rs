use vstd::prelude::*;

use rand::Rng;
use rand::SeedableRng;
use rand_chacha::ChaCha8Rng;

verus! {

/// The stream identifier a selection uses: the requested step, or stream
/// zero, which is where a fresh generator starts, when none was requested.
pub open spec fn stream_of(step: Option<u64>) -> u64 {
    match step {
        Some(t) => t,
        None => 0u64,
    }
}

/// The index a seeded generator draws below `n`: a function of the seed,
/// the stream identifier and the bound alone, stable across processes and
/// platforms.
pub uninterp spec fn chacha_index(seed: u64, stream: u64, n: int) -> int;

/// Relies on rand_chacha's `ChaCha8Rng`: `seed_from_u64` derives the whole
/// generator state from the seed alone, `set_stream` selects the output
/// stream (a fresh generator starts on stream zero), and rand's
/// `Rng::gen_range` draws uniformly below the bound. The bound stays within
/// `u32::MAX`, so the draw is the same 32-bit one that rand's slice
/// selection makes.
#[verifier::external_body]
pub(crate) fn draw_seeded(seed: u64, stream: u64, n: usize) -> (r: usize)
    requires
        0 < n <= u32::MAX,
    ensures
        r < n,
        r as int == chacha_index(seed, stream, n as int),
{
    let mut rng = ChaCha8Rng::seed_from_u64(seed);
    rng.set_stream(stream);
    rng.gen_range(0..n as u32) as usize
}

/// Relies on `ChaCha8Rng::from_entropy`: the generator starts from fresh
/// operating-system entropy, so nothing holds of the draw beyond its bound;
/// `set_stream` and `Rng::gen_range` as above. `from_entropy` aborts when
/// the system's entropy source fails — an environmental fault that no
/// input can provoke or avoid.
#[verifier::external_body]
pub(crate) fn draw_entropy(stream: u64, n: usize) -> (r: usize)
    requires
        0 < n <= u32::MAX,
    ensures
        r < n,
{
    let mut rng = ChaCha8Rng::from_entropy();
    rng.set_stream(stream);
    rng.gen_range(0..n as u32) as usize
}

} // verus!
