use vstd::prelude::*;
use rand_chacha::rand_core::{RngCore, SeedableRng};

verus! {

#[verifier::external_type_specification]
#[verifier::external_body]
pub struct ExChaCha20Rng(rand_chacha::ChaCha20Rng);

/// The first `n` bytes of the ChaCha20 stream keyed by `seed`, starting at 32-bit word
/// `word_position`, each word in little-endian order.
pub uninterp spec fn chacha20_bytes_of(seed: Seq<u8>, word_position: nat, n: nat) -> Seq<u8>;

/// The deterministic random stream that every draw of this library comes from: the seed
/// it was keyed with and how many words have been drawn.
pub struct Rng {
    pub(crate) inner: rand_chacha::ChaCha20Rng,
    pub(crate) seed: Ghost<Seq<u8>>,
    pub(crate) position: Ghost<nat>,
}

impl Rng {
    pub closed spec fn seed(&self) -> Seq<u8> {
        self.seed@
    }

    pub closed spec fn position(&self) -> nat {
        self.position@
    }
}

/// Relies on rand_chacha's `ChaCha20Rng::from_seed`: the ChaCha20 stream keyed by the seed,
/// at its start.
#[verifier::external_body]
fn chacha_from_seed(seed: [u8; 32]) -> (r: Rng)
    ensures
        r.seed() == seed@,
        r.position() == 0,
{
    Rng { inner: rand_chacha::ChaCha20Rng::from_seed(seed), seed: Ghost(seed@), position: Ghost(0) }
}

/// Relies on rand_core's `RngCore::fill_bytes` for `ChaCha20Rng` (a `BlockRng`): it takes
/// the next words of the stream, one per started four bytes.
#[verifier::external_body]
fn fill_from_stream(rng: &mut Rng, n: usize) -> (r: Vec<u8>)
    ensures
        r@ == chacha20_bytes_of(old(rng).seed(), old(rng).position(), n as nat),
        r@.len() == n,
        final(rng).seed() == old(rng).seed(),
        final(rng).position() == old(rng).position() + (n as nat + 3) / 4,
{
    let mut buf = vec![0u8; n];
    rng.inner.fill_bytes(&mut buf);
    buf
}

/// Seeds the stream once, at start-up; every later draw takes it as an argument, so no
/// draw can come before seeding.
pub fn init_rand(initial_seed: [u8; 32]) -> (r: Rng)
    ensures
        r.seed() == initial_seed@,
        r.position() == 0,
{
    chacha_from_seed(initial_seed)
}

/// The next `n` bytes of the stream: a function of the seed and of the draws before.
pub fn rand_bytes(rng: &mut Rng, n: usize) -> (r: Vec<u8>)
    ensures
        r@.len() == n,
        r@ == chacha20_bytes_of(old(rng).seed(), old(rng).position(), n as nat),
        final(rng).seed() == old(rng).seed(),
        final(rng).position() == old(rng).position() + (n as nat + 3) / 4,
{
    fill_from_stream(rng, n)
}

} // verus!
