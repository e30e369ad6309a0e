//! The seeded randomness that coins are drawn from: the keystream of ChaCha with eight rounds.

use rand_chacha::rand_core::{RngCore, SeedableRng};
use rand_chacha::ChaCha8Rng;
use vstd::prelude::*;

verus! {

/// A place in the keystream of a seed: the stream, and the offset in it in 32-bit words. The
/// keystream cycles after 2^68 words.
#[derive(Clone, Copy, Debug)]
pub struct ChaChaPosition {
    pub seed: [u8; 32],
    pub stream: u64,
    pub word_pos: u128,
}

/// How many words a keystream has before it cycles.
pub open spec fn cycle_words() -> int {
    0x10_0000_0000_0000_0000
}

/// The byte of a seed's keystream at an offset, counted in bytes.
pub uninterp spec fn chacha8_byte(seed: Seq<u8>, stream: u64, offset: int) -> u8;

impl ChaChaPosition {
    /// `n` bytes of the keystream, `words` words further on.
    pub open spec fn keystream(self, words: int, n: nat) -> Seq<u8> {
        Seq::new(
            n,
            |i: int|
                chacha8_byte(
                    self.seed@,
                    self.stream,
                    (4 * (self.word_pos + words) + i) % (4 * cycle_words()),
                ),
        )
    }

    /// Whether `after` is the place `words` words further on.
    pub open spec fn advanced(self, words: int, after: ChaChaPosition) -> bool {
        &&& after.seed == self.seed
        &&& after.stream == self.stream
        &&& after.word_pos == (self.word_pos + words) % cycle_words()
    }
}

/// `fill_bytes` of `rand_chacha`'s `ChaCha8Rng`, on a generator brought to a place of a seed's
/// keystream by `from_seed`, `set_stream` and `set_word_pos`, with `get_word_pos` afterwards: the
/// bytes are those of the keystream from that place on, and a whole number of words is used up.
/// What the keystream's bytes are depends on seed, stream and offset alone, and is only named.
#[verifier::external_body]
fn chacha8_fill_bytes(at: &ChaChaPosition, bytes: &mut Vec<u8>) -> (word_pos: u128)
    ensures
        final(bytes)@.len() == old(bytes)@.len(),
        forall|i: int|
            0 <= i < old(bytes)@.len() ==> #[trigger] final(bytes)@[i] == chacha8_byte(
                at.seed@,
                at.stream,
                (4 * at.word_pos + i) % (4 * cycle_words()),
            ),
        word_pos == (at.word_pos + (old(bytes)@.len() + 3) / 4) % cycle_words(),
{
    let mut rng = ChaCha8Rng::from_seed(at.seed);
    rng.set_stream(at.stream);
    rng.set_word_pos(at.word_pos);
    rng.fill_bytes(bytes);
    rng.get_word_pos()
}

/// How many bytes an entropy or a blinding factor has.
pub const DRAW_BYTES: usize = 24;

/// How many words of keystream an entropy or a blinding factor takes.
pub const DRAW_WORDS: usize = 6;

/// Draws the bytes of one entropy or blinding factor, and moves past them.
pub fn draw(at: &mut ChaChaPosition) -> (bytes: Vec<u8>)
    ensures
        bytes@ == old(at).keystream(0, DRAW_BYTES as nat),
        old(at).advanced(DRAW_WORDS as int, *final(at)),
        bytes@.len() == 24,
        forall|i: int|
            0 <= i < 24 ==> #[trigger] bytes@[i] == chacha8_byte(
                old(at).seed@,
                old(at).stream,
                (4 * old(at).word_pos + i) % 0x40_0000_0000_0000_0000,
            ),
        final(at).seed == old(at).seed,
        final(at).stream == old(at).stream,
        final(at).word_pos == (old(at).word_pos + 6) % 0x10_0000_0000_0000_0000,
{
    let mut bytes: Vec<u8> = vec![0u8; DRAW_BYTES];
    let word_pos = chacha8_fill_bytes(at, &mut bytes);
    at.word_pos = word_pos;
    bytes
}

/// Moving on twice is moving on once, by both distances.
pub proof fn law_places_add_up(
    at: ChaChaPosition,
    first: int,
    middle: ChaChaPosition,
    second: int,
    after: ChaChaPosition,
)
    requires
        at.advanced(first, middle),
        middle.advanced(second, after),
    ensures
        at.advanced(first + second, after),
{
}

/// What is read after moving on is what lies that much further.
pub proof fn law_reading_on(
    at: ChaChaPosition,
    words: int,
    after: ChaChaPosition,
    more: int,
    n: nat,
)
    requires
        at.advanced(words, after),
    ensures
        after.keystream(more, n) == at.keystream(words + more, n),
{
    assert forall|i: int| 0 <= i < n implies #[trigger] after.keystream(more, n)[i]
        == at.keystream(words + more, n)[i] by {
        let turns = (at.word_pos + words) / cycle_words();
        vstd::arithmetic::div_mod::lemma_mod_multiples_vanish(
            turns,
            4 * (after.word_pos + more) + i,
            4 * cycle_words(),
        );
    }
    assert(after.keystream(more, n) =~= at.keystream(words + more, n));
}

/// Bytes of the keystream are those at consecutive offsets, four to a word, and it starts again
/// after 2^68 words.
pub proof fn law_keystream_bytes(at: ChaChaPosition, words: int, n: nat, after: ChaChaPosition)
    ensures
        at.keystream(words, n).len() == n,
        forall|i: int|
            0 <= i < n ==> #[trigger] at.keystream(words, n)[i] == chacha8_byte(
                at.seed@,
                at.stream,
                (4 * (at.word_pos + words) + i) % 0x40_0000_0000_0000_0000,
            ),
        at.advanced(words, after) <==> after.seed == at.seed && after.stream == at.stream
            && after.word_pos == (at.word_pos + words) % 0x10_0000_0000_0000_0000,
{
}

} // verus!
