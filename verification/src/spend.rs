//! Spending a coin: the witness that a spender proves with, the public inputs that the proof is
//! about, and the equalities that tie the parts of the circuit together.

use vstd::arithmetic::div_mod::lemma_div_denominator;
use vstd::arithmetic::power2::{
    lemma2_to64, lemma2_to64_rest, lemma_pow2_adds, lemma_pow2_pos,
    lemma_pow2_strictly_increases, lemma_pow2_unfold, pow2,
};
use vstd::prelude::*;

use crate::coin::{
    alice_key, alice_public, bob_key, bob_public, lottery_coin, make_lottery_coin, Coin,
    CoinRecord,
};
use crate::field::{bits_value, low_bits, modulus, FieldElement};
use crate::randomness::{
    chacha8_byte, draw, law_places_add_up, law_reading_on, ChaChaPosition, DRAW_BYTES, DRAW_WORDS,
};

verus! {

/// The amount of the first player's coin.
pub const ALICE_AMOUNT: u8 = 15;

/// The amount of the second player's coin.
pub const BOB_AMOUNT: u8 = 22;

/// What a pseudorandom function is evaluated on, and under which key.
#[derive(Debug)]
pub struct PrfInstance {
    pub input: Vec<u8>,
    pub key: [u8; 32],
}

/// The witness of a spending proof: which coin is spent, how its owner shows that it is theirs,
/// and what its nullifier is derived from.
#[derive(Debug)]
pub struct SpendCircuit {
    /// Evaluates to the nullifier of the coin.
    pub prf_instance_nullifier: PrfInstance,
    /// Evaluates to the public key of the coin's owner.
    pub prf_instance_ownership: PrfInstance,
    /// The coin that is spent.
    pub record: CoinRecord,
    /// All coins, in the order of the ledger's records.
    pub coins: Vec<CoinRecord>,
    /// Where in the ledger the spent coin is.
    pub index: usize,
}

impl SpendCircuit {
    /// Whether this is the witness of the first player spending their coin, of two coins that are
    /// given. The nullifier is derived from the coin's field `rho`.
    pub open spec fn spends_first_of(self, first: Coin, second: Coin, rho: int) -> bool {
        &&& crate::coin::coins(self.coins@) == seq![first, second]
        &&& self.index == 0
        &&& self.record@ == first
        &&& self.prf_instance_ownership.input@ == crate::coin::zeros(32)
        &&& self.prf_instance_ownership.key@ == Seq::new(32, |i: int| 20u8)
        &&& self.prf_instance_nullifier.input@ == first.fields[rho]
        &&& self.prf_instance_nullifier.key@ == Seq::new(32, |i: int| 20u8)
    }
}

/// The first player's coin, with its entropy and blinding factor.
pub open spec fn alice_coin(entropy: Seq<u8>, blind: Seq<u8>, lottery: u8) -> Coin {
    lottery_coin(entropy, alice_public(), ALICE_AMOUNT, lottery, blind)
}

/// The second player's coin, with its entropy and blinding factor.
pub open spec fn bob_coin(entropy: Seq<u8>, blind: Seq<u8>, lottery: u8) -> Coin {
    lottery_coin(entropy, bob_public(), BOB_AMOUNT, lottery, blind)
}

/// Both players' coins take part in the same lottery and are of the same asset; they differ in
/// nothing but their randomness, their owner and their amount, which is 15 and 22.
pub proof fn law_both_coins_play(
    first_entropy: Seq<u8>,
    first_blind: Seq<u8>,
    second_entropy: Seq<u8>,
    second_blind: Seq<u8>,
    lottery: u8,
)
    ensures
        ({
            let first = alice_coin(first_entropy, first_blind, lottery);
            let second = bob_coin(second_entropy, second_blind, lottery);
            &&& first.fields.len() == 8
            &&& second.fields.len() == 8
            &&& first.fields[0] == first_entropy
            &&& second.fields[0] == second_entropy
            &&& first.blind == first_blind
            &&& second.blind == second_blind
            &&& first.fields[1] == alice_public()
            &&& second.fields[1] == bob_public()
            &&& first.fields[3] == seq![15u8]
            &&& second.fields[3] == seq![22u8]
            &&& first.fields[2] == seq![1u8]
            &&& second.fields[2] == seq![1u8]
            &&& first.fields[4] == seq![lottery]
            &&& second.fields[4] == seq![lottery]
            &&& first.fields[5] == seq![0u8]
            &&& second.fields[5] == seq![0u8]
            &&& first.fields[6] == seq![0u8]
            &&& second.fields[6] == seq![0u8]
            &&& first.fields[7] == Seq::new(32, |i: int| 0u8)
            &&& second.fields[7] == Seq::new(32, |i: int| 0u8)
        }),
{
    assert(crate::coin::zeros(32) =~= Seq::new(32, |i: int| 0u8));
}

/// The lottery in which a coin takes part is in its field for the application, and in no other
/// place: coins of two lotteries agree in that field exactly when the lotteries are the same.
pub proof fn law_coins_tell_their_lottery(
    entropy: Seq<u8>,
    blind: Seq<u8>,
    lottery: u8,
    other: u8,
)
    ensures
        forall|k: int|
            0 <= k < 8 && k != 4 ==> {
                &&& #[trigger] alice_coin(entropy, blind, lottery).fields[k] == alice_coin(
                    entropy,
                    blind,
                    other,
                ).fields[k]
                &&& bob_coin(entropy, blind, lottery).fields[k] == bob_coin(
                    entropy,
                    blind,
                    other,
                ).fields[k]
            },
        alice_coin(entropy, blind, lottery).fields[4] == alice_coin(entropy, blind, other).fields[4]
            <==> lottery == other,
        bob_coin(entropy, blind, lottery).fields[4] == bob_coin(entropy, blind, other).fields[4]
            <==> lottery == other,
{
    assert(seq![lottery][0] == lottery && seq![other][0] == other);
}

/// A witness of the first player's spending names two coins, spends the one in the first record,
/// shows it under the first player's key, and derives the nullifier from that coin.
pub proof fn law_witness_names_both_coins(
    circuit: SpendCircuit,
    first: Coin,
    second: Coin,
    rho: int,
)
    requires
        circuit.spends_first_of(first, second, rho),
    ensures
        circuit.coins@.len() == 2,
        circuit.coins@[0]@ == first,
        circuit.coins@[1]@ == second,
        circuit.record@ == first,
        circuit.index == 0,
        circuit.prf_instance_ownership.input@ == Seq::new(32, |i: int| 0u8),
        circuit.prf_instance_ownership.key@ == Seq::new(32, |i: int| 20u8),
        circuit.prf_instance_nullifier.input@ == first.fields[rho],
        circuit.prf_instance_nullifier.key@ == Seq::new(32, |i: int| 20u8),
{
    let views = crate::coin::coins(circuit.coins@);
    assert(views.len() == 2 && views[0] == first && views[1] == second);
}

/// Makes the witness of the first player spending their coin, from the randomness of both coins.
pub fn make_witness(
    first_entropy: &Vec<u8>,
    first_blind: &Vec<u8>,
    second_entropy: &Vec<u8>,
    second_blind: &Vec<u8>,
    lottery: u8,
    rho: usize,
) -> (circuit: SpendCircuit)
    requires
        rho < 8,
    ensures
        circuit.spends_first_of(
            alice_coin(first_entropy@, first_blind@, lottery),
            bob_coin(second_entropy@, second_blind@, lottery),
            rho as int,
        ),
        circuit.coins@.len() == 2,
        circuit.coins@[0].fields@[0]@ == first_entropy@,
        circuit.coins@[0].fields@[1]@ == alice_public(),
        circuit.coins@[0].fields@[2]@ == seq![1u8],
        circuit.coins@[0].fields@[3]@ == seq![15u8],
        circuit.coins@[0].fields@[4]@ == seq![lottery],
        circuit.coins@[0].fields@[5]@ == seq![0u8],
        circuit.coins@[0].fields@[6]@ == seq![0u8],
        circuit.coins@[0].fields@[7]@ == Seq::new(32, |i: int| 0u8),
        circuit.coins@[0].blind@ == first_blind@,
        circuit.coins@[1].fields@[0]@ == second_entropy@,
        circuit.coins@[1].fields@[1]@ == bob_public(),
        circuit.coins@[1].fields@[2]@ == seq![1u8],
        circuit.coins@[1].fields@[3]@ == seq![22u8],
        circuit.coins@[1].fields@[4]@ == seq![lottery],
        circuit.coins@[1].fields@[5]@ == seq![0u8],
        circuit.coins@[1].fields@[6]@ == seq![0u8],
        circuit.coins@[1].fields@[7]@ == Seq::new(32, |i: int| 0u8),
        circuit.coins@[1].blind@ == second_blind@,
        circuit.index == 0,
        forall|k: int|
            0 <= k < 8 ==> (#[trigger] circuit.record.fields@[k])@
                == circuit.coins@[0].fields@[k]@,
        circuit.record.blind@ == circuit.coins@[0].blind@,
        circuit.prf_instance_ownership.input@ == Seq::new(32, |i: int| 0u8),
        circuit.prf_instance_ownership.key@ == Seq::new(32, |i: int| 20u8),
        circuit.prf_instance_nullifier.input@ == circuit.coins@[0].fields@[rho as int]@,
        circuit.prf_instance_nullifier.key@ == Seq::new(32, |i: int| 20u8),
{
    let alice = alice_key();
    let bob = bob_key();
    let first = make_lottery_coin(first_entropy, &alice.1, ALICE_AMOUNT, lottery, first_blind);
    let second = make_lottery_coin(second_entropy, &bob.1, BOB_AMOUNT, lottery, second_blind);
    let record = make_lottery_coin(first_entropy, &alice.1, ALICE_AMOUNT, lottery, first_blind);
    let nullifier_input = vstd::slice::slice_to_vec(first.fields[rho].as_slice());
    assert(nullifier_input@ == first@.fields[rho as int]);
    let mut coins: Vec<CoinRecord> = Vec::new();
    coins.push(first);
    coins.push(second);
    assert(crate::coin::coins(coins@) =~= seq![first@, second@]);
    let ownership_input: Vec<u8> = vec![0u8; 32];
    assert(ownership_input@ =~= crate::coin::zeros(32));
    SpendCircuit {
        prf_instance_nullifier: PrfInstance { input: nullifier_input, key: alice.0 },
        prf_instance_ownership: PrfInstance { input: ownership_input, key: alice.0 },
        record,
        coins,
        index: 0,
    }
}

/// Draws the randomness of two coins and makes the witness of the first player spending theirs.
/// One entropy and one blinding factor are passed over first.
pub fn setup_witness(at: &mut ChaChaPosition, lottery: u8, rho: usize) -> (circuit: SpendCircuit)
    requires
        rho < 8,
    ensures
        circuit.spends_first_of(
            alice_coin(
                old(at).keystream(2 * DRAW_WORDS, DRAW_BYTES as nat),
                old(at).keystream(3 * DRAW_WORDS, DRAW_BYTES as nat),
                lottery,
            ),
            bob_coin(
                old(at).keystream(4 * DRAW_WORDS, DRAW_BYTES as nat),
                old(at).keystream(5 * DRAW_WORDS, DRAW_BYTES as nat),
                lottery,
            ),
            rho as int,
        ),
        old(at).advanced(6 * DRAW_WORDS, *final(at)),
        circuit.coins@.len() == 2,
        circuit.coins@[0].fields@[0]@ == Seq::new(
            24,
            |i: int|
                chacha8_byte(
                    old(at).seed@,
                    old(at).stream,
                    (4 * (old(at).word_pos + 12) + i) % 0x40_0000_0000_0000_0000,
                ),
        ),
        circuit.coins@[0].fields@[1]@ == alice_public(),
        circuit.coins@[0].fields@[2]@ == seq![1u8],
        circuit.coins@[0].fields@[3]@ == seq![15u8],
        circuit.coins@[0].fields@[4]@ == seq![lottery],
        circuit.coins@[0].fields@[5]@ == seq![0u8],
        circuit.coins@[0].fields@[6]@ == seq![0u8],
        circuit.coins@[0].fields@[7]@ == Seq::new(32, |i: int| 0u8),
        circuit.coins@[0].blind@ == Seq::new(
            24,
            |i: int|
                chacha8_byte(
                    old(at).seed@,
                    old(at).stream,
                    (4 * (old(at).word_pos + 18) + i) % 0x40_0000_0000_0000_0000,
                ),
        ),
        circuit.coins@[1].fields@[0]@ == Seq::new(
            24,
            |i: int|
                chacha8_byte(
                    old(at).seed@,
                    old(at).stream,
                    (4 * (old(at).word_pos + 24) + i) % 0x40_0000_0000_0000_0000,
                ),
        ),
        circuit.coins@[1].fields@[1]@ == bob_public(),
        circuit.coins@[1].fields@[2]@ == seq![1u8],
        circuit.coins@[1].fields@[3]@ == seq![22u8],
        circuit.coins@[1].fields@[4]@ == seq![lottery],
        circuit.coins@[1].fields@[5]@ == seq![0u8],
        circuit.coins@[1].fields@[6]@ == seq![0u8],
        circuit.coins@[1].fields@[7]@ == Seq::new(32, |i: int| 0u8),
        circuit.coins@[1].blind@ == Seq::new(
            24,
            |i: int|
                chacha8_byte(
                    old(at).seed@,
                    old(at).stream,
                    (4 * (old(at).word_pos + 30) + i) % 0x40_0000_0000_0000_0000,
                ),
        ),
        circuit.index == 0,
        forall|k: int|
            0 <= k < 8 ==> (#[trigger] circuit.record.fields@[k])@
                == circuit.coins@[0].fields@[k]@,
        circuit.record.blind@ == circuit.coins@[0].blind@,
        circuit.prf_instance_ownership.input@ == Seq::new(32, |i: int| 0u8),
        circuit.prf_instance_ownership.key@ == Seq::new(32, |i: int| 20u8),
        circuit.prf_instance_nullifier.input@ == circuit.coins@[0].fields@[rho as int]@,
        circuit.prf_instance_nullifier.key@ == Seq::new(32, |i: int| 20u8),
        final(at).seed == old(at).seed,
        final(at).stream == old(at).stream,
        final(at).word_pos == (old(at).word_pos + 36) % 0x10_0000_0000_0000_0000,
{
    let ghost start = *at;
    let _ = draw(at);
    let ghost one = *at;
    let _ = draw(at);
    let ghost two = *at;
    let first_entropy = draw(at);
    let ghost three = *at;
    let first_blind = draw(at);
    let ghost four = *at;
    let second_entropy = draw(at);
    let ghost five = *at;
    let second_blind = draw(at);
    proof {
        let n = DRAW_BYTES as nat;
        law_places_add_up(start, 6, one, 6, two);
        law_places_add_up(start, 12, two, 6, three);
        law_places_add_up(start, 18, three, 6, four);
        law_places_add_up(start, 24, four, 6, five);
        law_places_add_up(start, 30, five, 6, *at);
        law_reading_on(start, 12, two, 0, n);
        law_reading_on(start, 18, three, 0, n);
        law_reading_on(start, 24, four, 0, n);
        law_reading_on(start, 30, five, 0, n);
    }
    make_witness(&first_entropy, &first_blind, &second_entropy, &second_blind, lottery, rho)
}

/// The public inputs of a spending proof, in the order in which the circuit takes them: the
/// coordinates of the spent coin's blinded commitment, those of the ledger's root, and the
/// nullifier.
pub fn public_inputs(
    blinded_x: FieldElement,
    blinded_y: FieldElement,
    root_x: FieldElement,
    root_y: FieldElement,
    nullifier: FieldElement,
) -> (inputs: Vec<FieldElement>)
    ensures
        crate::groth::field_values(inputs@) == seq![
            blinded_x@,
            blinded_y@,
            root_x@,
            root_y@,
            nullifier@,
        ],
        inputs@ == seq![blinded_x, blinded_y, root_x, root_y, nullifier],
{
    let mut inputs: Vec<FieldElement> = Vec::new();
    inputs.push(blinded_x);
    inputs.push(blinded_y);
    inputs.push(root_x);
    inputs.push(root_y);
    inputs.push(nullifier);
    assert(crate::groth::field_values(inputs@) =~= seq![
        blinded_x@,
        blinded_y@,
        root_x@,
        root_y@,
        nullifier@,
    ]);
    inputs
}

/// A value in the circuit: a field element, or one byte of a byte string.
#[derive(Clone, Copy, Debug, PartialEq, Eq)]
pub enum Wire {
    /// A coordinate of the spent coin's blinded commitment, as the circuit computes it.
    BlindedX,
    BlindedY,
    /// A coordinate of the root that the membership proof leads to.
    RootX,
    RootY,
    /// A public input of the proof.
    PublicInput(usize),
    /// A byte of the `x` coordinate of the spent coin's commitment.
    CommitmentX(usize),
    /// A byte of the ledger's record that membership is proved of.
    Leaf(usize),
    /// A byte of the spent coin's owner.
    Owner(usize),
    /// A byte of what the pseudorandom function gives for ownership.
    OwnershipPrf(usize),
    /// A byte of what the pseudorandom function gives for the nullifier.
    NullifierPrf(usize),
    /// A byte of the public nullifier.
    NullifierInput(usize),
}

/// An equality that the circuit enforces.
#[derive(Clone, Copy, Debug, PartialEq, Eq)]
pub struct Equality {
    pub left: Wire,
    pub right: Wire,
}

/// How many bytes the byte strings of the circuit have.
#[derive(Clone, Copy, Debug)]
pub struct WireCounts {
    pub commitment_x: usize,
    pub leaf: usize,
    pub owner: usize,
    pub ownership_prf: usize,
    pub nullifier_prf: usize,
    pub nullifier_input: usize,
}

/// Why the parts of the circuit cannot be tied together.
#[derive(Clone, Copy, Debug, PartialEq, Eq)]
pub enum BindingFault {
    /// The ledger's record is shorter than the coordinate.
    LeafTooShort,
    /// The ownership function's output is shorter than the owner.
    OwnershipTooShort,
    /// The nullifier is shorter than the nullifier function's output.
    NullifierTooShort,
}

/// The equalities of the field elements.
pub open spec fn field_equalities() -> Seq<Equality> {
    seq![
        Equality { left: Wire::BlindedX, right: Wire::PublicInput(0) },
        Equality { left: Wire::BlindedY, right: Wire::PublicInput(1) },
        Equality { left: Wire::RootX, right: Wire::PublicInput(2) },
        Equality { left: Wire::RootY, right: Wire::PublicInput(3) },
    ]
}

/// The equalities of the commitment's bytes with the record's.
pub open spec fn leaf_equalities(n: nat) -> Seq<Equality> {
    Seq::new(
        n,
        |i: int| Equality { left: Wire::CommitmentX(i as usize), right: Wire::Leaf(i as usize) },
    )
}

/// The equalities of the owner's bytes with the ownership function's.
pub open spec fn owner_equalities(n: nat) -> Seq<Equality> {
    Seq::new(
        n,
        |i: int| Equality { left: Wire::Owner(i as usize), right: Wire::OwnershipPrf(i as usize) },
    )
}

/// The equalities of the nullifier function's bytes with the nullifier's.
pub open spec fn nullifier_equalities(n: nat) -> Seq<Equality> {
    Seq::new(
        n,
        |i: int|
            Equality {
                left: Wire::NullifierPrf(i as usize),
                right: Wire::NullifierInput(i as usize),
            },
    )
}

/// All equalities, in order, or why there are none.
pub open spec fn equalities(counts: WireCounts) -> Result<Seq<Equality>, BindingFault> {
    if counts.commitment_x > counts.leaf {
        Err(BindingFault::LeafTooShort)
    } else if counts.owner > counts.ownership_prf {
        Err(BindingFault::OwnershipTooShort)
    } else if counts.nullifier_prf > counts.nullifier_input {
        Err(BindingFault::NullifierTooShort)
    } else {
        Ok(
            field_equalities() + leaf_equalities(counts.commitment_x as nat) + owner_equalities(
                counts.owner as nat,
            ) + nullifier_equalities(counts.nullifier_prf as nat),
        )
    }
}

/// Lists the equalities of the field elements: two for the commitment, then two for the root.
pub fn coordinate_equalities() -> (list: Vec<Equality>)
    ensures
        list@ == field_equalities(),
        list@.len() == 4,
        list@[0] == (Equality { left: Wire::BlindedX, right: Wire::PublicInput(0) }),
        list@[1] == (Equality { left: Wire::BlindedY, right: Wire::PublicInput(1) }),
        list@[2] == (Equality { left: Wire::RootX, right: Wire::PublicInput(2) }),
        list@[3] == (Equality { left: Wire::RootY, right: Wire::PublicInput(3) }),
{
    let mut list: Vec<Equality> = Vec::new();
    list.push(Equality { left: Wire::BlindedX, right: Wire::PublicInput(0) });
    list.push(Equality { left: Wire::BlindedY, right: Wire::PublicInput(1) });
    list.push(Equality { left: Wire::RootX, right: Wire::PublicInput(2) });
    list.push(Equality { left: Wire::RootY, right: Wire::PublicInput(3) });
    assert(list@ =~= field_equalities());
    list
}

/// Lists the equalities that tie the parts of the circuit together, in the order in which the
/// circuit enforces them. Those of [`coordinate_equalities`] come first.
pub fn binding_equalities(counts: &WireCounts) -> (list: Result<Vec<Equality>, BindingFault>)
    ensures
        match list {
            Ok(l) => equalities(*counts) == Ok::<_, BindingFault>(l@),
            Err(fault) => equalities(*counts) == Err::<Seq<Equality>, _>(fault),
        },
        list is Ok <==> {
            &&& counts.commitment_x <= counts.leaf
            &&& counts.owner <= counts.ownership_prf
            &&& counts.nullifier_prf <= counts.nullifier_input
        },
        list matches Err(fault) ==> match fault {
            BindingFault::LeafTooShort => counts.leaf < counts.commitment_x,
            BindingFault::OwnershipTooShort => {
                &&& counts.commitment_x <= counts.leaf
                &&& counts.ownership_prf < counts.owner
            },
            BindingFault::NullifierTooShort => {
                &&& counts.commitment_x <= counts.leaf
                &&& counts.owner <= counts.ownership_prf
                &&& counts.nullifier_input < counts.nullifier_prf
            },
        },
        list matches Ok(l) ==> {
            &&& l@.len() == 4 + counts.commitment_x + counts.owner + counts.nullifier_prf
            &&& l@[0] == (Equality { left: Wire::BlindedX, right: Wire::PublicInput(0) })
            &&& l@[1] == (Equality { left: Wire::BlindedY, right: Wire::PublicInput(1) })
            &&& l@[2] == (Equality { left: Wire::RootX, right: Wire::PublicInput(2) })
            &&& l@[3] == (Equality { left: Wire::RootY, right: Wire::PublicInput(3) })
            &&& forall|i: usize|
                0 <= i < counts.commitment_x ==> #[trigger] l@[4 + i] == (Equality {
                    left: Wire::CommitmentX(i),
                    right: Wire::Leaf(i),
                })
            &&& forall|i: usize|
                0 <= i < counts.owner ==> #[trigger] l@[4 + counts.commitment_x + i] == (Equality {
                    left: Wire::Owner(i),
                    right: Wire::OwnershipPrf(i),
                })
            &&& forall|i: usize|
                0 <= i < counts.nullifier_prf ==> #[trigger] l@[4 + counts.commitment_x + counts.owner + i]
                    == (Equality {
                    left: Wire::NullifierPrf(i),
                    right: Wire::NullifierInput(i),
                })
        },
{
    if counts.commitment_x > counts.leaf {
        return Err(BindingFault::LeafTooShort);
    }
    if counts.owner > counts.ownership_prf {
        return Err(BindingFault::OwnershipTooShort);
    }
    if counts.nullifier_prf > counts.nullifier_input {
        return Err(BindingFault::NullifierTooShort);
    }
    let mut list = coordinate_equalities();
    assert(list@ =~= field_equalities() + leaf_equalities(0));
    let mut i: usize = 0;
    while i < counts.commitment_x
        invariant
            i <= counts.commitment_x,
            list@ == field_equalities() + leaf_equalities(i as nat),
        decreases counts.commitment_x - i,
    {
        list.push(Equality { left: Wire::CommitmentX(i), right: Wire::Leaf(i) });
        i = i + 1;
        assert(list@ =~= field_equalities() + leaf_equalities(i as nat));
    }
    let ghost done = list@;
    assert(list@ =~= done + owner_equalities(0));
    let mut j: usize = 0;
    while j < counts.owner
        invariant
            j <= counts.owner,
            list@ == done + owner_equalities(j as nat),
        decreases counts.owner - j,
    {
        list.push(Equality { left: Wire::Owner(j), right: Wire::OwnershipPrf(j) });
        j = j + 1;
        assert(list@ =~= done + owner_equalities(j as nat));
    }
    let ghost done = list@;
    assert(list@ =~= done + nullifier_equalities(0));
    let mut k: usize = 0;
    while k < counts.nullifier_prf
        invariant
            k <= counts.nullifier_prf,
            list@ == done + nullifier_equalities(k as nat),
        decreases counts.nullifier_prf - k,
    {
        list.push(Equality { left: Wire::NullifierPrf(k), right: Wire::NullifierInput(k) });
        k = k + 1;
        assert(list@ =~= done + nullifier_equalities(k as nat));
    }
    proof {
        law_equalities_listed(*counts);
    }
    Ok(list)
}

/// The parts can be tied together exactly where no byte string on the right is shorter than its
/// partner on the left, equal lengths among them; the first pair that does not fit is the fault that
/// is named. The list then holds the four coordinates and every byte of every left-hand string.
pub proof fn law_equalities_listed(counts: WireCounts)
    ensures
        equalities(counts) is Ok <==> {
            &&& counts.commitment_x <= counts.leaf
            &&& counts.owner <= counts.ownership_prf
            &&& counts.nullifier_prf <= counts.nullifier_input
        },
        equalities(counts) matches Err(fault) ==> match fault {
            BindingFault::LeafTooShort => counts.leaf < counts.commitment_x,
            BindingFault::OwnershipTooShort => {
                &&& counts.commitment_x <= counts.leaf
                &&& counts.ownership_prf < counts.owner
            },
            BindingFault::NullifierTooShort => {
                &&& counts.commitment_x <= counts.leaf
                &&& counts.owner <= counts.ownership_prf
                &&& counts.nullifier_input < counts.nullifier_prf
            },
        },
        equalities(counts) matches Ok(l) ==> {
            &&& l.len() == 4 + counts.commitment_x + counts.owner + counts.nullifier_prf
            &&& l[0] == (Equality { left: Wire::BlindedX, right: Wire::PublicInput(0) })
            &&& l[1] == (Equality { left: Wire::BlindedY, right: Wire::PublicInput(1) })
            &&& l[2] == (Equality { left: Wire::RootX, right: Wire::PublicInput(2) })
            &&& l[3] == (Equality { left: Wire::RootY, right: Wire::PublicInput(3) })
            &&& forall|i: usize|
                0 <= i < counts.commitment_x ==> #[trigger] l[4 + i] == (Equality {
                    left: Wire::CommitmentX(i),
                    right: Wire::Leaf(i),
                })
            &&& forall|i: usize|
                0 <= i < counts.owner ==> #[trigger] l[4 + counts.commitment_x + i] == (Equality {
                    left: Wire::Owner(i),
                    right: Wire::OwnershipPrf(i),
                })
            &&& forall|i: usize|
                0 <= i < counts.nullifier_prf ==> #[trigger] l[4 + counts.commitment_x + counts.owner + i]
                    == (Equality {
                    left: Wire::NullifierPrf(i),
                    right: Wire::NullifierInput(i),
                })
        },
{
    if equalities(counts) is Ok {
        let l = equalities(counts)->Ok_0;
        let (c, o, n) = (
            counts.commitment_x as nat,
            counts.owner as nat,
            counts.nullifier_prf as nat,
        );
        assert forall|i: usize| 0 <= i < c implies #[trigger] l[4 + i] == (Equality {
            left: Wire::CommitmentX(i),
            right: Wire::Leaf(i),
        }) by {
            assert(l[4 + i] == leaf_equalities(c)[i as int]);
        }
        assert forall|i: usize| 0 <= i < o implies #[trigger] l[4 + counts.commitment_x + i] == (
        Equality { left: Wire::Owner(i), right: Wire::OwnershipPrf(i) }) by {
            assert(l[4 + c + i] == owner_equalities(o)[i as int]);
        }
        assert forall|i: usize| 0 <= i < n implies #[trigger] l[4 + counts.commitment_x
            + counts.owner + i] == (Equality {
            left: Wire::NullifierPrf(i),
            right: Wire::NullifierInput(i),
        }) by {
            assert(l[4 + c + o + i] == nullifier_equalities(n)[i as int]);
        }
    }
}

/// Longer strings on the right change nothing: where the parts can be tied together, they are tied
/// by the same equalities when the record, the ownership function's output or the nullifier grows.
pub proof fn law_longer_partners_are_tied_alike(counts: WireCounts, wider: WireCounts)
    requires
        counts.commitment_x <= counts.leaf <= wider.leaf,
        counts.owner <= counts.ownership_prf <= wider.ownership_prf,
        counts.nullifier_prf <= counts.nullifier_input <= wider.nullifier_input,
        wider.commitment_x == counts.commitment_x,
        wider.owner == counts.owner,
        wider.nullifier_prf == counts.nullifier_prf,
    ensures
        equalities(counts) is Ok,
        equalities(wider) == equalities(counts),
{
}

/// The values that a prover gives to the circuit's wires.
pub struct Assignment {
    pub blinded: (nat, nat),
    pub root: (nat, nat),
    pub public_inputs: Seq<nat>,
    pub commitment_x: Seq<u8>,
    pub leaf: Seq<u8>,
    pub owner: Seq<u8>,
    pub ownership_prf: Seq<u8>,
    pub nullifier_prf: Seq<u8>,
    pub nullifier_input: Seq<u8>,
}

/// Whether one byte string begins with another.
pub open spec fn begins_with(long: Seq<u8>, short: Seq<u8>) -> bool {
    short.len() <= long.len() && long.take(short.len() as int) == short
}

impl Assignment {
    /// The value of a wire.
    pub open spec fn value(self, wire: Wire) -> nat {
        match wire {
            Wire::BlindedX => self.blinded.0,
            Wire::BlindedY => self.blinded.1,
            Wire::RootX => self.root.0,
            Wire::RootY => self.root.1,
            Wire::PublicInput(i) => self.public_inputs[i as int],
            Wire::CommitmentX(i) => self.commitment_x[i as int] as nat,
            Wire::Leaf(i) => self.leaf[i as int] as nat,
            Wire::Owner(i) => self.owner[i as int] as nat,
            Wire::OwnershipPrf(i) => self.ownership_prf[i as int] as nat,
            Wire::NullifierPrf(i) => self.nullifier_prf[i as int] as nat,
            Wire::NullifierInput(i) => self.nullifier_input[i as int] as nat,
        }
    }

    /// Whether the byte strings have the given lengths.
    pub open spec fn has_counts(self, counts: WireCounts) -> bool {
        &&& self.commitment_x.len() == counts.commitment_x
        &&& self.leaf.len() == counts.leaf
        &&& self.owner.len() == counts.owner
        &&& self.ownership_prf.len() == counts.ownership_prf
        &&& self.nullifier_prf.len() == counts.nullifier_prf
        &&& self.nullifier_input.len() == counts.nullifier_input
    }

    /// Whether all of some equalities hold.
    pub open spec fn satisfies(self, list: Seq<Equality>) -> bool {
        forall|i: int|
            0 <= i < list.len() ==> self.value((#[trigger] list[i]).left) == self.value(
                list[i].right,
            )
    }

    /// What the parts of a spending proof have to do with each other: the commitment and the root
    /// are the public ones, the record in the ledger begins with the spent coin's commitment, the
    /// ownership function's output begins with the coin's owner, and the nullifier's bytes begin
    /// with the nullifier function's output.
    pub open spec fn bound(self) -> bool {
        &&& self.blinded.0 == self.public_inputs[0]
        &&& self.blinded.1 == self.public_inputs[1]
        &&& self.root.0 == self.public_inputs[2]
        &&& self.root.1 == self.public_inputs[3]
        &&& begins_with(self.leaf, self.commitment_x)
        &&& begins_with(self.ownership_prf, self.owner)
        &&& begins_with(self.nullifier_input, self.nullifier_prf)
    }
}

/// The equalities hold for exactly those values for which the parts of the proof fit together.
pub proof fn law_equalities_bind(values: Assignment, counts: WireCounts, list: Seq<Equality>)
    requires
        values.has_counts(counts),
        equalities(counts) == Ok::<_, BindingFault>(list),
    ensures
        values.satisfies(list) <==> values.bound(),
{
    let (c, o, n) = (
        counts.commitment_x as int,
        counts.owner as int,
        counts.nullifier_prf as int,
    );
    if values.satisfies(list) {
        assert(list[0] == field_equalities()[0] && list[1] == field_equalities()[1] && list[2]
            == field_equalities()[2] && list[3] == field_equalities()[3]);
        assert forall|i: int| 0 <= i < c implies values.leaf[i] == values.commitment_x[i] by {
            assert(list[4 + i] == leaf_equalities(c as nat)[i]);
        }
        assert(values.leaf.take(c) =~= values.commitment_x);
        assert forall|i: int| 0 <= i < o implies values.ownership_prf[i] == values.owner[i] by {
            assert(list[4 + c + i] == owner_equalities(o as nat)[i]);
        }
        assert(values.ownership_prf.take(o) =~= values.owner);
        assert forall|i: int| 0 <= i < n implies values.nullifier_input[i]
            == values.nullifier_prf[i] by {
            assert(list[4 + c + o + i] == nullifier_equalities(n as nat)[i]);
        }
        assert(values.nullifier_input.take(n) =~= values.nullifier_prf);
    }
    if values.bound() {
        assert forall|i: int| 0 <= i < list.len() implies values.value((#[trigger] list[i]).left)
            == values.value(list[i].right) by {
            if i < 4 {
                assert(list[i] == field_equalities()[i]);
            } else if i < 4 + c {
                assert(list[i] == leaf_equalities(c as nat)[i - 4]);
                assert(values.leaf.take(c)[i - 4] == values.commitment_x[i - 4]);
            } else if i < 4 + c + o {
                assert(list[i] == owner_equalities(o as nat)[i - 4 - c]);
                assert(values.ownership_prf.take(o)[i - 4 - c] == values.owner[i - 4 - c]);
            } else {
                assert(list[i] == nullifier_equalities(n as nat)[i - 4 - c - o]);
                assert(values.nullifier_input.take(n)[i - 4 - c - o] == values.nullifier_prf[i - 4
                    - c - o]);
            }
        }
    }
}

/// The equalities hold for exactly those values whose coordinates are the first four public inputs
/// and whose byte strings on the left agree, byte for byte, with their partners on the right.
pub proof fn law_equalities_bind_every_byte(
    values: Assignment,
    counts: WireCounts,
    list: Seq<Equality>,
)
    requires
        values.commitment_x.len() == counts.commitment_x <= values.leaf.len() == counts.leaf,
        values.owner.len() == counts.owner <= values.ownership_prf.len() == counts.ownership_prf,
        values.nullifier_prf.len() == counts.nullifier_prf <= values.nullifier_input.len()
            == counts.nullifier_input,
        equalities(counts) == Ok::<_, BindingFault>(list),
    ensures
        (forall|i: int|
            0 <= i < list.len() ==> values.value((#[trigger] list[i]).left) == values.value(
                list[i].right,
            )) <==> {
            &&& values.blinded.0 == values.public_inputs[0]
            &&& values.blinded.1 == values.public_inputs[1]
            &&& values.root.0 == values.public_inputs[2]
            &&& values.root.1 == values.public_inputs[3]
            &&& forall|i: int|
                0 <= i < values.commitment_x.len() ==> #[trigger] values.commitment_x[i]
                    == values.leaf[i]
            &&& forall|i: int|
                0 <= i < values.owner.len() ==> #[trigger] values.owner[i]
                    == values.ownership_prf[i]
            &&& forall|i: int|
                0 <= i < values.nullifier_prf.len() ==> #[trigger] values.nullifier_prf[i]
                    == values.nullifier_input[i]
        },
{
    law_equalities_bind(values, counts, list);
    let (c, o, n) = (values.commitment_x, values.owner, values.nullifier_prf);
    if values.bound() {
        assert forall|i: int| 0 <= i < c.len() implies #[trigger] c[i] == values.leaf[i] by {
            assert(values.leaf.take(c.len() as int)[i] == c[i]);
        }
        assert forall|i: int| 0 <= i < o.len() implies #[trigger] o[i]
            == values.ownership_prf[i] by {
            assert(values.ownership_prf.take(o.len() as int)[i] == o[i]);
        }
        assert forall|i: int| 0 <= i < n.len() implies #[trigger] n[i]
            == values.nullifier_input[i] by {
            assert(values.nullifier_input.take(n.len() as int)[i] == n[i]);
        }
    } else {
        assert(!(values.leaf.take(c.len() as int) =~= c) || !(values.ownership_prf.take(
            o.len() as int,
        ) =~= o) || !(values.nullifier_input.take(n.len() as int) =~= n) || values.blinded.0
            != values.public_inputs[0] || values.blinded.1 != values.public_inputs[1]
            || values.root.0 != values.public_inputs[2] || values.root.1
            != values.public_inputs[3]);
    }
}

/// The `n` low bytes of a number, least significant first.
pub open spec fn le_bytes(value: nat, n: nat) -> Seq<u8>
    decreases n,
{
    if n == 0 {
        Seq::empty()
    } else {
        seq![(value % 256) as u8] + le_bytes(value / 256, (n - 1) as nat)
    }
}

/// The `n` low bits of a number, least significant first.
pub open spec fn le_bits(value: nat, n: nat) -> Seq<bool>
    decreases n,
{
    if n == 0 {
        Seq::empty()
    } else {
        seq![value % 2 == 1] + le_bits(value / 2, (n - 1) as nat)
    }
}

/// The bits of bytes, least significant first. It is presumed that the bits which
/// [`FieldElement::from_bits_le`] is given are a function's output spread in this way; nothing here
/// spreads them.
pub open spec fn bytes_bits(bytes: Seq<u8>) -> Seq<bool>
    decreases bytes.len(),
{
    if bytes.len() == 0 {
        Seq::empty()
    } else {
        le_bits(bytes[0] as nat, 8) + bytes_bits(bytes.skip(1))
    }
}

/// The bytes of a number are its digits to the base 256, its bits those to the base 2, and the bits
/// of bytes are those of each byte in turn, eight for each.
pub proof fn law_digits(value: nat, n: nat, bytes: Seq<u8>)
    ensures
        le_bytes(value, n).len() == n,
        forall|i: nat|
            i < n ==> #[trigger] le_bytes(value, n)[i as int] == (value / pow2(8 * i)) % 256,
        le_bits(value, n).len() == n,
        forall|i: nat|
            i < n ==> #[trigger] le_bits(value, n)[i as int] == ((value / pow2(i)) % 2 == 1),
        bytes_bits(bytes).len() == 8 * bytes.len(),
        forall|i: int|
            0 <= i < 8 * bytes.len() ==> #[trigger] bytes_bits(bytes)[i] == ((bytes[i / 8] as nat
                / pow2((i % 8) as nat)) % 2 == 1),
    decreases n + bytes.len(),
{
    lemma2_to64();
    if n > 0 {
        let less = (n - 1) as nat;
        law_digits(value / 256, less, bytes);
        assert forall|i: nat| i < n implies #[trigger] le_bytes(value, n)[i as int] == (value
            / pow2(8 * i)) % 256 by {
            if i == 0 {
                assert(value / pow2(8 * i) == value / 1);
            } else {
                let before = (i - 1) as nat;
                assert(le_bytes(value, n)[i as int] == le_bytes(value / 256, less)[before as int]);
                lemma_pow2_adds(8, 8 * before);
                lemma_pow2_pos(8 * before);
                lemma_div_denominator(value as int, 256, pow2(8 * before) as int);
            }
        }
        lemma_bit_at(value, n, 0);
        assert forall|i: nat| i < n implies #[trigger] le_bits(value, n)[i as int] == ((value
            / pow2(i)) % 2 == 1) by {
            lemma_bit_at(value, n, i);
        }
    }
    if bytes.len() > 0 {
        let rest = bytes.skip(1);
        law_digits(value, n, rest);
        lemma_bit_at(bytes[0] as nat, 8, 0);
        assert forall|i: int| 0 <= i < 8 * bytes.len() implies #[trigger] bytes_bits(bytes)[i] == ((
        bytes[i / 8] as nat / pow2((i % 8) as nat)) % 2 == 1) by {
            if i < 8 {
                lemma_bit_at(bytes[0] as nat, 8, i as nat);
            } else {
                assert(bytes_bits(bytes)[i] == bytes_bits(rest)[i - 8]);
                assert(rest[(i - 8) / 8] == bytes[i / 8]);
            }
        }
    }
}

/// One of the bits of a number.
proof fn lemma_bit_at(value: nat, n: nat, i: nat)
    requires
        i < n,
    ensures
        le_bits(value, n).len() == n,
        le_bits(value, n)[i as int] == ((value / pow2(i)) % 2 == 1),
    decreases n,
{
    lemma2_to64();
    reveal_with_fuel(le_bits, 2);
    assert(value / 1 == value);
    if n > 1 {
        lemma_bit_at(value / 2, (n - 1) as nat, if i > 0 { (i - 1) as nat } else { 0 });
    }
    if i > 0 {
        let before = (i - 1) as nat;
        lemma_pow2_unfold(i);
        lemma_pow2_pos(before);
        lemma_div_denominator(value as int, 2, pow2(before) as int);
    }
}

/// The bits of a small number in front of others are one digit to the base of a power of two.
proof fn lemma_bits_in_front(value: nat, n: nat, rest: Seq<bool>)
    requires
        value < pow2(n),
    ensures
        le_bits(value, n).len() == n,
        bits_value(le_bits(value, n) + rest) == value + pow2(n) * bits_value(rest),
    decreases n,
{
    lemma2_to64();
    if n == 0 {
        assert(le_bits(value, n) + rest =~= rest);
    } else {
        lemma_pow2_unfold(n);
        let less = (n - 1) as nat;
        lemma_bits_in_front(value / 2, less, rest);
        assert((le_bits(value, n) + rest).skip(1) =~= le_bits(value / 2, less) + rest);
        assert(2 * (pow2(less) * bits_value(rest)) == pow2(n) * bits_value(rest))
            by (nonlinear_arith)
            requires
                pow2(n) == 2 * pow2(less),
        ;
    }
}

/// What the bits of bytes stand for has those bytes as its low bytes, and no others.
proof fn lemma_bytes_of_bits(bytes: Seq<u8>, n: nat)
    requires
        bytes.len() <= n,
    ensures
        bytes_bits(bytes).len() == 8 * bytes.len(),
        le_bytes(bits_value(bytes_bits(bytes)), n).len() == n,
        begins_with(le_bytes(bits_value(bytes_bits(bytes)), n), bytes),
    decreases n,
{
    let v = bits_value(bytes_bits(bytes));
    if n == 0 {
        assert(le_bytes(v, 0).take(0) =~= bytes);
    } else if bytes.len() == 0 {
        assert(v == 0);
        lemma_bytes_of_bits(bytes, (n - 1) as nat);
        assert(le_bytes(v, n).take(0) =~= bytes);
    } else {
        let rest = bytes.skip(1);
        lemma_bytes_of_bits(rest, (n - 1) as nat);
        lemma2_to64();
        lemma_bits_in_front(bytes[0] as nat, 8, bytes_bits(rest));
        let tail = le_bytes(bits_value(bytes_bits(rest)), (n - 1) as nat);
        assert(le_bytes(v, n) == seq![bytes[0]] + tail);
        assert forall|i: int| 0 <= i < bytes.len() implies le_bytes(v, n)[i] == bytes[i] by {
            if i > 0 {
                assert(tail.take(rest.len() as int)[i - 1] == rest[i - 1]);
            }
        }
        assert(le_bytes(v, n).take(bytes.len() as int) =~= bytes);
    }
}

/// Bits stand for less than a power of two.
proof fn lemma_bits_bounded(bits: Seq<bool>)
    ensures
        bits_value(bits) < pow2(bits.len()),
    decreases bits.len(),
{
    lemma2_to64();
    if bits.len() > 0 {
        lemma_bits_bounded(bits.skip(1));
        lemma_pow2_unfold(bits.len());
    }
}

/// Two to the power of 376 is below the modulus.
proof fn lemma_pow2_376()
    ensures
        pow2(376) < modulus(),
{
    lemma2_to64();
    lemma2_to64_rest();
    lemma_pow2_adds(64, 64);
    lemma_pow2_adds(128, 128);
    lemma_pow2_adds(64, 56);
    lemma_pow2_adds(256, 120);
    assert(pow2(376) == 0x100_0000_0000_0000_0000_0000_0000_0000_0000_0000_0000_0000_0000_0000_0000_0000_0000_0000_0000_0000_0000_0000_0000_0000)
        by (nonlinear_arith)
        requires
            pow2(376) == pow2(256) * pow2(120),
            pow2(256) == pow2(128) * pow2(128),
            pow2(128) == pow2(64) * pow2(64),
            pow2(120) == pow2(64) * pow2(56),
            pow2(64) == 0x1_0000_0000_0000_0000,
            pow2(56) == 0x100_0000_0000_0000,
    ;
}

/// The nullifier made from what the pseudorandom function gives, bit for bit, has those bytes as
/// its first bytes, so that the circuit accepts it; and it exists whenever that output has at most
/// 47 bytes, which the field can always hold. It is presumed that the output is spread into bits
/// with the least significant bit of each byte first.
pub proof fn law_nullifier_shows_its_function(prf: Seq<u8>)
    requires
        prf.len() <= 48,
    ensures
        begins_with(le_bytes(bits_value(low_bits(bytes_bits(prf))), 48), prf),
        prf.len() <= 47 ==> bits_value(low_bits(bytes_bits(prf))) < modulus(),
{
    lemma_bytes_of_bits(prf, 48);
    assert(low_bits(bytes_bits(prf)) == bytes_bits(prf));
    if prf.len() <= 47 {
        lemma_bits_bounded(bytes_bits(prf));
        if bytes_bits(prf).len() < 376 {
            lemma_pow2_strictly_increases(bytes_bits(prf).len(), 376);
        }
        lemma_pow2_376();
    }
}

/// Where every equality holds, the published nullifier, which is the fifth public input, shows the
/// nullifier function's output: its bytes begin with it.
pub proof fn law_published_nullifier_is_bound(
    values: Assignment,
    counts: WireCounts,
    list: Seq<Equality>,
)
    requires
        values.has_counts(counts),
        equalities(counts) == Ok::<_, BindingFault>(list),
        values.nullifier_input == le_bytes(values.public_inputs[4], 48),
        values.satisfies(list),
    ensures
        begins_with(le_bytes(values.public_inputs[4], 48), values.nullifier_prf),
{
    law_equalities_bind(values, counts, list);
}

/// A spender who tells the truth satisfies every equality: the public inputs are the circuit's own
/// values in their order, the record in the ledger begins with the coin's commitment, the ownership
/// function's output begins with the owner, and the nullifier is made from the nullifier function's
/// output. It is presumed that the output is spread into bits with the least significant bit of
/// each byte first.
pub proof fn law_honest_spender_satisfies(
    values: Assignment,
    counts: WireCounts,
    list: Seq<Equality>,
)
    requires
        values.has_counts(counts),
        equalities(counts) == Ok::<_, BindingFault>(list),
        values.public_inputs == seq![
            values.blinded.0,
            values.blinded.1,
            values.root.0,
            values.root.1,
            bits_value(low_bits(bytes_bits(values.nullifier_prf))),
        ],
        values.nullifier_prf.len() <= 48,
        values.nullifier_input == le_bytes(values.public_inputs[4], 48),
        begins_with(values.leaf, values.commitment_x),
        begins_with(values.ownership_prf, values.owner),
    ensures
        values.satisfies(list),
{
    law_nullifier_shows_its_function(values.nullifier_prf);
    law_equalities_bind(values, counts, list);
}

} // verus!
