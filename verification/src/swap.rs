//! Verification of swaps. Each participant proves locally, with Groth16, what they put in; the
//! participants together prove the exchange itself. A swap is sound only if the coins that the
//! joint proof speaks of are the coins that the local proofs committed to.

use vstd::prelude::*;

use crate::curve::{g1_multiple, g1_sum, in_group, point_values, G1Point};
use crate::field::{limbs_value, FieldElement};
use crate::groth::{field_values, groth16_verdict, GrothProof, ProofFault};

verus! {

/// A swap as submitted, decoded.
#[derive(Debug)]
pub struct SwapTransaction {
    /// One proof for each participant.
    pub local_proofs: Vec<GrothProof>,
    /// For each output coin, whether it stands for a participant's refund.
    pub placeholder_selector: Vec<bool>,
    /// For each participant, the correction of the refunded amount: little-endian limbs.
    pub amount_correction: Vec<Vec<u64>>,
    /// The commitments of the input coins of the joint proof.
    pub input_coins_com: Vec<G1Point>,
    /// The commitments of the output coins of the joint proof.
    pub output_coins_com: Vec<G1Point>,
}

/// Where a local proof's public inputs hold the coordinates of its commitments.
#[derive(Clone, Copy, Debug)]
pub struct SwapLayout {
    pub placeholder_refund_x: usize,
    pub placeholder_refund_y: usize,
    pub placeholder_output_x: usize,
    pub placeholder_output_y: usize,
    pub blinded_input_x: usize,
    pub blinded_input_y: usize,
}

/// What is wrong with one output coin of a swap.
#[derive(Clone, Copy, Debug, PartialEq, Eq)]
pub enum CoinFault {
    /// More participants are spoken of than there are local proofs.
    MissingLocalProof,
    /// There is no amount correction for the participant.
    MissingCorrection,
    /// The local proof has too few public inputs.
    MissingPublicInput,
    /// The public inputs are not the coordinates of a commitment.
    NotACommitment,
    /// The joint proof has too few output coins.
    MissingOutputCoin,
    /// The joint proof's output coin is not the one that the local proof allows.
    OutputMismatch,
    /// The joint proof has too few input coins.
    MissingInputCoin,
    /// The joint proof's input coin is not the one that the local proof put in.
    InputMismatch,
}

/// Why a swap is refused.
#[derive(Clone, Copy, Debug, PartialEq, Eq)]
pub enum SwapError {
    /// The local proof at this index is the first that is not accepted.
    LocalProof(usize, ProofFault),
    /// The output coin at this index is the first that is wrong.
    Coin(usize, CoinFault),
}

/// How many of the first `n` output coins are refunds: the participant whose turn it is at
/// output coin `n`.
pub open spec fn refunds_before(selector: Seq<bool>, n: nat) -> nat
    decreases n,
{
    if n == 0 {
        0
    } else {
        refunds_before(selector, (n - 1) as nat) + if selector[n - 1] {
            1nat
        } else {
            0nat
        }
    }
}

/// The commitment whose coordinates stand at two places of the public inputs.
pub open spec fn commitment_at(inputs: Seq<FieldElement>, x: usize, y: usize) -> Result<
    Option<(nat, nat)>,
    CoinFault,
> {
    if x >= inputs.len() || y >= inputs.len() {
        Err(CoinFault::MissingPublicInput)
    } else if !in_group(inputs[x as int]@, inputs[y as int]@) {
        Err(CoinFault::NotACommitment)
    } else {
        Ok(Some((inputs[x as int]@, inputs[y as int]@)))
    }
}

/// A refund's commitment, corrected: the correction times the generator of the amount is added.
pub open spec fn corrected(
    refund: Option<(nat, nat)>,
    amount_generator: Option<(nat, nat)>,
    correction: Seq<u64>,
) -> Option<(nat, nat)> {
    g1_sum(refund, g1_multiple(amount_generator, limbs_value(correction)))
}

/// Whether the joint proof's coin is there and is the expected one.
pub open spec fn matching(
    expected: Option<(nat, nat)>,
    coins: Seq<G1Point>,
    index: int,
    missing: CoinFault,
    mismatch: CoinFault,
) -> Result<(), CoinFault> {
    if index >= coins.len() {
        Err(missing)
    } else if coins[index]@ != expected {
        Err(mismatch)
    } else {
        Ok(())
    }
}

impl SwapTransaction {
    /// The output coin `i` when it is a refund to `participant`: its commitment, or what is
    /// wrong with it.
    pub open spec fn refund_coin(
        self,
        layout: SwapLayout,
        amount_generator: Option<(nat, nat)>,
        i: int,
        participant: int,
    ) -> Result<Option<(nat, nat)>, CoinFault> {
        let inputs = self.local_proofs@[participant].public_inputs@;
        if participant >= self.amount_correction@.len() {
            Err(CoinFault::MissingCorrection)
        } else {
            match commitment_at(inputs, layout.placeholder_refund_x, layout.placeholder_refund_y) {
                Err(fault) => Err(fault),
                Ok(refund) => {
                    let expected = corrected(
                        refund,
                        amount_generator,
                        self.amount_correction@[participant]@,
                    );
                    match matching(
                        expected,
                        self.output_coins_com@,
                        i,
                        CoinFault::MissingOutputCoin,
                        CoinFault::OutputMismatch,
                    ) {
                        Err(fault) => Err(fault),
                        Ok(_) => match commitment_at(
                            inputs,
                            layout.blinded_input_x,
                            layout.blinded_input_y,
                        ) {
                            Err(fault) => Err(fault),
                            Ok(input) => match matching(
                                input,
                                self.input_coins_com@,
                                participant,
                                CoinFault::MissingInputCoin,
                                CoinFault::InputMismatch,
                            ) {
                                Err(fault) => Err(fault),
                                Ok(_) => Ok(expected),
                            },
                        },
                    }
                },
            }
        }
    }

    /// The output coin `i` when it is what `participant` bought: its commitment, or what is
    /// wrong with it.
    pub open spec fn bought_coin(self, layout: SwapLayout, i: int, participant: int) -> Result<
        Option<(nat, nat)>,
        CoinFault,
    > {
        let inputs = self.local_proofs@[participant].public_inputs@;
        match commitment_at(inputs, layout.placeholder_output_x, layout.placeholder_output_y) {
            Err(fault) => Err(fault),
            Ok(expected) => match matching(
                expected,
                self.output_coins_com@,
                i,
                CoinFault::MissingOutputCoin,
                CoinFault::OutputMismatch,
            ) {
                Err(fault) => Err(fault),
                Ok(_) => Ok(expected),
            },
        }
    }

    /// The output coin `i`: its commitment, or what is wrong with it.
    pub open spec fn output_coin(
        self,
        layout: SwapLayout,
        amount_generator: Option<(nat, nat)>,
        i: int,
    ) -> Result<Option<(nat, nat)>, CoinFault> {
        let participant = refunds_before(self.placeholder_selector@, i as nat) as int;
        if participant >= self.local_proofs@.len() {
            Err(CoinFault::MissingLocalProof)
        } else if self.placeholder_selector@[i] {
            self.refund_coin(layout, amount_generator, i, participant)
        } else {
            self.bought_coin(layout, i, participant)
        }
    }

    /// The outcome of verifying the swap: the first local proof that is not accepted, else the
    /// first output coin that is wrong, else the commitments of all output coins in order.
    pub open spec fn outcome(
        self,
        key: Seq<u8>,
        layout: SwapLayout,
        amount_generator: Option<(nat, nat)>,
        result: Result<Seq<Option<(nat, nat)>>, SwapError>,
    ) -> bool {
        match result {
            Err(SwapError::LocalProof(j, fault)) => {
                &&& j < self.local_proofs@.len()
                &&& self.local_proofs@[j as int].judged(key) == Err::<(), ProofFault>(fault)
                &&& forall|h: int| 0 <= h < j ==> (#[trigger] self.local_proofs@[h]).judged(key) is Ok
            },
            Err(SwapError::Coin(i, fault)) => {
                &&& self.locally_proved(key)
                &&& i < self.placeholder_selector@.len()
                &&& self.output_coin(layout, amount_generator, i as int) == Err::<
                    Option<(nat, nat)>,
                    CoinFault,
                >(fault)
                &&& forall|h: int|
                    0 <= h < i ==> #[trigger] self.output_coin(layout, amount_generator, h) is Ok
            },
            Ok(coins) => {
                &&& self.locally_proved(key)
                &&& coins.len() == self.placeholder_selector@.len()
                &&& forall|i: int|
                    0 <= i < coins.len() ==> #[trigger] self.output_coin(
                        layout,
                        amount_generator,
                        i,
                    ) == Ok::<Option<(nat, nat)>, CoinFault>(coins[i])
            },
        }
    }

    /// Whether a commitment is the one that the local proof of output coin `i`'s participant
    /// allows there: the bought coin's, or the refund's after its amount correction.
    pub open spec fn backed(
        self,
        layout: SwapLayout,
        amount_generator: Option<(nat, nat)>,
        i: int,
        coin: Option<(nat, nat)>,
    ) -> bool {
        let participant = refunds_before(self.placeholder_selector@, i as nat) as int;
        let inputs = self.local_proofs@[participant].public_inputs@;
        &&& participant < self.local_proofs@.len()
        &&& if self.placeholder_selector@[i] {
            let refund = commitment_at(
                inputs,
                layout.placeholder_refund_x,
                layout.placeholder_refund_y,
            );
            &&& participant < self.amount_correction@.len()
            &&& refund is Ok
            &&& coin == corrected(
                refund->Ok_0,
                amount_generator,
                self.amount_correction@[participant]@,
            )
        } else {
            commitment_at(inputs, layout.placeholder_output_x, layout.placeholder_output_y) == Ok::<
                _,
                CoinFault,
            >(coin)
        }
    }

    /// The commitments of the output coins in order, where none of them is wrong.
    pub open spec fn output_coins(
        self,
        layout: SwapLayout,
        amount_generator: Option<(nat, nat)>,
    ) -> Seq<Option<(nat, nat)>> {
        Seq::new(
            self.placeholder_selector@.len(),
            |i: int| self.output_coin(layout, amount_generator, i)->Ok_0,
        )
    }

    /// Whether the swap is accepted, but for the joint proof itself.
    pub open spec fn accepted(
        self,
        key: Seq<u8>,
        layout: SwapLayout,
        amount_generator: Option<(nat, nat)>,
    ) -> bool {
        self.outcome(
            key,
            layout,
            amount_generator,
            Ok(self.output_coins(layout, amount_generator)),
        )
    }

    /// Whether every local proof is accepted.
    pub open spec fn locally_proved(self, key: Seq<u8>) -> bool {
        forall|h: int|
            0 <= h < self.local_proofs@.len() ==> (#[trigger] self.local_proofs@[h]).judged(
                key,
            ) is Ok
    }
}

/// Reads the commitment whose coordinates stand at two places of the public inputs.
pub fn read_commitment(inputs: &Vec<FieldElement>, x: usize, y: usize) -> (commitment: Result<
    G1Point,
    CoinFault,
>)
    ensures
        match commitment {
            Ok(c) => commitment_at(inputs@, x, y) == Ok::<_, CoinFault>(c@),
            Err(fault) => commitment_at(inputs@, x, y) == Err::<Option<(nat, nat)>, _>(fault),
        },
        match commitment {
            Ok(c) => {
                &&& x < inputs@.len() && y < inputs@.len()
                &&& in_group(inputs@[x as int]@, inputs@[y as int]@)
                &&& !c.infinity && c.x@ == inputs@[x as int]@ && c.y@ == inputs@[y as int]@
            },
            Err(CoinFault::MissingPublicInput) => x >= inputs@.len() || y >= inputs@.len(),
            Err(CoinFault::NotACommitment) => x < inputs@.len() && y < inputs@.len() && !in_group(
                inputs@[x as int]@,
                inputs@[y as int]@,
            ),
            Err(_) => false,
        },
{
    if x >= inputs.len() || y >= inputs.len() {
        return Err(CoinFault::MissingPublicInput);
    }
    match G1Point::new(inputs[x], inputs[y]) {
        Some(point) => Ok(point),
        None => Err(CoinFault::NotACommitment),
    }
}

/// Checks that the joint proof's coin at an index is the expected one.
pub fn check_coin(
    expected: &G1Point,
    coins: &Vec<G1Point>,
    index: usize,
    missing: CoinFault,
    mismatch: CoinFault,
) -> (checked: Result<(), CoinFault>)
    ensures
        checked == matching(expected@, coins@, index as int, missing, mismatch),
        checked is Ok <==> index < coins@.len() && coins@[index as int]@ == expected@,
        index >= coins@.len() ==> checked == Err::<(), _>(missing),
        index < coins@.len() && coins@[index as int]@ != expected@ ==> checked == Err::<(), _>(
            mismatch,
        ),
{
    if index >= coins.len() {
        Err(missing)
    } else if coins[index].equals(expected) {
        Ok(())
    } else {
        Err(mismatch)
    }
}

impl SwapTransaction {
    /// Verifies the local proofs in order, up to the first that is not accepted.
    pub fn verify_local_proofs(&self, key: &Vec<u8>) -> (verified: Result<(), SwapError>)
        ensures
            match verified {
                Ok(_) => self.locally_proved(key@),
                Err(SwapError::LocalProof(j, fault)) => {
                    &&& j < self.local_proofs@.len()
                    &&& self.local_proofs@[j as int].judged(key@) == Err::<(), ProofFault>(fault)
                    &&& forall|h: int|
                        0 <= h < j ==> (#[trigger] self.local_proofs@[h]).judged(key@) is Ok
                },
                Err(SwapError::Coin(_, _)) => false,
            },
            match verified {
                Ok(_) => forall|h: int|
                    0 <= h < self.local_proofs@.len() ==> groth16_verdict(
                            key@,
                            field_values((#[trigger] self.local_proofs@[h]).public_inputs@),
                            self.local_proofs@[h].proof@,
                        ) == Some(true),
                Err(SwapError::LocalProof(j, fault)) => {
                    &&& j < self.local_proofs@.len()
                    &&& forall|h: int|
                        0 <= h < j ==> groth16_verdict(
                            key@,
                            field_values((#[trigger] self.local_proofs@[h]).public_inputs@),
                            self.local_proofs@[h].proof@,
                        ) == Some(true)
                    &&& groth16_verdict(
                        key@,
                        field_values(self.local_proofs@[j as int].public_inputs@),
                        self.local_proofs@[j as int].proof@,
                    ) == match fault {
                        ProofFault::Malformed => None,
                        ProofFault::Rejected => Some(false),
                    }
                },
                Err(SwapError::Coin(_, _)) => false,
            },
    {
        let mut j: usize = 0;
        while j < self.local_proofs.len()
            invariant
                j <= self.local_proofs@.len(),
                forall|h: int|
                    0 <= h < j ==> (#[trigger] self.local_proofs@[h]).judged(key@) is Ok,
            decreases self.local_proofs@.len() - j,
        {
            match self.local_proofs[j].verify(key) {
                Err(fault) => {
                    return Err(SwapError::LocalProof(j, fault));
                },
                Ok(_) => {},
            }
            j = j + 1;
        }
        Ok(())
    }

    /// Checks an output coin that is a refund, and the coin that its participant put in.
    fn check_refund(
        &self,
        layout: &SwapLayout,
        amount_generator: &G1Point,
        i: usize,
        participant: usize,
    ) -> (coin: Result<G1Point, CoinFault>)
        requires
            participant < self.local_proofs@.len(),
        ensures
            match coin {
                Ok(c) => self.refund_coin(*layout, amount_generator@, i as int, participant as int)
                    == Ok::<_, CoinFault>(c@),
                Err(fault) => self.refund_coin(
                    *layout,
                    amount_generator@,
                    i as int,
                    participant as int,
                ) == Err::<Option<(nat, nat)>, _>(fault),
            },
    {
        if participant >= self.amount_correction.len() {
            return Err(CoinFault::MissingCorrection);
        }
        let inputs = &self.local_proofs[participant].public_inputs;
        let correction = amount_generator.times(&self.amount_correction[participant]);
        let refund = read_commitment(
            inputs,
            layout.placeholder_refund_x,
            layout.placeholder_refund_y,
        )?;
        let expected = refund.plus(&correction);
        check_coin(
            &expected,
            &self.output_coins_com,
            i,
            CoinFault::MissingOutputCoin,
            CoinFault::OutputMismatch,
        )?;
        let input = read_commitment(inputs, layout.blinded_input_x, layout.blinded_input_y)?;
        check_coin(
            &input,
            &self.input_coins_com,
            participant,
            CoinFault::MissingInputCoin,
            CoinFault::InputMismatch,
        )?;
        Ok(expected)
    }

    /// Checks an output coin that a participant bought.
    fn check_bought(&self, layout: &SwapLayout, i: usize, participant: usize) -> (coin: Result<
        G1Point,
        CoinFault,
    >)
        requires
            participant < self.local_proofs@.len(),
        ensures
            match coin {
                Ok(c) => self.bought_coin(*layout, i as int, participant as int) == Ok::<
                    _,
                    CoinFault,
                >(c@),
                Err(fault) => self.bought_coin(*layout, i as int, participant as int) == Err::<
                    Option<(nat, nat)>,
                    _,
                >(fault),
            },
    {
        let expected = read_commitment(
            &self.local_proofs[participant].public_inputs,
            layout.placeholder_output_x,
            layout.placeholder_output_y,
        )?;
        check_coin(
            &expected,
            &self.output_coins_com,
            i,
            CoinFault::MissingOutputCoin,
            CoinFault::OutputMismatch,
        )?;
        Ok(expected)
    }

    /// Checks every output coin of the joint proof against the local proofs, which have been
    /// accepted, and returns the commitments of the output coins in order.
    pub fn check_coins(&self, layout: &SwapLayout, amount_generator: &G1Point) -> (coins: Result<
        Vec<G1Point>,
        SwapError,
    >)
        ensures
            match coins {
                Ok(cs) => {
                    &&& cs@.len() == self.placeholder_selector@.len()
                    &&& forall|i: int|
                        0 <= i < cs@.len() ==> #[trigger] self.output_coin(
                            *layout,
                            amount_generator@,
                            i,
                        ) == Ok::<Option<(nat, nat)>, CoinFault>(cs@[i]@)
                },
                Err(SwapError::Coin(i, fault)) => {
                    &&& i < self.placeholder_selector@.len()
                    &&& self.output_coin(*layout, amount_generator@, i as int) == Err::<
                        Option<(nat, nat)>,
                        CoinFault,
                    >(fault)
                    &&& forall|h: int|
                        0 <= h < i ==> #[trigger] self.output_coin(
                            *layout,
                            amount_generator@,
                            h,
                        ) is Ok
                },
                Err(SwapError::LocalProof(_, _)) => false,
            },
    {
        let mut coins: Vec<G1Point> = Vec::new();
        let mut participant: usize = 0;
        let mut i: usize = 0;
        while i < self.placeholder_selector.len()
            invariant
                i <= self.placeholder_selector@.len(),
                participant <= i,
                participant == refunds_before(self.placeholder_selector@, i as nat),
                coins@.len() == i,
                forall|h: int|
                    0 <= h < i ==> #[trigger] self.output_coin(*layout, amount_generator@, h)
                        == Ok::<Option<(nat, nat)>, CoinFault>(coins@[h]@),
            decreases self.placeholder_selector@.len() - i,
        {
            if participant >= self.local_proofs.len() {
                return Err(SwapError::Coin(i, CoinFault::MissingLocalProof));
            }
            let refund = self.placeholder_selector[i];
            let checked = if refund {
                self.check_refund(layout, amount_generator, i, participant)
            } else {
                self.check_bought(layout, i, participant)
            };
            match checked {
                Err(fault) => {
                    return Err(SwapError::Coin(i, fault));
                },
                Ok(coin) => {
                    coins.push(coin);
                },
            }
            if refund {
                participant = participant + 1;
            }
            i = i + 1;
        }
        Ok(coins)
    }

    /// Verifies everything about the swap but the joint proof itself: the local proofs under
    /// their key, and that the coins of the joint proof are those of the local proofs. Returns the
    /// commitments of the output coins; they enter the ledger by
    /// [`crate::ledger::AppStateType::settle_swap`], which asks for the joint proof's verdict too.
    pub fn verify(&self, key: &Vec<u8>, layout: &SwapLayout, amount_generator: &G1Point) -> (coins:
        Result<Vec<G1Point>, SwapError>)
        ensures
            match coins {
                Ok(cs) => self.outcome(
                    key@,
                    *layout,
                    amount_generator@,
                    Ok(point_values(cs@)),
                ),
                Err(error) => self.outcome(key@, *layout, amount_generator@, Err(error)),
            },
            match coins {
                Ok(cs) => {
                    &&& forall|h: int|
                        0 <= h < self.local_proofs@.len() ==> groth16_verdict(
                            key@,
                            field_values((#[trigger] self.local_proofs@[h]).public_inputs@),
                            self.local_proofs@[h].proof@,
                        ) == Some(true)
                    &&& cs@.len() == self.placeholder_selector@.len()
                    &&& cs@.len() <= self.output_coins_com@.len()
                    &&& forall|i: int|
                        0 <= i < cs@.len() ==> (#[trigger] cs@[i])@ == self.output_coins_com@[i]@
                },
                Err(SwapError::LocalProof(j, fault)) => {
                    &&& j < self.local_proofs@.len()
                    &&& forall|h: int|
                        0 <= h < j ==> groth16_verdict(
                            key@,
                            field_values((#[trigger] self.local_proofs@[h]).public_inputs@),
                            self.local_proofs@[h].proof@,
                        ) == Some(true)
                    &&& groth16_verdict(
                        key@,
                        field_values(self.local_proofs@[j as int].public_inputs@),
                        self.local_proofs@[j as int].proof@,
                    ) == match fault {
                        ProofFault::Malformed => None,
                        ProofFault::Rejected => Some(false),
                    }
                },
                Err(SwapError::Coin(i, _)) => {
                    &&& i < self.placeholder_selector@.len()
                    &&& forall|h: int|
                        0 <= h < self.local_proofs@.len() ==> groth16_verdict(
                            key@,
                            field_values((#[trigger] self.local_proofs@[h]).public_inputs@),
                            self.local_proofs@[h].proof@,
                        ) == Some(true)
                },
            },
    {
        match self.verify_local_proofs(key) {
            Err(error) => {
                return Err(error);
            },
            Ok(_) => {},
        }
        let coins = self.check_coins(layout, amount_generator);
        proof {
            if coins is Ok {
                let cs = coins->Ok_0;
                law_accepted_swap(*self, key@, *layout, amount_generator@, point_values(cs@));
                law_accepted_exactly(*self, key@, *layout, amount_generator@, point_values(cs@));
                assert forall|i: int| 0 <= i < cs@.len() implies (#[trigger] cs@[i])@
                    == self.output_coins_com@[i]@ by {
                    assert(point_values(cs@)[i] == cs@[i]@);
                }
            }
        }
        coins
    }
}

/// How many amount corrections a swap reads: one for each refund. A correction beyond those is
/// never looked at.
pub fn corrections_used(placeholder_selector: &Vec<bool>) -> (count: usize)
    ensures
        count == refunds_before(placeholder_selector@, placeholder_selector@.len()),
        count == placeholder_selector@.to_multiset().count(true),
{
    let mut count: usize = 0;
    let mut i: usize = 0;
    while i < placeholder_selector.len()
        invariant
            i <= placeholder_selector@.len(),
            count <= i,
            count == refunds_before(placeholder_selector@, i as nat),
        decreases placeholder_selector@.len() - i,
    {
        if placeholder_selector[i] {
            count = count + 1;
        }
        i = i + 1;
    }
    proof {
        law_refunds_are_counted(placeholder_selector@, placeholder_selector@.len());
        assert(placeholder_selector@.take(placeholder_selector@.len() as int)
            =~= placeholder_selector@);
    }
    count
}

/// The output coin at which participant `k` is refunded.
proof fn lemma_refund_of(selector: Seq<bool>, n: nat, k: nat) -> (i: int)
    requires
        n <= selector.len(),
        k < refunds_before(selector, n),
    ensures
        0 <= i < n,
        selector[i],
        refunds_before(selector, i as nat) == k,
    decreases n,
{
    if selector[n - 1] && refunds_before(selector, (n - 1) as nat) == k {
        n - 1
    } else {
        lemma_refund_of(selector, (n - 1) as nat, k)
    }
}

/// In an accepted swap every local proof holds; every coin that enters the ledger is the joint
/// proof's output coin in its place, and is what the local proof of its participant committed to,
/// up to the amount correction of a refund; and every refunded participant's input coin in the
/// joint proof is the one that their local proof put in.
pub proof fn law_accepted_swap(
    tx: SwapTransaction,
    key: Seq<u8>,
    layout: SwapLayout,
    amount_generator: Option<(nat, nat)>,
    coins: Seq<Option<(nat, nat)>>,
)
    requires
        tx.outcome(key, layout, amount_generator, Ok(coins)),
    ensures
        tx.locally_proved(key),
        coins.len() == tx.placeholder_selector@.len() <= tx.output_coins_com@.len(),
        forall|i: int|
            0 <= i < coins.len() ==> #[trigger] coins[i] == tx.output_coins_com@[i]@ && tx.backed(
                layout,
                amount_generator,
                i,
                coins[i],
            ),
        forall|k: int|
            0 <= k < refunds_before(tx.placeholder_selector@, tx.placeholder_selector@.len())
                ==> k < tx.local_proofs@.len() && k < tx.input_coins_com@.len() && commitment_at(
                (#[trigger] tx.local_proofs@[k]).public_inputs@,
                layout.blinded_input_x,
                layout.blinded_input_y,
            ) == Ok::<_, CoinFault>(tx.input_coins_com@[k]@),
{
    assert forall|i: int| 0 <= i < coins.len() implies i < tx.output_coins_com@.len()
        && #[trigger] coins[i] == tx.output_coins_com@[i]@ && tx.backed(
        layout,
        amount_generator,
        i,
        coins[i],
    ) by {
        assert(tx.output_coin(layout, amount_generator, i) is Ok);
    }
    if coins.len() > 0 {
        assert(coins[coins.len() - 1] == tx.output_coins_com@[coins.len() - 1]@);
    }
    assert forall|k: int|
        0 <= k < refunds_before(
            tx.placeholder_selector@,
            tx.placeholder_selector@.len(),
        ) implies k < tx.local_proofs@.len() && k < tx.input_coins_com@.len() && commitment_at(
        (#[trigger] tx.local_proofs@[k]).public_inputs@,
        layout.blinded_input_x,
        layout.blinded_input_y,
    ) == Ok::<_, CoinFault>(tx.input_coins_com@[k]@) by {
        let i = lemma_refund_of(
            tx.placeholder_selector@,
            tx.placeholder_selector@.len(),
            k as nat,
        );
        assert(tx.output_coin(layout, amount_generator, i) is Ok);
    }
}

/// A swap has one outcome: when it is refused, which proof or coin is at fault, and why, is
/// determined; when it is accepted, so are the coins.
pub proof fn law_one_outcome(
    tx: SwapTransaction,
    key: Seq<u8>,
    layout: SwapLayout,
    amount_generator: Option<(nat, nat)>,
    a: Result<Seq<Option<(nat, nat)>>, SwapError>,
    b: Result<Seq<Option<(nat, nat)>>, SwapError>,
)
    requires
        tx.outcome(key, layout, amount_generator, a),
        tx.outcome(key, layout, amount_generator, b),
    ensures
        a == b,
{
    match (a, b) {
        (Ok(p), Ok(q)) => {
            assert forall|i: int| 0 <= i < p.len() implies p[i] == q[i] by {
                assert(tx.output_coin(layout, amount_generator, i) is Ok);
            }
            assert(p =~= q);
        },
        (Err(SwapError::LocalProof(i, _)), Err(SwapError::LocalProof(j, _))) => {
            assert(tx.local_proofs@[i as int].judged(key) is Err);
            assert(tx.local_proofs@[j as int].judged(key) is Err);
        },
        (Err(SwapError::Coin(i, _)), Err(SwapError::Coin(j, _))) => {
            assert(tx.output_coin(layout, amount_generator, i as int) is Err);
            assert(tx.output_coin(layout, amount_generator, j as int) is Err);
        },
        (Err(SwapError::LocalProof(i, _)), _) => {
            assert(tx.local_proofs@[i as int].judged(key) is Err);
        },
        (_, Err(SwapError::LocalProof(j, _))) => {
            assert(tx.local_proofs@[j as int].judged(key) is Err);
        },
        (Err(SwapError::Coin(i, _)), _) => {
            assert(tx.output_coin(layout, amount_generator, i as int) is Err);
        },
        (_, Err(SwapError::Coin(j, _))) => {
            assert(tx.output_coin(layout, amount_generator, j as int) is Err);
        },
    }
}

/// A correction of zero leaves the refund's commitment as it is.
pub proof fn law_zero_correction(
    refund: Option<(nat, nat)>,
    amount_generator: Option<(nat, nat)>,
    correction: Seq<u64>,
)
    requires
        limbs_value(correction) == 0,
    ensures
        corrected(refund, amount_generator, correction) == refund,
{
}

/// The participant whose turn it is at an output coin is the number of refunds before it.
pub proof fn law_refunds_are_counted(selector: Seq<bool>, n: nat)
    requires
        n <= selector.len(),
    ensures
        refunds_before(selector, n) == selector.take(n as int).to_multiset().count(true),
    decreases n,
{
    broadcast use vstd::seq_lib::group_to_multiset_ensures;
    broadcast use vstd::multiset::group_multiset_axioms;

    if n == 0 {
        assert(selector.take(0).len() == 0);
        assert(!selector.take(0).contains(true));
    } else {
        law_refunds_are_counted(selector, (n - 1) as nat);
        assert(selector.take(n as int) =~= selector.take(n - 1).push(selector[n - 1]));
    }
}

/// Where a refund is due, the output coin is right exactly when the participant has a local proof
/// and a correction, their proof's refund is a commitment, the joint proof's output coin there is
/// that commitment plus the correction times the generator of the amount, and the joint proof's
/// input coin of the participant is the commitment that they put in; otherwise the first of these
/// that fails is named.
pub proof fn law_refund_coin(
    tx: SwapTransaction,
    layout: SwapLayout,
    amount_generator: Option<(nat, nat)>,
    i: int,
)
    requires
        0 <= i < tx.placeholder_selector@.len(),
        tx.placeholder_selector@[i],
    ensures
        ({
            let k = refunds_before(tx.placeholder_selector@, i as nat) as int;
            let inputs = tx.local_proofs@[k].public_inputs@;
            let (rx, ry) = (layout.placeholder_refund_x as int, layout.placeholder_refund_y as int);
            let (bx, by) = (layout.blinded_input_x as int, layout.blinded_input_y as int);
            let coin = tx.output_coin(layout, amount_generator, i);
            let expected = g1_sum(
                Some((inputs[rx]@, inputs[ry]@)),
                g1_multiple(amount_generator, limbs_value(tx.amount_correction@[k]@)),
            );
            &&& coin is Ok <==> {
                &&& k < tx.local_proofs@.len() && k < tx.amount_correction@.len()
                &&& rx < inputs.len() && ry < inputs.len()
                &&& in_group(inputs[rx]@, inputs[ry]@)
                &&& i < tx.output_coins_com@.len() && tx.output_coins_com@[i]@ == expected
                &&& bx < inputs.len() && by < inputs.len()
                &&& in_group(inputs[bx]@, inputs[by]@)
                &&& k < tx.input_coins_com@.len()
                &&& tx.input_coins_com@[k]@ == Some((inputs[bx]@, inputs[by]@))
            }
            &&& coin matches Ok(c) ==> c == expected
            &&& coin is Err ==> coin->Err_0 == if k >= tx.local_proofs@.len() {
                CoinFault::MissingLocalProof
            } else if k >= tx.amount_correction@.len() {
                CoinFault::MissingCorrection
            } else if rx >= inputs.len() || ry >= inputs.len() {
                CoinFault::MissingPublicInput
            } else if !in_group(inputs[rx]@, inputs[ry]@) {
                CoinFault::NotACommitment
            } else if i >= tx.output_coins_com@.len() {
                CoinFault::MissingOutputCoin
            } else if tx.output_coins_com@[i]@ != expected {
                CoinFault::OutputMismatch
            } else if bx >= inputs.len() || by >= inputs.len() {
                CoinFault::MissingPublicInput
            } else if !in_group(inputs[bx]@, inputs[by]@) {
                CoinFault::NotACommitment
            } else if k >= tx.input_coins_com@.len() {
                CoinFault::MissingInputCoin
            } else {
                CoinFault::InputMismatch
            }
        }),
{
}

/// Where a coin was bought, the output coin is right exactly when the participant has a local
/// proof, their proof's output is a commitment, and the joint proof's output coin there is it;
/// otherwise the first of these that fails is named.
pub proof fn law_bought_coin(
    tx: SwapTransaction,
    layout: SwapLayout,
    amount_generator: Option<(nat, nat)>,
    i: int,
)
    requires
        0 <= i < tx.placeholder_selector@.len(),
        !tx.placeholder_selector@[i],
    ensures
        ({
            let k = refunds_before(tx.placeholder_selector@, i as nat) as int;
            let inputs = tx.local_proofs@[k].public_inputs@;
            let (ox, oy) = (layout.placeholder_output_x as int, layout.placeholder_output_y as int);
            let coin = tx.output_coin(layout, amount_generator, i);
            let expected = Some((inputs[ox]@, inputs[oy]@));
            &&& coin is Ok <==> {
                &&& k < tx.local_proofs@.len()
                &&& ox < inputs.len() && oy < inputs.len()
                &&& in_group(inputs[ox]@, inputs[oy]@)
                &&& i < tx.output_coins_com@.len() && tx.output_coins_com@[i]@ == expected
            }
            &&& coin matches Ok(c) ==> c == expected
            &&& coin is Err ==> coin->Err_0 == if k >= tx.local_proofs@.len() {
                CoinFault::MissingLocalProof
            } else if ox >= inputs.len() || oy >= inputs.len() {
                CoinFault::MissingPublicInput
            } else if !in_group(inputs[ox]@, inputs[oy]@) {
                CoinFault::NotACommitment
            } else if i >= tx.output_coins_com@.len() {
                CoinFault::MissingOutputCoin
            } else {
                CoinFault::OutputMismatch
            }
        }),
{
}

/// What a coin in an accepted swap satisfies, all of it written out.
spec fn stands(
    tx: SwapTransaction,
    layout: SwapLayout,
    amount_generator: Option<(nat, nat)>,
    i: int,
    coin: Option<(nat, nat)>,
) -> bool {
    let k = refunds_before(tx.placeholder_selector@, i as nat) as int;
    let inputs = tx.local_proofs@[k].public_inputs@;
    let (rx, ry) = (layout.placeholder_refund_x as int, layout.placeholder_refund_y as int);
    let (ox, oy) = (layout.placeholder_output_x as int, layout.placeholder_output_y as int);
    let (bx, by) = (layout.blinded_input_x as int, layout.blinded_input_y as int);
    &&& k < tx.local_proofs@.len() && i < tx.output_coins_com@.len()
    &&& coin == tx.output_coins_com@[i]@
    &&& !tx.placeholder_selector@[i] ==> {
        &&& ox < inputs.len() && oy < inputs.len()
        &&& in_group(inputs[ox]@, inputs[oy]@)
        &&& coin == Some((inputs[ox]@, inputs[oy]@))
    }
    &&& tx.placeholder_selector@[i] ==> {
        &&& k < tx.amount_correction@.len()
        &&& rx < inputs.len() && ry < inputs.len()
        &&& in_group(inputs[rx]@, inputs[ry]@)
        &&& coin == g1_sum(
            Some((inputs[rx]@, inputs[ry]@)),
            g1_multiple(amount_generator, limbs_value(tx.amount_correction@[k]@)),
        )
        &&& bx < inputs.len() && by < inputs.len()
        &&& in_group(inputs[bx]@, inputs[by]@)
        &&& k < tx.input_coins_com@.len()
        &&& tx.input_coins_com@[k]@ == Some((inputs[bx]@, inputs[by]@))
    }
}

/// A swap is accepted with some coins exactly when verification says of every local proof, the
/// first as the last, that it holds, there is one coin for each entry of the selector, and each
/// coin is the joint proof's and the one that its participant's local proof allows, with the
/// participant's input coin matching wherever they are refunded.
pub proof fn law_accepted_exactly(
    tx: SwapTransaction,
    key: Seq<u8>,
    layout: SwapLayout,
    amount_generator: Option<(nat, nat)>,
    coins: Seq<Option<(nat, nat)>>,
)
    ensures
        tx.outcome(key, layout, amount_generator, Ok(coins)) <==> {
            &&& forall|h: int|
                0 <= h < tx.local_proofs@.len() ==> groth16_verdict(
                    key,
                    field_values((#[trigger] tx.local_proofs@[h]).public_inputs@),
                    tx.local_proofs@[h].proof@,
                ) == Some(true)
            &&& coins.len() == tx.placeholder_selector@.len()
            &&& forall|i: int|
                0 <= i < coins.len() ==> {
                    let k = refunds_before(tx.placeholder_selector@, i as nat) as int;
                    let inputs = tx.local_proofs@[k].public_inputs@;
                    let (rx, ry) = (layout.placeholder_refund_x as int, layout.placeholder_refund_y as int);
                    let (ox, oy) = (layout.placeholder_output_x as int, layout.placeholder_output_y as int);
                    let (bx, by) = (layout.blinded_input_x as int, layout.blinded_input_y as int);
                    &&& k < tx.local_proofs@.len() && i < tx.output_coins_com@.len()
                    &&& #[trigger] coins[i] == tx.output_coins_com@[i]@
                    &&& !tx.placeholder_selector@[i] ==> {
                        &&& ox < inputs.len() && oy < inputs.len()
                        &&& in_group(inputs[ox]@, inputs[oy]@)
                        &&& coins[i] == Some((inputs[ox]@, inputs[oy]@))
                    }
                    &&& tx.placeholder_selector@[i] ==> {
                        &&& k < tx.amount_correction@.len()
                        &&& rx < inputs.len() && ry < inputs.len()
                        &&& in_group(inputs[rx]@, inputs[ry]@)
                        &&& coins[i] == g1_sum(
                            Some((inputs[rx]@, inputs[ry]@)),
                            g1_multiple(amount_generator, limbs_value(tx.amount_correction@[k]@)),
                        )
                        &&& bx < inputs.len() && by < inputs.len()
                        &&& in_group(inputs[bx]@, inputs[by]@)
                        &&& k < tx.input_coins_com@.len()
                        &&& tx.input_coins_com@[k]@ == Some((inputs[bx]@, inputs[by]@))
                    }
                }
        },
        tx.accepted(key, layout, amount_generator) <==> exists|cs: Seq<Option<(nat, nat)>>|
            #[trigger] tx.outcome(key, layout, amount_generator, Ok(cs)),
{
    assert forall|i: int| 0 <= i < coins.len() && coins.len() == tx.placeholder_selector@.len() implies (
    stands(tx, layout, amount_generator, i, #[trigger] coins[i]) <==> tx.output_coin(
        layout,
        amount_generator,
        i,
    ) == Ok::<_, CoinFault>(coins[i])) by {
        if tx.placeholder_selector@[i] {
            law_refund_coin(tx, layout, amount_generator, i);
        } else {
            law_bought_coin(tx, layout, amount_generator, i);
        }
    }
    if exists|cs: Seq<Option<(nat, nat)>>|
        #[trigger] tx.outcome(key, layout, amount_generator, Ok(cs)) {
        let cs = choose|cs: Seq<Option<(nat, nat)>>|
            #[trigger] tx.outcome(key, layout, amount_generator, Ok(cs));
        assert(tx.output_coins(layout, amount_generator) =~= cs) by {
            assert forall|i: int| 0 <= i < cs.len() implies tx.output_coins(
                layout,
                amount_generator,
            )[i] == cs[i] by {
                assert(tx.output_coin(layout, amount_generator, i) is Ok);
            }
        }
    }
}

/// A swap refused for a local proof is refused for the first of which verification does not say
/// that it holds; a swap refused for a coin has only proofs that hold, and it is the first coin
/// that is wrong.
pub proof fn law_refused_exactly(
    tx: SwapTransaction,
    key: Seq<u8>,
    layout: SwapLayout,
    amount_generator: Option<(nat, nat)>,
    n: usize,
    proof_fault: ProofFault,
    coin_fault: CoinFault,
)
    ensures
        tx.outcome(key, layout, amount_generator, Err(SwapError::LocalProof(n, proof_fault))) <==> {
            &&& n < tx.local_proofs@.len()
            &&& forall|h: int|
                0 <= h < n ==> groth16_verdict(
                    key,
                    field_values((#[trigger] tx.local_proofs@[h]).public_inputs@),
                    tx.local_proofs@[h].proof@,
                ) == Some(true)
            &&& groth16_verdict(
                key,
                field_values(tx.local_proofs@[n as int].public_inputs@),
                tx.local_proofs@[n as int].proof@,
            ) == match proof_fault {
                ProofFault::Malformed => None,
                ProofFault::Rejected => Some(false),
            }
        },
        tx.outcome(key, layout, amount_generator, Err(SwapError::Coin(n, coin_fault))) <==> {
            &&& n < tx.placeholder_selector@.len()
            &&& forall|h: int|
                0 <= h < tx.local_proofs@.len() ==> groth16_verdict(
                    key,
                    field_values((#[trigger] tx.local_proofs@[h]).public_inputs@),
                    tx.local_proofs@[h].proof@,
                ) == Some(true)
            &&& forall|h: int|
                0 <= h < n ==> #[trigger] tx.output_coin(layout, amount_generator, h) is Ok
            &&& tx.output_coin(layout, amount_generator, n as int) == Err::<Option<(nat, nat)>, _>(
                coin_fault,
            )
        },
{
}

} // verus!
