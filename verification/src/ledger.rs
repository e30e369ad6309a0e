//! The ledger of coin commitments: a vector of records of fixed length, filled from the front.
//! The records not yet filled hold the commitments that the ledger started with.

use vstd::prelude::*;

use crate::curve::{in_group, point_values, G1Point};
use crate::groth::{field_values, groth16_verdict, GrothProof};
use crate::onramp::{on_ramp_outcome, verify_on_ramp, OnRampError, OnRampLayout};
use crate::swap::{
    law_accepted_swap, law_one_outcome, SwapError, SwapLayout, SwapTransaction,
};

verus! {

/// The records of a ledger, and how many coins it holds.
#[verifier::ext_equal]
pub struct Ledger {
    pub records: Seq<Option<(nat, nat)>>,
    pub num_coins: nat,
}

impl Ledger {
    /// The ledger with one more coin, in the first record that no coin has taken.
    pub open spec fn with_coin(self, coin: Option<(nat, nat)>) -> Ledger {
        Ledger {
            records: self.records.update(self.num_coins as int, coin),
            num_coins: self.num_coins + 1,
        }
    }

    /// The ledger with more coins, added one after the other.
    pub open spec fn with_coins(self, coins: Seq<Option<(nat, nat)>>) -> Ledger
        decreases coins.len(),
    {
        if coins.len() == 0 {
            self
        } else {
            self.with_coins(coins.drop_last()).with_coin(coins.last())
        }
    }

    /// How many coins the ledger can still take.
    pub open spec fn room(self) -> int {
        self.records.len() - self.num_coins
    }
}

/// There are not enough free records for the coins.
#[derive(Clone, Copy, Debug, PartialEq, Eq)]
pub struct LedgerFull;

/// Why a swap does not enter the ledger.
#[derive(Clone, Copy, Debug, PartialEq, Eq)]
pub enum SwapRefusal {
    /// A local proof or a coin is at fault.
    Swap(SwapError),
    /// All else is in order, but the joint proof was not accepted.
    JointProof,
    /// The swap is accepted, but the ledger has no room for its coins.
    LedgerFull,
}

/// Why an on-ramp transaction does not enter the ledger.
#[derive(Clone, Copy, Debug, PartialEq, Eq)]
pub enum OnRampRefusal {
    /// The proof or the coin is at fault.
    OnRamp(OnRampError),
    /// The transaction is accepted, but the ledger has no room for its coin.
    LedgerFull,
}

/// The state of the ledger.
#[derive(Debug)]
pub struct AppStateType {
    records: Vec<G1Point>,
    num_coins: usize,
}

impl View for AppStateType {
    type V = Ledger;

    closed spec fn view(&self) -> Ledger {
        Ledger { records: point_values(self.records@), num_coins: self.num_coins as nat }
    }
}

impl AppStateType {
    #[verifier::type_invariant]
    spec fn coins_fit(self) -> bool {
        self.num_coins <= self.records@.len()
    }

    /// A ledger without coins, over the given records.
    pub fn new(records: Vec<G1Point>) -> (state: AppStateType)
        ensures
            state@ == (Ledger { records: point_values(records@), num_coins: 0 }),
            state@.num_coins == 0,
            state@.records.len() == records@.len(),
            forall|i: int|
                0 <= i < records@.len() ==> #[trigger] state@.records[i] == records@[i]@,
    {
        AppStateType { records, num_coins: 0 }
    }

    /// How many coins the ledger holds.
    pub fn num_coins(&self) -> (count: usize)
        ensures
            count == self@.num_coins <= self@.records.len(),
    {
        proof {
            use_type_invariant(self);
        }
        self.num_coins
    }

    /// The record at an index, of which the ledger can be asked a proof of membership.
    pub fn record(&self, index: usize) -> (record: Option<G1Point>)
        ensures
            match record {
                Some(r) => index < self@.records.len() && r@ == self@.records[index as int],
                None => index >= self@.records.len(),
            },
    {
        if index < self.records.len() {
            Some(self.records[index])
        } else {
            None
        }
    }

    /// Adds a coin, and returns the index of its record.
    pub fn add_coin(&mut self, coin: G1Point) -> (index: Result<usize, LedgerFull>)
        ensures
            match index {
                Ok(i) => old(self)@.room() >= 1 && i == old(self)@.num_coins && final(self)@
                    == old(self)@.with_coin(coin@),
                Err(_) => old(self)@.room() < 1 && final(self)@ == old(self)@,
            },
            index is Ok <==> old(self)@.num_coins < old(self)@.records.len(),
            index matches Ok(i) ==> {
                &&& i == old(self)@.num_coins
                &&& final(self)@.num_coins == old(self)@.num_coins + 1
                &&& final(self)@.records == old(self)@.records.update(i as int, coin@)
            },
    {
        proof {
            use_type_invariant(&*self);
        }
        let index = self.num_coins;
        if index >= self.records.len() {
            return Err(LedgerFull);
        }
        self.records[index] = coin;
        self.num_coins = index + 1;
        proof {
            assert(self@ =~= old(self)@.with_coin(coin@));
        }
        Ok(index)
    }

    /// Adds coins in order, all or none, and returns the index of the first one's record.
    pub fn add_coins(&mut self, coins: &Vec<G1Point>) -> (first: Result<usize, LedgerFull>)
        ensures
            match first {
                Ok(i) => {
                    &&& old(self)@.room() >= coins@.len()
                    &&& i == old(self)@.num_coins
                    &&& final(self)@ == old(self)@.with_coins(point_values(coins@))
                },
                Err(_) => old(self)@.room() < coins@.len() && final(self)@ == old(self)@,
            },
            first is Ok <==> old(self)@.num_coins + coins@.len() <= old(self)@.records.len(),
            first matches Ok(n) ==> {
                &&& n == old(self)@.num_coins
                &&& final(self)@.num_coins == old(self)@.num_coins + coins@.len()
                &&& final(self)@.records.len() == old(self)@.records.len()
                &&& forall|i: int|
                    0 <= i < old(self)@.records.len() ==> #[trigger] final(self)@.records[i] == if (
                    n <= i < n + coins@.len()) {
                        coins@[i - n]@
                    } else {
                        old(self)@.records[i]
                    }
            },
    {
        proof {
            use_type_invariant(&*self);
        }
        let first = self.num_coins;
        if coins.len() > self.records.len() - first {
            return Err(LedgerFull);
        }
        let ghost values = point_values(coins@);
        let mut i: usize = 0;
        proof {
            assert(values.take(0) =~= Seq::<Option<(nat, nat)>>::empty());
        }
        while i < coins.len()
            invariant
                i <= coins@.len(),
                values == point_values(coins@),
                first == old(self)@.num_coins,
                old(self)@.room() >= coins@.len(),
                self@ == old(self)@.with_coins(values.take(i as int)),
                self@.num_coins == first + i,
                self@.records.len() == old(self)@.records.len(),
            decreases coins@.len() - i,
        {
            let added = self.add_coin(coins[i]);
            proof {
                assert(values.take(i + 1).drop_last() =~= values.take(i as int));
                assert(values.take(i + 1).last() == coins@[i as int]@);
            }
            i = i + 1;
        }
        proof {
            assert(values.take(i as int) =~= values);
            law_coins_are_appended(old(self)@, values);
        }
        Ok(first)
    }

    /// Enters a swap into the ledger: verifies it, asks for the joint proof's verdict, and adds its
    /// output coins in order, all or none. Returns the index of the first one's record.
    pub fn settle_swap(
        &mut self,
        tx: &SwapTransaction,
        key: &Vec<u8>,
        layout: &SwapLayout,
        amount_generator: &G1Point,
        joint_proof_holds: bool,
    ) -> (first: Result<usize, SwapRefusal>)
        ensures
            match first {
                Ok(i) => {
                    &&& tx.accepted(key@, *layout, amount_generator@)
                    &&& joint_proof_holds
                    &&& old(self)@.room() >= tx.placeholder_selector@.len()
                    &&& i == old(self)@.num_coins
                    &&& final(self)@ == old(self)@.with_coins(
                        tx.output_coins(*layout, amount_generator@),
                    )
                },
                Err(SwapRefusal::Swap(error)) => {
                    &&& tx.outcome(key@, *layout, amount_generator@, Err(error))
                    &&& final(self)@ == old(self)@
                },
                Err(SwapRefusal::JointProof) => {
                    &&& tx.accepted(key@, *layout, amount_generator@)
                    &&& !joint_proof_holds
                    &&& final(self)@ == old(self)@
                },
                Err(SwapRefusal::LedgerFull) => {
                    &&& tx.accepted(key@, *layout, amount_generator@)
                    &&& joint_proof_holds
                    &&& old(self)@.room() < tx.placeholder_selector@.len()
                    &&& final(self)@ == old(self)@
                },
            },
            match first {
                Ok(n) => {
                    &&& forall|h: int|
                        0 <= h < tx.local_proofs@.len() ==> groth16_verdict(
                            key@,
                            field_values((#[trigger] tx.local_proofs@[h]).public_inputs@),
                            tx.local_proofs@[h].proof@,
                        ) == Some(true)
                    &&& joint_proof_holds
                    &&& n == old(self)@.num_coins
                    &&& n + tx.placeholder_selector@.len() <= old(self)@.records.len()
                    &&& tx.placeholder_selector@.len() <= tx.output_coins_com@.len()
                    &&& final(self)@.num_coins == n + tx.placeholder_selector@.len()
                    &&& final(self)@.records.len() == old(self)@.records.len()
                    &&& forall|i: int|
                        0 <= i < old(self)@.records.len() ==> #[trigger] final(self)@.records[i]
                            == if (n <= i < n + tx.placeholder_selector@.len()) {
                            tx.output_coins_com@[i - n]@
                        } else {
                            old(self)@.records[i]
                        }
                },
                Err(_) => {
                    &&& final(self)@.num_coins == old(self)@.num_coins
                    &&& final(self)@.records == old(self)@.records
                },
            },
            first is Ok <==> {
                &&& tx.accepted(key@, *layout, amount_generator@)
                &&& joint_proof_holds
                &&& old(self)@.num_coins + tx.placeholder_selector@.len()
                    <= old(self)@.records.len()
            },
    {
        let coins = match tx.verify(key, layout, amount_generator) {
            Err(error) => {
                proof {
                    if tx.accepted(key@, *layout, amount_generator@) {
                        law_one_outcome(
                            *tx,
                            key@,
                            *layout,
                            amount_generator@,
                            Ok(tx.output_coins(*layout, amount_generator@)),
                            Err(error),
                        );
                    }
                }
                return Err(SwapRefusal::Swap(error));
            },
            Ok(coins) => coins,
        };
        proof {
            let expected = tx.output_coins(*layout, amount_generator@);
            assert forall|i: int| 0 <= i < coins@.len() implies coins@[i]@ == expected[i] by {
                assert(tx.output_coin(*layout, amount_generator@, i) is Ok);
            }
            assert(point_values(coins@) =~= expected);
        }
        if !joint_proof_holds {
            return Err(SwapRefusal::JointProof);
        }
        match self.add_coins(&coins) {
            Err(_) => Err(SwapRefusal::LedgerFull),
            Ok(first) => Ok(first),
        }
    }

    /// Enters an on-ramp transaction into the ledger: verifies it, and adds its coin. Returns the
    /// index of the coin's record.
    pub fn settle_on_ramp(
        &mut self,
        proof: &GrothProof,
        key: &Vec<u8>,
        layout: &OnRampLayout,
    ) -> (index: Result<usize, OnRampRefusal>)
        ensures
            match index {
                Ok(i) => {
                    &&& on_ramp_outcome(*proof, key@, *layout) is Ok
                    &&& old(self)@.room() >= 1
                    &&& i == old(self)@.num_coins
                    &&& final(self)@ == old(self)@.with_coin(
                        on_ramp_outcome(*proof, key@, *layout)->Ok_0,
                    )
                },
                Err(OnRampRefusal::OnRamp(error)) => {
                    &&& on_ramp_outcome(*proof, key@, *layout) == Err::<Option<(nat, nat)>, _>(
                        error,
                    )
                    &&& final(self)@ == old(self)@
                },
                Err(OnRampRefusal::LedgerFull) => {
                    &&& on_ramp_outcome(*proof, key@, *layout) is Ok
                    &&& old(self)@.room() < 1
                    &&& final(self)@ == old(self)@
                },
            },
            index is Ok <==> {
                &&& groth16_verdict(key@, field_values(proof.public_inputs@), proof.proof@) == Some(
                    true,
                )
                &&& layout.coin_x < proof.public_inputs@.len()
                &&& layout.coin_y < proof.public_inputs@.len()
                &&& in_group(
                    proof.public_inputs@[layout.coin_x as int]@,
                    proof.public_inputs@[layout.coin_y as int]@,
                )
                &&& old(self)@.num_coins < old(self)@.records.len()
            },
            match index {
                Ok(i) => {
                    &&& i == old(self)@.num_coins
                    &&& final(self)@.num_coins == old(self)@.num_coins + 1
                    &&& final(self)@.records == old(self)@.records.update(
                        i as int,
                        Some(
                            (
                                proof.public_inputs@[layout.coin_x as int]@,
                                proof.public_inputs@[layout.coin_y as int]@,
                            ),
                        ),
                    )
                },
                Err(_) => {
                    &&& final(self)@.num_coins == old(self)@.num_coins
                    &&& final(self)@.records == old(self)@.records
                },
            },
    {
        let coin = match verify_on_ramp(proof, key, layout) {
            Err(error) => {
                return Err(OnRampRefusal::OnRamp(error));
            },
            Ok(coin) => coin,
        };
        match self.add_coin(coin) {
            Err(_) => Err(OnRampRefusal::LedgerFull),
            Ok(index) => Ok(index),
        }
    }
}

/// Adding coins fills the records after the coins already there, in order, and leaves every other
/// record as it was; in particular a coin once in the ledger stays in its record for ever.
pub proof fn law_coins_are_appended(ledger: Ledger, coins: Seq<Option<(nat, nat)>>)
    requires
        ledger.num_coins + coins.len() <= ledger.records.len(),
    ensures
        ledger.with_coins(coins).num_coins == ledger.num_coins + coins.len(),
        ledger.with_coins(coins).records.len() == ledger.records.len(),
        forall|i: int|
            0 <= i < ledger.records.len() ==> #[trigger] ledger.with_coins(coins).records[i] == if (
            ledger.num_coins <= i < ledger.num_coins + coins.len()) {
                coins[i - ledger.num_coins]
            } else {
                ledger.records[i]
            },
    decreases coins.len(),
{
    if coins.len() > 0 {
        law_coins_are_appended(ledger, coins.drop_last());
    }
}

/// Adding two batches of coins one after the other is adding them as one batch.
pub proof fn law_batches_join(
    ledger: Ledger,
    a: Seq<Option<(nat, nat)>>,
    b: Seq<Option<(nat, nat)>>,
)
    ensures
        ledger.with_coins(a).with_coins(b) == ledger.with_coins(a + b),
    decreases b.len(),
{
    if b.len() == 0 {
        assert(a + b =~= a);
    } else {
        law_batches_join(ledger, a, b.drop_last());
        assert((a + b).drop_last() =~= a + b.drop_last());
    }
}

/// When an accepted swap is settled, the records after the coins already there hold the joint
/// proof's output coins in order, one for each, and all other records stay.
pub proof fn law_swap_is_settled(
    ledger: Ledger,
    tx: SwapTransaction,
    key: Seq<u8>,
    layout: SwapLayout,
    amount_generator: Option<(nat, nat)>,
)
    requires
        ledger.num_coins + tx.placeholder_selector@.len() <= ledger.records.len(),
        tx.accepted(key, layout, amount_generator),
    ensures
        ({
            let after = ledger.with_coins(tx.output_coins(layout, amount_generator));
            let count = tx.placeholder_selector@.len();
            &&& after.num_coins == ledger.num_coins + count
            &&& after.records.len() == ledger.records.len()
            &&& forall|i: int|
                0 <= i < ledger.records.len() ==> #[trigger] after.records[i] == if (
                ledger.num_coins <= i < ledger.num_coins + count) {
                    tx.output_coins_com@[i - ledger.num_coins]@
                } else {
                    ledger.records[i]
                }
        }),
{
    let coins = tx.output_coins(layout, amount_generator);
    law_accepted_swap(tx, key, layout, amount_generator, coins);
    law_coins_are_appended(ledger, coins);
    assert forall|i: int|
        ledger.num_coins <= i < ledger.num_coins + coins.len() implies #[trigger] ledger.with_coins(
        coins,
    ).records[i] == tx.output_coins_com@[i - ledger.num_coins]@ by {
        assert(coins[i - ledger.num_coins] == tx.output_coins_com@[i - ledger.num_coins]@);
    }
}

/// When an accepted on-ramp transaction is settled, its proof holds, the first record that no coin
/// had taken holds the commitment in the proof's public inputs, and all other records stay.
pub proof fn law_on_ramp_is_settled(
    ledger: Ledger,
    proof: GrothProof,
    key: Seq<u8>,
    layout: OnRampLayout,
)
    requires
        ledger.num_coins < ledger.records.len(),
        on_ramp_outcome(proof, key, layout) is Ok,
    ensures
        proof.judged(key) is Ok,
        ({
            let after = ledger.with_coin(on_ramp_outcome(proof, key, layout)->Ok_0);
            &&& after.num_coins == ledger.num_coins + 1
            &&& after.records.len() == ledger.records.len()
            &&& forall|i: int|
                0 <= i < ledger.records.len() ==> #[trigger] after.records[i] == if i
                    == ledger.num_coins {
                    Some(
                        (
                            proof.public_inputs@[layout.coin_x as int]@,
                            proof.public_inputs@[layout.coin_y as int]@,
                        ),
                    )
                } else {
                    ledger.records[i]
                }
        }),
{
}

/// A coin more takes the record after the last coin and no other, and leaves room for one coin
/// fewer; there is room for coins exactly as long as there are records that no coin has taken.
pub proof fn law_every_record_can_be_taken(ledger: Ledger, coin: Option<(nat, nat)>, n: nat)
    ensures
        ledger.room() >= n <==> ledger.num_coins + n <= ledger.records.len(),
        ledger.num_coins < ledger.records.len() ==> {
            &&& ledger.with_coin(coin).num_coins == ledger.num_coins + 1
            &&& ledger.with_coin(coin).records == ledger.records.update(
                ledger.num_coins as int,
                coin,
            )
            &&& ledger.room() >= 1
        },
{
}

/// As many coins can be added one after the other as there are records that no coin has taken, and
/// then no further one: the last free record is as good as the first.
pub proof fn law_ledger_fills_up(ledger: Ledger, coins: Seq<Option<(nat, nat)>>)
    requires
        ledger.num_coins + coins.len() == ledger.records.len(),
    ensures
        forall|n: int|
            0 <= n < coins.len() ==> (#[trigger] ledger.with_coins(coins.take(n))).room() >= 1,
        ledger.with_coins(coins).room() < 1,
        forall|i: int|
            ledger.num_coins <= i < ledger.records.len() ==> #[trigger] ledger.with_coins(
                coins,
            ).records[i] == coins[i - ledger.num_coins],
{
    law_coins_are_appended(ledger, coins);
    assert forall|n: int| 0 <= n < coins.len() implies (#[trigger] ledger.with_coins(
        coins.take(n),
    )).room() >= 1 by {
        law_coins_are_appended(ledger, coins.take(n));
    }
}

} // verus!
