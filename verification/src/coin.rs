//! Coins: eight fields of bytes, committed to under a blinding factor.

use vstd::prelude::*;

verus! {

/// How many records the ledger starts with.
pub const GENESIS_RECORDS: usize = 64;

/// How many bytes an empty field of a record that holds no coin has.
pub const EMPTY_FIELD_BYTES: usize = 31;

/// What a coin consists of. The fields are, in order: the entropy, the owner's public key, the
/// asset, the amount, the application, and three that the application may use.
#[verifier::ext_equal]
pub struct Coin {
    pub fields: Seq<Seq<u8>>,
    pub blind: Seq<u8>,
}

/// A coin with the blinding factor of its commitment.
#[derive(Debug)]
pub struct CoinRecord {
    pub fields: [Vec<u8>; 8],
    pub blind: Vec<u8>,
}

impl View for CoinRecord {
    type V = Coin;

    open spec fn view(&self) -> Coin {
        Coin { fields: self.fields@.map_values(|f: Vec<u8>| f@), blind: self.blind@ }
    }
}

/// What coin records stand for.
pub open spec fn coins(records: Seq<CoinRecord>) -> Seq<Coin> {
    records.map_values(|r: CoinRecord| r@)
}

/// So many zero bytes.
pub open spec fn zeros(n: nat) -> Seq<u8> {
    Seq::new(n, |i: int| 0u8)
}

/// The record that stands where no coin is yet: everything is zero but the application, which
/// marks a coin that is simply owned.
pub open spec fn empty_coin(owned: u8) -> Coin {
    let zero = zeros(EMPTY_FIELD_BYTES as nat);
    Coin { fields: seq![zero, zero, zero, zero, seq![owned], zero, zero, zero], blind: zero }
}

/// A coin of the first asset that takes part in the lottery.
pub open spec fn lottery_coin(
    entropy: Seq<u8>,
    owner: Seq<u8>,
    amount: u8,
    lottery: u8,
    blind: Seq<u8>,
) -> Coin {
    Coin {
        fields: seq![
            entropy,
            owner,
            seq![1u8],
            seq![amount],
            seq![lottery],
            seq![0u8],
            seq![0u8],
            zeros(32),
        ],
        blind,
    }
}

/// So many zero bytes.
fn zero_bytes(n: usize) -> (bytes: Vec<u8>)
    ensures
        bytes@ == zeros(n as nat),
        bytes@.len() == n,
        forall|i: int| 0 <= i < n ==> #[trigger] bytes@[i] == 0,
{
    let bytes: Vec<u8> = vec![0u8; n];
    assert(bytes@ =~= zeros(n as nat));
    bytes
}

/// One byte.
fn one_byte(byte: u8) -> (bytes: Vec<u8>)
    ensures
        bytes@ == seq![byte],
{
    let mut bytes: Vec<u8> = Vec::new();
    bytes.push(byte);
    assert(bytes@ =~= seq![byte]);
    bytes
}

/// Makes the record that stands where no coin is yet.
pub fn make_empty_coin(owned: u8) -> (coin: CoinRecord)
    ensures
        coin@ == empty_coin(owned),
        forall|k: int| 0 <= k < 8 && k != 4 ==> (#[trigger] coin.fields@[k])@.len() == 31,
        forall|k: int, i: int|
            0 <= k < 8 && k != 4 && 0 <= i < 31 ==> #[trigger] coin.fields@[k]@[i] == 0,
        coin.fields@[4]@ == seq![owned],
        coin.blind@.len() == 31,
        forall|i: int| 0 <= i < 31 ==> #[trigger] coin.blind@[i] == 0,
{
    let coin = CoinRecord {
        fields: [
            zero_bytes(EMPTY_FIELD_BYTES),
            zero_bytes(EMPTY_FIELD_BYTES),
            zero_bytes(EMPTY_FIELD_BYTES),
            zero_bytes(EMPTY_FIELD_BYTES),
            one_byte(owned),
            zero_bytes(EMPTY_FIELD_BYTES),
            zero_bytes(EMPTY_FIELD_BYTES),
            zero_bytes(EMPTY_FIELD_BYTES),
        ],
        blind: zero_bytes(EMPTY_FIELD_BYTES),
    };
    assert(coin@.fields =~= empty_coin(owned).fields);
    coin
}

/// Makes the records that the ledger starts with: none of them holds a coin.
pub fn initialize_state(owned: u8) -> (records: Vec<CoinRecord>)
    ensures
        coins(records@) == Seq::new(GENESIS_RECORDS as nat, |i: int| empty_coin(owned)),
        records@.len() == 64,
        forall|j: int|
            0 <= j < 64 ==> (#[trigger] records@[j]).fields@[4]@ == seq![owned]
                && records@[j].blind@.len() == 31,
        forall|j: int, k: int|
            0 <= j < 64 && 0 <= k < 8 && k != 4 ==> (#[trigger] records@[j].fields@[k])@.len()
                == 31,
        forall|j: int, k: int, i: int|
            0 <= j < 64 && 0 <= k < 8 && k != 4 && 0 <= i < 31
                ==> #[trigger] records@[j].fields@[k]@[i] == 0,
        forall|j: int, i: int|
            0 <= j < 64 && 0 <= i < 31 ==> #[trigger] records@[j].blind@[i] == 0,
{
    let mut records: Vec<CoinRecord> = Vec::new();
    let mut i: usize = 0;
    while i < GENESIS_RECORDS
        invariant
            i <= GENESIS_RECORDS,
            records@.len() == i,
            forall|j: int| 0 <= j < i ==> (#[trigger] records@[j])@ == empty_coin(owned),
            forall|j: int|
                0 <= j < i ==> (#[trigger] records@[j]).fields@[4]@ == seq![owned]
                    && records@[j].blind@.len() == 31,
            forall|j: int, k: int|
                0 <= j < i && 0 <= k < 8 && k != 4 ==> (#[trigger] records@[j].fields@[k])@.len()
                    == 31,
            forall|j: int, k: int, b: int|
                0 <= j < i && 0 <= k < 8 && k != 4 && 0 <= b < 31
                    ==> #[trigger] records@[j].fields@[k]@[b] == 0,
            forall|j: int, b: int|
                0 <= j < i && 0 <= b < 31 ==> #[trigger] records@[j].blind@[b] == 0,
        decreases GENESIS_RECORDS - i,
    {
        records.push(make_empty_coin(owned));
        i = i + 1;
    }
    assert(coins(records@) =~= Seq::new(GENESIS_RECORDS as nat, |i: int| empty_coin(owned)));
    records
}

/// Makes a coin of the first asset that takes part in the lottery.
pub fn make_lottery_coin(
    entropy: &Vec<u8>,
    owner: &[u8; 31],
    amount: u8,
    lottery: u8,
    blind: &Vec<u8>,
) -> (coin: CoinRecord)
    ensures
        coin@ == lottery_coin(entropy@, owner@, amount, lottery, blind@),
        coin.fields@[0]@ == entropy@,
        coin.fields@[1]@ == owner@,
        coin.fields@[2]@ == seq![1u8],
        coin.fields@[3]@ == seq![amount],
        coin.fields@[4]@ == seq![lottery],
        coin.fields@[5]@ == seq![0u8],
        coin.fields@[6]@ == seq![0u8],
        coin.fields@[7]@.len() == 32,
        forall|i: int| 0 <= i < 32 ==> #[trigger] coin.fields@[7]@[i] == 0,
        coin.blind@ == blind@,
{
    let coin = CoinRecord {
        fields: [
            vstd::slice::slice_to_vec(entropy.as_slice()),
            vstd::slice::slice_to_vec(vstd::array::array_as_slice(owner)),
            one_byte(1),
            one_byte(amount),
            one_byte(lottery),
            one_byte(0),
            one_byte(0),
            zero_bytes(32),
        ],
        blind: vstd::slice::slice_to_vec(blind.as_slice()),
    };
    assert(coin@.fields =~= lottery_coin(entropy@, owner@, amount, lottery, blind@).fields);
    coin
}

/// A private key of the first player and the public key that belongs to it.
pub fn alice_key() -> (keys: ([u8; 32], [u8; 31]))
    ensures
        keys.0@ == Seq::new(32, |i: int| 20u8),
        keys.1@ == alice_public(),
        keys.1@ == seq![
            218u8, 61, 173, 102, 17, 186, 176, 174, 54, 64, 4, 87, 114, 16, 209, 133, 153, 47, 114,
            88, 54, 48, 138, 7, 136, 114, 216, 152, 205, 164, 171,
        ],
{
    let private = [20u8; 32];
    let public: [u8; 31] = [
        218, 61, 173, 102, 17, 186, 176, 174, 54, 64, 4, 87, 114, 16, 209, 133, 153, 47, 114, 88, 54,
        48, 138, 7, 136, 114, 216, 152, 205, 164, 171,
    ];
    assert(private@ =~= Seq::new(32, |i: int| 20u8));
    assert(public@ =~= alice_public());
    (private, public)
}

/// A private key of the second player and the public key that belongs to it.
pub fn bob_key() -> (keys: ([u8; 32], [u8; 31]))
    ensures
        keys.0@ == Seq::new(32, |i: int| 25u8),
        keys.1@ == bob_public(),
        keys.1@ == seq![
            217u8, 214, 252, 243, 200, 147, 117, 28, 142, 219, 58, 120, 65, 180, 251, 74, 234, 28,
            72, 194, 161, 148, 52, 219, 10, 34, 21, 17, 33, 38, 77,
        ],
{
    let private = [25u8; 32];
    let public: [u8; 31] = [
        217, 214, 252, 243, 200, 147, 117, 28, 142, 219, 58, 120, 65, 180, 251, 74, 234, 28, 72, 194,
        161, 148, 52, 219, 10, 34, 21, 17, 33, 38, 77,
    ];
    assert(private@ =~= Seq::new(32, |i: int| 25u8));
    assert(public@ =~= bob_public());
    (private, public)
}

/// The public key of the first player.
pub open spec fn alice_public() -> Seq<u8> {
    seq![
        218u8, 61, 173, 102, 17, 186, 176, 174, 54, 64, 4, 87, 114, 16, 209, 133, 153, 47, 114, 88,
        54, 48, 138, 7, 136, 114, 216, 152, 205, 164, 171,
    ]
}

/// The public key of the second player.
pub open spec fn bob_public() -> Seq<u8> {
    seq![
        217u8, 214, 252, 243, 200, 147, 117, 28, 142, 219, 58, 120, 65, 180, 251, 74, 234, 28, 72,
        194, 161, 148, 52, 219, 10, 34, 21, 17, 33, 38, 77,
    ]
}

/// A record without a coin is all zero but for its application; so two of them differ in nothing
/// else, and no field of one but that has anything but 31 zero bytes.
pub proof fn law_empty_coin(owned: u8, other: u8)
    ensures
        empty_coin(owned).fields.len() == 8,
        empty_coin(owned).fields[4] == seq![owned],
        empty_coin(owned).blind.len() == 31,
        forall|i: int| 0 <= i < 31 ==> #[trigger] empty_coin(owned).blind[i] == 0,
        forall|k: int|
            0 <= k < 8 && k != 4 ==> {
                &&& (#[trigger] empty_coin(owned).fields[k]).len() == 31
                &&& empty_coin(owned).fields[k] == empty_coin(other).fields[k]
            },
        forall|k: int, i: int|
            0 <= k < 8 && k != 4 && 0 <= i < 31 ==> #[trigger] empty_coin(owned).fields[k][i] == 0,
{
}

/// A coin of the lottery holds what it was made from, each part in its own field, and nothing else:
/// it is of the first asset, and the fields left to the application are zero.
pub proof fn law_lottery_coin(
    entropy: Seq<u8>,
    owner: Seq<u8>,
    amount: u8,
    lottery: u8,
    blind: Seq<u8>,
)
    ensures
        ({
            let coin = lottery_coin(entropy, owner, amount, lottery, blind);
            &&& coin.fields.len() == 8
            &&& coin.fields[0] == entropy
            &&& coin.fields[1] == owner
            &&& coin.fields[2] == seq![1u8]
            &&& coin.fields[3] == seq![amount]
            &&& coin.fields[4] == seq![lottery]
            &&& coin.fields[5] == seq![0u8]
            &&& coin.fields[6] == seq![0u8]
            &&& coin.fields[7].len() == 32
            &&& forall|i: int| 0 <= i < 32 ==> #[trigger] coin.fields[7][i] == 0
            &&& coin.blind == blind
        }),
{
}

/// What a record stands for is what its fields and its blinding factor hold, byte for byte.
pub proof fn law_record_shows_its_fields(records: Seq<CoinRecord>, n: int)
    requires
        0 <= n < records.len(),
    ensures
        coins(records).len() == records.len(),
        coins(records)[n].fields.len() == 8,
        forall|k: int|
            0 <= k < 8 ==> #[trigger] coins(records)[n].fields[k] == records[n].fields@[k]@,
        coins(records)[n].blind == records[n].blind@,
{
}

} // verus!
