use zexe_swap::curve::G1Point;
use zexe_swap::field::FieldElement;
use zexe_swap::ledger::{AppStateType, LedgerFull};

fn mark(value: u64) -> G1Point {
    let x = FieldElement::from_limbs([value, 0, 0, 0, 0, 0]).unwrap();
    G1Point { x, y: x, infinity: false }
}

fn read(state: &AppStateType, index: usize) -> u64 {
    state.record(index).unwrap().x.limbs()[0]
}

#[test]
fn a_new_ledger_has_no_coins() {
    let state = AppStateType::new(vec![mark(100), mark(101)]);
    assert_eq!(state.num_coins(), 0);
    assert_eq!(read(&state, 0), 100);
    assert_eq!(read(&state, 1), 101);
    assert!(state.record(2).is_none());
}

#[test]
fn coins_fill_the_ledger_from_the_front() {
    let mut state = AppStateType::new(vec![mark(100), mark(101), mark(102), mark(103)]);
    assert_eq!(state.add_coin(mark(1)), Ok(0));
    assert_eq!(state.add_coins(&vec![mark(2), mark(3)]), Ok(1));
    assert_eq!(state.num_coins(), 3);
    assert_eq!((0..4).map(|i| read(&state, i)).collect::<Vec<_>>(), vec![1, 2, 3, 103]);
}

#[test]
fn a_full_ledger_takes_no_coin() {
    let mut state = AppStateType::new(vec![mark(100)]);
    assert_eq!(state.add_coin(mark(1)), Ok(0));
    assert_eq!(state.add_coin(mark(2)), Err(LedgerFull));
    assert_eq!(state.num_coins(), 1);
    assert_eq!(read(&state, 0), 1);
}

#[test]
fn too_many_coins_are_all_refused() {
    let mut state = AppStateType::new(vec![mark(100), mark(101)]);
    assert_eq!(state.add_coins(&vec![mark(1), mark(2), mark(3)]), Err(LedgerFull));
    assert_eq!(state.num_coins(), 0);
    assert_eq!(read(&state, 0), 100);
    assert_eq!(state.add_coins(&vec![]), Ok(0));
    assert_eq!(state.add_coins(&vec![mark(1), mark(2)]), Ok(0));
    assert_eq!(state.num_coins(), 2);
}

#[test]
fn two_batches_are_one() {
    let mut a = AppStateType::new(vec![mark(100), mark(101), mark(102)]);
    let mut b = AppStateType::new(vec![mark(100), mark(101), mark(102)]);
    a.add_coins(&vec![mark(1)]).unwrap();
    a.add_coins(&vec![mark(2)]).unwrap();
    b.add_coins(&vec![mark(1), mark(2)]).unwrap();
    assert_eq!(a.num_coins(), b.num_coins());
    for i in 0..3 {
        assert_eq!(read(&a, i), read(&b, i));
    }
}
