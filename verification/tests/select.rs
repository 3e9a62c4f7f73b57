use brc20_transfer::asset::{AssetType, OpenedRecord, OwnedOutput};
use brc20_transfer::error::TransferError;
use brc20_transfer::select::{
    select, selection_fits, SelectedInput, Selection, SelectionResult,
};

fn base() -> AssetType {
    AssetType { code: [0u8; 32] }
}

fn other() -> AssetType {
    let mut code = [0u8; 32];
    code[31] = 1;
    AssetType { code }
}

fn owned(reference: u64, amount: u64, asset_type: AssetType) -> OwnedOutput {
    OwnedOutput { reference, opened: OpenedRecord { amount, asset_type } }
}

fn input(reference: u64, amount: u64) -> SelectedInput {
    SelectedInput {
        reference,
        opened: OpenedRecord { amount, asset_type: base() },
        consumed: amount,
    }
}

#[test]
fn same_as_compares_every_byte() {
    assert!(base().same_as(&base()));
    assert!(!base().same_as(&other()));
    let mut code = [0u8; 32];
    code[0] = 9;
    assert!(!base().same_as(&AssetType { code }));
    assert!(AssetType { code }.same_as(&AssetType { code }));
}

#[test]
fn insufficient_funds_reports_the_shortfall() {
    let outputs = [owned(1, 2, base()), owned(2, 3, base())];
    assert_eq!(
        select(&outputs, base(), 13),
        Err(TransferError::InsufficientFunds { shortfall: 8 })
    );
}

#[test]
fn exact_threshold_takes_both_outputs() {
    let outputs = [owned(1, 4, base()), owned(2, 4, base())];
    assert_eq!(
        select(&outputs, base(), 8),
        Ok(SelectionResult { inputs: vec![input(1, 4), input(2, 4)], total_collected: 8 })
    );
}

#[test]
fn selection_stops_once_above_the_threshold() {
    let outputs = [owned(1, 4, base()), owned(2, 5, base()), owned(3, 6, base())];
    assert_eq!(
        select(&outputs, base(), 8),
        Ok(SelectionResult { inputs: vec![input(1, 4), input(2, 5)], total_collected: 9 })
    );
    assert_eq!(
        select(&outputs, base(), 3),
        Ok(SelectionResult { inputs: vec![input(1, 4)], total_collected: 4 })
    );
}

#[test]
fn selection_goes_on_at_the_threshold() {
    let outputs = [owned(1, 4, base()), owned(2, 5, base())];
    assert_eq!(
        select(&outputs, base(), 4),
        Ok(SelectionResult { inputs: vec![input(1, 4), input(2, 5)], total_collected: 9 })
    );
}

#[test]
fn selection_is_first_fit_not_best_fit() {
    let outputs = [owned(1, 1, base()), owned(2, 1, base()), owned(3, 100, base())];
    assert_eq!(
        select(&outputs, base(), 50),
        Ok(SelectionResult {
            inputs: vec![input(1, 1), input(2, 1), input(3, 100)],
            total_collected: 102
        })
    );
}

#[test]
fn other_assets_are_passed_over() {
    let outputs = [
        owned(1, 100, other()),
        owned(2, 4, base()),
        owned(3, 100, other()),
        owned(4, 5, base()),
    ];
    assert_eq!(
        select(&outputs, base(), 8),
        Ok(SelectionResult { inputs: vec![input(2, 4), input(4, 5)], total_collected: 9 })
    );
    assert_eq!(
        select(&outputs, base(), 10),
        Err(TransferError::InsufficientFunds { shortfall: 1 })
    );
}

#[test]
fn empty_outputs_are_not_inputs() {
    let outputs = [owned(1, 0, base()), owned(2, 7, base()), owned(3, 0, base())];
    assert_eq!(
        select(&outputs, base(), 7),
        Ok(SelectionResult { inputs: vec![input(2, 7)], total_collected: 7 })
    );
}

#[test]
fn nothing_owned() {
    assert_eq!(
        select(&[], base(), 0),
        Ok(SelectionResult { inputs: vec![], total_collected: 0 })
    );
    assert_eq!(select(&[], base(), 1), Err(TransferError::InsufficientFunds { shortfall: 1 }));
}

#[test]
fn threshold_of_zero_stops_at_the_first_amount() {
    let outputs = [owned(1, 0, base()), owned(2, 3, base()), owned(3, 4, base())];
    assert_eq!(
        select(&outputs, base(), 0),
        Ok(SelectionResult { inputs: vec![input(2, 3)], total_collected: 3 })
    );
}

#[test]
fn largest_amounts() {
    let outputs = [owned(1, u64::MAX, base()), owned(2, u64::MAX, base())];
    assert_eq!(
        select(&outputs, base(), u64::MAX - 1),
        Ok(SelectionResult { inputs: vec![input(1, u64::MAX)], total_collected: u64::MAX })
    );
    let outputs = [owned(1, u64::MAX - 1, base())];
    assert_eq!(
        select(&outputs, base(), u64::MAX),
        Err(TransferError::InsufficientFunds { shortfall: 1 })
    );
}

#[test]
fn selection_never_ends_below_its_threshold() {
    let amounts: [u64; 6] = [3, 0, 5, 1, 8, 2];
    let outputs: Vec<OwnedOutput> = amounts
        .iter()
        .enumerate()
        .map(|(i, amount)| owned(i as u64, *amount, if i == 3 { other() } else { base() }))
        .collect();
    for threshold in 0..25u64 {
        match select(&outputs, base(), threshold) {
            Ok(selection) => {
                assert!(selection.total_collected >= threshold);
                let consumed: u64 = selection.inputs.iter().map(|input| input.consumed).sum();
                assert_eq!(consumed, selection.total_collected);
                if selection.inputs.last().map(|input| input.reference) != Some(5) {
                    assert!(selection.total_collected > threshold);
                }
            }
            Err(error) => {
                let shortfall = (threshold - 18) as u128;
                assert_eq!(error, TransferError::InsufficientFunds { shortfall });
            }
        }
    }
}

#[test]
fn selection_is_repeatable() {
    let outputs =
        [owned(7, 4, base()), owned(3, 0, base()), owned(9, 5, base()), owned(1, 6, base())];
    let first = select(&outputs, base(), 8);
    let second = select(&outputs, base(), 8);
    assert_eq!(first, second);
    assert_eq!(
        first,
        Ok(SelectionResult { inputs: vec![input(7, 4), input(9, 5)], total_collected: 9 })
    );
}

#[test]
fn order_of_outputs_decides() {
    let forward = [owned(1, 4, base()), owned(2, 9, base())];
    let backward = [owned(2, 9, base()), owned(1, 4, base())];
    assert_eq!(
        select(&forward, base(), 8),
        Ok(SelectionResult { inputs: vec![input(1, 4), input(2, 9)], total_collected: 13 })
    );
    assert_eq!(
        select(&backward, base(), 8),
        Ok(SelectionResult { inputs: vec![input(2, 9)], total_collected: 9 })
    );
}

#[test]
fn offering_one_by_one_selects_the_same() {
    let outputs = [
        owned(1, 4, base()),
        owned(2, 100, other()),
        owned(3, 0, base()),
        owned(4, 5, base()),
        owned(5, 6, base()),
    ];
    for threshold in [0u64, 3, 4, 8, 9, 14, 15, 16] {
        let mut selection = Selection::new(base(), threshold);
        let mut offered: usize = 0;
        while offered < outputs.len() && selection.wants_more() {
            selection = selection.offer(outputs[offered]);
            offered += 1;
        }
        assert_eq!(selection.finish(), select(&outputs, base(), threshold));
    }
}

#[test]
fn a_selection_that_is_satisfied_lets_outputs_pass() {
    let mut selection = Selection::new(base(), 3);
    assert!(selection.wants_more());
    assert_eq!(selection.total_collected(), 0);
    selection = selection.offer(owned(1, 4, base()));
    assert!(!selection.wants_more());
    assert_eq!(selection.total_collected(), 4);
    selection = selection.offer(owned(2, u64::MAX, base()));
    assert!(!selection.wants_more());
    assert_eq!(selection.total_collected(), 4);
    assert_eq!(
        selection.finish(),
        Ok(SelectionResult { inputs: vec![input(1, 4)], total_collected: 4 })
    );
}

#[test]
fn an_unfinished_selection_fails_with_what_is_missing() {
    let mut selection = Selection::new(base(), 10);
    selection = selection.offer(owned(1, 4, base()));
    selection = selection.offer(owned(2, 9, other()));
    assert!(selection.wants_more());
    assert_eq!(selection.finish(), Err(TransferError::InsufficientFunds { shortfall: 6 }));
}

#[test]
fn a_selection_accepts_what_keeps_the_sum_an_amount() {
    let mut selection = Selection::new(base(), u64::MAX);
    assert!(selection.accepts(&owned(1, u64::MAX, base())));
    selection = selection.offer(owned(1, u64::MAX - 1, base()));
    assert!(selection.accepts(&owned(2, 1, base())));
    assert!(!selection.accepts(&owned(2, 2, base())));
    assert!(selection.accepts(&owned(2, 2, other())));
    assert!(selection.accepts(&owned(2, 0, base())));
    let mut satisfied = Selection::new(base(), 3);
    satisfied = satisfied.offer(owned(1, 4, base()));
    assert!(satisfied.accepts(&owned(2, u64::MAX, base())));
}

#[test]
fn a_selection_fits_while_its_sum_is_an_amount() {
    assert!(selection_fits(&[], base(), 0));
    assert!(selection_fits(&[owned(1, u64::MAX, base())], base(), u64::MAX));
    let outputs = [owned(1, u64::MAX, base()), owned(2, 1, base())];
    assert!(selection_fits(&outputs, base(), u64::MAX - 1));
    assert!(!selection_fits(&outputs, base(), u64::MAX));
    let outputs = [owned(1, u64::MAX, base()), owned(2, 1, other()), owned(3, 0, base())];
    assert!(selection_fits(&outputs, base(), u64::MAX));
    let outputs = [owned(1, 5, base()), owned(2, u64::MAX, base()), owned(3, u64::MAX, base())];
    assert!(selection_fits(&outputs, base(), 4));
    assert!(!selection_fits(&outputs, base(), 5));
}
