use brc20_transfer::asset::AssetType;
use brc20_transfer::error::TransferError;
use brc20_transfer::plan::{plan_outputs, settled_amount, OutputPlan, OutputTemplate, TransferKind};

fn fra() -> AssetType {
    AssetType { code: [0u8; 32] }
}

fn bare(amount: u64, recipient: &'static str) -> OutputTemplate<&'static str> {
    OutputTemplate { amount, asset: fra(), recipient, memo: None }
}

fn tagged(amount: u64, recipient: &'static str, memo: &str) -> OutputTemplate<&'static str> {
    OutputTemplate { amount, asset: fra(), recipient, memo: Some(memo.to_string()) }
}

fn plan(
    total: u64,
    kind: TransferKind<&'static str>,
    fee: u64,
) -> Result<OutputPlan<&'static str>, TransferError> {
    plan_outputs(total, kind, fee, fra(), "recipient", "sender", "burn", "memo".to_string())
}

#[test]
fn exact_threshold_leaves_zero_change() {
    assert_eq!(
        plan(8, TransferKind::Direct { amount: 5 }, 3),
        Ok(OutputPlan {
            outputs: vec![bare(3, "burn"), tagged(5, "recipient", "memo"), bare(0, "sender")]
        })
    );
}

#[test]
fn direct_transfer_returns_the_change() {
    assert_eq!(
        plan(100, TransferKind::Direct { amount: 5 }, 3),
        Ok(OutputPlan {
            outputs: vec![bare(3, "burn"), tagged(5, "recipient", "memo"), bare(92, "sender")]
        })
    );
}

#[test]
fn full_value_sends_all_that_is_left() {
    assert_eq!(
        plan(100, TransferKind::FullValue, 3),
        Ok(OutputPlan {
            outputs: vec![bare(3, "burn"), tagged(97, "recipient", "memo"), bare(0, "sender")]
        })
    );
    assert_eq!(
        plan(3, TransferKind::FullValue, 3),
        Ok(OutputPlan {
            outputs: vec![bare(3, "burn"), tagged(0, "recipient", "memo"), bare(0, "sender")]
        })
    );
}

#[test]
fn swap_scenario() {
    let planned = plan(100, TransferKind::Swap { price: 30, secondary_recipient: "seller" }, 1);
    assert_eq!(
        planned,
        Ok(OutputPlan {
            outputs: vec![
                bare(1, "burn"),
                tagged(0, "recipient", "memo"),
                bare(69, "sender"),
                bare(30, "seller"),
            ]
        })
    );
    let amounts: u64 = planned.unwrap().outputs.iter().map(|output| output.amount).sum();
    assert_eq!(amounts, 1 + 0 + 69 + 30);
    assert_eq!(amounts, 100);
}

#[test]
fn swap_with_nothing_left_over() {
    assert_eq!(
        plan(31, TransferKind::Swap { price: 30, secondary_recipient: "seller" }, 1),
        Ok(OutputPlan {
            outputs: vec![
                bare(1, "burn"),
                tagged(0, "recipient", "memo"),
                bare(0, "sender"),
                bare(30, "seller"),
            ]
        })
    );
}

#[test]
fn plan_fails_below_fee_and_payment() {
    assert_eq!(
        plan(5, TransferKind::Direct { amount: 10 }, 3),
        Err(TransferError::InsufficientFunds { shortfall: 8 })
    );
    assert_eq!(
        plan(7, TransferKind::Direct { amount: 5 }, 3),
        Err(TransferError::InsufficientFunds { shortfall: 1 })
    );
    assert_eq!(
        plan(2, TransferKind::FullValue, 3),
        Err(TransferError::InsufficientFunds { shortfall: 1 })
    );
    assert_eq!(
        plan(30, TransferKind::Swap { price: 30, secondary_recipient: "seller" }, 1),
        Err(TransferError::InsufficientFunds { shortfall: 1 })
    );
    assert_eq!(
        plan(0, TransferKind::Swap { price: 30, secondary_recipient: "seller" }, 1),
        Err(TransferError::InsufficientFunds { shortfall: 31 })
    );
}

#[test]
fn plan_never_wraps() {
    assert_eq!(
        plan(u64::MAX, TransferKind::Direct { amount: u64::MAX }, 1),
        Err(TransferError::InsufficientFunds { shortfall: 1 })
    );
    assert_eq!(
        plan(0, TransferKind::Direct { amount: u64::MAX }, u64::MAX),
        Err(TransferError::InsufficientFunds { shortfall: 2 * (u64::MAX as u128) })
    );
    assert_eq!(
        plan(u64::MAX, TransferKind::Direct { amount: u64::MAX - 1 }, 1),
        Ok(OutputPlan {
            outputs: vec![
                bare(1, "burn"),
                tagged(u64::MAX - 1, "recipient", "memo"),
                bare(0, "sender")
            ]
        })
    );
}

#[test]
fn every_plan_conserves_value_and_pays_the_fee() {
    let totals: [u64; 6] = [0, 1, 7, 8, 50, u64::MAX];
    let fees: [u64; 3] = [0, 3, 10];
    let asked: [u64; 4] = [0, 5, 40, u64::MAX];
    for total in totals {
        for fee in fees {
            for amount in asked {
                let kinds = [
                    TransferKind::FullValue,
                    TransferKind::Direct { amount },
                    TransferKind::Swap { price: amount, secondary_recipient: "seller" },
                ];
                for kind in kinds {
                    let owed = fee as u128 + settled_amount(&kind) as u128;
                    match plan(total, kind, fee) {
                        Ok(planned) => {
                            assert!(total as u128 >= owed);
                            let sum: u128 =
                                planned.outputs.iter().map(|output| output.amount as u128).sum();
                            assert_eq!(sum, total as u128);
                            assert_eq!(planned.outputs[0], bare(fee, "burn"));
                            assert_eq!(planned.outputs[1].recipient, "recipient");
                            let memos = planned
                                .outputs
                                .iter()
                                .filter(|output| output.memo.is_some())
                                .count();
                            assert_eq!(memos, 1);
                            assert_eq!(planned.outputs[1].memo, Some("memo".to_string()));
                            assert!(planned.outputs.iter().all(|output| output.asset == fra()));
                        }
                        Err(error) => {
                            assert!((total as u128) < owed);
                            assert_eq!(
                                error,
                                TransferError::InsufficientFunds { shortfall: owed - total as u128 }
                            );
                        }
                    }
                }
            }
        }
    }
}

#[test]
fn settled_amount_of_each_kind() {
    assert_eq!(settled_amount(&TransferKind::<u8>::FullValue), 0);
    assert_eq!(settled_amount(&TransferKind::<u8>::Direct { amount: 5 }), 5);
    assert_eq!(settled_amount(&TransferKind::Swap { price: 30, secondary_recipient: 1u8 }), 30);
}
