//! Output planning: which outputs a transfer creates from what was collected.
//!
//! Every plan starts with the fee, paid to the burn address, and carries the
//! memo on its second output. What the plan hands out is exactly what was
//! collected: nothing is created and nothing is lost.

use vstd::prelude::*;

use crate::asset::AssetType;
use crate::error::TransferError;

verus! {

/// What a transfer is to do with the collected amount once the fee is paid.
#[derive(Clone, Debug, PartialEq, Eq)]
pub enum TransferKind<K> {
    /// Everything that is left goes to the recipient.
    FullValue,
    /// `amount` goes to the recipient and the rest returns to the sender.
    Direct { amount: u64 },
    /// The recipient gets an empty output that carries the memo, `price` goes
    /// to a second recipient, and the rest returns to the sender.
    Swap { price: u64, secondary_recipient: K },
}

impl<K> TransferKind<K> {
    /// What the kind asks for beyond the fee.
    pub open spec fn settled(self) -> nat {
        match self {
            TransferKind::FullValue => 0,
            TransferKind::Direct { amount } => amount as nat,
            TransferKind::Swap { price, .. } => price as nat,
        }
    }

    /// What a transfer of this kind has to collect at least: the fee and what
    /// the kind asks for beyond it.
    pub open spec fn owed(self, minimum_fee: u64) -> nat {
        minimum_fee as nat + self.settled()
    }

    /// What a selection for a transfer of this kind has to exceed before it
    /// stops looking: the fee alone for a transfer of the full value, the fee
    /// and the amount or the price otherwise; and the largest amount there is
    /// where that sum is larger still.
    pub open spec fn threshold(self, minimum_fee: u64) -> u64 {
        if self.owed(minimum_fee) <= u64::MAX {
            self.owed(minimum_fee) as u64
        } else {
            u64::MAX
        }
    }
}

/// The template of one output: how much of which asset goes to whom, and the
/// memo it carries, if any.
#[derive(Clone, Debug, PartialEq, Eq)]
pub struct OutputTemplate<K> {
    pub amount: u64,
    pub asset: AssetType,
    pub recipient: K,
    pub memo: Option<String>,
}

/// An `OutputTemplate` as a mathematical value.
pub ghost struct OutputView<K> {
    pub amount: u64,
    pub asset: AssetType,
    pub recipient: K,
    pub memo: Option<Seq<char>>,
}

impl<K> View for OutputTemplate<K> {
    type V = OutputView<K>;

    open spec fn view(&self) -> OutputView<K> {
        OutputView {
            amount: self.amount,
            asset: self.asset,
            recipient: self.recipient,
            memo: match self.memo {
                Some(text) => Some(text@),
                None => None,
            },
        }
    }
}

/// The outputs of a transfer, in the order in which they are added to it.
#[derive(Clone, Debug, PartialEq, Eq)]
pub struct OutputPlan<K> {
    pub outputs: Vec<OutputTemplate<K>>,
}

impl<K> View for OutputPlan<K> {
    type V = Seq<OutputView<K>>;

    open spec fn view(&self) -> Seq<OutputView<K>> {
        Seq::new(self.outputs@.len(), |i: int| self.outputs@[i]@)
    }
}

/// An output without a memo.
pub open spec fn bare_output<K>(amount: u64, asset: AssetType, recipient: K) -> OutputView<K> {
    OutputView { amount, asset, recipient, memo: None }
}

/// An output that carries `memo`.
pub open spec fn tagged_output<K>(
    amount: u64,
    asset: AssetType,
    recipient: K,
    memo: Seq<char>,
) -> OutputView<K> {
    OutputView { amount, asset, recipient, memo: Some(memo) }
}

/// The plan for `total_collected`.
///
/// Where less was collected than is owed, `InsufficientFunds` with the
/// difference. Else, in this order: the fee to the burn address; the output
/// that carries the memo, to the recipient; the change, to the sender, also
/// where it is zero; and for a swap the price, to the second recipient. The
/// memo rides on the output whose amount stands for the token transferred:
/// the payment itself, or the empty output of a swap.
pub open spec fn planned<K>(
    total_collected: u64,
    kind: TransferKind<K>,
    minimum_fee: u64,
    asset: AssetType,
    recipient: K,
    sender: K,
    burn_address: K,
    memo: Seq<char>,
) -> Result<Seq<OutputView<K>>, TransferError> {
    if total_collected < kind.owed(minimum_fee) {
        Err(
            TransferError::InsufficientFunds {
                shortfall: (kind.owed(minimum_fee) - total_collected) as u128,
            },
        )
    } else {
        let fee = bare_output(minimum_fee, asset, burn_address);
        let rest = (total_collected - kind.owed(minimum_fee)) as u64;
        Ok(
            match kind {
                TransferKind::FullValue => seq![
                    fee,
                    tagged_output(rest, asset, recipient, memo),
                    bare_output(0, asset, sender),
                ],
                TransferKind::Direct { amount } => seq![
                    fee,
                    tagged_output(amount, asset, recipient, memo),
                    bare_output(rest, asset, sender),
                ],
                TransferKind::Swap { price, secondary_recipient } => seq![
                    fee,
                    tagged_output(0, asset, recipient, memo),
                    bare_output(rest, asset, sender),
                    bare_output(price, asset, secondary_recipient),
                ],
            },
        )
    }
}

/// The outcome of planning as a mathematical value.
pub open spec fn plan_view<K>(outcome: Result<OutputPlan<K>, TransferError>) -> Result<
    Seq<OutputView<K>>,
    TransferError,
> {
    match outcome {
        Ok(plan) => Ok(plan@),
        Err(error) => Err(error),
    }
}

/// Plans the outputs of a transfer that has collected `total_collected`.
pub fn plan_outputs<K>(
    total_collected: u64,
    kind: TransferKind<K>,
    minimum_fee: u64,
    asset: AssetType,
    recipient: K,
    sender: K,
    burn_address: K,
    memo: String,
) -> (outcome: Result<OutputPlan<K>, TransferError>)
    ensures
        plan_view(outcome) == planned(
            total_collected,
            kind,
            minimum_fee,
            asset,
            recipient,
            sender,
            burn_address,
            memo@,
        ),
        outcome is Ok <==> total_collected >= kind.owed(minimum_fee),
{
    if total_collected < minimum_fee {
        return Err(
            TransferError::InsufficientFunds {
                shortfall: (minimum_fee as u128) - (total_collected as u128) + settled_amount(
                    &kind,
                ) as u128,
            },
        );
    }
    let after_fee: u64 = total_collected - minimum_fee;
    let asked: u64 = settled_amount(&kind);
    if after_fee < asked {
        return Err(TransferError::InsufficientFunds { shortfall: (asked - after_fee) as u128 });
    }
    let rest: u64 = after_fee - asked;
    let fee = OutputTemplate { amount: minimum_fee, asset, recipient: burn_address, memo: None };
    let mut outputs: Vec<OutputTemplate<K>> = Vec::new();
    outputs.push(fee);
    match kind {
        TransferKind::FullValue => {
            outputs.push(OutputTemplate { amount: rest, asset, recipient, memo: Some(memo) });
            outputs.push(OutputTemplate { amount: 0, asset, recipient: sender, memo: None });
        },
        TransferKind::Direct { amount } => {
            outputs.push(OutputTemplate { amount, asset, recipient, memo: Some(memo) });
            outputs.push(OutputTemplate { amount: rest, asset, recipient: sender, memo: None });
        },
        TransferKind::Swap { price, secondary_recipient } => {
            outputs.push(OutputTemplate { amount: 0, asset, recipient, memo: Some(memo) });
            outputs.push(OutputTemplate { amount: rest, asset, recipient: sender, memo: None });
            outputs.push(
                OutputTemplate { amount: price, asset, recipient: secondary_recipient, memo: None },
            );
        },
    }
    let plan = OutputPlan { outputs };
    assert(plan@ =~= planned(
        total_collected,
        kind,
        minimum_fee,
        asset,
        recipient,
        sender,
        burn_address,
        memo@,
    )->Ok_0);
    Ok(plan)
}

/// What `kind` asks for beyond the fee.
pub fn settled_amount<K>(kind: &TransferKind<K>) -> (asked: u64)
    ensures
        asked == kind.settled(),
{
    match kind {
        TransferKind::FullValue => 0,
        TransferKind::Direct { amount } => *amount,
        TransferKind::Swap { price, .. } => *price,
    }
}

/// The sum of the amounts of the outputs that are denominated in `asset`.
pub open spec fn amount_in<K>(outputs: Seq<OutputView<K>>, asset: AssetType) -> nat
    decreases outputs.len(),
{
    if outputs.len() == 0 {
        0
    } else {
        amount_in(outputs.drop_last(), asset) + if outputs.last().asset@ == asset@ {
            outputs.last().amount as nat
        } else {
            0
        }
    }
}

/// The number of outputs that carry a memo.
pub open spec fn memo_count<K>(outputs: Seq<OutputView<K>>) -> nat
    decreases outputs.len(),
{
    if outputs.len() == 0 {
        0
    } else {
        memo_count(outputs.drop_last()) + if outputs.last().memo is Some {
            1nat
        } else {
            0nat
        }
    }
}

/// Unfolds `amount_in` and `memo_count` by one output.
proof fn lemma_plan_push<K>(outputs: Seq<OutputView<K>>, next: OutputView<K>, asset: AssetType)
    ensures
        amount_in(outputs.push(next), asset) == amount_in(outputs, asset) + if next.asset@
            == asset@ {
            next.amount as nat
        } else {
            0
        },
        memo_count(outputs.push(next)) == memo_count(outputs) + if next.memo is Some {
            1nat
        } else {
            0nat
        },
{
    assert(outputs.push(next).drop_last() =~= outputs);
}

/// Unfolds `amount_in` and `memo_count` over the first three outputs.
proof fn lemma_plan_three<K>(
    a: OutputView<K>,
    b: OutputView<K>,
    c: OutputView<K>,
    asset: AssetType,
)
    requires
        a.asset == asset,
        b.asset == asset,
        c.asset == asset,
    ensures
        amount_in(seq![a, b, c], asset) == a.amount + b.amount + c.amount,
        memo_count(seq![a, b, c]) == (if a.memo is Some {
            1nat
        } else {
            0nat
        }) + (if b.memo is Some {
            1nat
        } else {
            0nat
        }) + (if c.memo is Some {
            1nat
        } else {
            0nat
        }),
{
    let none = Seq::<OutputView<K>>::empty();
    lemma_plan_push(none, a, asset);
    lemma_plan_push(none.push(a), b, asset);
    lemma_plan_push(none.push(a).push(b), c, asset);
    assert(seq![a, b, c] =~= none.push(a).push(b).push(c));
}

/// Value is conserved: whatever is planned, the amounts of its outputs,
/// the fee among them, add up to what was collected, and nothing is handed
/// out in another asset. So no amount of a plan exceeds what was collected.
pub proof fn plan_conserves_value<K>(
    total_collected: u64,
    kind: TransferKind<K>,
    minimum_fee: u64,
    asset: AssetType,
    recipient: K,
    sender: K,
    burn_address: K,
    memo: Seq<char>,
)
    ensures
        match planned(
            total_collected,
            kind,
            minimum_fee,
            asset,
            recipient,
            sender,
            burn_address,
            memo,
        ) {
            Ok(outputs) => {
                &&& amount_in(outputs, asset) == total_collected
                &&& forall|i: int|
                    0 <= i < outputs.len() ==> (#[trigger] outputs[i]).asset == asset
                        && outputs[i].amount <= total_collected
            },
            Err(_) => true,
        },
{
    let outcome = planned(
        total_collected,
        kind,
        minimum_fee,
        asset,
        recipient,
        sender,
        burn_address,
        memo,
    );
    if let Ok(outputs) = outcome {
        lemma_plan_three(outputs[0], outputs[1], outputs[2], asset);
        if outputs.len() == 3 {
            assert(outputs =~= seq![outputs[0], outputs[1], outputs[2]]);
        } else {
            lemma_plan_push(seq![outputs[0], outputs[1], outputs[2]], outputs[3], asset);
            assert(outputs =~= seq![outputs[0], outputs[1], outputs[2]].push(outputs[3]));
        }
    }
}

/// The minimum fee is always paid: every plan opens with an output of
/// exactly the minimum fee to the burn address, and that output has no memo.
pub proof fn plan_pays_minimum_fee<K>(
    total_collected: u64,
    kind: TransferKind<K>,
    minimum_fee: u64,
    asset: AssetType,
    recipient: K,
    sender: K,
    burn_address: K,
    memo: Seq<char>,
)
    ensures
        match planned(
            total_collected,
            kind,
            minimum_fee,
            asset,
            recipient,
            sender,
            burn_address,
            memo,
        ) {
            Ok(outputs) => outputs.len() >= 1 && outputs[0] == bare_output(
                minimum_fee,
                asset,
                burn_address,
            ),
            Err(_) => true,
        },
{
}

/// A plan exists exactly where what was collected covers what is owed, and
/// then one and only one of its outputs carries the memo: the second, which
/// goes to the recipient.
pub proof fn plan_carries_one_memo<K>(
    total_collected: u64,
    kind: TransferKind<K>,
    minimum_fee: u64,
    asset: AssetType,
    recipient: K,
    sender: K,
    burn_address: K,
    memo: Seq<char>,
)
    ensures
        match planned(
            total_collected,
            kind,
            minimum_fee,
            asset,
            recipient,
            sender,
            burn_address,
            memo,
        ) {
            Ok(outputs) => {
                &&& total_collected >= kind.owed(minimum_fee)
                &&& memo_count(outputs) == 1
                &&& outputs.len() >= 2
                &&& outputs[1].memo == Some(memo)
                &&& outputs[1].recipient == recipient
            },
            Err(_) => total_collected < kind.owed(minimum_fee),
        },
{
    let outcome = planned(
        total_collected,
        kind,
        minimum_fee,
        asset,
        recipient,
        sender,
        burn_address,
        memo,
    );
    if let Ok(outputs) = outcome {
        lemma_plan_three(outputs[0], outputs[1], outputs[2], asset);
        if outputs.len() == 3 {
            assert(outputs =~= seq![outputs[0], outputs[1], outputs[2]]);
        } else {
            lemma_plan_push(seq![outputs[0], outputs[1], outputs[2]], outputs[3], asset);
            assert(outputs =~= seq![outputs[0], outputs[1], outputs[2]].push(outputs[3]));
        }
    }
}

} // verus!
