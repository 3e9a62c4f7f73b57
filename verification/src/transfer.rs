//! A transfer from intent to draft: what is spent, what is created, and the
//! memo that rides along.

use vstd::prelude::*;

use crate::asset::{AssetType, OwnedOutput};
use crate::error::TransferError;
use crate::memo::{encode, encoded, transfer_memo};
use crate::plan::{
    amount_in, bare_output, plan_conserves_value, plan_outputs, planned, settled_amount,
    OutputPlan, OutputView, TransferKind,
};
use crate::select::{
    chosen, consumed_total, examined, lemma_chosen_accounts, lemma_stop_exists, matching_total,
    seen, select, SelectedInput, SelectionResult,
};

verus! {

/// What the sender wants done.
#[derive(Clone, Debug, PartialEq, Eq)]
pub struct TransferRequest<K> {
    /// What to do with the collected amount once the fee is paid.
    pub kind: TransferKind<K>,
    /// The fee that every transfer pays.
    pub minimum_fee: u64,
    /// The asset in which the fee and all amounts are paid.
    pub asset: AssetType,
    /// Who receives the output that carries the memo.
    pub recipient: K,
    /// Who pays, and receives the change.
    pub sender: K,
    /// Where the fee goes.
    pub burn_address: K,
    /// The token that the memo names.
    pub ticker: String,
    /// The token amount that the memo states.
    pub amount: String,
}

impl<K> TransferRequest<K> {
    /// What the selection for the request has to exceed before it stops
    /// looking.
    pub open spec fn threshold(self) -> u64 {
        self.kind.threshold(self.minimum_fee)
    }

    /// The text of the memo that the transfer carries.
    pub open spec fn memo_text(self) -> Seq<char> {
        encoded(transfer_memo(self.ticker@, self.amount@))
    }
}

/// A transfer that is ready to be assembled.
#[derive(Clone, Debug, PartialEq, Eq)]
pub struct TransferDraft<K> {
    /// The outputs to spend, in the order of selection.
    pub inputs: Vec<SelectedInput>,
    /// The outputs to create, in the order in which they are added.
    pub plan: OutputPlan<K>,
}

/// A `TransferDraft` as a mathematical value.
pub ghost struct DraftView<K> {
    pub inputs: Seq<SelectedInput>,
    pub outputs: Seq<OutputView<K>>,
}

impl<K> View for TransferDraft<K> {
    type V = DraftView<K>;

    open spec fn view(&self) -> DraftView<K> {
        DraftView { inputs: self.inputs@, outputs: self.plan@ }
    }
}

/// The outcome of drafting as a mathematical value.
pub open spec fn draft_view<K>(outcome: Result<TransferDraft<K>, TransferError>) -> Result<
    DraftView<K>,
    TransferError,
> {
    match outcome {
        Ok(draft) => Ok(draft@),
        Err(error) => Err(error),
    }
}

/// The draft for `request` once `inputs` were selected and hold
/// `total_collected`: the inputs as they are, and the plan for their sum.
pub open spec fn drafted_from<K>(
    inputs: Seq<SelectedInput>,
    total_collected: u64,
    request: TransferRequest<K>,
) -> Result<DraftView<K>, TransferError> {
    match planned(
        total_collected,
        request.kind,
        request.minimum_fee,
        request.asset,
        request.recipient,
        request.sender,
        request.burn_address,
        request.memo_text(),
    ) {
        Ok(outputs) => Ok(DraftView { inputs, outputs }),
        Err(error) => Err(error),
    }
}

/// The draft for `request` from the outputs that the sender owns: the
/// selector collects until it is above the request's threshold, and what it
/// has collected is planned. Where that is less than the request owes, the
/// outcome is `InsufficientFunds` with the difference.
pub open spec fn drafted<K>(owned: Seq<OwnedOutput>, request: TransferRequest<K>) -> Result<
    DraftView<K>,
    TransferError,
> {
    let seen = seen(owned, request.asset, request.threshold());
    let total = matching_total(seen, request.asset);
    if total < request.kind.owed(request.minimum_fee) {
        Err(
            TransferError::InsufficientFunds {
                shortfall: (request.kind.owed(request.minimum_fee) - total) as u128,
            },
        )
    } else {
        drafted_from(chosen(seen, request.asset), total as u64, request)
    }
}

/// The threshold of a selection for a transfer of `kind`.
pub fn sufficiency_threshold<K>(kind: &TransferKind<K>, minimum_fee: u64) -> (threshold: u64)
    ensures
        threshold == kind.threshold(minimum_fee),
{
    minimum_fee.saturating_add(settled_amount(kind))
}

/// Drafts the transfer for a selection that is already made: plans the
/// outputs for what the selection has collected and attaches the memo.
pub fn draft_from_selection<K>(selection: SelectionResult, request: TransferRequest<K>) -> (outcome:
    Result<TransferDraft<K>, TransferError>)
    ensures
        draft_view(outcome) == drafted_from(selection.inputs@, selection.total_collected, request),
{
    let memo = encode(request.ticker.as_str(), request.amount.as_str());
    match plan_outputs(
        selection.total_collected,
        request.kind,
        request.minimum_fee,
        request.asset,
        request.recipient,
        request.sender,
        request.burn_address,
        memo,
    ) {
        Ok(plan) => Ok(TransferDraft { inputs: selection.inputs, plan }),
        Err(error) => Err(error),
    }
}

/// Drafts the transfer for `request` from the outputs that the sender owns,
/// taken in the order given.
///
/// The sum that the selection collects has to stay within `u64`, which
/// `selection_fits` tells for the threshold that `sufficiency_threshold`
/// gives.
pub fn draft_transfer<K>(owned: &[OwnedOutput], request: TransferRequest<K>) -> (outcome: Result<
    TransferDraft<K>,
    TransferError,
>)
    requires
        matching_total(seen(owned@, request.asset, request.threshold()), request.asset)
            <= u64::MAX,
    ensures
        draft_view(outcome) == drafted(owned@, request),
{
    let threshold = sufficiency_threshold(&request.kind, request.minimum_fee);
    match select(owned, request.asset, threshold) {
        Ok(selection) => draft_from_selection(selection, request),
        Err(error) => {
            let missing: u128 = match error {
                TransferError::InsufficientFunds { shortfall } => shortfall,
                _ => 0,
            };
            let asked: u128 = settled_amount(&request.kind) as u128;
            let owed: u128 = (request.minimum_fee as u128) + asked;
            let beyond: u128 = owed - (threshold as u128);
            Err(TransferError::InsufficientFunds { shortfall: missing + beyond })
        },
    }
}

/// A draft is balanced: its outputs hand out, in the request's asset,
/// exactly what its inputs consume, the first of them being the minimum fee
/// to the burn address. Where no draft comes about, every output of the
/// sender was looked at and all of them together hold less than is owed.
pub proof fn draft_is_balanced<K>(owned: Seq<OwnedOutput>, request: TransferRequest<K>)
    requires
        matching_total(seen(owned, request.asset, request.threshold()), request.asset)
            <= u64::MAX,
    ensures
        match drafted(owned, request) {
            Ok(draft) => {
                &&& amount_in(draft.outputs, request.asset) == consumed_total(draft.inputs)
                &&& consumed_total(draft.inputs) >= request.kind.owed(request.minimum_fee)
                &&& draft.outputs[0] == bare_output(
                    request.minimum_fee,
                    request.asset,
                    request.burn_address,
                )
            },
            Err(error) => {
                &&& matching_total(owned, request.asset) < request.kind.owed(request.minimum_fee)
                &&& error == TransferError::InsufficientFunds {
                    shortfall: (request.kind.owed(request.minimum_fee) - matching_total(
                        owned,
                        request.asset,
                    )) as u128,
                }
            },
        },
{
    let k = examined(owned, request.asset, request.threshold());
    let seen = owned.take(k);
    let total = matching_total(seen, request.asset);
    lemma_stop_exists(owned, request.asset, request.threshold());
    lemma_chosen_accounts(seen, request.asset);
    if total < request.kind.owed(request.minimum_fee) {
        assert(seen =~= owned);
    } else {
        plan_conserves_value(
            total as u64,
            request.kind,
            request.minimum_fee,
            request.asset,
            request.recipient,
            request.sender,
            request.burn_address,
            request.memo_text(),
        );
    }
}

} // verus!
