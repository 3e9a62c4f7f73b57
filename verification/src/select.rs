//! Coin selection: which of the owner's unspent outputs a transfer spends.
//!
//! The selector walks the outputs in the order in which they are offered,
//! passes over those of another asset, adds up the rest and stops as soon as
//! the sum is strictly above a threshold. It is first-fit: neither the fewest
//! inputs nor the least change is sought.

use vstd::pervasive::unreached;
use vstd::prelude::*;

use crate::asset::{AssetType, OpenedRecord, OwnedOutput};
use crate::error::TransferError;

verus! {

/// An output that the transfer spends, with the amount taken from it.
#[derive(Clone, Copy, Debug, PartialEq, Eq)]
pub struct SelectedInput {
    pub reference: u64,
    pub opened: OpenedRecord,
    pub consumed: u64,
}

/// The inputs of a transfer, in the order of selection, and their sum.
#[derive(Clone, Debug, PartialEq, Eq)]
pub struct SelectionResult {
    pub inputs: Vec<SelectedInput>,
    pub total_collected: u64,
}

/// A `SelectionResult` as a mathematical value.
pub ghost struct SelectionView {
    pub inputs: Seq<SelectedInput>,
    pub total_collected: nat,
}

impl SelectionView {
    /// Whether the sum is that of the amounts consumed, and every input is
    /// spent whole and is not empty.
    pub open spec fn well_formed(self) -> bool {
        &&& self.total_collected == consumed_total(self.inputs)
        &&& forall|i: int|
            0 <= i < self.inputs.len() ==> {
                let input = #[trigger] self.inputs[i];
                input.consumed == input.opened.amount && input.consumed != 0
            }
    }
}

impl View for SelectionResult {
    type V = SelectionView;

    open spec fn view(&self) -> SelectionView {
        SelectionView { inputs: self.inputs@, total_collected: self.total_collected as nat }
    }
}

/// The sum of what the outputs hold of `target`.
pub open spec fn matching_total(outputs: Seq<OwnedOutput>, target: AssetType) -> nat
    decreases outputs.len(),
{
    if outputs.len() == 0 {
        0
    } else {
        matching_total(outputs.drop_last(), target) + outputs.last().contribution(target)
    }
}

/// The input that spends the whole of `output`.
pub open spec fn spend_whole(output: OwnedOutput) -> SelectedInput {
    SelectedInput {
        reference: output.reference,
        opened: output.opened,
        consumed: output.opened.amount,
    }
}

/// The inputs built from `outputs`: one for each output that holds a
/// non-zero amount of `target`, in the same order, each spent whole.
pub open spec fn chosen(outputs: Seq<OwnedOutput>, target: AssetType) -> Seq<SelectedInput>
    decreases outputs.len(),
{
    if outputs.len() == 0 {
        Seq::empty()
    } else if outputs.last().contribution(target) != 0 {
        chosen(outputs.drop_last(), target).push(spend_whole(outputs.last()))
    } else {
        chosen(outputs.drop_last(), target)
    }
}

/// The sum of the amounts that the inputs consume.
pub open spec fn consumed_total(inputs: Seq<SelectedInput>) -> nat
    decreases inputs.len(),
{
    if inputs.len() == 0 {
        0
    } else {
        consumed_total(inputs.drop_last()) + inputs.last().consumed as nat
    }
}

/// `k` is the number of outputs that the selector looks at: with no shorter
/// prefix was the sum above the threshold, and either the sum of the first `k`
/// is above it or there are no more outputs.
pub open spec fn stops_at(
    outputs: Seq<OwnedOutput>,
    target: AssetType,
    threshold: u64,
    k: int,
) -> bool {
    &&& 0 <= k <= outputs.len()
    &&& forall|j: int|
        0 <= j < k ==> #[trigger] matching_total(outputs.take(j), target) <= threshold
    &&& k < outputs.len() ==> matching_total(outputs.take(k), target) > threshold
}

/// The number of outputs that the selector looks at before it stops.
pub open spec fn examined(outputs: Seq<OwnedOutput>, target: AssetType, threshold: u64) -> int {
    choose|k: int| stops_at(outputs, target, threshold, k)
}

/// The outputs that the selector looks at, in order.
pub open spec fn seen(outputs: Seq<OwnedOutput>, target: AssetType, threshold: u64) -> Seq<
    OwnedOutput,
> {
    outputs.take(examined(outputs, target, threshold))
}

/// The outcome of selecting from `outputs`: the inputs built from the
/// examined outputs and their sum where the sum reaches the threshold, else
/// the amount by which it falls short.
pub open spec fn selection_of(
    outputs: Seq<OwnedOutput>,
    target: AssetType,
    threshold: u64,
) -> Result<SelectionView, TransferError> {
    let total = matching_total(seen(outputs, target, threshold), target);
    if total >= threshold {
        Ok(
            SelectionView {
                inputs: chosen(seen(outputs, target, threshold), target),
                total_collected: total,
            },
        )
    } else {
        Err(TransferError::InsufficientFunds { shortfall: (threshold - total) as u128 })
    }
}

/// The outcome of a selection as a mathematical value.
pub open spec fn outcome_view(outcome: Result<SelectionResult, TransferError>) -> Result<
    SelectionView,
    TransferError,
> {
    match outcome {
        Ok(selection) => Ok(selection@),
        Err(error) => Err(error),
    }
}

/// At most one count satisfies `stops_at`.
pub proof fn lemma_stop_unique(
    outputs: Seq<OwnedOutput>,
    target: AssetType,
    threshold: u64,
    k1: int,
    k2: int,
)
    requires
        stops_at(outputs, target, threshold, k1),
        stops_at(outputs, target, threshold, k2),
    ensures
        k1 == k2,
{
    if k1 < k2 {
        assert(matching_total(outputs.take(k1), target) <= threshold);
    } else if k2 < k1 {
        assert(matching_total(outputs.take(k2), target) <= threshold);
    }
}

/// A count that satisfies `stops_at` is the number of examined outputs.
pub proof fn lemma_examined_is(
    outputs: Seq<OwnedOutput>,
    target: AssetType,
    threshold: u64,
    k: int,
)
    requires
        stops_at(outputs, target, threshold, k),
    ensures
        examined(outputs, target, threshold) == k,
{
    lemma_stop_unique(outputs, target, threshold, k, examined(outputs, target, threshold));
}

/// The sum never shrinks as the prefix grows.
pub proof fn lemma_total_monotonic(outputs: Seq<OwnedOutput>, target: AssetType, i: int, j: int)
    requires
        0 <= i <= j <= outputs.len(),
    ensures
        matching_total(outputs.take(i), target) <= matching_total(outputs.take(j), target),
    decreases j - i,
{
    if i < j {
        lemma_total_monotonic(outputs, target, i, j - 1);
        assert(outputs.take(j).drop_last() =~= outputs.take(j - 1));
    }
}

/// Some count satisfies `stops_at`, so `examined` is one.
pub proof fn lemma_stop_exists(outputs: Seq<OwnedOutput>, target: AssetType, threshold: u64)
    ensures
        stops_at(outputs, target, threshold, examined(outputs, target, threshold)),
    decreases outputs.len(),
{
    if outputs.len() == 0 {
        assert(stops_at(outputs, target, threshold, 0));
    } else {
        let shorter = outputs.drop_last();
        lemma_stop_exists(shorter, target, threshold);
        let k = examined(shorter, target, threshold);
        assert forall|j: int| 0 <= j <= shorter.len() implies #[trigger] outputs.take(j)
            == shorter.take(j) by {
            assert(outputs.take(j) =~= shorter.take(j));
        }
        if k < shorter.len() || matching_total(shorter.take(k), target) > threshold {
            assert(stops_at(outputs, target, threshold, k));
        } else {
            assert(shorter.take(k) =~= shorter);
            assert(stops_at(outputs, target, threshold, outputs.len() as int));
        }
    }
}

/// The inputs built from a sequence of outputs consume exactly what the
/// outputs hold of the target asset, each input is spent whole, and none is
/// empty.
pub proof fn lemma_chosen_accounts(outputs: Seq<OwnedOutput>, target: AssetType)
    ensures
        consumed_total(chosen(outputs, target)) == matching_total(outputs, target),
        chosen(outputs, target).len() <= outputs.len(),
        forall|i: int|
            0 <= i < chosen(outputs, target).len() ==> {
                let input = #[trigger] chosen(outputs, target)[i];
                &&& input.consumed == input.opened.amount
                &&& input.consumed != 0
                &&& input.opened.asset_type@ == target@
            },
    decreases outputs.len(),
{
    if outputs.len() != 0 {
        lemma_chosen_accounts(outputs.drop_last(), target);
        if outputs.last().contribution(target) != 0 {
            let rest = chosen(outputs.drop_last(), target);
            assert(rest.push(spend_whole(outputs.last())).drop_last() =~= rest);
        }
    }
}

/// Once the sum over a prefix is above the threshold, outputs that follow
/// the prefix change neither where the selector stops nor what it has seen.
pub proof fn lemma_stop_extends(
    outputs: Seq<OwnedOutput>,
    target: AssetType,
    threshold: u64,
    k: int,
    n: int,
)
    requires
        0 <= k <= n <= outputs.len(),
        stops_at(outputs.take(n), target, threshold, k),
        matching_total(outputs.take(k), target) > threshold,
    ensures
        stops_at(outputs, target, threshold, k),
{
    assert forall|j: int| 0 <= j <= k implies #[trigger] outputs.take(j) == outputs.take(n).take(
        j,
    ) by {
        assert(outputs.take(j) =~= outputs.take(n).take(j));
    }
}

/// A selection in progress: outputs are offered one at a time, in the order
/// in which the owner holds them, until the selection wants no more.
///
/// Offering is separate from opening, so a caller can open each output only
/// when the selection still asks for one.
pub struct Selection {
    target: AssetType,
    threshold: u64,
    inputs: Vec<SelectedInput>,
    total: u64,
    offered: Ghost<Seq<OwnedOutput>>,
}

impl Selection {
    #[verifier::type_invariant]
    spec fn consistent(self) -> bool {
        let seen = seen(self.offered@, self.target, self.threshold);
        &&& self.inputs@ == chosen(seen, self.target)
        &&& self.total == matching_total(seen, self.target)
    }

    /// The asset that the selection collects.
    pub closed spec fn target(self) -> AssetType {
        self.target
    }

    /// The sum that the selection has to exceed before it stops.
    pub closed spec fn threshold(self) -> u64 {
        self.threshold
    }

    /// Every output offered so far, in order.
    pub closed spec fn offered(self) -> Seq<OwnedOutput> {
        self.offered@
    }

    /// The sum over the outputs that the selector has looked at.
    pub open spec fn collected(self) -> nat {
        matching_total(seen(self.offered(), self.target(), self.threshold()), self.target())
    }

    /// A selection of `target` to which nothing has been offered yet.
    pub fn new(target: AssetType, threshold: u64) -> (fresh: Selection)
        ensures
            fresh.target() == target,
            fresh.threshold() == threshold,
            fresh.offered() == Seq::<OwnedOutput>::empty(),
    {
        proof {
            let none = Seq::<OwnedOutput>::empty();
            assert(stops_at(none, target, threshold, 0));
            lemma_examined_is(none, target, threshold, 0);
            assert(none.take(0) =~= none);
        }
        Selection { target, threshold, inputs: Vec::new(), total: 0, offered: Ghost(Seq::empty()) }
    }

    /// The sum collected so far.
    pub fn total_collected(&self) -> (total: u64)
        ensures
            total == self.collected(),
    {
        proof {
            use_type_invariant(self);
        }
        self.total
    }

    /// Whether the selection still looks at outputs: it does until the sum
    /// collected is strictly above the threshold.
    pub fn wants_more(&self) -> (more: bool)
        ensures
            more == (self.collected() <= self.threshold()),
    {
        proof {
            use_type_invariant(self);
        }
        self.total <= self.threshold
    }

    /// Whether `output` can be offered: it can unless the selection still
    /// collects and the sum with this output would be beyond the largest
    /// amount.
    pub fn accepts(&self, output: &OwnedOutput) -> (fits: bool)
        ensures
            fits == (self.collected() <= self.threshold() ==> self.collected()
                + output.contribution(self.target()) <= u64::MAX),
    {
        proof {
            use_type_invariant(self);
        }
        if self.total > self.threshold || !output.opened.asset_type.same_as(&self.target) {
            true
        } else {
            output.opened.amount <= u64::MAX - self.total
        }
    }

    /// Offers the next output. A selection that wants no more lets it pass;
    /// otherwise the output's amount is added where it is of the target asset,
    /// and the output becomes an input where that amount is not zero.
    pub fn offer(self, output: OwnedOutput) -> (next: Selection)
        requires
            self.collected() <= self.threshold() ==> self.collected() + output.contribution(
                self.target(),
            ) <= u64::MAX,
        ensures
            next.target() == self.target(),
            next.threshold() == self.threshold(),
            next.offered() == self.offered().push(output),
    {
        proof {
            use_type_invariant(&self);
        }
        let ghost before = self.offered@;
        let ghost after = before.push(output);
        let ghost k = examined(before, self.target, self.threshold);
        let Selection { target, threshold, mut inputs, mut total, offered: _ } = self;
        proof {
            lemma_stop_exists(before, target, threshold);
            assert forall|j: int| 0 <= j <= before.len() implies #[trigger] after.take(j)
                == before.take(j) by {
                assert(after.take(j) =~= before.take(j));
            }
        }
        if total <= threshold {
            proof {
                assert(before.take(k) =~= before);
                assert(after.take(after.len() as int) =~= after);
                assert(stops_at(after, target, threshold, after.len() as int));
                lemma_examined_is(after, target, threshold, after.len() as int);
                assert(after.drop_last() =~= before);
            }
            if output.opened.asset_type.same_as(&target) {
                let amount = output.opened.amount;
                total = total + amount;
                if amount != 0 {
                    inputs.push(
                        SelectedInput {
                            reference: output.reference,
                            opened: output.opened,
                            consumed: amount,
                        },
                    );
                }
            }
        } else {
            proof {
                assert(stops_at(after, target, threshold, k));
                lemma_examined_is(after, target, threshold, k);
            }
        }
        Selection { target, threshold, inputs, total, offered: Ghost(after) }
    }

    /// Ends the selection: the inputs and their sum where the sum reaches the
    /// threshold, else `InsufficientFunds` with the amount that is missing.
    pub fn finish(self) -> (outcome: Result<SelectionResult, TransferError>)
        ensures
            outcome_view(outcome) == selection_of(
                self.offered(),
                self.target(),
                self.threshold(),
            ),
            outcome matches Ok(selection) ==> selection.total_collected >= self.threshold(),
    {
        proof {
            use_type_invariant(&self);
        }
        if self.total >= self.threshold {
            Ok(SelectionResult { inputs: self.inputs, total_collected: self.total })
        } else {
            Err(
                TransferError::InsufficientFunds {
                    shortfall: (self.threshold - self.total) as u128,
                },
            )
        }
    }
}

/// Walks `outputs` in order, offering each to a fresh selection for as long
/// as the selection wants more; `None` where an output cannot be offered
/// because the sum would leave `u64`.
fn walk(outputs: &[OwnedOutput], target: AssetType, threshold: u64) -> (end: Option<Selection>)
    ensures
        match end {
            Some(selection) => {
                &&& selection.target() == target
                &&& selection.threshold() == threshold
                &&& seen(selection.offered(), target, threshold) == seen(
                    outputs@,
                    target,
                    threshold,
                )
                &&& matching_total(seen(outputs@, target, threshold), target) <= u64::MAX
            },
            None => matching_total(seen(outputs@, target, threshold), target) > u64::MAX,
        },
{
    let mut selection = Selection::new(target, threshold);
    let mut i: usize = 0;
    proof {
        assert(outputs@.take(0) =~= Seq::<OwnedOutput>::empty());
        lemma_stop_exists(outputs@, target, threshold);
    }
    while i < outputs.len() && selection.wants_more()
        invariant
            i <= outputs.len(),
            selection.target() == target,
            selection.threshold() == threshold,
            selection.offered() == outputs@.take(i as int),
            stops_at(outputs@, target, threshold, examined(outputs@, target, threshold)),
        decreases outputs.len() - i,
    {
        proof {
            let prefix = outputs@.take(i as int);
            let k = examined(prefix, target, threshold);
            let stop = examined(outputs@, target, threshold);
            lemma_stop_exists(prefix, target, threshold);
            // The prefix has not crossed the threshold, so it was examined whole.
            assert(prefix.take(k) =~= prefix) by {
                if k < prefix.len() {
                    assert(matching_total(prefix.take(k), target) > threshold);
                }
            }
            // So the walk over all outputs goes past it.
            assert(stop > i) by {
                if stop <= i {
                    assert(stop < outputs@.len());
                    lemma_total_monotonic(outputs@, target, stop, i as int);
                }
            }
            lemma_total_monotonic(outputs@, target, i + 1, stop);
            assert(outputs@.take(i + 1).drop_last() =~= prefix);
            assert(outputs@.take(i + 1) =~= prefix.push(outputs@[i as int]));
        }
        if !selection.accepts(&outputs[i]) {
            return None;
        }
        selection = selection.offer(outputs[i]);
        i += 1;
    }
    let _collected = selection.total_collected();
    proof {
        let prefix = outputs@.take(i as int);
        let k = examined(prefix, target, threshold);
        lemma_stop_exists(prefix, target, threshold);
        if selection.collected() > threshold {
            assert(outputs@.take(k) =~= prefix.take(k));
            lemma_stop_extends(outputs@, target, threshold, k, i as int);
            lemma_examined_is(outputs@, target, threshold, k);
        } else {
            assert(outputs@.take(i as int) =~= outputs@);
        }
    }
    Some(selection)
}

/// Whether the sum that a selection from `outputs` collects stays within
/// `u64`. It is what `select` asks of its caller.
pub fn selection_fits(outputs: &[OwnedOutput], target: AssetType, threshold: u64) -> (fits: bool)
    ensures
        fits == (matching_total(seen(outputs@, target, threshold), target) <= u64::MAX),
{
    walk(outputs, target, threshold).is_some()
}

/// Selects inputs from `outputs`, taken in the order given.
///
/// Outputs of another asset are passed over; the amounts of the others are
/// added up, and each of them that is not empty becomes an input. The walk
/// ends with the first output that lifts the sum strictly above `threshold`.
/// Where the sum reaches `threshold` the inputs are returned with their sum;
/// where all outputs together stay below it, the error holds the shortfall.
///
/// The sum has to stay within `u64`, which `selection_fits` tells.
pub fn select(outputs: &[OwnedOutput], target: AssetType, threshold: u64) -> (outcome: Result<
    SelectionResult,
    TransferError,
>)
    requires
        matching_total(seen(outputs@, target, threshold), target) <= u64::MAX,
    ensures
        outcome_view(outcome) == selection_of(outputs@, target, threshold),
        outcome matches Ok(selection) ==> selection.total_collected >= threshold,
{
    match walk(outputs, target, threshold) {
        Some(selection) => selection.finish(),
        None => unreached(),
    }
}

/// A selection never succeeds below its threshold.
///
/// Where it succeeds, the sum collected is at least the threshold, strictly
/// more where an output was left unexamined; it is what the inputs consume,
/// and every input is of the target asset, spent whole and not empty. Where
/// it fails, every output was examined, all of them together hold less than
/// the threshold, and the error is `InsufficientFunds` with the difference.
pub proof fn selection_is_sufficient(outputs: Seq<OwnedOutput>, target: AssetType, threshold: u64)
    ensures
        match selection_of(outputs, target, threshold) {
            Ok(selection) => {
                &&& selection.total_collected >= threshold
                &&& examined(outputs, target, threshold) < outputs.len()
                    ==> selection.total_collected > threshold
                &&& selection.well_formed()
                &&& forall|i: int|
                    0 <= i < selection.inputs.len() ==> (
                    #[trigger] selection.inputs[i]).opened.asset_type@ == target@
            },
            Err(error) => {
                &&& matching_total(outputs, target) < threshold
                &&& error == TransferError::InsufficientFunds {
                    shortfall: (threshold - matching_total(outputs, target)) as u128,
                }
            },
        },
{
    let k = examined(outputs, target, threshold);
    lemma_stop_exists(outputs, target, threshold);
    lemma_chosen_accounts(outputs.take(k), target);
    if k == outputs.len() {
        assert(outputs.take(k) =~= outputs);
    }
}

/// Selection is a function of the outputs in their order, of the target and
/// of the threshold: two runs on the same arguments yield the same inputs in
/// the same order and the same sum, or the same error.
pub proof fn selection_is_deterministic(
    first: Result<SelectionResult, TransferError>,
    second: Result<SelectionResult, TransferError>,
    outputs: Seq<OwnedOutput>,
    target: AssetType,
    threshold: u64,
)
    requires
        outcome_view(first) == selection_of(outputs, target, threshold),
        outcome_view(second) == selection_of(outputs, target, threshold),
    ensures
        match (first, second) {
            (Ok(a), Ok(b)) => a.inputs@ == b.inputs@ && a.total_collected == b.total_collected,
            (Err(a), Err(b)) => a == b,
            _ => false,
        },
{
}

} // verus!
