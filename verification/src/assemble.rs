//! The order in which a transfer is handed to the ledger's builders.
//!
//! The builders themselves sign and blind, which is not this crate's work.
//! What is fixed here is the protocol: every input, then every output in the
//! plan's order, then the operation is finalised as a standard transfer,
//! signed and taken out; then it is put into the sequenced transaction, which
//! is signed in turn and taken out. The first call that fails ends the
//! assembly: nothing half-built is ever handed on.
//!
//! An `Assembler` names the call that is due; whoever owns the builders makes
//! the call and reports how it went.

use vstd::prelude::*;

use crate::error::TransferError;
use crate::plan::{OutputTemplate, OutputView};
use crate::select::SelectedInput;
use crate::transfer::{DraftView, TransferDraft};

verus! {

/// One call on the builders, with what is handed to it.
#[derive(Debug, PartialEq, Eq)]
pub enum BuilderCall<'a, K> {
    /// Add this input: by its absolute reference, with its opened record and
    /// the amount consumed.
    AddInput(&'a SelectedInput),
    /// Add this output, with its memo if it has one.
    AddOutput(&'a OutputTemplate<K>),
    /// Finalise the operation as a standard transfer.
    Create,
    /// Sign the operation with the sender's key.
    SignOperation,
    /// Take the finished operation out of its builder.
    TakeOperation,
    /// Put the operation into the sequenced transaction.
    AddOperation,
    /// Sign the transaction with the sender's key.
    SignTransaction,
    /// Take the finished transaction out of its builder.
    TakeTransaction,
}

/// A `BuilderCall` as a mathematical value.
pub ghost enum CallView<K> {
    AddInput(SelectedInput),
    AddOutput(OutputView<K>),
    Create,
    SignOperation,
    TakeOperation,
    AddOperation,
    SignTransaction,
    TakeTransaction,
}

impl<'a, K> View for BuilderCall<'a, K> {
    type V = CallView<K>;

    open spec fn view(&self) -> CallView<K> {
        match self {
            BuilderCall::AddInput(input) => CallView::AddInput(**input),
            BuilderCall::AddOutput(output) => CallView::AddOutput(output@),
            BuilderCall::Create => CallView::Create,
            BuilderCall::SignOperation => CallView::SignOperation,
            BuilderCall::TakeOperation => CallView::TakeOperation,
            BuilderCall::AddOperation => CallView::AddOperation,
            BuilderCall::SignTransaction => CallView::SignTransaction,
            BuilderCall::TakeTransaction => CallView::TakeTransaction,
        }
    }
}

/// The call that is due, as a mathematical value.
pub open spec fn call_view<K>(call: Option<BuilderCall<'_, K>>) -> Option<CallView<K>> {
    match call {
        Some(call) => Some(call@),
        None => None,
    }
}

/// The calls that follow the inputs and outputs, in order.
pub open spec fn closing_calls<K>() -> Seq<CallView<K>> {
    seq![
        CallView::Create,
        CallView::SignOperation,
        CallView::TakeOperation,
        CallView::AddOperation,
        CallView::SignTransaction,
        CallView::TakeTransaction,
    ]
}

/// All calls that assemble `draft`, in the order in which they are made:
/// one for each input in the order of selection, one for each output in the
/// order of the plan, and the closing calls.
pub open spec fn protocol<K>(draft: DraftView<K>) -> Seq<CallView<K>> {
    Seq::new(draft.inputs.len(), |i: int| CallView::AddInput(draft.inputs[i])) + Seq::new(
        draft.outputs.len(),
        |i: int| CallView::AddOutput(draft.outputs[i]),
    ) + closing_calls()
}

/// An assembly as a mathematical value: the draft, how many calls have
/// succeeded, and whether one has failed.
pub ghost struct AssemblyView<K> {
    pub draft: DraftView<K>,
    pub done: nat,
    pub failed: bool,
}

impl<K> AssemblyView<K> {
    /// An assembly of which no call has been made.
    pub open spec fn start(draft: DraftView<K>) -> AssemblyView<K> {
        AssemblyView { draft, done: 0, failed: false }
    }

    /// All calls of the assembly, in order.
    pub open spec fn calls(self) -> Seq<CallView<K>> {
        protocol(self.draft)
    }

    /// The call that is due: the next of the protocol, unless a call has
    /// failed or all were made.
    pub open spec fn pending(self) -> Option<CallView<K>> {
        if self.failed || self.done >= self.calls().len() {
            None
        } else {
            Some(self.calls()[self.done as int])
        }
    }

    /// The assembly after the pending call went as reported: a success moves
    /// on to the next call, a failure ends the assembly, and with no call
    /// pending nothing changes.
    pub open spec fn report(self, succeeded: bool) -> AssemblyView<K> {
        if self.pending() is None {
            self
        } else if succeeded {
            AssemblyView { done: self.done + 1, ..self }
        } else {
            AssemblyView { failed: true, ..self }
        }
    }

    /// The assembly after a run of reports, the earliest first.
    pub open spec fn run(self, reports: Seq<bool>) -> AssemblyView<K>
        decreases reports.len(),
    {
        if reports.len() == 0 {
            self
        } else {
            self.run(reports.drop_last()).report(reports.last())
        }
    }

    /// How the assembly ended, if it has: well when every call of the
    /// protocol succeeded, with `LedgerBuilder` when one failed.
    pub open spec fn verdict(self) -> Option<Result<(), TransferError>> {
        if self.failed {
            Some(Err(TransferError::LedgerBuilder))
        } else if self.done >= self.calls().len() {
            Some(Ok(()))
        } else {
            None
        }
    }
}

/// The number of reports of success that come before the first of failure.
pub open spec fn leading_successes(reports: Seq<bool>) -> nat
    decreases reports.len(),
{
    if reports.len() == 0 || !reports[0] {
        0
    } else {
        1 + leading_successes(reports.drop_first())
    }
}

/// Where an assembly stands, apart from failure.
#[derive(Clone, Copy, Debug, PartialEq, Eq, Structural)]
enum Stage {
    Inputs { next: usize },
    Outputs { next: usize },
    Closing { next: usize },
    Complete,
}

/// An assembly in progress.
pub struct Assembler<K> {
    draft: TransferDraft<K>,
    stage: Stage,
    failed: bool,
}

/// The number of calls that come before the one that is due at `stage`.
spec fn calls_before(inputs: nat, outputs: nat, stage: Stage) -> nat {
    match stage {
        Stage::Inputs { next } => next as nat,
        Stage::Outputs { next } => (inputs + next) as nat,
        Stage::Closing { next } => (inputs + outputs + next) as nat,
        Stage::Complete => inputs + outputs + 6,
    }
}

/// Whether a call is due at `stage`, or all were made.
spec fn is_settled(inputs: nat, outputs: nat, stage: Stage) -> bool {
    match stage {
        Stage::Inputs { next } => next < inputs,
        Stage::Outputs { next } => next < outputs,
        Stage::Closing { next } => next < 6,
        Stage::Complete => true,
    }
}

/// The stage at which the next call is due.
fn settle(inputs: usize, outputs: usize, stage: Stage) -> (settled: Stage)
    requires
        match stage {
            Stage::Inputs { next } => next <= inputs,
            Stage::Outputs { next } => next <= outputs,
            Stage::Closing { next } => next <= 6,
            Stage::Complete => true,
        },
    ensures
        is_settled(inputs as nat, outputs as nat, settled),
        calls_before(inputs as nat, outputs as nat, settled) == calls_before(
            inputs as nat,
            outputs as nat,
            stage,
        ),
{
    match stage {
        Stage::Inputs { next } => {
            if next < inputs {
                stage
            } else if 0 < outputs {
                Stage::Outputs { next: 0 }
            } else {
                Stage::Closing { next: 0 }
            }
        },
        Stage::Outputs { next } => {
            if next < outputs {
                stage
            } else {
                Stage::Closing { next: 0 }
            }
        },
        Stage::Closing { next } => {
            if next < 6 {
                stage
            } else {
                Stage::Complete
            }
        },
        Stage::Complete => stage,
    }
}

impl<K> View for Assembler<K> {
    type V = AssemblyView<K>;

    closed spec fn view(&self) -> AssemblyView<K> {
        AssemblyView {
            draft: self.draft@,
            done: calls_before(
                self.draft.inputs@.len(),
                self.draft.plan.outputs@.len(),
                self.stage,
            ),
            failed: self.failed,
        }
    }
}

impl<K> Assembler<K> {
    #[verifier::type_invariant]
    spec fn consistent(self) -> bool {
        is_settled(self.draft.inputs@.len(), self.draft.plan.outputs@.len(), self.stage)
    }

    /// The assembly of `draft`, of which no call has been made.
    pub fn new(draft: TransferDraft<K>) -> (fresh: Assembler<K>)
        ensures
            fresh@ == AssemblyView::start(draft@),
    {
        let stage = settle(draft.inputs.len(), draft.plan.outputs.len(), Stage::Inputs { next: 0 });
        Assembler { draft, stage, failed: false }
    }

    /// The call to make now, if any.
    pub fn pending(&self) -> (call: Option<BuilderCall<'_, K>>)
        ensures
            call_view(call) == self@.pending(),
    {
        proof {
            use_type_invariant(self);
        }
        if self.failed {
            return None;
        }
        match self.stage {
            Stage::Inputs { next } => Some(BuilderCall::AddInput(&self.draft.inputs[next])),
            Stage::Outputs { next } => Some(BuilderCall::AddOutput(&self.draft.plan.outputs[next])),
            Stage::Closing { next } => {
                if next == 0 {
                    Some(BuilderCall::Create)
                } else if next == 1 {
                    Some(BuilderCall::SignOperation)
                } else if next == 2 {
                    Some(BuilderCall::TakeOperation)
                } else if next == 3 {
                    Some(BuilderCall::AddOperation)
                } else if next == 4 {
                    Some(BuilderCall::SignTransaction)
                } else {
                    Some(BuilderCall::TakeTransaction)
                }
            },
            Stage::Complete => None,
        }
    }

    /// Takes note of how the pending call went.
    pub fn report(self, succeeded: bool) -> (next: Assembler<K>)
        ensures
            next@ == self@.report(succeeded),
    {
        proof {
            use_type_invariant(&self);
        }
        if self.failed {
            return self;
        }
        let inputs = self.draft.inputs.len();
        let outputs = self.draft.plan.outputs.len();
        let moved = match self.stage {
            Stage::Inputs { next } => Stage::Inputs { next: next + 1 },
            Stage::Outputs { next } => Stage::Outputs { next: next + 1 },
            Stage::Closing { next } => Stage::Closing { next: next + 1 },
            Stage::Complete => {
                return self;
            },
        };
        if succeeded {
            let stage = settle(inputs, outputs, moved);
            Assembler { draft: self.draft, stage, failed: false }
        } else {
            Assembler { draft: self.draft, stage: self.stage, failed: true }
        }
    }

    /// How the assembly ended, or `None` while a call is pending.
    pub fn outcome(&self) -> (verdict: Option<Result<(), TransferError>>)
        ensures
            verdict == self@.verdict(),
    {
        proof {
            use_type_invariant(self);
        }
        if self.failed {
            Some(Err(TransferError::LedgerBuilder))
        } else {
            match self.stage {
                Stage::Complete => Some(Ok(())),
                _ => None,
            }
        }
    }
}

/// Reports that come after the first report are applied to what the first
/// one left.
proof fn lemma_run_first<K>(state: AssemblyView<K>, reports: Seq<bool>)
    requires
        reports.len() > 0,
    ensures
        state.run(reports) == state.report(reports[0]).run(reports.drop_first()),
    decreases reports.len(),
{
    let first = state.report(reports[0]);
    let tail = reports.drop_first();
    if reports.len() == 1 {
        assert(state.run(reports.drop_last()) == state);
        assert(first.run(tail) == first);
    } else {
        lemma_run_first(state, reports.drop_last());
        assert(reports.drop_last().drop_first() =~= tail.drop_last());
        assert(first.run(tail) == first.run(tail.drop_last()).report(tail.last()));
    }
}

/// Once a call has failed, or all were made, reports change nothing.
proof fn lemma_run_ended<K>(state: AssemblyView<K>, reports: Seq<bool>)
    requires
        state.pending() is None,
    ensures
        state.run(reports) == state,
    decreases reports.len(),
{
    if reports.len() > 0 {
        lemma_run_ended(state, reports.drop_last());
    }
}

/// How far a run gets: as many calls as reports of success come before the
/// first of failure, and no further than the protocol goes; and it has
/// failed exactly where a failure was reported while a call was pending.
proof fn lemma_run_progress<K>(state: AssemblyView<K>, reports: Seq<bool>)
    requires
        !state.failed,
        state.done <= state.calls().len(),
    ensures
        ({
            let end = state.run(reports);
            let left = (state.calls().len() - state.done) as nat;
            let successes = leading_successes(reports);
            &&& end.draft == state.draft
            &&& end.done == state.done + if successes <= left {
                successes
            } else {
                left
            }
            &&& end.failed == (successes < left && successes < reports.len())
        }),
    decreases reports.len(),
{
    if reports.len() > 0 {
        lemma_run_first(state, reports);
        let next = state.report(reports[0]);
        if state.pending() is None || !reports[0] {
            lemma_run_ended(next, reports.drop_first());
            if state.pending() is None && reports[0] {
                assert(leading_successes(reports) >= 1);
            }
        } else {
            lemma_run_progress(next, reports.drop_first());
        }
    }
}

/// An assembly ends well only when every call of the protocol was made and
/// succeeded, in the protocol's order; it ends in `LedgerBuilder` exactly
/// when a call failed, and no call is made after that.
///
/// `reports` holds how the calls went, the earliest first. The run ends well
/// exactly where as many reports of success as the protocol has calls come
/// before any failure. It ends in failure exactly where a failure was
/// reported before that. While it has not ended, the call that is due is the
/// one that the protocol has at the place that follows the successes.
pub proof fn assembly_is_all_or_nothing<K>(draft: DraftView<K>, reports: Seq<bool>)
    ensures
        ({
            let end = AssemblyView::start(draft).run(reports);
            let calls = protocol(draft);
            let successes = leading_successes(reports);
            &&& calls.len() == draft.inputs.len() + draft.outputs.len() + 6
            &&& end.verdict() == Some(Ok::<(), TransferError>(())) <==> successes >= calls.len()
            &&& end.verdict() == Some(Err::<(), TransferError>(TransferError::LedgerBuilder))
                <==> successes < calls.len() && successes < reports.len()
            &&& end.verdict() is None ==> end.pending() == Some(calls[successes as int])
            &&& end.pending() is None <==> end.verdict() is Some
        }),
{
    lemma_run_progress(AssemblyView::start(draft), reports);
}

/// The protocol adds every input, then every output, then closes: the call
/// at each place is the one for the input or the output of that place, in
/// the order of the draft.
pub proof fn protocol_follows_the_draft<K>(draft: DraftView<K>)
    ensures
        ({
            let calls = protocol(draft);
            let inputs = draft.inputs.len() as int;
            let outputs = draft.outputs.len() as int;
            &&& calls.len() == inputs + outputs + 6
            &&& forall|i: int|
                0 <= i < inputs ==> #[trigger] calls[i] == CallView::<K>::AddInput(draft.inputs[i])
            &&& forall|i: int|
                0 <= i < outputs ==> #[trigger] calls[inputs + i] == CallView::AddOutput(
                    draft.outputs[i],
                )
            &&& calls.subrange(inputs + outputs, inputs + outputs + 6) == closing_calls::<K>()
        }),
{
    let calls = protocol(draft);
    let inputs = draft.inputs.len() as int;
    let outputs = draft.outputs.len() as int;
    assert(calls.subrange(inputs + outputs, inputs + outputs + 6) =~= closing_calls::<K>());
}

} // verus!
