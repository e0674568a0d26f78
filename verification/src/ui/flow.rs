//! The course of a destructive operation (low-level format, quick format,
//! secure erase) as a state machine: detect devices, select one, check the
//! prerequisites, choose the passes (secure erase), confirm, perform. The
//! caller performs each action and reports what came of it.

use vstd::prelude::*;

verus! {

/// The destructive operations of the menu.
#[derive(Debug, Clone, Copy, PartialEq, Eq, Structural)]
pub enum DestructiveOperation {
    LowLevelFormat,
    QuickFormat,
    SecureErase,
}

/// Where a destructive operation stands.
#[derive(Debug, Clone, Copy, PartialEq, Eq, Structural)]
pub enum FlowStage {
    /// The devices are being detected.
    Detecting,
    /// The user is selecting a device.
    Selecting,
    /// The prerequisites (privileges, mounts) are being checked.
    CheckingPrerequisites,
    /// The user is choosing the number of passes.
    ChoosingPasses,
    /// The user is answering the confirmations.
    Confirming,
    /// The operation is running.
    Performing,
    /// Nothing more happens.
    Finished,
}

/// What the caller reports.
#[derive(Debug, Clone, Copy, PartialEq, Eq, Structural)]
pub enum FlowEvent {
    /// This many devices were detected.
    DevicesDetected(usize),
    /// A device was selected.
    DeviceSelected,
    /// The prerequisites were met (or not).
    PrerequisitesChecked(bool),
    /// The number of passes was chosen.
    PassesChosen,
    /// The confirmations were all given (or not).
    ConfirmationAnswered(bool),
    /// The operation ran to its end.
    OperationCompleted,
}

/// What the caller does next.
#[derive(Debug, Clone, Copy, PartialEq, Eq, Structural)]
pub enum FlowAction {
    /// Say that no device was found; stop.
    ReportNoDevices,
    /// List the devices and let the user select one.
    SelectDevice,
    /// Check the prerequisites on the selected device.
    CheckPrerequisites,
    /// Show why the prerequisites are not met; stop.
    ReportPrerequisiteError,
    /// Ask for the number of passes.
    ChoosePasses,
    /// Ask the confirmations.
    Confirm,
    /// Say that the operation was cancelled; stop.
    ReportCancelled,
    /// Run the operation.
    Perform,
    /// Stop.
    Finish,
}

/// The next stage and action after `event` in `stage`. An event that does
/// not belong to the stage ends the operation.
pub open spec fn flow_transition(op: DestructiveOperation, stage: FlowStage, event: FlowEvent) -> (FlowStage, FlowAction) {
    match (stage, event) {
        (FlowStage::Detecting, FlowEvent::DevicesDetected(n)) => if n == 0 {
            (FlowStage::Finished, FlowAction::ReportNoDevices)
        } else {
            (FlowStage::Selecting, FlowAction::SelectDevice)
        },
        (FlowStage::Selecting, FlowEvent::DeviceSelected) => (
            FlowStage::CheckingPrerequisites,
            FlowAction::CheckPrerequisites,
        ),
        (FlowStage::CheckingPrerequisites, FlowEvent::PrerequisitesChecked(ok)) => if !ok {
            (FlowStage::Finished, FlowAction::ReportPrerequisiteError)
        } else if op == DestructiveOperation::SecureErase {
            (FlowStage::ChoosingPasses, FlowAction::ChoosePasses)
        } else {
            (FlowStage::Confirming, FlowAction::Confirm)
        },
        (FlowStage::ChoosingPasses, FlowEvent::PassesChosen) => (FlowStage::Confirming, FlowAction::Confirm),
        (FlowStage::Confirming, FlowEvent::ConfirmationAnswered(yes)) => if yes {
            (FlowStage::Performing, FlowAction::Perform)
        } else {
            (FlowStage::Finished, FlowAction::ReportCancelled)
        },
        (FlowStage::Performing, FlowEvent::OperationCompleted) => (FlowStage::Finished, FlowAction::Finish),
        _ => (FlowStage::Finished, FlowAction::Finish),
    }
}

/// The next stage and action after `event` in `stage`.
pub fn flow_step(op: DestructiveOperation, stage: FlowStage, event: FlowEvent) -> (r: (FlowStage, FlowAction))
    ensures
        r == flow_transition(op, stage, event),
{
    match (stage, event) {
        (FlowStage::Detecting, FlowEvent::DevicesDetected(n)) => if n == 0 {
            (FlowStage::Finished, FlowAction::ReportNoDevices)
        } else {
            (FlowStage::Selecting, FlowAction::SelectDevice)
        },
        (FlowStage::Selecting, FlowEvent::DeviceSelected) => (
            FlowStage::CheckingPrerequisites,
            FlowAction::CheckPrerequisites,
        ),
        (FlowStage::CheckingPrerequisites, FlowEvent::PrerequisitesChecked(ok)) => if !ok {
            (FlowStage::Finished, FlowAction::ReportPrerequisiteError)
        } else if op == DestructiveOperation::SecureErase {
            (FlowStage::ChoosingPasses, FlowAction::ChoosePasses)
        } else {
            (FlowStage::Confirming, FlowAction::Confirm)
        },
        (FlowStage::ChoosingPasses, FlowEvent::PassesChosen) => (FlowStage::Confirming, FlowAction::Confirm),
        (FlowStage::Confirming, FlowEvent::ConfirmationAnswered(yes)) => if yes {
            (FlowStage::Performing, FlowAction::Perform)
        } else {
            (FlowStage::Finished, FlowAction::ReportCancelled)
        },
        (FlowStage::Performing, FlowEvent::OperationCompleted) => (FlowStage::Finished, FlowAction::Finish),
        _ => (FlowStage::Finished, FlowAction::Finish),
    }
}

/// The stage reached from `Detecting` after a sequence of events.
pub open spec fn stage_after(op: DestructiveOperation, events: Seq<FlowEvent>) -> FlowStage
    decreases events.len(),
{
    if events.len() == 0 {
        FlowStage::Detecting
    } else {
        flow_transition(op, stage_after(op, events.drop_last()), events.last()).0
    }
}

/// The action asked for by the last of a sequence of events.
pub open spec fn last_action(op: DestructiveOperation, events: Seq<FlowEvent>) -> FlowAction {
    if events.len() == 0 {
        FlowAction::Finish
    } else {
        flow_transition(op, stage_after(op, events.drop_last()), events.last()).1
    }
}

/// An operation is only ever performed on a device that was selected, after
/// its prerequisites were met, after the passes were chosen (secure erase),
/// and right after the confirmations were all given.
pub proof fn lemma_perform_only_after_checks(op: DestructiveOperation, events: Seq<FlowEvent>)
    ensures
        last_action(op, events) == FlowAction::Perform ==> {
            &&& events.contains(FlowEvent::DeviceSelected)
            &&& events.contains(FlowEvent::PrerequisitesChecked(true))
            &&& events.last() == FlowEvent::ConfirmationAnswered(true)
            &&& op == DestructiveOperation::SecureErase ==> events.contains(FlowEvent::PassesChosen)
        },
{
    if events.len() > 0 {
        lemma_stage_history(op, events.drop_last());
        let prev = events.drop_last();
        if last_action(op, events) == FlowAction::Perform {
            assert(stage_after(op, prev) == FlowStage::Confirming);
            lemma_contains_prefix(prev, events);
        }
    }
}

/// What each stage implies about the events so far.
pub proof fn lemma_stage_history(op: DestructiveOperation, events: Seq<FlowEvent>)
    ensures
        ({
            let s = stage_after(op, events);
            &&& (s == FlowStage::CheckingPrerequisites || s == FlowStage::ChoosingPasses || s
                == FlowStage::Confirming || s == FlowStage::Performing) ==> events.contains(
                FlowEvent::DeviceSelected,
            )
            &&& (s == FlowStage::ChoosingPasses || s == FlowStage::Confirming || s
                == FlowStage::Performing) ==> events.contains(FlowEvent::PrerequisitesChecked(true))
            &&& (op == DestructiveOperation::SecureErase && (s == FlowStage::Confirming || s
                == FlowStage::Performing)) ==> events.contains(FlowEvent::PassesChosen)
        }),
    decreases events.len(),
{
    if events.len() > 0 {
        let prev = events.drop_last();
        lemma_stage_history(op, prev);
        lemma_contains_prefix(prev, events);
        let e = events.last();
        assert(events[events.len() - 1] == e);
    }
}

/// Whatever a prefix contains, the whole sequence contains.
proof fn lemma_contains_prefix(prev: Seq<FlowEvent>, events: Seq<FlowEvent>)
    requires
        events.len() > 0,
        prev == events.drop_last(),
    ensures
        forall|x: FlowEvent| prev.contains(x) ==> events.contains(x),
        events.contains(events.last()),
{
    assert forall|x: FlowEvent| prev.contains(x) implies events.contains(x) by {
        let i = choose|i: int| 0 <= i < prev.len() && prev[i] == x;
        assert(events[i] == x);
    }
    assert(events[events.len() - 1] == events.last());
}

} // verus!
