//! Validation of user-defined workflows before they are saved or run.

use vstd::prelude::*;
use crate::protocol::{views_of, WorkflowAction, WorkflowActionView, WorkflowDefinition, WorkflowView};
use crate::text::{decimal, decimal_string, is_blank, is_blank_str};

verus! {

/// The most actions a workflow may hold.
pub const MAX_WORKFLOW_ACTIONS: usize = 64;

/// Why a workflow was refused.
#[derive(Debug, PartialEq, Eq, Structural, Clone, Copy)]
pub enum WorkflowValidationError {
    EmptyId,
    EmptyName,
    NoActions,
    TooManyActions,
    EmptyActionValue { index: usize },
    NonFiniteParameter { index: usize },
}

/// Whether the IEEE-754 double with these bits is finite (neither infinite
/// nor NaN): its exponent field is not all ones.
pub open spec fn finite_bits(bits: u64) -> bool {
    (bits >> 52u64) & 0x7ffu64 != 0x7ffu64
}

/// What is wrong with one action, checked in this order: a
/// parameter value must be finite before its names are looked at.
pub open spec fn action_error(action: WorkflowActionView, index: usize) -> Option<WorkflowValidationError> {
    match action {
        WorkflowActionView::LoadItem { item_id, .. } =>
            if is_blank(item_id) { Some(WorkflowValidationError::EmptyActionValue { index }) } else { None },
        WorkflowActionView::InsertNative { name, .. } =>
            if is_blank(name) { Some(WorkflowValidationError::EmptyActionValue { index }) } else { None },
        WorkflowActionView::RenameTrack { name } =>
            if is_blank(name) { Some(WorkflowValidationError::EmptyActionValue { index }) } else { None },
        WorkflowActionView::SetParameter { device_name, parameter_name, value_bits } =>
            if !finite_bits(value_bits) {
                Some(WorkflowValidationError::NonFiniteParameter { index })
            } else if is_blank(device_name) || is_blank(parameter_name) {
                Some(WorkflowValidationError::EmptyActionValue { index })
            } else {
                None
            },
        _ => None,
    }
}

/// The error of the first faulty action at or after `from`, if any.
pub open spec fn first_action_error(actions: Seq<WorkflowActionView>, from: int) -> Option<WorkflowValidationError>
    decreases actions.len() - from,
{
    if from < 0 || from >= actions.len() {
        None
    } else {
        match action_error(actions[from], from as usize) {
            Some(e) => Some(e),
            None => first_action_error(actions, from + 1),
        }
    }
}

/// The outcome of validating a workflow: blank id, blank name, no actions,
/// too many actions, then the first faulty action, in that order.
pub open spec fn workflow_validation(w: WorkflowView) -> Result<(), WorkflowValidationError> {
    if is_blank(w.id) {
        Err(WorkflowValidationError::EmptyId)
    } else if is_blank(w.name) {
        Err(WorkflowValidationError::EmptyName)
    } else if w.actions.len() == 0 {
        Err(WorkflowValidationError::NoActions)
    } else if w.actions.len() > MAX_WORKFLOW_ACTIONS {
        Err(WorkflowValidationError::TooManyActions)
    } else {
        match first_action_error(w.actions, 0) {
            Some(e) => Err(e),
            None => Ok(()),
        }
    }
}

/// Whether the float with these bits is finite.
pub fn is_finite_bits(bits: u64) -> (finite: bool)
    ensures
        finite == finite_bits(bits),
{
    (bits >> 52u64) & 0x7ffu64 != 0x7ffu64
}

fn check_action(action: &WorkflowAction, index: usize) -> (error: Option<WorkflowValidationError>)
    ensures
        error == action_error(action@, index),
{
    match action {
        WorkflowAction::LoadItem { item_id, .. } => {
            if is_blank_str(item_id.as_str()) {
                Some(WorkflowValidationError::EmptyActionValue { index })
            } else {
                None
            }
        },
        WorkflowAction::InsertNative { name, .. } | WorkflowAction::RenameTrack { name } => {
            if is_blank_str(name.as_str()) {
                Some(WorkflowValidationError::EmptyActionValue { index })
            } else {
                None
            }
        },
        WorkflowAction::SetParameter { device_name, parameter_name, value_bits } => {
            if !is_finite_bits(*value_bits) {
                Some(WorkflowValidationError::NonFiniteParameter { index })
            } else if is_blank_str(device_name.as_str()) || is_blank_str(parameter_name.as_str()) {
                Some(WorkflowValidationError::EmptyActionValue { index })
            } else {
                None
            }
        },
        _ => None,
    }
}

/// Checks a workflow before it is saved or run.
pub fn validate_workflow(workflow: &WorkflowDefinition) -> (checked: Result<(), WorkflowValidationError>)
    ensures
        checked == workflow_validation(workflow@),
{
    if is_blank_str(workflow.id.as_str()) {
        return Err(WorkflowValidationError::EmptyId);
    }
    if is_blank_str(workflow.name.as_str()) {
        return Err(WorkflowValidationError::EmptyName);
    }
    if workflow.actions.len() == 0 {
        return Err(WorkflowValidationError::NoActions);
    }
    if workflow.actions.len() > MAX_WORKFLOW_ACTIONS {
        return Err(WorkflowValidationError::TooManyActions);
    }
    let ghost actions = workflow@.actions;
    let mut index: usize = 0;
    while index < workflow.actions.len()
        invariant
            index <= workflow.actions@.len(),
            actions == views_of(workflow.actions@),
            !is_blank(workflow@.id),
            !is_blank(workflow@.name),
            0 < workflow.actions@.len() <= MAX_WORKFLOW_ACTIONS,
            first_action_error(actions, 0) == first_action_error(actions, index as int),
        decreases workflow.actions@.len() - index,
    {
        let found = check_action(&workflow.actions[index], index);
        proof {
            assert(actions.len() == workflow.actions@.len());
            assert(actions[index as int] == workflow.actions@[index as int]@);
        }
        if found.is_some() {
            proof {
                assert(first_action_error(actions, index as int) == found);
                assert(workflow@.actions == actions);
            }
            return Err(found.unwrap());
        }
        index += 1;
    }
    Ok(())
}

} // verus!

verus! {

/// The text that describes a validation error.
pub open spec fn workflow_error_message(e: WorkflowValidationError) -> Seq<char> {
    match e {
        WorkflowValidationError::EmptyId => "workflow id cannot be empty"@,
        WorkflowValidationError::EmptyName => "workflow name cannot be empty"@,
        WorkflowValidationError::NoActions => "workflow must contain at least one action"@,
        WorkflowValidationError::TooManyActions => "workflow exceeds the maximum of 64 actions"@,
        WorkflowValidationError::EmptyActionValue { index } => "action "@ + decimal(index as nat)
            + " has an empty required value"@,
        WorkflowValidationError::NonFiniteParameter { index } => "action "@ + decimal(index as nat)
            + " has a non-finite parameter value"@,
    }
}

impl WorkflowValidationError {
    /// The text that describes the error.
    pub fn message(&self) -> (text: String)
        ensures
            text@ == workflow_error_message(*self),
    {
        match self {
            WorkflowValidationError::EmptyId => String::from_str("workflow id cannot be empty"),
            WorkflowValidationError::EmptyName => String::from_str("workflow name cannot be empty"),
            WorkflowValidationError::NoActions => String::from_str(
                "workflow must contain at least one action",
            ),
            WorkflowValidationError::TooManyActions => String::from_str(
                "workflow exceeds the maximum of 64 actions",
            ),
            WorkflowValidationError::EmptyActionValue { index } => {
                let mut text = String::from_str("action ");
                let number = decimal_string(*index as u64);
                text.append(number.as_str());
                text.append(" has an empty required value");
                text
            },
            WorkflowValidationError::NonFiniteParameter { index } => {
                let mut text = String::from_str("action ");
                let number = decimal_string(*index as u64);
                text.append(number.as_str());
                text.append(" has a non-finite parameter value");
                text
            },
        }
    }
}

/// No faulty action at or after `from` exactly when each of those actions
/// passes its check.
proof fn lemma_no_action_error(actions: Seq<WorkflowActionView>, from: int)
    requires
        0 <= from,
        actions.len() <= usize::MAX,
    ensures
        first_action_error(actions, from) is None <==> forall|i: int|
            from <= i < actions.len() ==> action_error(#[trigger] actions[i], i as usize) is None,
    decreases actions.len() - from,
{
    if from < actions.len() {
        lemma_no_action_error(actions, from + 1);
    }
}

/// A workflow is valid exactly when its id and name are not blank, it has
/// from 1 to 64 actions, and every action's required texts are not blank:
/// the item id of a load, the device name of a native insertion, the new
/// track name, the device and parameter names of a parameter change, whose
/// value must also be finite.
pub proof fn lemma_valid_workflows(w: WorkflowView)
    requires
        w.actions.len() <= usize::MAX,
    ensures
        workflow_validation(w) is Ok <==> {
            &&& !is_blank(w.id)
            &&& !is_blank(w.name)
            &&& 1 <= w.actions.len() <= 64
            &&& forall|i: int|
                0 <= i < w.actions.len() ==> match #[trigger] w.actions[i] {
                    WorkflowActionView::LoadItem { item_id, .. } => !is_blank(item_id),
                    WorkflowActionView::InsertNative { name, .. } => !is_blank(name),
                    WorkflowActionView::RenameTrack { name } => !is_blank(name),
                    WorkflowActionView::SetParameter { device_name, parameter_name, value_bits } => !is_blank(
                        device_name,
                    ) && !is_blank(parameter_name) && finite_bits(value_bits),
                    _ => true,
                }
        },
{
    lemma_no_action_error(w.actions, 0);
    assert forall|i: int| 0 <= i < w.actions.len() implies (action_error(#[trigger] w.actions[i], i as usize) is None
        <==> match w.actions[i] {
        WorkflowActionView::LoadItem { item_id, .. } => !is_blank(item_id),
        WorkflowActionView::InsertNative { name, .. } => !is_blank(name),
        WorkflowActionView::RenameTrack { name } => !is_blank(name),
        WorkflowActionView::SetParameter { device_name, parameter_name, value_bits } => !is_blank(device_name)
            && !is_blank(parameter_name) && finite_bits(value_bits),
        _ => true,
    }) by {}
}

} // verus!
