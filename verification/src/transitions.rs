//! The lifecycle state machine, as pure functions on the store's model.
//!
//! Per logical key a slot is either absent or active.  Create moves a key
//! from absent to active, UpdateDescription and ToggleCompleted are
//! field-scoped self-loops, and Delete moves the key back to absent while
//! handing the slot's deposit back to the owner.  Each executable operation
//! of [`crate::RecordStore`] promises to agree exactly with one of these
//! functions, so every property proved here holds of the running code.

use vstd::prelude::*;

use crate::errors::TodoError;
use crate::record::TodoView;
use crate::record::description_fits;

verus! {

/// One occupied slot in the mathematical model: the record's value plus the
/// refundable deposit bound to the slot, returned in full on deletion.
pub struct Slot {
    pub record: TodoView,
    pub deposit: u64,
}

/// The mathematical value of a refund: who receives it and how much.
pub struct RefundView {
    pub to: Seq<u8>,
    pub amount: u64,
}

/// Create: reject an oversized description, then an occupied key; otherwise
/// allocate the slot with all five fields written and `completed` false.
pub open spec fn spec_create(
    m: Map<(Seq<u8>, u64), Slot>,
    owner: Seq<u8>,
    task_id: u64,
    description: Seq<char>,
    due_date: i64,
    deposit: u64,
) -> (Map<(Seq<u8>, u64), Slot>, Result<(), TodoError>) {
    if !description_fits(description) {
        (m, Err(TodoError::DescriptionTooLong))
    } else if m.contains_key((owner, task_id)) {
        (m, Err(TodoError::AddressAlreadyInUse))
    } else {
        (
            m.insert(
                (owner, task_id),
                Slot {
                    record: TodoView { task_id, description, completed: false, due_date, owner },
                    deposit,
                },
            ),
            Ok(()),
        )
    }
}

/// UpdateDescription: the key must be occupied and the caller must be the
/// owner; an oversized replacement is rejected; on success only the
/// description changes.
pub open spec fn spec_update_description(
    m: Map<(Seq<u8>, u64), Slot>,
    owner: Seq<u8>,
    task_id: u64,
    caller: Seq<u8>,
    description: Seq<char>,
) -> (Map<(Seq<u8>, u64), Slot>, Result<(), TodoError>) {
    let k = (owner, task_id);
    if !m.contains_key(k) {
        (m, Err(TodoError::RecordNotFound))
    } else if caller != m[k].record.owner {
        (m, Err(TodoError::Unauthorized))
    } else if !description_fits(description) {
        (m, Err(TodoError::DescriptionTooLong))
    } else {
        (
            m.insert(
                k,
                Slot {
                    record: TodoView {
                        task_id: m[k].record.task_id,
                        description,
                        completed: m[k].record.completed,
                        due_date: m[k].record.due_date,
                        owner: m[k].record.owner,
                    },
                    deposit: m[k].deposit,
                },
            ),
            Ok(()),
        )
    }
}

/// ToggleCompleted: the key must be occupied and the caller must be the
/// owner; on success `completed` becomes its negation and nothing else moves.
pub open spec fn spec_toggle_completed(
    m: Map<(Seq<u8>, u64), Slot>,
    owner: Seq<u8>,
    task_id: u64,
    caller: Seq<u8>,
) -> (Map<(Seq<u8>, u64), Slot>, Result<(), TodoError>) {
    let k = (owner, task_id);
    if !m.contains_key(k) {
        (m, Err(TodoError::RecordNotFound))
    } else if caller != m[k].record.owner {
        (m, Err(TodoError::Unauthorized))
    } else {
        (
            m.insert(
                k,
                Slot {
                    record: TodoView {
                        task_id: m[k].record.task_id,
                        description: m[k].record.description,
                        completed: !m[k].record.completed,
                        due_date: m[k].record.due_date,
                        owner: m[k].record.owner,
                    },
                    deposit: m[k].deposit,
                },
            ),
            Ok(()),
        )
    }
}

/// Delete: the key must be occupied and the caller must be the owner; on
/// success the slot is released in full and its deposit goes back to the
/// owner, so the key may later be created afresh.
pub open spec fn spec_delete(
    m: Map<(Seq<u8>, u64), Slot>,
    owner: Seq<u8>,
    task_id: u64,
    caller: Seq<u8>,
) -> (Map<(Seq<u8>, u64), Slot>, Result<RefundView, TodoError>) {
    let k = (owner, task_id);
    if !m.contains_key(k) {
        (m, Err(TodoError::RecordNotFound))
    } else if caller != m[k].record.owner {
        (m, Err(TodoError::Unauthorized))
    } else {
        (m.remove(k), Ok(RefundView { to: m[k].record.owner, amount: m[k].deposit }))
    }
}

} // verus!
