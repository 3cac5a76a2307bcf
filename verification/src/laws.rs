//! Laws of the lifecycle state machine, proved once over the model.
//!
//! Every executable operation promises to agree exactly with its spec
//! transition, so each law below holds of the running code as well.

use vstd::prelude::*;

use crate::errors::TodoError;
use crate::record::TodoView;
use crate::record::description_fits;
use crate::transitions::RefundView;
use crate::transitions::Slot;
use crate::transitions::spec_create;
use crate::transitions::spec_delete;
use crate::transitions::spec_toggle_completed;
use crate::transitions::spec_update_description;

verus! {

/// Creating a record on a free key with a description within the cap
/// succeeds, and the key then holds exactly the given fields with
/// `completed` false and the given deposit bound to the slot.
pub proof fn law_create_then_read(
    m: Map<(Seq<u8>, u64), Slot>,
    owner: Seq<u8>,
    task_id: u64,
    description: Seq<char>,
    due_date: i64,
    deposit: u64,
)
    requires
        description_fits(description),
        !m.contains_key((owner, task_id)),
    ensures
        spec_create(m, owner, task_id, description, due_date, deposit).1 == Ok::<(), TodoError>(()),
        spec_create(m, owner, task_id, description, due_date, deposit).0.contains_key(
            (owner, task_id),
        ),
        spec_create(m, owner, task_id, description, due_date, deposit).0[(owner, task_id)]
            == (Slot {
            record: TodoView { task_id, description, completed: false, due_date, owner },
            deposit,
        }),
{
}

/// Creating with a description beyond the cap always fails
/// `DescriptionTooLong` and allocates nothing: the store is untouched.
pub proof fn law_create_too_long(
    m: Map<(Seq<u8>, u64), Slot>,
    owner: Seq<u8>,
    task_id: u64,
    description: Seq<char>,
    due_date: i64,
    deposit: u64,
)
    requires
        !description_fits(description),
    ensures
        spec_create(m, owner, task_id, description, due_date, deposit) == (
            m,
            Err::<(), TodoError>(TodoError::DescriptionTooLong),
        ),
{
}

/// Creating the same key twice fails the second request with
/// `AddressAlreadyInUse`, and the record written by the first request is
/// untouched by the failed second one.
pub proof fn law_create_twice(
    m: Map<(Seq<u8>, u64), Slot>,
    owner: Seq<u8>,
    task_id: u64,
    first_description: Seq<char>,
    first_due_date: i64,
    first_deposit: u64,
    second_description: Seq<char>,
    second_due_date: i64,
    second_deposit: u64,
)
    requires
        description_fits(first_description),
        description_fits(second_description),
        !m.contains_key((owner, task_id)),
    ensures
        ({
            let m1 = spec_create(
                m,
                owner,
                task_id,
                first_description,
                first_due_date,
                first_deposit,
            ).0;
            let second = spec_create(
                m1,
                owner,
                task_id,
                second_description,
                second_due_date,
                second_deposit,
            );
            &&& second.1 == Err::<(), TodoError>(TodoError::AddressAlreadyInUse)
            &&& second.0 == m1
            &&& second.0[(owner, task_id)].record == (TodoView {
                task_id,
                description: first_description,
                completed: false,
                due_date: first_due_date,
                owner,
            })
        }),
{
}

/// A mutation or deletion by a non-owner identity always fails
/// `Unauthorized`, and every stored field is left unchanged.
pub proof fn law_non_owner_rejected(
    m: Map<(Seq<u8>, u64), Slot>,
    owner: Seq<u8>,
    task_id: u64,
    caller: Seq<u8>,
    description: Seq<char>,
)
    requires
        m.contains_key((owner, task_id)),
        caller != m[(owner, task_id)].record.owner,
    ensures
        spec_update_description(m, owner, task_id, caller, description) == (
            m,
            Err::<(), TodoError>(TodoError::Unauthorized),
        ),
        spec_toggle_completed(m, owner, task_id, caller) == (
            m,
            Err::<(), TodoError>(TodoError::Unauthorized),
        ),
        spec_delete(m, owner, task_id, caller).0 == m,
        spec_delete(m, owner, task_id, caller).1 == Err::<RefundView, TodoError>(
            TodoError::Unauthorized,
        ),
{
}

/// Toggling a record's completion twice in sequence succeeds both times and
/// returns the whole store — `completed` included — to its original value.
pub proof fn law_toggle_round_trip(
    m: Map<(Seq<u8>, u64), Slot>,
    owner: Seq<u8>,
    task_id: u64,
    caller: Seq<u8>,
)
    requires
        m.contains_key((owner, task_id)),
        caller == m[(owner, task_id)].record.owner,
    ensures
        ({
            let once = spec_toggle_completed(m, owner, task_id, caller);
            let twice = spec_toggle_completed(once.0, owner, task_id, caller);
            &&& once.1 == Ok::<(), TodoError>(())
            &&& twice.1 == Ok::<(), TodoError>(())
            &&& once.0[(owner, task_id)].record.completed == !m[(
                owner,
                task_id,
            )].record.completed
            &&& twice.0 == m
        }),
{
    let k = (owner, task_id);
    let once = spec_toggle_completed(m, owner, task_id, caller);
    let twice = spec_toggle_completed(once.0, owner, task_id, caller);
    assert(twice.0[k] == m[k]);
    assert(twice.0 =~= m);
}

/// Deleting a record and then creating the same key again succeeds, and the
/// new record holds exactly the new request's fields: nothing of the deleted
/// record's description or completion flag survives.
pub proof fn law_delete_then_create(
    m: Map<(Seq<u8>, u64), Slot>,
    owner: Seq<u8>,
    task_id: u64,
    caller: Seq<u8>,
    description: Seq<char>,
    due_date: i64,
    deposit: u64,
)
    requires
        m.contains_key((owner, task_id)),
        caller == m[(owner, task_id)].record.owner,
        description_fits(description),
    ensures
        ({
            let deleted = spec_delete(m, owner, task_id, caller);
            let created = spec_create(deleted.0, owner, task_id, description, due_date, deposit);
            &&& deleted.1 is Ok
            &&& created.1 == Ok::<(), TodoError>(())
            &&& created.0[(owner, task_id)] == (Slot {
                record: TodoView { task_id, description, completed: false, due_date, owner },
                deposit,
            })
        }),
{
}

/// Requests are field-scoped and key-scoped: no transition touches any key
/// other than the one it targets, so requests on distinct keys are
/// independent.
pub proof fn law_frame(
    m: Map<(Seq<u8>, u64), Slot>,
    owner: Seq<u8>,
    task_id: u64,
    caller: Seq<u8>,
    description: Seq<char>,
    due_date: i64,
    deposit: u64,
    other: (Seq<u8>, u64),
)
    requires
        other != (owner, task_id),
    ensures
        ({
            let after = spec_create(m, owner, task_id, description, due_date, deposit).0;
            after.contains_key(other) == m.contains_key(other) && (m.contains_key(other)
                ==> after[other] == m[other])
        }),
        ({
            let after = spec_update_description(m, owner, task_id, caller, description).0;
            after.contains_key(other) == m.contains_key(other) && (m.contains_key(other)
                ==> after[other] == m[other])
        }),
        ({
            let after = spec_toggle_completed(m, owner, task_id, caller).0;
            after.contains_key(other) == m.contains_key(other) && (m.contains_key(other)
                ==> after[other] == m[other])
        }),
        ({
            let after = spec_delete(m, owner, task_id, caller).0;
            after.contains_key(other) == m.contains_key(other) && (m.contains_key(other)
                ==> after[other] == m[other])
        }),
{
}

} // verus!

