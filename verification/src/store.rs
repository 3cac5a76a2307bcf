//! The record store: one slot per occupied `(owner, task_id)` key.
//!
//! The store is modelled as a map from logical keys to slots.  Keying the
//! model by the logical key itself makes the addressing collision-free by
//! construction: two distinct keys never alias a slot.

use vstd::prelude::*;

use crate::errors::TodoError;
use crate::record::MAX_DESCRIPTION_BYTES;
use crate::record::TodoAccount;
use crate::record::description_byte_len;
use crate::record::description_fits;
use crate::transitions::RefundView;
use crate::transitions::Slot;
use crate::transitions::spec_create;
use crate::transitions::spec_delete;
use crate::transitions::spec_toggle_completed;
use crate::transitions::spec_update_description;

verus! {

/// The `(owner, task_id)` pair identifying a record.
#[derive(Clone, Copy)]
pub struct LogicalKey {
    /// 32-byte identity of the record's owner, part of the derivation seeds.
    pub owner: [u8; 32],
    /// Caller-chosen 64-bit id, unique per owner.
    pub task_id: u64,
}

struct StoredRecord {
    account: TodoAccount,
    deposit: u64,
}

spec fn rec_key(r: StoredRecord) -> (Seq<u8>, u64) {
    (r.account.owner@, r.account.task_id)
}

spec fn rec_slot(r: StoredRecord) -> Slot {
    Slot { record: r.account@, deposit: r.deposit }
}

spec fn has_key(s: Seq<StoredRecord>, k: (Seq<u8>, u64)) -> bool {
    exists|i: int| 0 <= i < s.len() && #[trigger] rec_key(s[i]) == k
}

spec fn index_of_key(s: Seq<StoredRecord>, k: (Seq<u8>, u64)) -> int {
    choose|i: int| 0 <= i < s.len() && #[trigger] rec_key(s[i]) == k
}

spec fn contents(s: Seq<StoredRecord>) -> Map<(Seq<u8>, u64), Slot> {
    Map::new(|k: (Seq<u8>, u64)| has_key(s, k), |k: (Seq<u8>, u64)| rec_slot(s[index_of_key(s, k)]))
}

spec fn uniq(s: Seq<StoredRecord>) -> bool {
    forall|i: int, j: int|
        0 <= i < j < s.len() ==> #[trigger] rec_key(s[i]) != #[trigger] rec_key(s[j])
}

/// The engine's persistent state: every live record with its deposit.
pub struct RecordStore {
    records: Vec<StoredRecord>,
}

impl View for RecordStore {
    type V = Map<(Seq<u8>, u64), Slot>;

    closed spec fn view(&self) -> Map<(Seq<u8>, u64), Slot> {
        contents(self.records@)
    }
}

impl RecordStore {
    /// Internal invariant: every stored record respects the description cap,
    /// and no two stored records share a logical key.
    pub closed spec fn wf(&self) -> bool {
        &&& forall|i: int|
            0 <= i < self.records@.len() ==> (#[trigger] self.records@[i]).account.wf()
        &&& uniq(self.records@)
    }
}

proof fn lemma_at(s: Seq<StoredRecord>, i: int)
    requires
        uniq(s),
        0 <= i < s.len(),
    ensures
        contents(s).contains_key(rec_key(s[i])),
        contents(s)[rec_key(s[i])] == rec_slot(s[i]),
{
    let k = rec_key(s[i]);
    assert(has_key(s, k));
    let j = index_of_key(s, k);
    assert(0 <= j < s.len() && rec_key(s[j]) == k);
    if i < j {
        assert(rec_key(s[i]) != rec_key(s[j]));
    } else if j < i {
        assert(rec_key(s[j]) != rec_key(s[i]));
    }
    assert(j == i);
}

proof fn lemma_absent(s: Seq<StoredRecord>, k: (Seq<u8>, u64))
    requires
        forall|i: int| 0 <= i < s.len() ==> #[trigger] rec_key(s[i]) != k,
    ensures
        !contents(s).contains_key(k),
{
    if has_key(s, k) {
        let i = index_of_key(s, k);
        assert(0 <= i < s.len() && rec_key(s[i]) == k);
    }
}

proof fn lemma_push(s: Seq<StoredRecord>, r: StoredRecord)
    requires
        uniq(s),
        forall|i: int| 0 <= i < s.len() ==> #[trigger] rec_key(s[i]) != rec_key(r),
    ensures
        uniq(s.push(r)),
        contents(s.push(r)) == contents(s).insert(rec_key(r), rec_slot(r)),
{
    let t = s.push(r);
    let k0 = rec_key(r);
    let n = s.len() as int;
    assert forall|i: int, j: int| 0 <= i < j < t.len() implies #[trigger] rec_key(t[i])
        != #[trigger] rec_key(t[j]) by {
        if j == n {
            assert(t[j] == r);
            assert(t[i] == s[i]);
        } else {
            assert(t[i] == s[i]);
            assert(t[j] == s[j]);
        }
    }
    let m2 = contents(s).insert(k0, rec_slot(r));
    assert forall|k: (Seq<u8>, u64)| #[trigger] contents(t).contains_key(k) implies m2.contains_key(
        k,
    ) && contents(t)[k] == m2[k] by {
        let j = index_of_key(t, k);
        assert(0 <= j < t.len() && rec_key(t[j]) == k);
        lemma_at(t, j);
        if j == n {
            assert(t[j] == r);
        } else {
            assert(t[j] == s[j]);
            assert(k != k0);
            lemma_at(s, j);
        }
    }
    assert forall|k: (Seq<u8>, u64)| #[trigger] m2.contains_key(k) implies contents(
        t,
    ).contains_key(k) by {
        if k == k0 {
            assert(t[n] == r);
            assert(rec_key(t[n]) == k);
            assert(has_key(t, k));
        } else {
            let i = index_of_key(s, k);
            assert(0 <= i < s.len() && rec_key(s[i]) == k);
            assert(t[i] == s[i]);
            assert(rec_key(t[i]) == k);
            assert(has_key(t, k));
        }
    }
    assert(contents(t) =~= m2);
}

proof fn lemma_swap_remove(s: Seq<StoredRecord>, i: int)
    requires
        uniq(s),
        0 <= i < s.len(),
    ensures
        uniq(s.update(i, s.last()).drop_last()),
        contents(s.update(i, s.last()).drop_last()) == contents(s).remove(rec_key(s[i])),
        forall|j: int|
            0 <= j < s.update(i, s.last()).drop_last().len() ==> (#[trigger] s.update(
                i,
                s.last(),
            ).drop_last()[j] == s[j] || s.update(i, s.last()).drop_last()[j] == s.last()),
{
    let t = s.update(i, s.last()).drop_last();
    let k0 = rec_key(s[i]);
    let n = s.len() as int;
    assert(t.len() == n - 1);
    assert forall|j: int| 0 <= j < n - 1 implies #[trigger] t[j] == (if j == i {
        s[n - 1]
    } else {
        s[j]
    }) by {}
    assert forall|a: int, b: int| 0 <= a < b < t.len() implies #[trigger] rec_key(t[a])
        != #[trigger] rec_key(t[b]) by {
        let a0 = if a == i {
            n - 1
        } else {
            a
        };
        let b0 = if b == i {
            n - 1
        } else {
            b
        };
        assert(t[a] == s[a0]);
        assert(t[b] == s[b0]);
        assert(a0 != b0);
        if a0 < b0 {
            assert(rec_key(s[a0]) != rec_key(s[b0]));
        } else {
            assert(rec_key(s[b0]) != rec_key(s[a0]));
        }
    }
    let m2 = contents(s).remove(k0);
    assert forall|k: (Seq<u8>, u64)| #[trigger] contents(t).contains_key(k) implies m2.contains_key(
        k,
    ) && contents(t)[k] == m2[k] by {
        let j = index_of_key(t, k);
        assert(0 <= j < t.len() && rec_key(t[j]) == k);
        lemma_at(t, j);
        let j0 = if j == i {
            n - 1
        } else {
            j
        };
        assert(t[j] == s[j0]);
        assert(j0 != i);
        if i < j0 {
            assert(rec_key(s[i]) != rec_key(s[j0]));
        } else {
            assert(rec_key(s[j0]) != rec_key(s[i]));
        }
        assert(k != k0);
        lemma_at(s, j0);
    }
    assert forall|k: (Seq<u8>, u64)| #[trigger] m2.contains_key(k) implies contents(
        t,
    ).contains_key(k) by {
        let i0 = index_of_key(s, k);
        assert(0 <= i0 < s.len() && rec_key(s[i0]) == k);
        assert(i0 != i);
        let j = if i0 == n - 1 {
            i
        } else {
            i0
        };
        assert(0 <= j < t.len());
        assert(t[j] == s[i0]);
        assert(rec_key(t[j]) == k);
        assert(has_key(t, k));
    }
    assert(contents(t) =~= m2);
}

fn bytes32_eq(a: &[u8; 32], b: &[u8; 32]) -> (r: bool)
    ensures
        r == (a@ == b@),
{
    let mut i: usize = 0;
    while i < 32
        invariant
            i <= 32,
            forall|j: int| 0 <= j < i ==> a@[j] == b@[j],
        decreases 32 - i,
    {
        if a[i] != b[i] {
            assert(a@[i as int] != b@[i as int]);
            return false;
        }
        i += 1;
    }
    proof {
        assert(a@ =~= b@);
    }
    true
}

impl RecordStore {
    /// An empty store: no key is occupied.
    pub fn new() -> (s: RecordStore)
        ensures
            s.wf(),
            s@ == Map::<(Seq<u8>, u64), Slot>::empty(),
    {
        let s = RecordStore { records: Vec::new() };
        proof {
            assert forall|k: (Seq<u8>, u64)| !(#[trigger] contents(
                s.records@,
            ).contains_key(k)) by {
                lemma_absent(s.records@, k);
            }
            assert(contents(s.records@) =~= Map::<(Seq<u8>, u64), Slot>::empty());
        }
        s
    }

    fn find_index(&self, owner: &[u8; 32], task_id: u64) -> (r: Option<usize>)
        ensures
            match r {
                Some(i) => 0 <= i < self.records@.len() && rec_key(self.records@[i as int]) == (
                    owner@,
                    task_id,
                ),
                None => forall|i: int|
                    0 <= i < self.records@.len() ==> #[trigger] rec_key(self.records@[i]) != (
                        owner@,
                        task_id,
                    ),
            },
    {
        let n = self.records.len();
        let mut i: usize = 0;
        while i < n
            invariant
                n == self.records@.len(),
                i <= n,
                forall|j: int|
                    0 <= j < i ==> #[trigger] rec_key(self.records@[j]) != (owner@, task_id),
            decreases n - i,
        {
            let rec = &self.records[i];
            if rec.account.task_id == task_id && bytes32_eq(&rec.account.owner, owner) {
                return Some(i);
            }
            i += 1;
        }
        None
    }

    /// Read the record at a key, if its slot is occupied.
    pub fn get(&self, owner: &[u8; 32], task_id: u64) -> (r: Option<&TodoAccount>)
        requires
            self.wf(),
        ensures
            match r {
                Some(a) => self@.contains_key((owner@, task_id)) && a@ == self@[(
                    owner@,
                    task_id,
                )].record,
                None => !self@.contains_key((owner@, task_id)),
            },
    {
        match self.find_index(owner, task_id) {
            Some(i) => {
                proof {
                    lemma_at(self.records@, i as int);
                }
                Some(&self.records[i].account)
            },
            None => {
                proof {
                    lemma_absent(self.records@, (owner@, task_id));
                }
                None
            },
        }
    }

    /// True iff the slot at a key is occupied.
    pub fn contains(&self, owner: &[u8; 32], task_id: u64) -> (r: bool)
        requires
            self.wf(),
        ensures
            r == self@.contains_key((owner@, task_id)),
    {
        match self.find_index(owner, task_id) {
            Some(i) => {
                proof {
                    lemma_at(self.records@, i as int);
                }
                true
            },
            None => {
                proof {
                    lemma_absent(self.records@, (owner@, task_id));
                }
                false
            },
        }
    }

    /// In a well-formed store every occupied slot holds a record whose
    /// description respects the 280-byte cap, and whose stored owner and
    /// task id equal the key the slot sits under — the owner field always
    /// matches the identity its address was derived from.
    pub proof fn lemma_slots_well_formed(&self)
        requires
            self.wf(),
        ensures
            forall|k: (Seq<u8>, u64)| #[trigger] self@.contains_key(k) ==> {
                &&& description_fits(self@[k].record.description)
                &&& self@[k].record.owner == k.0
                &&& self@[k].record.task_id == k.1
            },
    {
        assert forall|k: (Seq<u8>, u64)| #[trigger] self@.contains_key(k) implies {
            &&& description_fits(self@[k].record.description)
            &&& self@[k].record.owner == k.0
            &&& self@[k].record.task_id == k.1
        } by {
            let i = index_of_key(self.records@, k);
            assert(0 <= i < self.records@.len() && rec_key(self.records@[i]) == k);
            lemma_at(self.records@, i);
        }
    }

    /// The deposit bound to the slot at a key, if the slot is occupied.
    pub fn deposit_of(&self, owner: &[u8; 32], task_id: u64) -> (r: Option<u64>)
        requires
            self.wf(),
        ensures
            match r {
                Some(d) => self@.contains_key((owner@, task_id)) && d == self@[(
                    owner@,
                    task_id,
                )].deposit,
                None => !self@.contains_key((owner@, task_id)),
            },
    {
        match self.find_index(owner, task_id) {
            Some(i) => {
                proof {
                    lemma_at(self.records@, i as int);
                }
                Some(self.records[i].deposit)
            },
            None => {
                proof {
                    lemma_absent(self.records@, (owner@, task_id));
                }
                None
            },
        }
    }
}

/// The request context for Create: the authenticated signer, who becomes the
/// record's owner, and the deposit the environment charges for the new slot.
#[derive(Clone, Copy)]
pub struct CreateTodo {
    pub owner: [u8; 32],
    pub deposit: u64,
}

/// The request context for UpdateDescription and ToggleCompleted: the key of
/// the targeted record and the authenticated caller.
#[derive(Clone, Copy)]
pub struct UpdateTodo {
    pub todo: LogicalKey,
    pub owner: [u8; 32],
}

/// The request context for Delete: the key of the targeted record and the
/// authenticated caller, who receives the released slot's deposit.
#[derive(Clone, Copy)]
pub struct DeleteTodo {
    pub todo: LogicalKey,
    pub owner: [u8; 32],
}

/// The refund handed back when a slot is released.
#[derive(Clone, Copy, Debug)]
pub struct Refund {
    pub to: [u8; 32],
    pub amount: u64,
}

impl View for Refund {
    type V = RefundView;

    open spec fn view(&self) -> RefundView {
        RefundView { to: self.to@, amount: self.amount }
    }
}

/// The value of a `Result` carrying a refund, field by field.
pub open spec fn refund_result_view(r: Result<Refund, TodoError>) -> Result<
    RefundView,
    TodoError,
> {
    match r {
        Ok(f) => Ok(f@),
        Err(e) => Err(e),
    }
}

/// Create a record owned by the signer.  Agrees exactly with
/// [`spec_create`]: an oversized description or an occupied key fails with
/// its specific error and changes nothing; otherwise the slot at
/// `(ctx.owner, task_id)` is allocated with the given fields, `completed`
/// false, and no other slot is affected.
pub fn create_todo(
    store: &mut RecordStore,
    ctx: CreateTodo,
    task_id: u64,
    description: String,
    due_date: i64,
) -> (r: Result<(), TodoError>)
    requires
        old(store).wf(),
    ensures
        final(store).wf(),
        final(store)@ == spec_create(
            old(store)@,
            ctx.owner@,
            task_id,
            description@,
            due_date,
            ctx.deposit,
        ).0,
        r == spec_create(old(store)@, ctx.owner@, task_id, description@, due_date, ctx.deposit).1,
{
    if description_byte_len(&description) > MAX_DESCRIPTION_BYTES {
        return Err(TodoError::DescriptionTooLong);
    }
    match store.find_index(&ctx.owner, task_id) {
        Some(i) => {
            proof {
                lemma_at(store.records@, i as int);
            }
            Err(TodoError::AddressAlreadyInUse)
        },
        None => {
            proof {
                lemma_absent(store.records@, (ctx.owner@, task_id));
            }
            let account = TodoAccount {
                task_id,
                description,
                completed: false,
                due_date,
                owner: ctx.owner,
            };
            let new_rec = StoredRecord { account, deposit: ctx.deposit };
            proof {
                lemma_push(store.records@, new_rec);
            }
            store.records.push(new_rec);
            Ok(())
        },
    }
}

/// Replace a record's description.  Agrees exactly with
/// [`spec_update_description`]: a missing record, a foreign caller or an
/// oversized description fails with its specific error and changes nothing;
/// otherwise only the description of the targeted record changes.
pub fn update_description(store: &mut RecordStore, ctx: UpdateTodo, description: String) -> (r:
    Result<(), TodoError>)
    requires
        old(store).wf(),
    ensures
        final(store).wf(),
        final(store)@ == spec_update_description(
            old(store)@,
            ctx.todo.owner@,
            ctx.todo.task_id,
            ctx.owner@,
            description@,
        ).0,
        r == spec_update_description(
            old(store)@,
            ctx.todo.owner@,
            ctx.todo.task_id,
            ctx.owner@,
            description@,
        ).1,
{
    let k = ctx.todo;
    match store.find_index(&k.owner, k.task_id) {
        None => {
            proof {
                lemma_absent(store.records@, (k.owner@, k.task_id));
            }
            Err(TodoError::RecordNotFound)
        },
        Some(i) => {
            proof {
                lemma_at(store.records@, i as int);
            }
            if !bytes32_eq(&ctx.owner, &store.records[i].account.owner) {
                return Err(TodoError::Unauthorized);
            }
            if description_byte_len(&description) > MAX_DESCRIPTION_BYTES {
                return Err(TodoError::DescriptionTooLong);
            }
            proof {
                lemma_swap_remove(store.records@, i as int);
            }
            let mut rec = store.records.swap_remove(i);
            rec.account.description = description;
            proof {
                let key = (k.owner@, k.task_id);
                assert forall|j: int|
                    0 <= j < store.records@.len() implies #[trigger] rec_key(store.records@[j])
                    != rec_key(rec) by {
                    if rec_key(store.records@[j]) == key {
                        assert(has_key(store.records@, key));
                    }
                }
                lemma_push(store.records@, rec);
            }
            store.records.push(rec);
            proof {
                let key = (k.owner@, k.task_id);
                let target = spec_update_description(
                    old(store)@,
                    k.owner@,
                    k.task_id,
                    ctx.owner@,
                    description@,
                ).0;
                assert(store@ =~= target);
            }
            Ok(())
        },
    }
}

/// Toggle a record's completion flag.  Agrees exactly with
/// [`spec_toggle_completed`]: a missing record or a foreign caller fails
/// with its specific error and changes nothing; otherwise `completed`
/// becomes its negation and every other field stays.
pub fn toggle_completed(store: &mut RecordStore, ctx: UpdateTodo) -> (r: Result<(), TodoError>)
    requires
        old(store).wf(),
    ensures
        final(store).wf(),
        final(store)@ == spec_toggle_completed(
            old(store)@,
            ctx.todo.owner@,
            ctx.todo.task_id,
            ctx.owner@,
        ).0,
        r == spec_toggle_completed(old(store)@, ctx.todo.owner@, ctx.todo.task_id, ctx.owner@).1,
{
    let k = ctx.todo;
    match store.find_index(&k.owner, k.task_id) {
        None => {
            proof {
                lemma_absent(store.records@, (k.owner@, k.task_id));
            }
            Err(TodoError::RecordNotFound)
        },
        Some(i) => {
            proof {
                lemma_at(store.records@, i as int);
            }
            if !bytes32_eq(&ctx.owner, &store.records[i].account.owner) {
                return Err(TodoError::Unauthorized);
            }
            proof {
                lemma_swap_remove(store.records@, i as int);
            }
            let mut rec = store.records.swap_remove(i);
            rec.account.completed = !rec.account.completed;
            proof {
                let key = (k.owner@, k.task_id);
                assert forall|j: int|
                    0 <= j < store.records@.len() implies #[trigger] rec_key(store.records@[j])
                    != rec_key(rec) by {
                    if rec_key(store.records@[j]) == key {
                        assert(has_key(store.records@, key));
                    }
                }
                lemma_push(store.records@, rec);
            }
            store.records.push(rec);
            proof {
                let key = (k.owner@, k.task_id);
                let target = spec_toggle_completed(
                    old(store)@,
                    k.owner@,
                    k.task_id,
                    ctx.owner@,
                ).0;
                assert(store@ =~= target);
            }
            Ok(())
        },
    }
}

/// Release a record's slot.  Agrees exactly with [`spec_delete`]: a missing
/// record or a foreign caller fails with its specific error and changes
/// nothing; otherwise the key becomes unallocated, free for a fresh Create,
/// and the slot's deposit is returned to the owner.
pub fn delete_todo(store: &mut RecordStore, ctx: DeleteTodo) -> (r: Result<Refund, TodoError>)
    requires
        old(store).wf(),
    ensures
        final(store).wf(),
        final(store)@ == spec_delete(old(store)@, ctx.todo.owner@, ctx.todo.task_id, ctx.owner@).0,
        refund_result_view(r) == spec_delete(
            old(store)@,
            ctx.todo.owner@,
            ctx.todo.task_id,
            ctx.owner@,
        ).1,
{
    let k = ctx.todo;
    match store.find_index(&k.owner, k.task_id) {
        None => {
            proof {
                lemma_absent(store.records@, (k.owner@, k.task_id));
            }
            Err(TodoError::RecordNotFound)
        },
        Some(i) => {
            proof {
                lemma_at(store.records@, i as int);
            }
            if !bytes32_eq(&ctx.owner, &store.records[i].account.owner) {
                return Err(TodoError::Unauthorized);
            }
            proof {
                lemma_swap_remove(store.records@, i as int);
            }
            let rec = store.records.swap_remove(i);
            Ok(Refund { to: rec.account.owner, amount: rec.deposit })
        },
    }
}

} // verus!
