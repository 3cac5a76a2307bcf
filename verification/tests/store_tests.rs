use todo_records::CreateTodo;
use todo_records::DeleteTodo;
use todo_records::LogicalKey;
use todo_records::RecordStore;
use todo_records::TodoAccount;
use todo_records::TodoError;
use todo_records::UpdateTodo;
use todo_records::create_todo;
use todo_records::delete_todo;
use todo_records::toggle_completed;
use todo_records::update_description;

fn owner_a() -> [u8; 32] {
    [1u8; 32]
}

fn owner_b() -> [u8; 32] {
    [2u8; 32]
}

fn create_ctx(owner: [u8; 32], deposit: u64) -> CreateTodo {
    CreateTodo { owner, deposit }
}

fn update_ctx(key_owner: [u8; 32], task_id: u64, caller: [u8; 32]) -> UpdateTodo {
    UpdateTodo { todo: LogicalKey { owner: key_owner, task_id }, owner: caller }
}

fn delete_ctx(key_owner: [u8; 32], task_id: u64, caller: [u8; 32]) -> DeleteTodo {
    DeleteTodo { todo: LogicalKey { owner: key_owner, task_id }, owner: caller }
}

#[test]
fn create_then_read_returns_exact_fields() {
    let mut store = RecordStore::new();
    let a = owner_a();
    let r = create_todo(
        &mut store,
        create_ctx(a, 100),
        7,
        String::from("water the plants"),
        1_650_000_000,
    );
    assert_eq!(r, Ok(()));
    let rec = store.get(&a, 7).expect("record must exist after create");
    assert_eq!(rec.task_id, 7);
    assert_eq!(rec.description, "water the plants");
    assert!(!rec.completed);
    assert_eq!(rec.due_date, 1_650_000_000);
    assert_eq!(rec.owner, a);
    assert_eq!(store.deposit_of(&a, 7), Some(100));
}

#[test]
fn create_rejects_description_over_280_bytes() {
    let mut store = RecordStore::new();
    let a = owner_a();
    let long = "x".repeat(281);
    let r = create_todo(&mut store, create_ctx(a, 1), 1, long, 0);
    assert_eq!(r, Err(TodoError::DescriptionTooLong));
    assert!(store.get(&a, 1).is_none());
}

#[test]
fn create_accepts_description_of_exactly_280_bytes() {
    let mut store = RecordStore::new();
    let a = owner_a();
    let exact = "y".repeat(280);
    let r = create_todo(&mut store, create_ctx(a, 1), 1, exact.clone(), 0);
    assert_eq!(r, Ok(()));
    assert_eq!(store.get(&a, 1).unwrap().description, exact);
}

#[test]
fn description_cap_counts_bytes_not_characters() {
    let mut store = RecordStore::new();
    let a = owner_a();
    // 141 two-byte characters: 141 chars but 282 bytes of UTF-8.
    let multibyte = "é".repeat(141);
    assert_eq!(multibyte.chars().count(), 141);
    assert_eq!(multibyte.len(), 282);
    let r = create_todo(&mut store, create_ctx(a, 1), 1, multibyte, 0);
    assert_eq!(r, Err(TodoError::DescriptionTooLong));
    assert!(store.get(&a, 1).is_none());
}

#[test]
fn create_twice_fails_and_keeps_first_record() {
    let mut store = RecordStore::new();
    let a = owner_a();
    assert_eq!(
        create_todo(&mut store, create_ctx(a, 10), 3, String::from("first"), 111),
        Ok(())
    );
    let r = create_todo(&mut store, create_ctx(a, 20), 3, String::from("second"), 222);
    assert_eq!(r, Err(TodoError::AddressAlreadyInUse));
    let rec = store.get(&a, 3).unwrap();
    assert_eq!(rec.description, "first");
    assert_eq!(rec.due_date, 111);
    assert!(!rec.completed);
    assert_eq!(store.deposit_of(&a, 3), Some(10));
}

#[test]
fn same_task_id_under_different_owners_is_independent() {
    let mut store = RecordStore::new();
    let a = owner_a();
    let b = owner_b();
    assert_eq!(
        create_todo(&mut store, create_ctx(a, 1), 5, String::from("a's task"), 1),
        Ok(())
    );
    assert_eq!(
        create_todo(&mut store, create_ctx(b, 1), 5, String::from("b's task"), 2),
        Ok(())
    );
    assert_eq!(store.get(&a, 5).unwrap().description, "a's task");
    assert_eq!(store.get(&b, 5).unwrap().description, "b's task");
}

#[test]
fn update_description_replaces_only_the_description() {
    let mut store = RecordStore::new();
    let a = owner_a();
    create_todo(&mut store, create_ctx(a, 9), 4, String::from("before"), 42).unwrap();
    let r = update_description(&mut store, update_ctx(a, 4, a), String::from("after"));
    assert_eq!(r, Ok(()));
    let rec = store.get(&a, 4).unwrap();
    assert_eq!(rec.description, "after");
    assert_eq!(rec.task_id, 4);
    assert_eq!(rec.due_date, 42);
    assert!(!rec.completed);
    assert_eq!(rec.owner, a);
    assert_eq!(store.deposit_of(&a, 4), Some(9));
}

#[test]
fn update_description_rejects_oversized_text() {
    let mut store = RecordStore::new();
    let a = owner_a();
    create_todo(&mut store, create_ctx(a, 0), 4, String::from("short"), 0).unwrap();
    let r = update_description(&mut store, update_ctx(a, 4, a), "z".repeat(281));
    assert_eq!(r, Err(TodoError::DescriptionTooLong));
    assert_eq!(store.get(&a, 4).unwrap().description, "short");
}

#[test]
fn non_owner_mutations_fail_unauthorized_and_change_nothing() {
    let mut store = RecordStore::new();
    let a = owner_a();
    let b = owner_b();
    create_todo(&mut store, create_ctx(a, 50), 2, String::from("mine"), 9).unwrap();

    let r = update_description(&mut store, update_ctx(a, 2, b), String::from("stolen"));
    assert_eq!(r, Err(TodoError::Unauthorized));

    let r = toggle_completed(&mut store, update_ctx(a, 2, b));
    assert_eq!(r, Err(TodoError::Unauthorized));

    let r = delete_todo(&mut store, delete_ctx(a, 2, b));
    assert_eq!(r.unwrap_err(), TodoError::Unauthorized);

    let rec = store.get(&a, 2).unwrap();
    assert_eq!(rec.description, "mine");
    assert!(!rec.completed);
    assert_eq!(rec.due_date, 9);
    assert_eq!(store.deposit_of(&a, 2), Some(50));
}

#[test]
fn toggle_twice_round_trips_completed() {
    let mut store = RecordStore::new();
    let a = owner_a();
    create_todo(&mut store, create_ctx(a, 0), 8, String::from("t"), 0).unwrap();
    assert!(!store.get(&a, 8).unwrap().completed);
    assert_eq!(toggle_completed(&mut store, update_ctx(a, 8, a)), Ok(()));
    assert!(store.get(&a, 8).unwrap().completed);
    assert_eq!(toggle_completed(&mut store, update_ctx(a, 8, a)), Ok(()));
    assert!(!store.get(&a, 8).unwrap().completed);
}

#[test]
fn delete_returns_deposit_to_owner_and_frees_the_key() {
    let mut store = RecordStore::new();
    let a = owner_a();
    create_todo(&mut store, create_ctx(a, 777), 6, String::from("gone soon"), 0).unwrap();
    let refund = delete_todo(&mut store, delete_ctx(a, 6, a)).unwrap();
    assert_eq!(refund.to, a);
    assert_eq!(refund.amount, 777);
    assert!(store.get(&a, 6).is_none());
    assert_eq!(store.deposit_of(&a, 6), None);
}

#[test]
fn delete_then_create_yields_a_fresh_record() {
    let mut store = RecordStore::new();
    let a = owner_a();
    create_todo(&mut store, create_ctx(a, 1), 6, String::from("old text"), 1).unwrap();
    toggle_completed(&mut store, update_ctx(a, 6, a)).unwrap();
    delete_todo(&mut store, delete_ctx(a, 6, a)).unwrap();
    assert_eq!(
        create_todo(&mut store, create_ctx(a, 2), 6, String::from("new text"), 2),
        Ok(())
    );
    let rec = store.get(&a, 6).unwrap();
    assert_eq!(rec.description, "new text");
    assert!(!rec.completed);
    assert_eq!(rec.due_date, 2);
    assert_eq!(store.deposit_of(&a, 6), Some(2));
}

#[test]
fn mutations_on_absent_keys_fail_record_not_found() {
    let mut store = RecordStore::new();
    let a = owner_a();
    assert_eq!(
        update_description(&mut store, update_ctx(a, 1, a), String::from("x")),
        Err(TodoError::RecordNotFound)
    );
    assert_eq!(
        toggle_completed(&mut store, update_ctx(a, 1, a)),
        Err(TodoError::RecordNotFound)
    );
    assert_eq!(
        delete_todo(&mut store, delete_ctx(a, 1, a)).unwrap_err(),
        TodoError::RecordNotFound
    );
}

#[test]
fn record_footprint_is_341_bytes() {
    assert_eq!(TodoAccount::LEN, 341);
    assert_eq!(TodoAccount::LEN, 8 + 8 + 4 + 280 + 1 + 8 + 32);
}

#[test]
fn full_lifecycle_scenario() {
    let mut store = RecordStore::new();
    let a = owner_a();
    let b = owner_b();

    let r = create_todo(
        &mut store,
        create_ctx(a, 0),
        1,
        String::from("Buy milk"),
        1_700_000_000,
    );
    assert_eq!(r, Ok(()));
    let rec = store.get(&a, 1).unwrap();
    assert_eq!(rec.task_id, 1);
    assert_eq!(rec.description, "Buy milk");
    assert!(!rec.completed);
    assert_eq!(rec.due_date, 1_700_000_000);
    assert_eq!(rec.owner, a);

    assert_eq!(toggle_completed(&mut store, update_ctx(a, 1, a)), Ok(()));
    assert!(store.get(&a, 1).unwrap().completed);

    let r = update_description(&mut store, update_ctx(a, 1, b), String::from("Buy milk and eggs"));
    assert_eq!(r, Err(TodoError::Unauthorized));
    assert_eq!(store.get(&a, 1).unwrap().description, "Buy milk");

    assert!(delete_todo(&mut store, delete_ctx(a, 1, a)).is_ok());
    assert!(store.get(&a, 1).is_none());
    assert_eq!(
        toggle_completed(&mut store, update_ctx(a, 1, a)),
        Err(TodoError::RecordNotFound)
    );
}

#[test]
fn each_error_has_its_specific_message() {
    assert_eq!(
        TodoError::DescriptionTooLong.message(),
        "Description must be 280 characters or less"
    );
    assert_eq!(TodoError::Unauthorized.message(), "Only the owner can modify this todo");
    assert_eq!(
        TodoError::AddressAlreadyInUse.message(),
        "A todo already exists at this address"
    );
    assert_eq!(TodoError::RecordNotFound.message(), "No todo exists at this address");
}

#[test]
fn contains_tracks_occupancy() {
    let mut store = RecordStore::new();
    let a = owner_a();
    assert!(!store.contains(&a, 1));
    create_todo(&mut store, create_ctx(a, 0), 1, String::from("x"), 0).unwrap();
    assert!(store.contains(&a, 1));
    delete_todo(&mut store, delete_ctx(a, 1, a)).unwrap();
    assert!(!store.contains(&a, 1));
}
