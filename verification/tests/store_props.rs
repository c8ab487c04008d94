use grocery_list::errors::StoreError;
use grocery_list::errors::status_for_error;
use grocery_list::models::GroceryItem;
use grocery_list::models::NewGroceryItem;
use grocery_list::models::stamped_for_update;
use grocery_list::store::ItemStore;

fn new_item(name: &str, position: u32) -> NewGroceryItem {
    NewGroceryItem { name: name.to_string(), checked_off: false, position }
}

fn positions(store: &ItemStore) -> Vec<i32> {
    store.list().iter().map(|g| g.position).collect()
}

#[test]
fn density_after_each_possible_delete() {
    // P-style density check: five creates, then a delete of each item in
    // turn; the surviving positions must be exactly 0..=3.
    for victim in 1..=5 {
        let mut store = ItemStore::new();
        for k in 0..5u32 {
            store.create(new_item("item", k), k as i64).unwrap();
        }
        store.delete_and_reindex(victim).unwrap();
        assert_eq!(positions(&store), vec![0, 1, 2, 3]);
    }
}

#[test]
fn append_at_count_succeeds_beyond_count_rejected() {
    let mut store = ItemStore::new();
    store.create(new_item("a", 0), 1).unwrap();
    store.create(new_item("b", 1), 2).unwrap();

    // position == N appends and yields N
    let c = store.create(new_item("c", 2), 3).unwrap();
    assert_eq!(c.position, 2);

    // position > N is a validation error, and the store is unchanged
    let err = store.create(new_item("d", 4), 4).unwrap_err();
    assert_eq!(err, StoreError::Validation);
    assert_eq!(store.list().len(), 3);
}

#[test]
fn interior_create_shifts_items_up() {
    let mut store = ItemStore::new();
    store.create(new_item("first", 0), 1).unwrap();
    store.create(new_item("second", 1), 2).unwrap();

    let front = store.create(new_item("front", 0), 3).unwrap();
    assert_eq!(front.position, 0);

    let items = store.list();
    assert_eq!(items.len(), 3);
    assert_eq!(items[0].name, "front");
    assert_eq!(items[0].position, 0);
    assert_eq!(items[1].name, "first");
    assert_eq!(items[1].position, 1);
    assert_eq!(items[2].name, "second");
    assert_eq!(items[2].position, 2);
}

#[test]
fn empty_name_rejected() {
    let mut store = ItemStore::new();
    let err = store.create(new_item("", 0), 1).unwrap_err();
    assert_eq!(err, StoreError::Validation);
    assert!(store.list().is_empty());
}

#[test]
fn exhausted_id_space_is_storage_error() {
    let mut store = ItemStore { items: Vec::new(), next_id: i32::MAX };
    let err = store.create(new_item("late", 0), 1).unwrap_err();
    assert_eq!(err, StoreError::Storage);
}

#[test]
fn list_twice_without_writes_is_identical() {
    let mut store = ItemStore::new();
    store.create(new_item("a", 0), 1).unwrap();
    store.create(new_item("b", 1), 2).unwrap();

    let first: Vec<(i32, String, bool, i32)> = store
        .list()
        .iter()
        .map(|g| (g.id, g.name.clone(), g.checked_off, g.position))
        .collect();
    let second: Vec<(i32, String, bool, i32)> = store
        .list()
        .iter()
        .map(|g| (g.id, g.name.clone(), g.checked_off, g.position))
        .collect();
    assert_eq!(first, second);
}

#[test]
fn aborted_delete_leaves_state_unchanged() {
    // The failure point sits between reading the plan and committing it:
    // dropping the plan (a simulated mid-protocol failure) must leave the
    // stored state exactly as it was.
    let mut store = ItemStore::new();
    store.create(new_item("a", 0), 1).unwrap();
    store.create(new_item("b", 1), 2).unwrap();

    let before: Vec<(i32, i32)> = store.list().iter().map(|g| (g.id, g.position)).collect();
    let plan = store.plan_delete(1).unwrap();
    drop(plan);
    let after: Vec<(i32, i32)> = store.list().iter().map(|g| (g.id, g.position)).collect();
    assert_eq!(before, after);

    // and the committed protocol applies the whole effect
    let plan = store.plan_delete(1).unwrap();
    store.commit_delete(plan);
    assert_eq!(positions(&store), vec![0]);
    assert_eq!(store.list()[0].id, 2);
}

#[test]
fn delete_missing_id_is_not_found_and_changes_nothing() {
    let mut store = ItemStore::new();
    store.create(new_item("a", 0), 1).unwrap();
    let err = store.delete_and_reindex(9).unwrap_err();
    assert_eq!(err, StoreError::NotFound);
    assert_eq!(store.list().len(), 1);
    assert_eq!(store.list()[0].id, 1);
}

#[test]
fn replace_overwrites_record_fields() {
    let mut store = ItemStore::new();
    store.create(new_item("mlik", 0), 50).unwrap();

    let payload = GroceryItem {
        id: 1,
        name: "milk".to_string(),
        checked_off: true,
        position: 0,
        checked_off_at: Some(77),
        created_at: 51,
    };
    store.replace(1, payload).unwrap();

    let got = store.get(1).unwrap();
    assert_eq!(got.name, "milk");
    assert!(got.checked_off);
    assert_eq!(got.checked_off_at, Some(77));
    assert_eq!(got.created_at, 51);
    assert_eq!(got.position, 0);
}

#[test]
fn replace_missing_id_is_not_found() {
    let mut store = ItemStore::new();
    let payload = GroceryItem {
        id: 3,
        name: "milk".to_string(),
        checked_off: false,
        position: 0,
        checked_off_at: None,
        created_at: 0,
    };
    let err = store.replace(3, payload).unwrap_err();
    assert_eq!(err, StoreError::NotFound);
}

#[test]
fn replace_rejects_empty_name_and_moved_position() {
    let mut store = ItemStore::new();
    store.create(new_item("a", 0), 1).unwrap();
    store.create(new_item("b", 1), 2).unwrap();

    let unnamed = GroceryItem {
        id: 1,
        name: String::new(),
        checked_off: false,
        position: 0,
        checked_off_at: None,
        created_at: 1,
    };
    assert_eq!(store.replace(1, unnamed).unwrap_err(), StoreError::Validation);

    let moved = GroceryItem {
        id: 1,
        name: "a".to_string(),
        checked_off: false,
        position: 1,
        checked_off_at: None,
        created_at: 1,
    };
    assert_eq!(store.replace(1, moved).unwrap_err(), StoreError::Validation);

    // the rejected updates changed nothing
    assert_eq!(store.get(1).unwrap().name, "a");
    assert_eq!(store.get(1).unwrap().position, 0);
}

#[test]
fn stamping_sets_and_clears_the_checked_timestamp() {
    let checked = GroceryItem {
        id: 1,
        name: "milk".to_string(),
        checked_off: true,
        position: 0,
        checked_off_at: None,
        created_at: 5,
    };
    let stamped = stamped_for_update(checked, 99);
    assert_eq!(stamped.checked_off_at, Some(99));

    let unchecked = GroceryItem {
        id: 1,
        name: "milk".to_string(),
        checked_off: false,
        position: 0,
        checked_off_at: Some(42),
        created_at: 5,
    };
    let cleared = stamped_for_update(unchecked, 99);
    assert_eq!(cleared.checked_off_at, None);
}

#[test]
fn error_kinds_map_to_their_status_codes() {
    assert_eq!(status_for_error(StoreError::NotFound), 404);
    assert_eq!(status_for_error(StoreError::Validation), 400);
    assert_eq!(status_for_error(StoreError::Storage), 500);
}
