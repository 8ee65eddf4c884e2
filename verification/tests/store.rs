// The store: totals, overwriting adds, removal, update.

use bills::store::BillStore;
use bills::store::Bills;

#[test]
fn check_total() {
    let mut arr = BillStore::new();

    arr.add("car".to_string(), 5000);
    arr.add("phone".to_string(), 2000);
    arr.add("home".to_string(), 3000);

    let result = arr.total();
    let expected = 10000;
    assert_eq!(result, expected, "Result should be 100.00")
}

#[test]
fn check_total2() {
    let mut arr = BillStore::new();

    arr.add("car".to_string(), 291735);
    arr.add("phone".to_string(), 1140);
    arr.add("home".to_string(), 7125);

    let result = arr.total();
    let expected = 300000;
    assert_eq!(result, expected, "Result should be 3000.00")
}

#[test]
fn total_of_empty_store_is_zero() {
    let arr = BillStore::new();
    assert_eq!(arr.total(), 0);
    assert_eq!(arr.len(), 0);
}

#[test]
fn add_with_existing_name_overwrites() {
    let mut store = BillStore::new();
    store.add("car".to_string(), 100);
    store.add("car".to_string(), 250);
    assert_eq!(store.len(), 1);
    assert_eq!(store.list()[0].amount, 250);
    // Re-adding the very same bill changes nothing further.
    store.add("car".to_string(), 250);
    assert_eq!(store.len(), 1);
    assert_eq!(store.list()[0].amount, 250);
    assert_eq!(store.total(), 250);
}

#[test]
fn add_keeps_insertion_order() {
    let mut store = BillStore::new();
    store.add("car".to_string(), 100);
    store.add("phone".to_string(), 200);
    store.add("car".to_string(), 300);
    let list = store.list();
    assert_eq!(list.len(), 2);
    assert_eq!(list[0].name, "car");
    assert_eq!(list[0].amount, 300);
    assert_eq!(list[1].name, "phone");
}

#[test]
fn remove_nonexistent_name_is_a_no_op() {
    let mut store = BillStore::new();
    store.add("car".to_string(), 100);
    store.add("phone".to_string(), 200);
    store.remove("home");
    assert_eq!(store.len(), 2);
    assert!(store.contains("car"));
    assert!(store.contains("phone"));
    assert_eq!(store.total(), 300);
}

#[test]
fn remove_deletes_the_entry() {
    let mut store = BillStore::new();
    store.add("car".to_string(), 100);
    store.add("phone".to_string(), 200);
    store.remove("car");
    assert_eq!(store.len(), 1);
    assert!(!store.contains("car"));
    assert!(store.contains("phone"));
}

#[test]
fn update_nonexistent_name_reports_not_found() {
    let mut store = BillStore::new();
    store.add("car".to_string(), 100);
    let found = store.update("home", "cabin".to_string(), 500);
    assert!(!found);
    assert_eq!(store.len(), 1);
    assert!(store.contains("car"));
    assert!(!store.contains("cabin"));
    assert_eq!(store.total(), 100);
}

#[test]
fn update_replaces_the_entry_entirely() {
    let mut store = BillStore::new();
    store.add("car".to_string(), 100);
    store.add("phone".to_string(), 200);
    let found = store.update("car", "auto".to_string(), 900);
    assert!(found);
    assert!(!store.contains("car"));
    assert!(store.contains("auto"));
    assert_eq!(store.len(), 2);
    assert_eq!(store.total(), 1100);
}

#[test]
fn update_with_identical_name_overwrites() {
    let mut store = BillStore::new();
    store.add("car".to_string(), 100);
    let found = store.update("car", "car".to_string(), 900);
    assert!(found);
    assert!(store.contains("car"));
    assert_eq!(store.len(), 1);
    assert_eq!(store.total(), 900);
}

#[test]
fn bill_value_goes_into_the_store() {
    let mut store = BillStore::new();
    let b = Bills::new("car".to_string(), 4200);
    assert_eq!(b.name, "car");
    assert_eq!(b.amount, 4200);
    b.add(&mut store);
    assert!(store.contains("car"));
    assert_eq!(store.total(), 4200);
}
