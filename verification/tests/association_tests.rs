use bulk_sms_api::association::Association;
use bulk_sms_api::error::AppErrorType;

/// A store with one left entity (id 1), four right entities (1..=4) and
/// no links.
fn store() -> Association {
    let mut a = Association::new();
    a.add_left(1);
    a.add_right(1);
    a.add_right(2);
    a.add_right(3);
    a.add_right(4);
    a
}

#[test]
fn create_with_empty_list_is_a_no_op_returning_zero() {
    let mut a = store();
    assert_eq!(a.create(1, &vec![]).unwrap(), 0);
    // Also for a left id that does not exist at all.
    assert_eq!(a.create(999, &vec![]).unwrap(), 0);
    assert_eq!(a.find(1).unwrap(), Vec::<i64>::new());
}

#[test]
fn create_links_all_rows_and_returns_the_count() {
    let mut a = store();
    assert_eq!(a.create(1, &vec![1, 2, 3]).unwrap(), 3);
    assert_eq!(a.find(1).unwrap(), vec![1, 2, 3]);
}

#[test]
fn create_fails_with_not_found_when_left_does_not_exist() {
    let mut a = store();
    let e = a.create(999, &vec![1]).unwrap_err();
    assert_eq!(e.error_type, AppErrorType::NotFound);
    assert_eq!(a.find(1).unwrap(), Vec::<i64>::new());
}

#[test]
fn create_fails_with_not_found_when_a_right_does_not_exist() {
    let mut a = store();
    let e = a.create(1, &vec![1, 99]).unwrap_err();
    assert_eq!(e.error_type, AppErrorType::NotFound);
    assert_eq!(a.find(1).unwrap(), Vec::<i64>::new());
}

#[test]
fn create_fails_with_conflict_on_an_existing_pair() {
    let mut a = store();
    a.create(1, &vec![1, 2]).unwrap();
    let e = a.create(1, &vec![2]).unwrap_err();
    assert_eq!(e.error_type, AppErrorType::Conflict);
    assert_eq!(a.find(1).unwrap(), vec![1, 2]);
}

#[test]
fn create_fails_with_conflict_on_a_repeated_right_id() {
    let mut a = store();
    let e = a.create(1, &vec![3, 3]).unwrap_err();
    assert_eq!(e.error_type, AppErrorType::Conflict);
    assert_eq!(a.find(1).unwrap(), Vec::<i64>::new());
}

#[test]
fn find_fails_with_not_found_for_a_missing_left_id() {
    let a = store();
    let e = a.find(999).unwrap_err();
    assert_eq!(e.error_type, AppErrorType::NotFound);
}

#[test]
fn find_returns_empty_for_an_existing_left_id_with_no_links() {
    let a = store();
    assert_eq!(a.find(1).unwrap(), Vec::<i64>::new());
}

#[test]
fn update_with_empty_list_deletes_and_returns_the_old_count() {
    let mut a = store();
    a.create(1, &vec![1, 2, 3]).unwrap();
    assert_eq!(a.update(1, &vec![]).unwrap(), 3);
    assert_eq!(a.find(1).unwrap(), Vec::<i64>::new());
}

#[test]
fn update_replaces_all_links_and_returns_deleted_plus_inserted() {
    let mut a = store();
    a.create(1, &vec![1, 2]).unwrap();
    assert_eq!(a.update(1, &vec![3, 4, 1]).unwrap(), 5);
    assert_eq!(a.find(1).unwrap(), vec![3, 4, 1]);
}

#[test]
fn update_on_a_missing_left_id_with_rows_fails_after_the_delete_phase() {
    let mut a = store();
    let e = a.update(999, &vec![1]).unwrap_err();
    assert_eq!(e.error_type, AppErrorType::NotFound);
}

#[test]
fn delete_returns_zero_when_no_links_existed() {
    let mut a = store();
    assert_eq!(a.delete(1), 0);
    assert_eq!(a.delete(999), 0);
}

#[test]
fn delete_removes_every_link_of_the_left_id() {
    let mut a = store();
    a.add_left(2);
    a.create(1, &vec![1, 2, 3]).unwrap();
    a.create(2, &vec![4]).unwrap();
    assert_eq!(a.delete(1), 3);
    assert_eq!(a.find(1).unwrap(), Vec::<i64>::new());
    assert_eq!(a.find(2).unwrap(), vec![4]);
}

#[test]
fn role_permission_scenario() {
    // Role id 1 with permissions READ=1, WRITE=2, UPDATE=3, DELETE=4
    // linked (4 rows).
    let mut a = store();
    a.create(1, &vec![1, 2, 3, 4]).unwrap();

    // Replace-all with the empty list: 4 rows affected, no links left.
    assert_eq!(a.update(1, &vec![]).unwrap(), 4);
    assert_eq!(a.find(1).unwrap(), Vec::<i64>::new());

    // Linking READ to the now-unlinked role affects one row.
    assert_eq!(a.create(1, &vec![1]).unwrap(), 1);
    assert_eq!(a.find(1).unwrap(), vec![1]);

    // Linking to a role that does not exist is a foreign-key failure.
    let e = a.create(999, &vec![1]).unwrap_err();
    assert_eq!(e.error_type, AppErrorType::NotFound);
}
