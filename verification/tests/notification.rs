use cribbage_server::notification::{NotificationError, TableChangeEvent};

type Row = Option<Result<u32, String>>;

fn read(operation: &str, timing: &str, old_row: Row, new_row: Row) -> Result<TableChangeEvent<u32>, NotificationError<String>> {
    TableChangeEvent::from_notification(
        String::from(operation),
        String::from(timing),
        String::from("games"),
        old_row,
        new_row,
    )
}

#[test]
fn inserts_carry_the_new_row() {
    assert_eq!(
        read("INSERT", "BEFORE", None, Some(Ok(1))),
        Ok(TableChangeEvent::InsertBefore { table_name: String::from("games"), new_row: 1 })
    );
    assert_eq!(
        read("INSERT", "AFTER", Some(Ok(9)), Some(Ok(1))),
        Ok(TableChangeEvent::InsertAfter { table_name: String::from("games"), new_row: 1 })
    );
    assert_eq!(read("INSERT", "AFTER", Some(Ok(9)), None), Err(NotificationError::MissingData(String::from("new_row"))));
}

#[test]
fn updates_carry_both_rows_new_first() {
    assert_eq!(
        read("UPDATE", "BEFORE", Some(Ok(2)), Some(Ok(3))),
        Ok(TableChangeEvent::UpdateBefore { table_name: String::from("games"), new_row: 3, old_row: 2 })
    );
    assert_eq!(
        read("UPDATE", "AFTER", Some(Ok(2)), Some(Ok(3))),
        Ok(TableChangeEvent::UpdateAfter { table_name: String::from("games"), new_row: 3, old_row: 2 })
    );
    assert_eq!(read("UPDATE", "AFTER", None, None), Err(NotificationError::MissingData(String::from("new_row"))));
    assert_eq!(read("UPDATE", "AFTER", None, Some(Ok(3))), Err(NotificationError::MissingData(String::from("old_row"))));
    assert_eq!(
        read("UPDATE", "AFTER", Some(Err(String::from("bad old"))), Some(Err(String::from("bad new")))),
        Err(NotificationError::Decode(String::from("bad new")))
    );
}

#[test]
fn deletes_carry_the_old_row() {
    assert_eq!(
        read("DELETE", "BEFORE", Some(Ok(4)), None),
        Ok(TableChangeEvent::DeleteBefore { table_name: String::from("games"), old_row: 4 })
    );
    assert_eq!(
        read("DELETE", "AFTER", Some(Ok(4)), Some(Err(String::from("ignored")))),
        Ok(TableChangeEvent::DeleteAfter { table_name: String::from("games"), old_row: 4 })
    );
    assert_eq!(
        read("DELETE", "AFTER", Some(Err(String::from("bad"))), None),
        Err(NotificationError::Decode(String::from("bad")))
    );
}

#[test]
fn unknown_operations_are_refused() {
    assert_eq!(
        read("TRUNCATE", "AFTER", Some(Ok(1)), Some(Ok(1))),
        Err(NotificationError::InvalidOperation(String::from("TRUNCATE"), String::from("AFTER")))
    );
    assert_eq!(
        read("insert", "BEFORE", None, Some(Ok(1))),
        Err(NotificationError::InvalidOperation(String::from("insert"), String::from("BEFORE")))
    );
    assert_eq!(
        read("INSERT", "DURING", None, Some(Ok(1))),
        Err(NotificationError::InvalidOperation(String::from("INSERT"), String::from("DURING")))
    );
}
