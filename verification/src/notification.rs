use vstd::prelude::*;
use vstd::string::*;

verus! {

/// The operation on a table that a change notification reports.
#[derive(Clone, Copy, Debug, PartialEq, Eq, Structural)]
pub enum Operation {
    Insert,
    Update,
    Delete,
}

/// Whether a change notification was raised before or after the operation.
#[derive(Clone, Copy, Debug, PartialEq, Eq, Structural)]
pub enum Timing {
    Before,
    After,
}

/// A change to a table, with the rows that the change concerns: the new row
/// of an insert, both rows of an update, the old row of a delete.
#[derive(Debug, PartialEq, Eq)]
pub enum TableChangeEvent<T> {
    InsertBefore { table_name: String, new_row: T },
    InsertAfter { table_name: String, new_row: T },
    UpdateBefore { table_name: String, new_row: T, old_row: T },
    UpdateAfter { table_name: String, new_row: T, old_row: T },
    DeleteBefore { table_name: String, old_row: T },
    DeleteAfter { table_name: String, old_row: T },
}

/// The mathematical value of a `TableChangeEvent`.
pub enum TableChangeEventView<T> {
    InsertBefore { table_name: Seq<char>, new_row: T },
    InsertAfter { table_name: Seq<char>, new_row: T },
    UpdateBefore { table_name: Seq<char>, new_row: T, old_row: T },
    UpdateAfter { table_name: Seq<char>, new_row: T, old_row: T },
    DeleteBefore { table_name: Seq<char>, old_row: T },
    DeleteAfter { table_name: Seq<char>, old_row: T },
}

impl<T> View for TableChangeEvent<T> {
    type V = TableChangeEventView<T>;

    open spec fn view(&self) -> TableChangeEventView<T> {
        match self {
            TableChangeEvent::InsertBefore { table_name, new_row } =>
                TableChangeEventView::InsertBefore { table_name: table_name@, new_row: *new_row },
            TableChangeEvent::InsertAfter { table_name, new_row } =>
                TableChangeEventView::InsertAfter { table_name: table_name@, new_row: *new_row },
            TableChangeEvent::UpdateBefore { table_name, new_row, old_row } =>
                TableChangeEventView::UpdateBefore { table_name: table_name@, new_row: *new_row, old_row: *old_row },
            TableChangeEvent::UpdateAfter { table_name, new_row, old_row } =>
                TableChangeEventView::UpdateAfter { table_name: table_name@, new_row: *new_row, old_row: *old_row },
            TableChangeEvent::DeleteBefore { table_name, old_row } =>
                TableChangeEventView::DeleteBefore { table_name: table_name@, old_row: *old_row },
            TableChangeEvent::DeleteAfter { table_name, old_row } =>
                TableChangeEventView::DeleteAfter { table_name: table_name@, old_row: *old_row },
        }
    }
}

/// Why a change notification could not be read; `E` is the error of
/// decoding a row.
#[derive(Debug, PartialEq, Eq)]
pub enum NotificationError<E> {
    /// The operation and timing (as written) name no change.
    InvalidOperation(String, String),
    /// The row (named) that the change needs is missing.
    MissingData(String),
    /// A row could not be decoded.
    Decode(E),
}

/// The mathematical value of a `NotificationError`.
pub enum NotificationErrorView<E> {
    InvalidOperation(Seq<char>, Seq<char>),
    MissingData(Seq<char>),
    Decode(E),
}

impl<E> View for NotificationError<E> {
    type V = NotificationErrorView<E>;

    open spec fn view(&self) -> NotificationErrorView<E> {
        match self {
            NotificationError::InvalidOperation(op, timing) => NotificationErrorView::InvalidOperation(op@, timing@),
            NotificationError::MissingData(name) => NotificationErrorView::MissingData(name@),
            NotificationError::Decode(e) => NotificationErrorView::Decode(*e),
        }
    }
}

/// A row as a change needs it: missing, a decoding error, or the row.
pub open spec fn needed_row<T, E>(row: Option<Result<T, E>>, name: Seq<char>) -> Result<T, NotificationErrorView<E>> {
    match row {
        None => Err(NotificationErrorView::MissingData(name)),
        Some(Err(e)) => Err(NotificationErrorView::Decode(e)),
        Some(Ok(r)) => Ok(r),
    }
}

/// The change that a notification reports: its operation and timing,
/// written `INSERT`, `UPDATE` or `DELETE` and `BEFORE` or `AFTER`, name the
/// change; an insert needs the new row, a delete the old one, and an update
/// both, the new row looked at first.
pub open spec fn table_change<T, E>(
    operation: Seq<char>,
    timing: Seq<char>,
    table_name: Seq<char>,
    old_row: Option<Result<T, E>>,
    new_row: Option<Result<T, E>>,
) -> Result<TableChangeEventView<T>, NotificationErrorView<E>> {
    let new = needed_row(new_row, "new_row"@);
    let old = needed_row(old_row, "old_row"@);
    let before = timing == "BEFORE"@;
    if (operation == "INSERT"@ || operation == "UPDATE"@ || operation == "DELETE"@) && (before || timing == "AFTER"@) {
        if operation == "INSERT"@ {
            match new {
                Err(e) => Err(e),
                Ok(n) => Ok(if before {
                    TableChangeEventView::InsertBefore { table_name, new_row: n }
                } else {
                    TableChangeEventView::InsertAfter { table_name, new_row: n }
                }),
            }
        } else if operation == "UPDATE"@ {
            match (new, old) {
                (Err(e), _) => Err(e),
                (Ok(_), Err(e)) => Err(e),
                (Ok(n), Ok(o)) => Ok(if before {
                    TableChangeEventView::UpdateBefore { table_name, new_row: n, old_row: o }
                } else {
                    TableChangeEventView::UpdateAfter { table_name, new_row: n, old_row: o }
                }),
            }
        } else {
            match old {
                Err(e) => Err(e),
                Ok(o) => Ok(if before {
                    TableChangeEventView::DeleteBefore { table_name, old_row: o }
                } else {
                    TableChangeEventView::DeleteAfter { table_name, old_row: o }
                }),
            }
        }
    } else {
        Err(NotificationErrorView::InvalidOperation(operation, timing))
    }
}

/// The text equals the literal.
fn is_text(text: &String, literal: &str) -> (b: bool)
    ensures b == (text@ == literal@),
{
    *text == String::from_str(literal)
}

/// Takes the row that a change needs.
fn take_row<T, E>(row: Option<Result<T, E>>, name: &str) -> (r: Result<T, NotificationError<E>>)
    ensures
        match (r, needed_row(row, name@)) {
            (Ok(a), Ok(b)) => a == b,
            (Err(a), Err(b)) => a@ == b,
            _ => false,
        },
{
    match row {
        None => Err(NotificationError::MissingData(String::from_str(name))),
        Some(Err(e)) => Err(NotificationError::Decode(e)),
        Some(Ok(r)) => Ok(r),
    }
}

/// The view of a reading of a change notification.
pub open spec fn reading<T, E>(r: Result<TableChangeEvent<T>, NotificationError<E>>) -> Result<TableChangeEventView<T>, NotificationErrorView<E>> {
    match r {
        Ok(event) => Ok(event@),
        Err(e) => Err(e@),
    }
}

impl<T> TableChangeEvent<T> {
    /// Reads a change notification: the operation and timing as written, the
    /// table's name, and its rows as decoded (`None` where the notification
    /// carries no such row).
    pub fn from_notification<E>(
        operation: String,
        timing: String,
        table_name: String,
        old_row: Option<Result<T, E>>,
        new_row: Option<Result<T, E>>,
    ) -> (r: Result<TableChangeEvent<T>, NotificationError<E>>)
        ensures
            reading(r) == table_change(operation@, timing@, table_name@, old_row, new_row),
    {
        let insert = is_text(&operation, "INSERT");
        let update = is_text(&operation, "UPDATE");
        let delete = is_text(&operation, "DELETE");
        let before = is_text(&timing, "BEFORE");
        let after = is_text(&timing, "AFTER");
        if !((insert || update || delete) && (before || after)) {
            return Err(NotificationError::InvalidOperation(operation, timing));
        }
        if insert {
            let new_row = match take_row(new_row, "new_row") {
                Ok(row) => row,
                Err(e) => return Err(e),
            };
            if before {
                Ok(TableChangeEvent::InsertBefore { table_name, new_row })
            } else {
                Ok(TableChangeEvent::InsertAfter { table_name, new_row })
            }
        } else if update {
            let new_row = match take_row(new_row, "new_row") {
                Ok(row) => row,
                Err(e) => return Err(e),
            };
            let old_row = match take_row(old_row, "old_row") {
                Ok(row) => row,
                Err(e) => return Err(e),
            };
            if before {
                Ok(TableChangeEvent::UpdateBefore { table_name, new_row, old_row })
            } else {
                Ok(TableChangeEvent::UpdateAfter { table_name, new_row, old_row })
            }
        } else {
            let old_row = match take_row(old_row, "old_row") {
                Ok(row) => row,
                Err(e) => return Err(e),
            };
            if before {
                Ok(TableChangeEvent::DeleteBefore { table_name, old_row })
            } else {
                Ok(TableChangeEvent::DeleteAfter { table_name, old_row })
            }
        }
    }
}

} // verus!
