use rsmgclient::cursor::{Batch, Cursor, CursorStatus};
use rsmgclient::{FetchStep, MgError};

type Rec = String;

fn rows(n: usize) -> Vec<Rec> {
    (0..n).map(|i| format!("row{}", i)).collect()
}

fn columns() -> Vec<String> {
    vec!["n".to_string()]
}

/// A non-lazy cursor that has executed a query with these records.
fn executed(records: Vec<Rec>) -> Cursor<Rec> {
    let mut cursor: Cursor<Rec> = Cursor::new(false, 1);
    cursor.execute_start().unwrap();
    assert!(cursor.run_finished(Ok(columns())).unwrap());
    cursor.pull_all_finished(Ok(records)).unwrap();
    assert_eq!(cursor.status(), CursorStatus::Executing);
    cursor
}

/// A lazy cursor that has executed a query.
fn executed_lazy() -> Cursor<Rec> {
    let mut cursor: Cursor<Rec> = Cursor::new(true, 2);
    cursor.execute_start().unwrap();
    assert!(!cursor.run_finished(Ok(columns())).unwrap());
    assert_eq!(cursor.status(), CursorStatus::Executing);
    cursor
}

fn message(e: MgError) -> String {
    e.to_string()
}

fn batch_rows(b: Batch<&[Rec]>) -> Vec<Rec> {
    match b {
        Batch::Rows(r) => r.to_vec(),
        _ => panic!("expected rows"),
    }
}

fn fetched(step: FetchStep<&Rec>) -> Option<Rec> {
    match step {
        FetchStep::Row(r) => Some(r.clone()),
        FetchStep::Exhausted => None,
        FetchStep::Pull => panic!("a non-lazy cursor never asks for a pull"),
    }
}

#[test]
fn new_cursor_is_ready_without_columns() {
    let cursor: Cursor<Rec> = Cursor::new(false, 3);
    assert_eq!(cursor.status(), CursorStatus::Ready);
    assert_eq!(cursor.rownumber(), -1);
    assert_eq!(cursor.arraysize(), 3);
    assert!(!cursor.lazy());
    assert_eq!(
        message(cursor.get_columns().err().unwrap()),
        "Connection error: Columns not available"
    );
}

#[test]
fn columns_after_execute() {
    let cursor = executed(rows(1));
    assert_eq!(cursor.get_columns().unwrap(), &columns());
}

#[test]
fn fetchone_hands_out_records_in_order() {
    let mut cursor = executed(rows(3));
    assert_eq!(fetched(cursor.fetchone().unwrap()), Some("row0".to_string()));
    assert_eq!(fetched(cursor.fetchone().unwrap()), Some("row1".to_string()));
    assert_eq!(fetched(cursor.fetchone().unwrap()), Some("row2".to_string()));
    assert_eq!(cursor.rownumber(), 2);
    assert_eq!(cursor.status(), CursorStatus::Executing);
    assert_eq!(fetched(cursor.fetchone().unwrap()), None);
    assert_eq!(cursor.rownumber(), 3);
    assert_eq!(cursor.status(), CursorStatus::Ready);
}

#[test]
fn fetchone_without_records() {
    let mut cursor = executed(Vec::new());
    assert_eq!(fetched(cursor.fetchone().unwrap()), None);
    assert_eq!(cursor.status(), CursorStatus::Ready);
}

#[test]
fn cursor_fetchone_ready_error() {
    let mut cursor: Cursor<Rec> = Cursor::new(false, 1);
    assert_eq!(
        message(cursor.fetchone().err().unwrap()),
        "Connection error: Invalid cursor status"
    );
}

#[test]
fn fetchmany_batches_continue() {
    let mut cursor = executed(rows(5));
    assert_eq!(batch_rows(cursor.fetchmany(Some(2)).unwrap()), rows(5)[0..2].to_vec());
    assert_eq!(cursor.rownumber(), 1);
    assert_eq!(cursor.status(), CursorStatus::Executing);
    assert_eq!(batch_rows(cursor.fetchmany(Some(2)).unwrap()), rows(5)[2..4].to_vec());
    assert_eq!(cursor.status(), CursorStatus::Executing);
    assert_eq!(batch_rows(cursor.fetchmany(Some(2)).unwrap()), rows(5)[4..5].to_vec());
    assert_eq!(cursor.rownumber(), 4);
    assert_eq!(cursor.status(), CursorStatus::Ready);
}

#[test]
fn cursor_fetchmany_uses_arraysize() {
    let mut cursor = executed(rows(3));
    assert_eq!(batch_rows(cursor.fetchmany(None).unwrap()), vec!["row0".to_string()]);
    assert_eq!(cursor.rownumber(), 0);
}

#[test]
fn fetchmany_after_fetchone_and_exact_end() {
    let mut cursor = executed(rows(3));
    assert_eq!(fetched(cursor.fetchone().unwrap()), Some("row0".to_string()));
    assert_eq!(batch_rows(cursor.fetchmany(Some(2)).unwrap()), rows(3)[1..3].to_vec());
    assert_eq!(cursor.status(), CursorStatus::Executing);
    assert_eq!(batch_rows(cursor.fetchmany(Some(2)).unwrap()), Vec::<Rec>::new());
    assert_eq!(cursor.rownumber(), 2);
    assert_eq!(cursor.status(), CursorStatus::Ready);
}

#[test]
fn fetchmany_ready_error() {
    let mut cursor: Cursor<Rec> = Cursor::new(false, 1);
    assert_eq!(
        message(cursor.fetchmany(Some(1)).err().unwrap()),
        "Connection error: Invalid cursor status"
    );
}

#[test]
fn fetchall_hands_out_all_records() {
    let mut cursor = executed(rows(3));
    assert_eq!(fetched(cursor.fetchone().unwrap()), Some("row0".to_string()));
    assert_eq!(batch_rows(cursor.fetchall().unwrap()), rows(3));
    assert_eq!(cursor.status(), CursorStatus::Ready);
    assert_eq!(
        message(cursor.fetchall().err().unwrap()),
        "Connection error: Invalid state"
    );
}

#[test]
fn execute_errors() {
    let mut cursor = executed(rows(1));
    assert_eq!(
        message(cursor.execute_start().err().unwrap()),
        "Connection error: Cursor is executing"
    );
    let mut closed: Cursor<Rec> = Cursor::new(false, 1);
    closed.close().unwrap();
    assert_eq!(closed.status(), CursorStatus::Closed);
    assert_eq!(
        message(closed.execute_start().err().unwrap()),
        "Connection error: Cursor is closed"
    );
}

#[test]
fn execute_again_forgets_previous_query() {
    let mut cursor = executed(rows(2));
    assert_eq!(batch_rows(cursor.fetchall().unwrap()), rows(2));
    cursor.execute_start().unwrap();
    assert_eq!(cursor.rownumber(), -1);
    assert!(cursor.cached_rows().is_empty());
    assert!(cursor.get_columns().is_err());
}

#[test]
fn failed_run_passes_error_on() {
    let mut cursor: Cursor<Rec> = Cursor::new(false, 1);
    cursor.execute_start().unwrap();
    let err = cursor
        .run_finished(Err(MgError::query("syntax error")))
        .err()
        .unwrap();
    assert_eq!(message(err), "Query execution error: syntax error");
    assert_eq!(cursor.status(), CursorStatus::Ready);
}

#[test]
fn failed_pull_all_keeps_cursor_executing() {
    let mut cursor: Cursor<Rec> = Cursor::new(false, 1);
    cursor.execute_start().unwrap();
    cursor.run_finished(Ok(columns())).unwrap();
    assert!(cursor
        .pull_all_finished(Err(MgError::connection("lost")))
        .is_err());
    assert_eq!(cursor.status(), CursorStatus::Executing);
    assert_eq!(fetched(cursor.fetchone().unwrap()), None);
}

#[test]
fn close_while_executing_error() {
    let mut cursor = executed(rows(1));
    assert_eq!(
        message(cursor.close().err().unwrap()),
        "Connection error: Cannot close cursor while executing"
    );
    assert_eq!(cursor.status(), CursorStatus::Executing);
}

#[test]
fn lazy_fetchone_pulls() {
    let mut cursor = executed_lazy();
    assert!(matches!(cursor.fetchone().unwrap(), FetchStep::Pull));
    let row = cursor
        .pull_finished(Ok(Some("first".to_string())))
        .unwrap()
        .cloned();
    assert_eq!(row, Some("first".to_string()));
    assert_eq!(cursor.rownumber(), 0);
    assert_eq!(cursor.pull_finished(Ok(None)).unwrap(), None);
    assert_eq!(cursor.status(), CursorStatus::Ready);
}

#[test]
fn lazy_fetchone_error_passes_on() {
    let mut cursor = executed_lazy();
    let err = cursor
        .pull_finished(Err(MgError::connection("lost")))
        .err()
        .unwrap();
    assert_eq!(message(err), "Connection error: lost");
    assert_eq!(cursor.status(), CursorStatus::Executing);
}

#[test]
fn lazy_fetchmany_pulls_a_batch() {
    let mut cursor = executed_lazy();
    match cursor.fetchmany(None).unwrap() {
        Batch::PullUpTo(n) => assert_eq!(n, 2),
        _ => panic!("expected a pull"),
    }
    assert!(cursor.pull_into_batch(Ok(Some("a".to_string()))).unwrap());
    assert!(cursor.pull_into_batch(Ok(Some("b".to_string()))).unwrap());
    assert_eq!(cursor.cached_rows(), &["a".to_string(), "b".to_string()]);
    assert_eq!(cursor.rownumber(), 1);
    match cursor.fetchmany(Some(3)).unwrap() {
        Batch::PullUpTo(n) => assert_eq!(n, 3),
        _ => panic!("expected a pull"),
    }
    assert!(cursor.cached_rows().is_empty());
    assert!(cursor.pull_into_batch(Ok(Some("c".to_string()))).unwrap());
    assert!(!cursor.pull_into_batch(Ok(None)).unwrap());
    assert_eq!(cursor.cached_rows(), &["c".to_string()]);
    assert_eq!(cursor.status(), CursorStatus::Ready);
}

#[test]
fn lazy_fetchall_pulls_everything() {
    let mut cursor = executed_lazy();
    assert!(matches!(cursor.fetchall().unwrap(), Batch::PullAll));
    let all = cursor.fetchall_pulled(Ok(rows(2))).unwrap().to_vec();
    assert_eq!(all, rows(2));
    assert_eq!(cursor.status(), CursorStatus::Executing);
}
