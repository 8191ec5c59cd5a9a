use rsmgclient::{
    ConnectParams, Connection, ConnectionStatus, FetchStep, MgError, PullOutcome, QueryOutcome,
};
use rsmgclient::connection::{batch_full, batch_step, check_query};
use std::collections::VecDeque;

type Rec = Vec<String>;
type Summary = Vec<String>;

/// A session double: the records the next query returns, served one by one.
struct Session {
    rows: VecDeque<Rec>,
}

fn session(rows: Vec<Rec>) -> Session {
    Session { rows: rows.into_iter().collect() }
}

fn summary() -> Summary {
    vec!["type".to_string(), "has_more".to_string()]
}

fn get_connection(prms: &ConnectParams) -> Connection<Rec, Summary> {
    match Connection::connect(prms, Ok(())) {
        Ok(c) => c,
        Err(err) => panic!("Creating connection failed: {}", err.to_string()),
    }
}

fn initialize() -> Connection<Rec, Summary> {
    let connect_prms = ConnectParams {
        address: Some(String::from("127.0.0.1")),
        ..Default::default()
    };
    let connection = get_connection(&connect_prms);
    assert_eq!(connection.status(), ConnectionStatus::Ready);
    connection
}

/// Executes a query whose results are `s`, as a driver would.
fn execute(
    connection: &mut Connection<Rec, Summary>,
    s: &mut Session,
) -> Result<Vec<String>, MgError> {
    if connection.execute_start()? {
        connection.begin_finished(QueryOutcome::Completed)?;
    }
    if connection.run_finished(Ok(()))? {
        let rows: Vec<Rec> = s.rows.drain(..).collect();
        connection.pull_all_finished(Ok((rows, summary())))?;
    }
    Ok(vec!["n".to_string()])
}

fn fetchone(
    connection: &mut Connection<Rec, Summary>,
    s: &mut Session,
) -> Result<Option<Rec>, MgError> {
    match connection.fetchone_start()? {
        FetchStep::Row(r) => Ok(Some(r)),
        FetchStep::Exhausted => Ok(None),
        FetchStep::Pull => {
            let outcome = match s.rows.pop_front() {
                Some(r) => PullOutcome::Row(r),
                None => PullOutcome::Summary(summary()),
            };
            connection.pull_finished(outcome)
        }
    }
}

/// Fetches one row at a time until the batch reaches `limit` or the records end, taking
/// the library's decision at each step.
fn fetch_batch(
    connection: &mut Connection<Rec, Summary>,
    s: &mut Session,
    limit: Option<u32>,
) -> Result<Vec<Rec>, MgError> {
    let mut vec = Vec::new();
    while !batch_full(vec.len(), limit) {
        let fetched = fetchone(connection, s)?;
        if !batch_step(&mut vec, limit, fetched) {
            break;
        }
    }
    Ok(vec)
}

fn fetchmany(
    connection: &mut Connection<Rec, Summary>,
    s: &mut Session,
    size: Option<u32>,
) -> Result<Vec<Rec>, MgError> {
    let limit = Some(connection.fetchmany_start(size)?);
    fetch_batch(connection, s, limit)
}

fn fetchall(
    connection: &mut Connection<Rec, Summary>,
    s: &mut Session,
) -> Result<Vec<Rec>, MgError> {
    fetch_batch(connection, s, None)
}

fn commit(connection: &mut Connection<Rec, Summary>) -> Result<(), MgError> {
    if connection.commit_start()? {
        connection.end_transaction_finished(QueryOutcome::Completed)?;
    }
    Ok(())
}

fn do_rollback(connection: &mut Connection<Rec, Summary>) -> Result<(), MgError> {
    connection.rollback_start()?;
    connection.end_transaction_finished(QueryOutcome::Completed)
}

fn nodes(n: usize) -> Vec<Rec> {
    (0..n).map(|i| vec![format!("node{}", i)]).collect()
}

/// A connection that is executing a query with three records.
fn executing() -> (Connection<Rec, Summary>, Session) {
    let mut connection = initialize();
    let mut s = session(nodes(3));
    execute(&mut connection, &mut s).unwrap();
    assert_eq!(connection.status(), ConnectionStatus::Executing);
    (connection, s)
}

fn fetching() -> (Connection<Rec, Summary>, Session) {
    let (mut connection, mut s) = executing();
    fetchone(&mut connection, &mut s).unwrap();
    assert_eq!(connection.status(), ConnectionStatus::Fetching);
    (connection, s)
}

fn in_transaction() -> Connection<Rec, Summary> {
    let (mut connection, mut s) = executing();
    fetchall(&mut connection, &mut s).unwrap();
    assert_eq!(connection.status(), ConnectionStatus::InTransaction);
    connection
}

fn closed() -> Connection<Rec, Summary> {
    let mut connection = initialize();
    connection.close();
    assert_eq!(connection.status(), ConnectionStatus::Closed);
    connection
}

fn bad() -> Connection<Rec, Summary> {
    let mut connection = initialize();
    assert!(connection.execute_start().unwrap());
    connection.begin_finished(QueryOutcome::Completed).unwrap();
    let res = connection.run_finished(Err("Parameter $name not provided.".to_string()));
    assert!(res.is_err());
    assert_eq!(connection.status(), ConnectionStatus::Bad);
    connection
}

fn test_execute_error(connection: &mut Connection<Rec, Summary>, error: &str) {
    let result = connection.execute_start();
    assert!(result.is_err());
    assert!(result.err().unwrap().to_string().contains(error));
}

#[test]
fn execute_executing_error() {
    let (mut connection, _s) = executing();
    test_execute_error(&mut connection, "executing");
}

#[test]
fn execute_fetching_error() {
    let (mut connection, _s) = fetching();
    test_execute_error(&mut connection, "fetching");
}

#[test]
fn execute_closed_error() {
    let mut connection = closed();
    test_execute_error(&mut connection, "is closed");
}

#[test]
fn execute_bad_error() {
    let mut connection = bad();
    test_execute_error(&mut connection, "is bad");
}

#[test]
fn parameter_not_provided_message() {
    let mut connection = initialize();
    connection.execute_start().unwrap();
    connection.begin_finished(QueryOutcome::Completed).unwrap();
    let err = connection
        .run_finished(Err("Parameter $name not provided.".to_string()))
        .err()
        .unwrap();
    assert_eq!(
        err.to_string(),
        "Connection error: Parameter $name not provided."
    );
}

fn test_fetchone_person_alice(connection: &mut Connection<Rec, Summary>) {
    let mut s = session(vec![vec!["Person".to_string(), "Alice".to_string()]]);
    let columns = execute(connection, &mut s).unwrap();
    assert_eq!(columns.join(", "), "n");
    let record = fetchone(connection, &mut s).unwrap().unwrap();
    assert_eq!(record.len(), 2);
    assert_eq!(record, vec!["Person".to_string(), "Alice".to_string()]);
    assert!(fetchone(connection, &mut s).unwrap().is_none());
    assert!(fetchone(connection, &mut s).is_err());
}

#[test]
fn fetchone_lazy() {
    let mut connection = initialize();
    test_fetchone_person_alice(&mut connection);
}

#[test]
fn fetchone_not_lazy() {
    let mut connection = initialize();
    connection.set_lazy(false);
    assert!(!connection.lazy());
    test_fetchone_person_alice(&mut connection);
}

#[test]
fn fetchone_no_data() {
    let mut connection = initialize();
    let mut s = session(vec![]);
    execute(&mut connection, &mut s).unwrap();
    let first = fetchone(&mut connection, &mut s);
    if let Ok(rec) = first {
        assert!(rec.is_none());
    } else {
        panic!("First fetched record should be None")
    }
}

#[test]
fn fetchone_summary() {
    let mut connection = initialize();
    let mut s = session(nodes(2));
    execute(&mut connection, &mut s).unwrap();
    assert!(connection.summary().is_none());
    loop {
        match fetchone(&mut connection, &mut s) {
            Ok(res) => match res {
                Some(_x) => {}
                None => break,
            },
            Err(err) => panic!("Fetch one unexpectedly failed: {}", err.to_string()),
        }
    }
    assert_eq!(connection.summary(), Some(&summary()));
}

#[test]
fn fetchone_summary_none() {
    let connection = initialize();
    let summary = connection.summary();
    assert!(summary.is_none());
}

fn test_fetchone_error(connection: &mut Connection<Rec, Summary>, error: &str) {
    let result = connection.fetchone_start();
    assert!(result.is_err());
    assert!(result.err().unwrap().to_string().contains(error));
}

#[test]
fn fetchone_ready_error() {
    let mut connection = initialize();
    test_fetchone_error(&mut connection, "ready");
}

#[test]
fn fetchone_in_transaction_error() {
    let mut connection = in_transaction();
    test_fetchone_error(&mut connection, "in transaction");
}

#[test]
fn fetchone_closed_error() {
    let mut connection = closed();
    test_fetchone_error(&mut connection, "is closed");
}

#[test]
fn fetchone_bad_error() {
    let mut connection = bad();
    test_fetchone_error(&mut connection, "is bad");
}

fn test_fetchmany_empty_nodes(connection: &mut Connection<Rec, Summary>) {
    let mut s = session(nodes(3));
    let columns = execute(connection, &mut s).unwrap();
    assert_eq!(columns.join(", "), "n");

    match fetchmany(connection, &mut s, Some(2)) {
        Ok(records) => {
            assert_eq!(records.len(), 2);
        }
        Err(err) => panic!("Fetch many unexpectedly failed: {}", err.to_string()),
    }
    assert_eq!(connection.status(), ConnectionStatus::Fetching);

    match fetchmany(connection, &mut s, Some(2)) {
        Ok(records) => {
            assert_eq!(records.len(), 1);
        }
        Err(err) => panic!("Fetch many unexpectedly failed: {}", err.to_string()),
    }
    assert_eq!(connection.status(), ConnectionStatus::InTransaction);
}

#[test]
fn fetchmany_lazy() {
    let mut connection = initialize();
    test_fetchmany_empty_nodes(&mut connection);
}

#[test]
fn fetchmany_not_lazy() {
    let mut connection = initialize();
    connection.set_lazy(false);
    assert!(!connection.lazy());
    test_fetchmany_empty_nodes(&mut connection);
}

fn test_fetchall_empty_nodes(connection: &mut Connection<Rec, Summary>) {
    let mut s = session(nodes(3));
    let columns = execute(connection, &mut s).unwrap();
    assert_eq!(columns.join(", "), "n");

    match fetchall(connection, &mut s) {
        Ok(records) => {
            assert_eq!(records.len(), 3);
        }
        Err(err) => panic!("Fetch all unexpectedly failed: {}", err.to_string()),
    }
    assert_eq!(connection.status(), ConnectionStatus::InTransaction);
}

#[test]
fn fetchall_lazy() {
    let mut connection = initialize();
    test_fetchall_empty_nodes(&mut connection);
}

#[test]
fn fetchall_not_lazy() {
    let mut connection = initialize();
    connection.set_lazy(false);
    assert!(!connection.lazy());
    test_fetchmany_empty_nodes(&mut connection);
}

fn test_commit_error(connection: &mut Connection<Rec, Summary>, error: &str) {
    let commit_res = commit(connection);
    assert!(commit_res.is_err());
    assert!(commit_res.err().unwrap().to_string().contains(error));
}

#[test]
fn commit_executing_error() {
    let (mut connection, _s) = executing();
    test_commit_error(&mut connection, "executing");
}

#[test]
fn commit_fetching_error() {
    let (mut connection, _s) = fetching();
    test_commit_error(&mut connection, "fetching");
}

#[test]
fn commit_closed_error() {
    let mut connection = closed();
    test_commit_error(&mut connection, "is closed");
}

#[test]
fn commit_bad_error() {
    let mut connection = bad();
    test_commit_error(&mut connection, "is bad");
}

#[test]
fn commit_ends_transaction() {
    let mut connection = in_transaction();
    assert!(connection.in_transaction());
    commit(&mut connection).unwrap();
    assert_eq!(connection.status(), ConnectionStatus::Ready);
    assert!(!connection.in_transaction());
    // Nothing to commit: still fine.
    commit(&mut connection).unwrap();
    assert_eq!(connection.status(), ConnectionStatus::Ready);
}

#[test]
fn rollback() {
    let mut connection = initialize();
    let mut s = session(nodes(1));
    execute(&mut connection, &mut s).unwrap();
    match fetchall(&mut connection, &mut s) {
        Ok(_records) => {}
        Err(err) => panic!("Fetch all unexpectedly failed: {}", err.to_string()),
    }
    assert_eq!(connection.status(), ConnectionStatus::InTransaction);

    match do_rollback(&mut connection) {
        Ok(_x) => {}
        Err(err) => panic!("Rollback unexpectedly failed: {}", err.to_string()),
    }
    assert_eq!(connection.status(), ConnectionStatus::Ready);
}

fn test_rollback_error(connection: &mut Connection<Rec, Summary>, error: &str) {
    let rollback_res = do_rollback(connection);
    assert!(rollback_res.is_err());
    assert!(rollback_res.err().unwrap().to_string().contains(error));
}

#[test]
fn rollback_ready_error() {
    let mut connection = initialize();
    assert_eq!(connection.status(), ConnectionStatus::Ready);
    test_rollback_error(&mut connection, "in transaction");
}

#[test]
fn rollback_executing_error() {
    let (mut connection, _s) = executing();
    test_rollback_error(&mut connection, "executing");
}

#[test]
fn rollback_fetching_error() {
    let (mut connection, _s) = fetching();
    test_rollback_error(&mut connection, "fetching");
}

#[test]
fn rollback_closed_error() {
    let mut connection = closed();
    test_rollback_error(&mut connection, "is closed");
}

#[test]
fn rollback_bad_error() {
    let mut connection = bad();
    test_rollback_error(&mut connection, "is bad");
}

#[test]
fn set_autocommit() {
    let mut connection = initialize();
    connection.set_autocommit(true);
    assert!(connection.autocommit());
}

#[test]
fn autocommit_query_returns_to_ready() {
    let connect_prms = ConnectParams {
        address: Some(String::from("127.0.0.1")),
        autocommit: true,
        ..Default::default()
    };
    let mut connection = get_connection(&connect_prms);
    let mut s = session(nodes(2));
    assert!(!connection.execute_start().unwrap());
    execute(&mut connection, &mut s).unwrap();
    assert_eq!(connection.status(), ConnectionStatus::Executing);
    assert_eq!(fetchall(&mut connection, &mut s).unwrap().len(), 2);
    assert_eq!(connection.status(), ConnectionStatus::Ready);
    assert!(!connection.in_transaction());
}

#[test]
fn fetchall_set_get_arraysize() {
    let mut connection = initialize();
    connection.set_arraysize(2);
    assert_eq!(2, connection.arraysize());
}

#[test]
fn fetchmany_uses_arraysize() {
    let (mut connection, _s) = executing();
    assert_eq!(connection.arraysize(), 1);
    assert_eq!(connection.fetchmany_start(None).unwrap(), 1);
    assert_eq!(connection.fetchmany_start(Some(5)).unwrap(), 5);
    connection.set_arraysize(3);
    assert_eq!(connection.fetchmany_start(None).unwrap(), 3);
}

#[test]
fn fetchmany_of_nothing_still_checks_status() {
    let mut connection = initialize();
    let err = connection.fetchmany_start(Some(0)).err().unwrap();
    assert_eq!(
        err.to_string(),
        "Invalid connection state: fetchmany cannot be called while ready"
    );
    connection.set_arraysize(0);
    assert!(connection.fetchmany_start(None).is_err());
    let (mut executing, _s) = executing();
    assert_eq!(executing.fetchmany_start(Some(0)).unwrap(), 0);
}

#[test]
fn query_with_nul_is_refused() {
    assert!(check_query("MATCH (n) RETURN n;").is_ok());
    match check_query("RETURN 'a\0b';") {
        Err(MgError::NullByte { parameter }) => assert_eq!(parameter, "query"),
        _ => panic!("a query with a NUL character is refused"),
    }
    assert_eq!(
        check_query("\0").err().unwrap().to_string(),
        "Parameter 'query' contains null byte"
    );
}

#[test]
fn close() {
    let mut connection = initialize();
    connection.close();
    assert_eq!(ConnectionStatus::Closed, connection.status());
    connection.close();
    assert_eq!(ConnectionStatus::Closed, connection.status());
}

#[test]
fn execute_without_results() {
    let mut connection = initialize();

    assert!(connection.without_results_start().is_ok());
    assert!(connection
        .without_results_finished(QueryOutcome::Completed)
        .is_ok());
    assert_eq!(ConnectionStatus::Ready, connection.status());

    let mut s = session(nodes(2));
    assert!(execute(&mut connection, &mut s).is_ok());
    assert_eq!(ConnectionStatus::Executing, connection.status());
    match fetchall(&mut connection, &mut s) {
        Ok(records) => assert_eq!(records.len(), 2),
        Err(err) => panic!(
            "Failed to get data after execute without results {}.",
            err.to_string()
        ),
    }
    assert_eq!(ConnectionStatus::InTransaction, connection.status());
}

#[test]
fn execute_without_results_failures() {
    let mut connection = initialize();
    let err = connection
        .without_results_finished(QueryOutcome::PullFailed("pull failed".to_string()))
        .err()
        .unwrap();
    assert_eq!(err.to_string(), "Connection error: pull failed");
    assert_eq!(ConnectionStatus::Ready, connection.status());
    let err = connection
        .without_results_finished(QueryOutcome::RunFailed("run failed".to_string()))
        .err()
        .unwrap();
    assert_eq!(err.to_string(), "Connection error: run failed");
    assert_eq!(ConnectionStatus::Bad, connection.status());
    assert!(connection
        .without_results_start()
        .err()
        .unwrap()
        .to_string()
        .contains("is bad"));
}

#[test]
fn connect_failure() {
    let params = ConnectParams::default();
    let res: Result<Connection<Rec, Summary>, MgError> =
        Connection::connect(&params, Err("both sslcert and sslkey should be provided".to_string()));
    assert_eq!(
        res.err().unwrap().to_string(),
        "Connection error: both sslcert and sslkey should be provided"
    );
}

#[test]
fn connect_params_default() {
    let p = ConnectParams::default();
    assert_eq!(p.port, 7687);
    assert_eq!(p.client_name, "MemgraphBolt/0.1");
    assert!(p.lazy);
    assert!(!p.autocommit);
    assert!(p.host.is_none() && p.address.is_none());
    assert_eq!(p.sslmode, rsmgclient::SSLMode::Require);
    assert_eq!(rsmgclient::connection::sslmode_to_c(&rsmgclient::SSLMode::Disable), 0);
    assert_eq!(rsmgclient::connection::sslmode_to_c(&rsmgclient::SSLMode::Require), 1);
}

#[test]
fn pull_failure_leaves_connection_bad() {
    let (mut connection, _s) = executing();
    let err = connection
        .pull_finished(PullOutcome::Failed("lost".to_string()))
        .err()
        .unwrap();
    assert_eq!(err.to_string(), "Connection error: lost");
    assert_eq!(connection.status(), ConnectionStatus::Bad);
}

#[test]
fn new_query_clears_summary() {
    let mut connection = initialize();
    let mut s = session(nodes(1));
    execute(&mut connection, &mut s).unwrap();
    fetchall(&mut connection, &mut s).unwrap();
    assert!(connection.summary().is_some());
    let mut s2 = session(nodes(1));
    execute(&mut connection, &mut s2).unwrap();
    assert!(connection.summary().is_none());
}

#[test]
fn not_lazy_records_in_order() {
    let mut connection = initialize();
    connection.set_lazy(false);
    let mut s = session(nodes(3));
    execute(&mut connection, &mut s).unwrap();
    assert!(connection.summary().is_some());
    let all = fetchall(&mut connection, &mut s).unwrap();
    assert_eq!(all, nodes(3));
}

#[test]
fn batch_step_stops_at_limit_or_end() {
    let mut batch: Vec<u32> = Vec::new();
    assert!(!batch_full(0, Some(2)));
    assert!(batch_step(&mut batch, Some(2), Some(1)));
    assert!(!batch_step(&mut batch, Some(2), Some(2)));
    assert_eq!(batch, vec![1, 2]);
    assert!(batch_full(batch.len(), Some(2)));
    let mut rest: Vec<u32> = vec![7];
    assert!(!batch_step(&mut rest, None, None));
    assert_eq!(rest, vec![7]);
    assert!(batch_full(0, Some(0)));
    assert!(!batch_full(1000, None));
}

#[test]
fn fetchmany_takes_min_of_size_and_remaining() {
    let (mut connection, mut s) = executing();
    assert_eq!(fetchmany(&mut connection, &mut s, Some(2)).unwrap().len(), 2);
    assert_eq!(fetchmany(&mut connection, &mut s, Some(5)).unwrap(), nodes(3)[2..3].to_vec());
    assert_eq!(connection.status(), ConnectionStatus::InTransaction);
    assert!(fetchmany(&mut connection, &mut s, Some(0)).is_err());
}
