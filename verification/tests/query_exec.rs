use sqlx_core::error::Error;
use sqlx_core::executor::{ScriptedConnection, StatementOutcome};
use sqlx_core::query::query;
use sqlx_core::row::Row;
use sqlx_core::value::Value;

fn row_i64(x: i64) -> Row {
    Row::from_columns(vec![Value::Int8(x)])
}

#[test]
fn placeholders_are_counted() {
    let q = query("INSERT INTO users (id, name) VALUES ($1, $2)");
    assert_eq!(q.placeholder_count(), 2);
    let q = query("SELECT * FROM users");
    assert_eq!(q.placeholder_count(), 0);
    // A dollar sign not followed by a digit is not a placeholder.
    let q = query("SELECT '$x' FROM t WHERE a = $1");
    assert_eq!(q.placeholder_count(), 1);
    // A trailing dollar sign is not a placeholder either.
    let q = query("SELECT 'price in $'");
    assert_eq!(q.placeholder_count(), 0);
}

#[test]
fn binding_tracks_placeholders() {
    let q = query("INSERT INTO users (id, name) VALUES ($1, $2)");
    assert!(!q.is_fully_bound());
    let q = q.bind(7i64).bind(vec![b'a', b'b']);
    assert!(q.is_fully_bound());
    let q = q.bind(true);
    assert!(!q.is_fully_bound());
}

#[test]
fn underbound_execute_is_rejected_observably() {
    let mut conn = ScriptedConnection::new(
        vec![Ok(StatementOutcome::Affected(1))],
        false,
    );
    let q = query("INSERT INTO users (id) VALUES ($1)");
    let r = q.execute(&mut conn);
    assert_eq!(r, Err(Error::EncodeError));
    // Nothing was sent: the connection still holds its scripted response
    // and nothing was applied.
    assert_eq!(conn.remaining(), 1);
    assert_eq!(conn.applied().len(), 0);
}

#[test]
fn execute_returns_affected_count_and_logs_statement() {
    let mut conn = ScriptedConnection::new(
        vec![Ok(StatementOutcome::Affected(3))],
        false,
    );
    let r = query("DELETE FROM users WHERE active = $1")
        .bind(false)
        .execute(&mut conn);
    assert_eq!(r, Ok(3));
    assert_eq!(conn.remaining(), 0);
    assert_eq!(conn.applied().len(), 1);
    assert_eq!(
        conn.applied()[0].sql,
        "DELETE FROM users WHERE active = $1"
    );
}

#[test]
fn exhausted_connection_is_a_transport_error() {
    let mut conn = ScriptedConnection::new(Vec::new(), false);
    let r = query("SELECT 1").execute(&mut conn);
    assert_eq!(r, Err(Error::TransportError));
}

#[test]
fn statement_failure_is_not_applied() {
    let mut conn = ScriptedConnection::new(
        vec![Err(Error::StatementError { code: 23505 })],
        false,
    );
    let r = query("INSERT INTO users (id) VALUES ($1)")
        .bind(1i64)
        .execute(&mut conn);
    assert_eq!(r, Err(Error::StatementError { code: 23505 }));
    assert_eq!(conn.applied().len(), 0);
}

#[test]
fn fetch_one_over_zero_rows_is_no_rows() {
    let mut conn = ScriptedConnection::new(
        vec![Ok(StatementOutcome::ResultRows(Vec::new()))],
        false,
    );
    let r: Result<i64, Error> = query("SELECT id FROM users").fetch_one(&mut conn);
    assert_eq!(r, Err(Error::NoRows));
}

#[test]
fn fetch_one_over_one_row_yields_that_row() {
    let mut conn = ScriptedConnection::new(
        vec![Ok(StatementOutcome::ResultRows(vec![row_i64(42)]))],
        false,
    );
    let r: Result<i64, Error> = query("SELECT id FROM users").fetch_one(&mut conn);
    assert_eq!(r, Ok(42));
}

#[test]
fn fetch_optional_over_zero_rows_is_none() {
    let mut conn = ScriptedConnection::new(
        vec![Ok(StatementOutcome::ResultRows(Vec::new()))],
        false,
    );
    let r: Result<Option<i64>, Error> =
        query("SELECT id FROM users").fetch_optional(&mut conn);
    assert_eq!(r, Ok(None));
}

#[test]
fn fetch_optional_takes_the_first_of_many_rows() {
    // More than one returned row is not rejected at this layer: the first
    // row wins.
    let mut conn = ScriptedConnection::new(
        vec![Ok(StatementOutcome::ResultRows(vec![row_i64(1), row_i64(2)]))],
        false,
    );
    let r: Result<Option<i64>, Error> =
        query("SELECT id FROM users").fetch_optional(&mut conn);
    assert_eq!(r, Ok(Some(1)));
}

#[test]
fn fetch_all_decodes_every_row_in_order() {
    let mut conn = ScriptedConnection::new(
        vec![Ok(StatementOutcome::ResultRows(vec![
            row_i64(1),
            row_i64(2),
            row_i64(3),
        ]))],
        false,
    );
    let r: Result<Vec<i64>, Error> = query("SELECT id FROM users").fetch_all(&mut conn);
    assert_eq!(r, Ok(vec![1, 2, 3]));
}

#[test]
fn fetch_all_fails_whole_on_one_bad_row() {
    let mut conn = ScriptedConnection::new(
        vec![Ok(StatementOutcome::ResultRows(vec![
            row_i64(1),
            Row::from_columns(vec![Value::Bool(true)]),
            row_i64(3),
        ]))],
        false,
    );
    let r: Result<Vec<i64>, Error> = query("SELECT id FROM users").fetch_all(&mut conn);
    match r {
        Err(Error::DecodeError { column, .. }) => assert_eq!(column, 0),
        other => panic!("expected a decode error, got {:?}", other),
    }
}

#[test]
fn fetch_decodes_rows_independently() {
    let mut conn = ScriptedConnection::new(
        vec![Ok(StatementOutcome::ResultRows(vec![
            row_i64(1),
            Row::from_columns(vec![Value::Bool(true)]),
            row_i64(3),
        ]))],
        false,
    );
    let mut stream = query("SELECT id FROM users").fetch::<i64, _>(&mut conn);
    assert_eq!(stream.next(), Some(Ok(1)));
    assert!(matches!(stream.next(), Some(Err(Error::DecodeError { .. }))));
    // One row's decode failure does not invalidate the rows around it.
    assert_eq!(stream.next(), Some(Ok(3)));
    assert_eq!(stream.next(), None);
}

#[test]
fn fetch_surfaces_the_statement_error_as_one_element() {
    let mut conn = ScriptedConnection::new(
        vec![Err(Error::StatementError { code: 1 })],
        false,
    );
    let mut stream = query("SELECT id FROM users").fetch::<i64, _>(&mut conn);
    assert_eq!(stream.next(), Some(Err(Error::StatementError { code: 1 })));
    assert_eq!(stream.next(), None);
}

#[test]
fn dropping_a_fetch_stream_early_leaves_the_connection_clean() {
    let mut conn = ScriptedConnection::new(
        vec![
            Ok(StatementOutcome::ResultRows(vec![
                row_i64(1),
                row_i64(2),
                row_i64(3),
            ])),
            Ok(StatementOutcome::Affected(1)),
        ],
        false,
    );
    {
        let mut stream = query("SELECT id FROM users").fetch::<i64, _>(&mut conn);
        assert_eq!(stream.next(), Some(Ok(1)));
        // Two rows are never pulled; the stream is dropped here.
        assert_eq!(stream.rows_left(), 2);
    }
    // A subsequent unrelated execution sees its own response, undisturbed.
    let r = query("INSERT INTO audit (ok) VALUES ($1)")
        .bind(true)
        .execute(&mut conn);
    assert_eq!(r, Ok(1));
    assert_eq!(conn.remaining(), 0);
}

#[test]
fn pair_rows_decode_both_columns() {
    let mut conn = ScriptedConnection::new(
        vec![Ok(StatementOutcome::ResultRows(vec![Row::from_columns(vec![
            Value::Int8(10),
            Value::Int8(20),
        ])]))],
        false,
    );
    let r: Result<(i64, i64), Error> =
        query("SELECT a, b FROM t").fetch_one(&mut conn);
    assert_eq!(r, Ok((10, 20)));
}
