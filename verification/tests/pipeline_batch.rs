use sqlx_core::error::Error;
use sqlx_core::executor::{ScriptedConnection, StatementOutcome};
use sqlx_core::pipeline::{Pipeline, PipelineOutcome};
use sqlx_core::query::query;

#[test]
fn push_beyond_capacity_is_rejected_and_changes_nothing() {
    let mut p = Pipeline::from_first(query("SELECT 1"), 2);
    assert_eq!(p.len(), 1);
    assert_eq!(p.capacity(), 2);
    assert_eq!(p.push(query("SELECT 2")), Ok(()));
    assert_eq!(p.len(), 2);
    // The pipeline is full: the overflow is observably rejected, not
    // silently truncated and not a panic.
    assert_eq!(p.push(query("SELECT 3")), Err(Error::CapacityExceeded));
    assert_eq!(p.len(), 2);
}

#[test]
fn outcomes_arrive_in_push_order_even_around_a_failure() {
    // A, B, C with B failing on a backend that does not skip: C's outcome
    // is still read and reported at position two.
    let mut conn = ScriptedConnection::new(
        vec![
            Ok(StatementOutcome::Affected(1)),
            Err(Error::StatementError { code: 42 }),
            Ok(StatementOutcome::Affected(1)),
        ],
        false,
    );
    let mut p = Pipeline::from_first(query("INSERT INTO a DEFAULT VALUES"), 3);
    p.push(query("INSERT INTO b DEFAULT VALUES")).unwrap();
    p.push(query("INSERT INTO c DEFAULT VALUES")).unwrap();
    let outcomes = p.execute(&mut conn);
    assert_eq!(
        outcomes,
        vec![
            PipelineOutcome::Completed(StatementOutcome::Affected(1)),
            PipelineOutcome::Failed(Error::StatementError { code: 42 }),
            PipelineOutcome::Completed(StatementOutcome::Affected(1)),
        ]
    );
}

#[test]
fn skipping_backend_reports_skipped_not_dropped() {
    // The same batch on a backend that skips until the next
    // synchronization point: C is reported as skipped, distinguishable
    // from executed-and-failed, and its response is never consumed.
    let mut conn = ScriptedConnection::new(
        vec![
            Ok(StatementOutcome::Affected(1)),
            Err(Error::StatementError { code: 42 }),
        ],
        true,
    );
    let mut p = Pipeline::from_first(query("INSERT INTO a DEFAULT VALUES"), 3);
    p.push(query("INSERT INTO b DEFAULT VALUES")).unwrap();
    p.push(query("INSERT INTO c DEFAULT VALUES")).unwrap();
    let outcomes = p.execute(&mut conn);
    assert_eq!(
        outcomes,
        vec![
            PipelineOutcome::Completed(StatementOutcome::Affected(1)),
            PipelineOutcome::Failed(Error::StatementError { code: 42 }),
            PipelineOutcome::Skipped,
        ]
    );
    assert_eq!(conn.applied().len(), 1);
}

#[test]
fn underbound_statement_fails_locally_without_touching_the_wire() {
    let mut conn = ScriptedConnection::new(
        vec![
            Ok(StatementOutcome::Affected(1)),
            Ok(StatementOutcome::Affected(1)),
        ],
        false,
    );
    let mut p = Pipeline::from_first(query("INSERT INTO a (x) VALUES ($1)").bind(1i64), 3);
    // This statement declares a placeholder that is never bound.
    p.push(query("INSERT INTO b (x) VALUES ($1)")).unwrap();
    p.push(query("INSERT INTO c (x) VALUES ($1)").bind(3i64)).unwrap();
    let outcomes = p.execute(&mut conn);
    assert_eq!(
        outcomes,
        vec![
            PipelineOutcome::Completed(StatementOutcome::Affected(1)),
            PipelineOutcome::Failed(Error::EncodeError),
            PipelineOutcome::Completed(StatementOutcome::Affected(1)),
        ]
    );
    // Only the two well-bound statements were ever sent.
    assert_eq!(conn.applied().len(), 2);
    assert_eq!(conn.remaining(), 0);
}

#[test]
fn three_inserts_one_round_trip_matches_sequential_end_state() {
    // Insert a user, a post by that user, and a comment on that post as
    // one pipelined batch; then run the same three statements one at a
    // time on a fresh connection with the same script. The outcomes come
    // back in order, all successful, and both connections end with the
    // same executed log: the database end-state does not depend on the
    // batching, only the round-trip count does.
    let script = || {
        vec![
            Ok(StatementOutcome::Affected(1)),
            Ok(StatementOutcome::Affected(1)),
            Ok(StatementOutcome::Affected(1)),
        ]
    };
    let user = || query("INSERT INTO users (id) VALUES ($1)").bind(1i64);
    let post = || {
        query("INSERT INTO posts (id, author) VALUES ($1, $2)")
            .bind(10i64)
            .bind(1i64)
    };
    let comment = || {
        query("INSERT INTO comments (id, post, author) VALUES ($1, $2, $3)")
            .bind(100i64)
            .bind(10i64)
            .bind(1i64)
    };

    let mut batched = ScriptedConnection::new(script(), true);
    let mut p = Pipeline::from_first(user(), 3);
    p.push(post()).unwrap();
    p.push(comment()).unwrap();
    let outcomes = p.execute(&mut batched);
    assert_eq!(
        outcomes,
        vec![
            PipelineOutcome::Completed(StatementOutcome::Affected(1)),
            PipelineOutcome::Completed(StatementOutcome::Affected(1)),
            PipelineOutcome::Completed(StatementOutcome::Affected(1)),
        ]
    );

    let mut sequential = ScriptedConnection::new(script(), true);
    assert_eq!(user().execute(&mut sequential), Ok(1));
    assert_eq!(post().execute(&mut sequential), Ok(1));
    assert_eq!(comment().execute(&mut sequential), Ok(1));

    assert_eq!(batched.applied().len(), 3);
    assert_eq!(sequential.applied().len(), 3);
    for i in 0..3 {
        assert_eq!(batched.applied()[i].sql, sequential.applied()[i].sql);
    }
    assert_eq!(batched.applied()[0].sql, "INSERT INTO users (id) VALUES ($1)");
}

#[test]
fn transport_failure_mid_batch_fails_the_rest() {
    // The script runs out after the first response: the remaining
    // statements resolve as transport failures (no skip convention).
    let mut conn = ScriptedConnection::new(vec![Ok(StatementOutcome::Affected(1))], false);
    let mut p = Pipeline::from_first(query("SELECT 1"), 2);
    p.push(query("SELECT 2")).unwrap();
    let outcomes = p.execute(&mut conn);
    assert_eq!(
        outcomes,
        vec![
            PipelineOutcome::Completed(StatementOutcome::Affected(1)),
            PipelineOutcome::Failed(Error::TransportError),
        ]
    );
}
