use vstd::prelude::*;
use crate::error::Error;
use crate::executor::{
    next_response, step, ConnectionModel, Executor, OutcomeModel, StatementModel, StatementOutcome,
};
use crate::query::{spec_placeholder_count, Query};

verus! {

/// The outcome of one statement in a pipeline batch: executed (successfully
/// or not reported by the backend as an error), failed with an error, or
/// never executed because the backend skipped it after an earlier error.
#[derive(Clone, Debug, PartialEq)]
pub enum PipelineOutcome {
    Completed(StatementOutcome),
    Failed(Error),
    Skipped,
}

/// Mathematical model of a per-statement pipeline outcome.
pub enum PipelineOutcomeModel {
    MCompleted(OutcomeModel),
    MFailed(Error),
    MSkipped,
}

impl View for PipelineOutcome {
    type V = PipelineOutcomeModel;

    open spec fn view(&self) -> PipelineOutcomeModel {
        match self {
            PipelineOutcome::Completed(o) => PipelineOutcomeModel::MCompleted(o@),
            PipelineOutcome::Failed(e) => PipelineOutcomeModel::MFailed(*e),
            PipelineOutcome::Skipped => PipelineOutcomeModel::MSkipped,
        }
    }
}

impl DeepView for PipelineOutcome {
    type V = PipelineOutcomeModel;

    open spec fn deep_view(&self) -> PipelineOutcomeModel {
        self.view()
    }
}

/// Whether a statement's bound-parameter count matches the placeholder
/// count its text declares.
pub open spec fn stmt_bound_ok(s: StatementModel) -> bool {
    s.params.len() == spec_placeholder_count(s.sql)
}

/// How one backend response reads as a pipeline outcome.
pub open spec fn interp_response(resp: Result<OutcomeModel, Error>) -> PipelineOutcomeModel {
    match resp {
        Ok(o) => PipelineOutcomeModel::MCompleted(o),
        Err(e) => PipelineOutcomeModel::MFailed(e),
    }
}

/// The whole behaviour of one pipeline run over a connection: the ordered
/// per-statement outcomes and the final connection state. A statement whose
/// bound-parameter count is wrong is rejected locally and never sent. When
/// the backend's convention is to skip after an error (`skip`), every
/// statement after the first failure is reported as skipped, distinguishable
/// from executed-and-failed; otherwise each statement is sent and resolved
/// independently.
pub open spec fn run_pipeline(
    m: ConnectionModel,
    stmts: Seq<StatementModel>,
    skip: bool,
    failed: bool,
) -> (Seq<PipelineOutcomeModel>, ConnectionModel)
    decreases stmts.len(),
{
    if stmts.len() == 0 {
        (Seq::empty(), m)
    } else {
        let s = stmts[0];
        if failed && skip {
            let r = run_pipeline(m, stmts.drop_first(), skip, true);
            (seq![PipelineOutcomeModel::MSkipped] + r.0, r.1)
        } else if !stmt_bound_ok(s) {
            let r = run_pipeline(m, stmts.drop_first(), skip, failed);
            (seq![PipelineOutcomeModel::MFailed(Error::EncodeError)] + r.0, r.1)
        } else {
            let resp = next_response(m);
            let r = run_pipeline(step(m, s), stmts.drop_first(), skip, failed || resp is Err);
            (seq![interp_response(resp)] + r.0, r.1)
        }
    }
}

/// Every pipeline run yields exactly one outcome per statement: none is
/// ever dropped, whatever failed or was skipped along the way.
pub proof fn lemma_pipeline_outcome_count(
    m: ConnectionModel,
    stmts: Seq<StatementModel>,
    skip: bool,
    failed: bool,
)
    ensures
        run_pipeline(m, stmts, skip, failed).0.len() == stmts.len(),
    decreases stmts.len(),
{
    if stmts.len() > 0 {
        let s = stmts[0];
        if failed && skip {
            lemma_pipeline_outcome_count(m, stmts.drop_first(), skip, true);
        } else if !stmt_bound_ok(s) {
            lemma_pipeline_outcome_count(m, stmts.drop_first(), skip, failed);
        } else {
            lemma_pipeline_outcome_count(
                step(m, s),
                stmts.drop_first(),
                skip,
                failed || next_response(m) is Err,
            );
        }
    }
}

/// The response the connection hands back for the i-th statement sent from
/// state `m` on.
pub open spec fn response_at(m: ConnectionModel, i: int) -> Result<OutcomeModel, Error> {
    if 0 <= i < m.pending.len() {
        m.pending[i]
    } else {
        Err(Error::TransportError)
    }
}

proof fn lemma_response_at_step(m: ConnectionModel, s: StatementModel, j: int)
    requires
        j >= 0,
    ensures
        response_at(step(m, s), j) == response_at(m, j + 1),
{
}

/// Ordering law for a backend without a skip convention: outcome `i` is
/// exactly the reading of response `i`, for every position — so a failure
/// in one statement never disturbs or drops any later statement's outcome.
pub proof fn lemma_pipeline_order_no_skip(
    m: ConnectionModel,
    stmts: Seq<StatementModel>,
    failed: bool,
)
    requires
        forall|i: int| 0 <= i < stmts.len() ==> stmt_bound_ok(#[trigger] stmts[i]),
    ensures
        forall|i: int|
            0 <= i < stmts.len() ==> run_pipeline(m, stmts, false, failed).0[i]
                == interp_response(response_at(m, i)),
    decreases stmts.len(),
{
    if stmts.len() > 0 {
        let s = stmts[0];
        let resp = next_response(m);
        let m2 = step(m, s);
        let tail = stmts.drop_first();
        let failed2 = failed || resp is Err;
        lemma_pipeline_order_no_skip(m2, tail, failed2);
        lemma_pipeline_outcome_count(m2, tail, false, failed2);
        assert forall|i: int|
            0 <= i < stmts.len() implies run_pipeline(m, stmts, false, failed).0[i]
            == interp_response(response_at(m, i)) by {
            if i == 0 {
                assert(response_at(m, 0) == next_response(m));
            } else {
                lemma_response_at_step(m, s, i - 1);
                assert(tail[i - 1] == stmts[i]);
                assert(run_pipeline(m, stmts, false, failed).0[i] == run_pipeline(
                    m2,
                    tail,
                    false,
                    failed2,
                ).0[i - 1]);
            }
        }
    }
}

/// After a failure, a backend that skips until the next synchronization
/// point reports every remaining statement as skipped — distinguishable
/// from executed-and-failed, and never silently dropped — and consumes
/// nothing further from the connection.
pub proof fn lemma_pipeline_skip_after_failure(m: ConnectionModel, stmts: Seq<StatementModel>)
    ensures
        run_pipeline(m, stmts, true, true).0 == Seq::new(
            stmts.len(),
            |i: int| PipelineOutcomeModel::MSkipped,
        ),
        run_pipeline(m, stmts, true, true).1 == m,
    decreases stmts.len(),
{
    if stmts.len() == 0 {
        assert(run_pipeline(m, stmts, true, true).0 =~= Seq::new(
            stmts.len(),
            |i: int| PipelineOutcomeModel::MSkipped,
        ));
    } else {
        lemma_pipeline_skip_after_failure(m, stmts.drop_first());
        assert(run_pipeline(m, stmts, true, true).0 =~= Seq::new(
            stmts.len(),
            |i: int| PipelineOutcomeModel::MSkipped,
        ));
    }
}

/// The connection state after executing the same statements one at a time,
/// each as its own round trip: a well-bound statement steps the connection,
/// a statement with a bound-parameter mismatch is rejected locally and
/// never sent.
pub open spec fn run_sequential(m: ConnectionModel, stmts: Seq<StatementModel>) -> ConnectionModel
    decreases stmts.len(),
{
    if stmts.len() == 0 {
        m
    } else if stmt_bound_ok(stmts[0]) {
        run_sequential(step(m, stmts[0]), stmts.drop_first())
    } else {
        run_sequential(m, stmts.drop_first())
    }
}

/// Batching equivalence for a backend without a skip convention: one
/// pipelined round trip leaves the connection — pending responses and the
/// log of successfully executed statements, the database end-state — in
/// exactly the state that one-at-a-time execution leaves. Only the number
/// of round trips differs.
pub proof fn lemma_pipeline_matches_sequential(
    m: ConnectionModel,
    stmts: Seq<StatementModel>,
    failed: bool,
)
    ensures
        run_pipeline(m, stmts, false, failed).1 == run_sequential(m, stmts),
    decreases stmts.len(),
{
    if stmts.len() > 0 {
        let s = stmts[0];
        if !stmt_bound_ok(s) {
            lemma_pipeline_matches_sequential(m, stmts.drop_first(), failed);
        } else {
            lemma_pipeline_matches_sequential(
                step(m, s),
                stmts.drop_first(),
                failed || next_response(m) is Err,
            );
        }
    }
}

/// Batching equivalence under any skip convention, when every consumed
/// response reports success: the pipeline executes every statement, reads
/// every outcome in order, and leaves the connection exactly where
/// one-at-a-time execution leaves it.
pub proof fn lemma_pipeline_all_ok_matches_sequential(
    m: ConnectionModel,
    stmts: Seq<StatementModel>,
    skip: bool,
)
    requires
        forall|i: int| 0 <= i < stmts.len() ==> stmt_bound_ok(#[trigger] stmts[i]),
        forall|i: int| 0 <= i < stmts.len() ==> response_at(m, i) is Ok,
    ensures
        run_pipeline(m, stmts, skip, false).1 == run_sequential(m, stmts),
        forall|i: int|
            0 <= i < stmts.len() ==> run_pipeline(m, stmts, skip, false).0[i] == interp_response(
                response_at(m, i),
            ),
    decreases stmts.len(),
{
    if stmts.len() > 0 {
        let s = stmts[0];
        assert(response_at(m, 0) is Ok);
        let resp = next_response(m);
        assert(resp == response_at(m, 0));
        let m2 = step(m, s);
        let tail = stmts.drop_first();
        assert forall|i: int| 0 <= i < tail.len() implies stmt_bound_ok(#[trigger] tail[i]) by {
            assert(tail[i] == stmts[i + 1]);
        }
        assert forall|i: int| 0 <= i < tail.len() implies response_at(m2, i) is Ok by {
            lemma_response_at_step(m, s, i);
            assert(response_at(m, i + 1) is Ok);
        }
        lemma_pipeline_all_ok_matches_sequential(m2, tail, skip);
        lemma_pipeline_outcome_count(m2, tail, skip, false);
        assert forall|i: int|
            0 <= i < stmts.len() implies run_pipeline(m, stmts, skip, false).0[i]
            == interp_response(response_at(m, i)) by {
            if i > 0 {
                lemma_response_at_step(m, s, i - 1);
                assert(tail[i - 1] == stmts[i]);
                assert(run_pipeline(m, stmts, skip, false).0[i] == run_pipeline(
                    m2,
                    tail,
                    skip,
                    false,
                ).0[i - 1]);
            }
        }
    }
}

/// A fixed-capacity ordered batch of queries that executes as one network
/// round trip against a single exclusively-borrowed connection, yielding
/// per-statement outcomes in submission order. All queries in a pipeline
/// speak the same wire format as the connection they run on; the pipeline
/// provides no transactional atomicity across its batch.
pub struct Pipeline {
    queries: Vec<Query>,
    capacity: usize,
}

impl Pipeline {
    /// The statements the pipeline holds, in push order.
    pub closed spec fn stmts(&self) -> Seq<StatementModel> {
        self.queries@.map_values(|q: Query| q.stmt())
    }

    /// The fixed capacity chosen at construction.
    pub closed spec fn spec_capacity(&self) -> nat {
        self.capacity as nat
    }

    /// The pipeline's internal invariant: it holds between one statement
    /// and its capacity, and every held query is well formed.
    pub closed spec fn wf(&self) -> bool {
        1 <= self.queries@.len() <= self.capacity && (forall|i: int|
            0 <= i < self.queries@.len() ==> (#[trigger] self.queries@[i]).wf())
    }

    /// Seeds a pipeline with its first query and fixes its capacity: the
    /// greatest number of statements this pipeline will ever hold.
    pub fn from_first(first: Query, capacity: usize) -> (p: Pipeline)
        requires
            capacity >= 1,
            first.wf(),
        ensures
            p.wf(),
            p.stmts() == seq![first.stmt()],
            p.spec_capacity() == capacity,
    {
        let ghost fs = first.stmt();
        let mut queries: Vec<Query> = Vec::new();
        queries.push(first);
        let p = Pipeline { queries, capacity };
        proof {
            assert(p.stmts() =~= seq![fs]);
        }
        p
    }

    /// How many statements the pipeline holds.
    pub fn len(&self) -> (n: usize)
        ensures
            n == self.stmts().len(),
    {
        self.queries.len()
    }

    /// The capacity fixed at construction.
    pub fn capacity(&self) -> (n: usize)
        ensures
            n == self.spec_capacity(),
    {
        self.capacity
    }

    /// Appends one query at the next free position. A full pipeline rejects
    /// the push with a capacity-exceeded error and stays unchanged: the
    /// overflow is never silent and never a panic.
    pub fn push(&mut self, q: Query) -> (r: Result<(), Error>)
        requires
            old(self).wf(),
            q.wf(),
        ensures
            final(self).wf(),
            final(self).spec_capacity() == old(self).spec_capacity(),
            old(self).stmts().len() == old(self).spec_capacity() ==> r == Err::<(), Error>(
                Error::CapacityExceeded,
            ) && final(self).stmts() == old(self).stmts(),
            old(self).stmts().len() < old(self).spec_capacity() ==> r == Ok::<(), Error>(())
                && final(self).stmts() == old(self).stmts().push(q.stmt()),
    {
        if self.queries.len() == self.capacity {
            return Err(Error::CapacityExceeded);
        }
        let ghost qs = q.stmt();
        self.queries.push(q);
        proof {
            assert(self.stmts() =~= old(self).stmts().push(qs));
        }
        Ok(())
    }

    /// Executes the whole batch over one connection in one round trip:
    /// every statement's messages are sent back-to-back, then exactly one
    /// response is read back per sent statement, in submission order. Each
    /// outcome is resolved independently: an error in one statement never
    /// drops a later statement's outcome, though a backend whose convention
    /// is to skip after an error reports later statements as skipped.
    pub fn execute<E: Executor>(self, executor: &mut E) -> (outcomes: Vec<PipelineOutcome>)
        requires
            self.wf(),
        ensures
            final(executor).skips_after_error() == old(executor).skips_after_error(),
            outcomes.deep_view() == run_pipeline(
                old(executor).model(),
                self.stmts(),
                old(executor).skips_after_error(),
                false,
            ).0,
            final(executor).model() == run_pipeline(
                old(executor).model(),
                self.stmts(),
                old(executor).skips_after_error(),
                false,
            ).1,
    {
        run_rest(self.queries, executor, false)
    }
}

/// Sends every remaining statement in order and reads back its outcome,
/// threading the already-failed flag for backends that skip after an error.
fn run_rest<E: Executor>(queries: Vec<Query>, executor: &mut E, failed: bool) -> (outcomes: Vec<
    PipelineOutcome,
>)
    requires
        forall|i: int| 0 <= i < queries@.len() ==> (#[trigger] queries@[i]).wf(),
    ensures
        final(executor).skips_after_error() == old(executor).skips_after_error(),
        outcomes.deep_view() == run_pipeline(
            old(executor).model(),
            queries@.map_values(|q: Query| q.stmt()),
            old(executor).skips_after_error(),
            failed,
        ).0,
        final(executor).model() == run_pipeline(
            old(executor).model(),
            queries@.map_values(|q: Query| q.stmt()),
            old(executor).skips_after_error(),
            failed,
        ).1,
    decreases queries@.len(),
{
    let ghost m0 = old(executor).model();
    let ghost sm = queries@.map_values(|q: Query| q.stmt());
    let mut queries = queries;
    if queries.len() == 0 {
        let outcomes: Vec<PipelineOutcome> = Vec::new();
        proof {
            assert(outcomes.deep_view() =~= run_pipeline(
                m0,
                sm,
                old(executor).skips_after_error(),
                failed,
            ).0);
        }
        return outcomes;
    }
    let q = queries.remove(0);
    proof {
        assert(queries@.map_values(|q: Query| q.stmt()) =~= sm.drop_first());
        assert(sm[0] == q.stmt());
    }
    let skip = executor.skip_convention();
    if failed && skip {
        let mut rest = run_rest(queries, executor, true);
        rest.insert(0, PipelineOutcome::Skipped);
        proof {
            assert(rest.deep_view() =~= seq![PipelineOutcomeModel::MSkipped] + run_pipeline(
                m0,
                sm.drop_first(),
                old(executor).skips_after_error(),
                true,
            ).0);
        }
        return rest;
    }
    if !q.is_fully_bound() {
        let mut rest = run_rest(queries, executor, failed);
        rest.insert(0, PipelineOutcome::Failed(Error::EncodeError));
        proof {
            assert(rest.deep_view() =~= seq![PipelineOutcomeModel::MFailed(Error::EncodeError)]
                + run_pipeline(
                m0,
                sm.drop_first(),
                old(executor).skips_after_error(),
                failed,
            ).0);
        }
        return rest;
    }
    match executor.raw_execute(q.sql.as_str(), q.params) {
        Ok(o) => {
            let ghost om = o@;
            let mut rest = run_rest(queries, executor, failed);
            rest.insert(0, PipelineOutcome::Completed(o));
            proof {
                assert(rest.deep_view() =~= seq![PipelineOutcomeModel::MCompleted(om)]
                    + run_pipeline(
                    step(m0, sm[0]),
                    sm.drop_first(),
                    old(executor).skips_after_error(),
                    failed,
                ).0);
            }
            rest
        },
        Err(e) => {
            let mut rest = run_rest(queries, executor, true);
            rest.insert(0, PipelineOutcome::Failed(e));
            proof {
                assert(rest.deep_view() =~= seq![PipelineOutcomeModel::MFailed(e)] + run_pipeline(
                    step(m0, sm[0]),
                    sm.drop_first(),
                    old(executor).skips_after_error(),
                    true,
                ).0);
            }
            rest
        },
    }
}

} // verus!
