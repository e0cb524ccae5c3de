use vstd::prelude::*;
use crate::error::Error;
use crate::params::ParameterBuffer;
use crate::row::Row;
use crate::value::ValueModel;

verus! {

/// What one executed statement produced: an affected-row count, or a result
/// set of raw rows.
#[derive(Clone, Debug, PartialEq)]
pub enum StatementOutcome {
    Affected(u64),
    ResultRows(Vec<Row>),
}

/// Mathematical model of a statement outcome.
pub enum OutcomeModel {
    MAffected(u64),
    MResultRows(Seq<Seq<ValueModel>>),
}

impl View for StatementOutcome {
    type V = OutcomeModel;

    open spec fn view(&self) -> OutcomeModel {
        match self {
            StatementOutcome::Affected(n) => OutcomeModel::MAffected(*n),
            StatementOutcome::ResultRows(rows) => OutcomeModel::MResultRows(rows.deep_view()),
        }
    }
}

/// Model of a backend response: an outcome, or the error that the statement
/// (or the connection) failed with.
pub open spec fn response_model(r: Result<StatementOutcome, Error>) -> Result<
    OutcomeModel,
    Error,
> {
    match r {
        Ok(o) => Ok(o@),
        Err(e) => Err(e),
    }
}

/// One statement as it went over the wire: its SQL text and its positional
/// parameter encodings, in bind order.
#[verifier::ext_equal]
pub struct StatementModel {
    pub sql: Seq<char>,
    pub params: Seq<Seq<u8>>,
}

/// Mathematical model of a connection: the responses it still has to hand
/// back, in arrival order, and the log of statements the backend has
/// executed successfully, in send order.
#[verifier::ext_equal]
pub struct ConnectionModel {
    pub pending: Seq<Result<OutcomeModel, Error>>,
    pub log: Seq<StatementModel>,
}

/// The response the connection hands back for the next statement sent. A
/// connection with nothing left to say has failed as a transport.
pub open spec fn next_response(m: ConnectionModel) -> Result<OutcomeModel, Error> {
    if m.pending.len() > 0 {
        m.pending[0]
    } else {
        Err(Error::TransportError)
    }
}

/// The connection state after one statement is sent: the front response is
/// consumed, and the statement joins the executed log exactly when its
/// response reports success.
pub open spec fn step(m: ConnectionModel, s: StatementModel) -> ConnectionModel {
    ConnectionModel {
        pending: if m.pending.len() > 0 {
            m.pending.drop_first()
        } else {
            m.pending
        },
        log: if next_response(m) is Ok {
            m.log.push(s)
        } else {
            m.log
        },
    }
}

/// The asynchronous capability a live connection (or open transaction)
/// exposes: accept one parameterized statement and hand back its response.
/// The handle is exclusively borrowed for the duration of one send, so
/// concurrent executions against the same connection are serialized and
/// never interleaved at the wire level. Every implementation describes its
/// behaviour through `model`: sending consumes exactly the front pending
/// response and logs the statement exactly on success.
pub trait Executor: Sized {
    /// The mathematical state of this connection.
    spec fn model(&self) -> ConnectionModel;

    /// The backend's wire convention: whether, after a failed statement, the
    /// backend skips execution of subsequent batched statements until the
    /// next synchronization point.
    spec fn skips_after_error(&self) -> bool;

    /// Sends one statement and reads back its response.
    fn raw_execute(&mut self, sql: &str, params: ParameterBuffer) -> (r: Result<
        StatementOutcome,
        Error,
    >)
        ensures
            response_model(r) == next_response(old(self).model()),
            final(self).model() == step(
                old(self).model(),
                StatementModel { sql: sql@, params: params@ },
            ),
            final(self).skips_after_error() == old(self).skips_after_error(),
    ;

    /// The backend's skip convention, as a runtime value.
    fn skip_convention(&self) -> (b: bool)
        ensures
            b == self.skips_after_error(),
    ;
}

/// One statement as recorded in a scripted connection's executed log.
pub struct AppliedStatement {
    pub sql: String,
    pub params: ParameterBuffer,
}

impl View for AppliedStatement {
    type V = StatementModel;

    open spec fn view(&self) -> StatementModel {
        StatementModel { sql: self.sql@, params: self.params@ }
    }
}

impl DeepView for AppliedStatement {
    type V = StatementModel;

    open spec fn deep_view(&self) -> StatementModel {
        self.view()
    }
}

/// The pending responses a script provides, in order.
pub open spec fn script_model(script: Seq<Result<StatementOutcome, Error>>) -> Seq<
    Result<OutcomeModel, Error>,
> {
    script.map_values(|r: Result<StatementOutcome, Error>| response_model(r))
}

/// A connection whose responses are fixed in advance: the in-memory stand-in
/// for a live backend. It answers each statement with the next scripted
/// response and keeps the log of statements that executed successfully, so
/// tests and proofs can observe the database end-state.
pub struct ScriptedConnection {
    script: Vec<Result<StatementOutcome, Error>>,
    applied: Vec<AppliedStatement>,
    skip_mode: bool,
}

impl ScriptedConnection {
    /// A fresh connection that will answer with `script`, for a backend
    /// whose skip convention is `skip_mode`.
    pub fn new(script: Vec<Result<StatementOutcome, Error>>, skip_mode: bool) -> (c:
        ScriptedConnection)
        ensures
            c.model() == (ConnectionModel { pending: script_model(script@), log: Seq::empty() }),
            c.skips_after_error() == skip_mode,
    {
        let c = ScriptedConnection { script, applied: Vec::new(), skip_mode };
        proof {
            assert(c.model() =~= ConnectionModel {
                pending: script_model(c.script@),
                log: Seq::empty(),
            });
        }
        c
    }

    /// The statements the backend has executed successfully, in send order.
    pub fn applied(&self) -> (log: &Vec<AppliedStatement>)
        ensures
            log.deep_view() == self.model().log,
    {
        &self.applied
    }

    /// How many responses the connection still holds.
    pub fn remaining(&self) -> (n: usize)
        ensures
            n == self.model().pending.len(),
    {
        self.script.len()
    }
}

impl Executor for ScriptedConnection {
    closed spec fn model(&self) -> ConnectionModel {
        ConnectionModel { pending: script_model(self.script@), log: self.applied.deep_view() }
    }

    closed spec fn skips_after_error(&self) -> bool {
        self.skip_mode
    }

    fn raw_execute(&mut self, sql: &str, params: ParameterBuffer) -> (r: Result<
        StatementOutcome,
        Error,
    >) {
        let ghost m0 = old(self).model();
        let ghost s = StatementModel { sql: sql@, params: params@ };
        if self.script.len() == 0 {
            proof {
                assert(step(m0, s) =~= m0);
            }
            return Err(Error::TransportError);
        }
        let r = self.script.remove(0);
        proof {
            assert(script_model(self.script@) =~= m0.pending.drop_first());
            assert(response_model(r) == m0.pending[0]);
        }
        if r.is_ok() {
            let recorded = AppliedStatement { sql: copy_text(sql), params };
            self.applied.push(recorded);
            proof {
                assert(self.applied.deep_view() =~= m0.log.push(s));
            }
        }
        proof {
            assert(self.model() =~= step(m0, s));
        }
        r
    }

    fn skip_convention(&self) -> (b: bool) {
        self.skip_mode
    }
}

/// An owned copy of a borrowed piece of SQL text.
pub fn copy_text(s: &str) -> (r: String)
    ensures
        r@ == s@,
{
    String::from_str(s)
}

} // verus!
