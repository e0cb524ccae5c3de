use vstd::prelude::*;
use crate::encode::Encode;
use crate::error::Error;
use crate::executor::{
    copy_text, next_response, step, Executor, OutcomeModel, StatementModel, StatementOutcome,
};
use crate::params::ParameterBuffer;
use crate::row::{FromRow, Row};
use crate::value::{spec_encode, value_model_wf, ValueModel};

verus! {

/// Whether a character can begin the index of a positional placeholder.
pub open spec fn is_digit_char(c: char) -> bool {
    48 <= c as u32 <= 57
}

/// How many positional placeholders (`$1`, `$2`, ...) occur in the first
/// `n` characters of a statement: positions where a dollar sign is
/// immediately followed by a digit.
pub open spec fn placeholder_count_upto(s: Seq<char>, n: int) -> nat
    decreases n,
{
    if n <= 0 || n > s.len() {
        0
    } else {
        placeholder_count_upto(s, n - 1) + if s[n - 1] == '$' && n < s.len() && is_digit_char(
            s[n],
        ) {
            1nat
        } else {
            0nat
        }
    }
}

/// How many positional placeholders a statement's text declares.
pub open spec fn spec_placeholder_count(s: Seq<char>) -> nat {
    placeholder_count_upto(s, s.len() as int)
}

/// A single SQL statement paired with its positional parameters. Created by
/// [`query`], grown one parameter at a time by [`Query::bind`], and consumed
/// exactly once by an execution call or by being pushed into a pipeline:
/// every consumer takes it by value, so a statement cannot be executed twice
/// without being rebuilt.
pub struct Query {
    pub sql: String,
    pub params: ParameterBuffer,
}

/// Constructs a query from raw SQL, with no parameters bound yet.
pub fn query(sql: &str) -> (q: Query)
    ensures
        q.sql@ == sql@,
        q.params@ == Seq::<Seq<u8>>::empty(),
        q.wf(),
{
    Query { sql: copy_text(sql), params: ParameterBuffer::new() }
}

impl Query {
    /// The query's internal invariant: its parameter buffer is well formed.
    pub open spec fn wf(&self) -> bool {
        self.params.wf()
    }

    /// The statement this query sends over the wire.
    pub open spec fn stmt(&self) -> StatementModel {
        StatementModel { sql: self.sql@, params: self.params@ }
    }

    /// The bound-parameter count matches the placeholder count the SQL text
    /// declares. Executing a query for which this does not hold is a
    /// contract violation, rejected observably with an encode error.
    pub open spec fn fully_bound(&self) -> bool {
        self.params@.len() == spec_placeholder_count(self.sql@)
    }

    /// Binds one value: appends its binary encoding at the next positional
    /// slot and returns the same logical query. Only types in the backend's
    /// supported mapping can be bound, so a wrong parameter type is a
    /// compile error, never a runtime mismatch.
    pub fn bind<T: Encode>(self, value: T) -> (q: Query)
        requires
            self.wf(),
            value_model_wf(value.as_value()),
        ensures
            q.wf(),
            q.sql@ == self.sql@,
            q.params@ == self.params@.push(spec_encode(value.as_value())),
    {
        let v = value.to_value();
        let mut q = self;
        q.params.push_value(&v);
        q
    }

    /// The number of positional placeholders the SQL text declares.
    pub fn placeholder_count(&self) -> (n: usize)
        ensures
            n == spec_placeholder_count(self.sql@),
    {
        let s = self.sql.as_str();
        let len = s.unicode_len();
        let mut i: usize = 0;
        let mut n: usize = 0;
        while i < len
            invariant
                i <= len,
                n <= i,
                len == s@.len(),
                s@ == self.sql@,
                n == placeholder_count_upto(self.sql@, i as int),
            decreases len - i,
        {
            let c = s.get_char(i);
            if c == '$' && i + 1 < len {
                let d = s.get_char(i + 1);
                let code = d as u32;
                if 48 <= code && code <= 57 {
                    n += 1;
                }
            }
            i += 1;
        }
        n
    }

    /// Whether the number of bound parameters equals the number of
    /// positional placeholders.
    pub fn is_fully_bound(&self) -> (b: bool)
        requires
            self.wf(),
        ensures
            b == self.fully_bound(),
    {
        let declared = self.placeholder_count();
        self.params.len() == declared
    }

    /// Sends the statement, discards any rows, and returns the affected-row
    /// count. A bound-parameter mismatch is rejected before anything is
    /// sent.
    pub fn execute<E: Executor>(self, executor: &mut E) -> (r: Result<u64, Error>)
        requires
            self.wf(),
        ensures
            final(executor).skips_after_error() == old(executor).skips_after_error(),
            !self.fully_bound() ==> r == Err::<u64, Error>(Error::EncodeError) && final(executor).model() == old(executor).model(),
            self.fully_bound() ==> final(executor).model() == step(
                old(executor).model(),
                self.stmt(),
            ) && r == interp_execute(next_response(old(executor).model())),
    {
        if !self.is_fully_bound() {
            return Err(Error::EncodeError);
        }
        match executor.raw_execute(self.sql.as_str(), self.params) {
            Ok(StatementOutcome::Affected(n)) => Ok(n),
            Ok(StatementOutcome::ResultRows(_)) => Ok(0),
            Err(e) => Err(e),
        }
    }
}

/// What `execute` returns for a given backend response: the affected-row
/// count, zero for a statement that returned rows instead, or the error.
pub open spec fn interp_execute(resp: Result<OutcomeModel, Error>) -> Result<u64, Error> {
    match resp {
        Ok(OutcomeModel::MAffected(n)) => Ok(n),
        Ok(OutcomeModel::MResultRows(_)) => Ok(0),
        Err(e) => Err(e),
    }
}

/// The rows a backend response carries: none for an affected-row count,
/// or the error the response failed with.
pub open spec fn response_rows(resp: Result<OutcomeModel, Error>) -> Result<
    Seq<Seq<ValueModel>>,
    Error,
> {
    match resp {
        Ok(OutcomeModel::MAffected(_)) => Ok(Seq::empty()),
        Ok(OutcomeModel::MResultRows(rows)) => Ok(rows),
        Err(e) => Err(e),
    }
}

/// Decoding every row from position `i` on into the target type; the first
/// row that fails to decode fails the whole result.
pub open spec fn decode_all_from<T: FromRow>(rows: Seq<Seq<ValueModel>>, i: int) -> Result<
    Seq<T>,
    Error,
>
    decreases rows.len() - i,
{
    if i < 0 || i >= rows.len() {
        Ok(Seq::empty())
    } else {
        match T::decode_spec(rows[i]) {
            Err(e) => Err(e),
            Ok(v) => match decode_all_from::<T>(rows, i + 1) {
                Err(e) => Err(e),
                Ok(rest) => Ok(seq![v] + rest),
            },
        }
    }
}

/// What `fetch_all` returns for a given backend response.
pub open spec fn interp_fetch_all<T: FromRow>(resp: Result<OutcomeModel, Error>) -> Result<
    Seq<T>,
    Error,
> {
    match response_rows(resp) {
        Err(e) => Err(e),
        Ok(rows) => decode_all_from::<T>(rows, 0),
    }
}

/// What `fetch_optional` returns for a given backend response: `None` over
/// zero rows, otherwise the first row decoded. More than one returned row is
/// not rejected at this layer: the first row wins.
pub open spec fn interp_fetch_optional<T: FromRow>(resp: Result<OutcomeModel, Error>) -> Result<
    Option<T>,
    Error,
> {
    match response_rows(resp) {
        Err(e) => Err(e),
        Ok(rows) => if rows.len() == 0 {
            Ok(None)
        } else {
            match T::decode_spec(rows[0]) {
                Err(e) => Err(e),
                Ok(v) => Ok(Some(v)),
            }
        },
    }
}

/// What `fetch_one` returns for a given backend response: a no-rows error
/// over zero rows, otherwise the first row decoded.
pub open spec fn interp_fetch_one<T: FromRow>(resp: Result<OutcomeModel, Error>) -> Result<
    T,
    Error,
> {
    match response_rows(resp) {
        Err(e) => Err(e),
        Ok(rows) => if rows.len() == 0 {
            Err(Error::NoRows)
        } else {
            T::decode_spec(rows[0])
        },
    }
}

/// First-row law: over zero returned rows `fetch_one` yields the no-rows
/// error and `fetch_optional` yields nothing; over one or more rows
/// `fetch_one` yields the first row decoded.
pub proof fn lemma_first_row_semantics<T: FromRow>(rows: Seq<Seq<ValueModel>>)
    ensures
        rows.len() == 0 ==> interp_fetch_one::<T>(Ok(OutcomeModel::MResultRows(rows))) == Err::<
            T,
            Error,
        >(Error::NoRows),
        rows.len() == 0 ==> interp_fetch_optional::<T>(Ok(OutcomeModel::MResultRows(rows))) == Ok::<
            Option<T>,
            Error,
        >(None),
        rows.len() >= 1 ==> interp_fetch_one::<T>(Ok(OutcomeModel::MResultRows(rows)))
            == T::decode_spec(rows[0]),
{
}

/// Prefixing an already-decoded run of values onto the rest of a decode
/// result.
pub open spec fn with_prefix<T>(prefix: Seq<T>, rest: Result<Seq<T>, Error>) -> Result<
    Seq<T>,
    Error,
> {
    match rest {
        Ok(s) => Ok(prefix + s),
        Err(e) => Err(e),
    }
}

proof fn lemma_with_prefix_empty<T>(x: Result<Seq<T>, Error>)
    ensures
        with_prefix(Seq::empty(), x) == x,
{
    match x {
        Ok(s) => {
            assert(Seq::<T>::empty() + s =~= s);
        },
        Err(_) => {},
    }
}

proof fn lemma_with_prefix_push<T>(prefix: Seq<T>, v: T, x: Result<Seq<T>, Error>)
    ensures
        with_prefix(prefix, with_prefix(seq![v], x)) == with_prefix(prefix.push(v), x),
{
    match x {
        Ok(s) => {
            assert(prefix + (seq![v] + s) =~= prefix.push(v) + s);
        },
        Err(_) => {},
    }
}

impl Query {
    /// Sends the statement and eagerly decodes every returned row, in order.
    /// The whole call fails on a transport failure or on the first row that
    /// fails to decode; rows decode independently otherwise.
    pub fn fetch_all<T: FromRow, E: Executor>(self, executor: &mut E) -> (r: Result<Vec<T>, Error>)
        requires
            self.wf(),
        ensures
            final(executor).skips_after_error() == old(executor).skips_after_error(),
            !self.fully_bound() ==> r == Err::<Vec<T>, Error>(Error::EncodeError) && final(executor).model() == old(executor).model(),
            self.fully_bound() ==> final(executor).model() == step(
                old(executor).model(),
                self.stmt(),
            ) && (match (r, interp_fetch_all::<T>(next_response(old(executor).model()))) {
                (Ok(vs), Ok(ms)) => vs@ == ms,
                (Err(e1), Err(e2)) => e1 == e2,
                _ => false,
            }),
    {
        if !self.is_fully_bound() {
            return Err(Error::EncodeError);
        }
        let ghost resp = next_response(old(executor).model());
        let ghost m0 = old(executor).model();
        let ghost st = self.stmt();
        match executor.raw_execute(self.sql.as_str(), self.params) {
            Err(e) => Err(e),
            Ok(StatementOutcome::Affected(_)) => {
                let out: Vec<T> = Vec::new();
                proof {
                    assert(out@ =~= interp_fetch_all::<T>(resp)->Ok_0);
                }
                Ok(out)
            },
            Ok(StatementOutcome::ResultRows(rows)) => {
                let ghost rws = rows.deep_view();
                let mut out: Vec<T> = Vec::new();
                let mut i: usize = 0;
                proof {
                    lemma_with_prefix_empty(decode_all_from::<T>(rws, 0));
                }
                #[verifier::loop_isolation(false)]
                while i < rows.len()
                    invariant
                        i <= rows@.len(),
                        rws == rows.deep_view(),
                        out@.len() == i,
                        decode_all_from::<T>(rws, 0) == with_prefix(
                            out@,
                            decode_all_from::<T>(rws, i as int),
                        ),
                    decreases rows@.len() - i,
                {
                    match T::from_row(&rows[i]) {
                        Err(e) => {
                            proof {
                                assert(decode_all_from::<T>(rws, i as int) == Err::<Seq<T>, Error>(
                                    e,
                                ));
                            }
                            return Err(e);
                        },
                        Ok(v) => {
                            proof {
                                assert(decode_all_from::<T>(rws, i as int) == with_prefix(
                                    seq![v],
                                    decode_all_from::<T>(rws, i + 1),
                                ));
                                lemma_with_prefix_push(
                                    out@,
                                    v,
                                    decode_all_from::<T>(rws, i + 1),
                                );
                            }
                            out.push(v);
                        },
                    }
                    i += 1;
                }
                proof {
                    assert(decode_all_from::<T>(rws, i as int) == Ok::<Seq<T>, Error>(
                        Seq::empty(),
                    ));
                    assert(out@ + Seq::<T>::empty() =~= out@);
                }
                Ok(out)
            },
        }
    }

    /// Sends the statement and returns the first row decoded, or `None`
    /// over zero rows.
    pub fn fetch_optional<T: FromRow, E: Executor>(self, executor: &mut E) -> (r: Result<
        Option<T>,
        Error,
    >)
        requires
            self.wf(),
        ensures
            final(executor).skips_after_error() == old(executor).skips_after_error(),
            !self.fully_bound() ==> r == Err::<Option<T>, Error>(Error::EncodeError) && final(executor).model() == old(executor).model(),
            self.fully_bound() ==> final(executor).model() == step(
                old(executor).model(),
                self.stmt(),
            ) && r == interp_fetch_optional::<T>(next_response(old(executor).model())),
    {
        if !self.is_fully_bound() {
            return Err(Error::EncodeError);
        }
        match executor.raw_execute(self.sql.as_str(), self.params) {
            Err(e) => Err(e),
            Ok(StatementOutcome::Affected(_)) => Ok(None),
            Ok(StatementOutcome::ResultRows(rows)) => {
                if rows.len() == 0 {
                    Ok(None)
                } else {
                    match T::from_row(&rows[0]) {
                        Err(e) => Err(e),
                        Ok(v) => Ok(Some(v)),
                    }
                }
            },
        }
    }

    /// Sends the statement and returns the lazy sequence of its result
    /// rows, each decoded independently as it is pulled. The connection has
    /// fully stepped by the time this returns, so dropping the stream after
    /// consuming any prefix of its rows leaves the connection exactly where
    /// a full drain would, and cannot corrupt later executions.
    pub fn fetch<T: FromRow, E: Executor>(self, executor: &mut E) -> (s: FetchStream<T>)
        requires
            self.wf(),
        ensures
            final(executor).skips_after_error() == old(executor).skips_after_error(),
            s.pos == 0,
            !self.fully_bound() ==> final(executor).model() == old(executor).model() && s.rows@.len()
                == 0 && s.trailing == Some(Error::EncodeError),
            self.fully_bound() ==> final(executor).model() == step(
                old(executor).model(),
                self.stmt(),
            ) && (match next_response(old(executor).model()) {
                Ok(OutcomeModel::MResultRows(rs)) => s.rows.deep_view() == rs && s.trailing
                    is None,
                Ok(OutcomeModel::MAffected(_)) => s.rows@.len() == 0 && s.trailing is None,
                Err(e) => s.rows@.len() == 0 && s.trailing == Some(e),
            }),
    {
        if !self.is_fully_bound() {
            return FetchStream {
                rows: Vec::new(),
                pos: 0,
                trailing: Some(Error::EncodeError),
                target: core::marker::PhantomData,
            };
        }
        match executor.raw_execute(self.sql.as_str(), self.params) {
            Err(e) => FetchStream {
                rows: Vec::new(),
                pos: 0,
                trailing: Some(e),
                target: core::marker::PhantomData,
            },
            Ok(StatementOutcome::Affected(_)) => FetchStream {
                rows: Vec::new(),
                pos: 0,
                trailing: None,
                target: core::marker::PhantomData,
            },
            Ok(StatementOutcome::ResultRows(rows)) => FetchStream {
                rows,
                pos: 0,
                trailing: None,
                target: core::marker::PhantomData,
            },
        }
    }

    /// Sends the statement and returns the first row decoded; zero rows is
    /// a no-rows error.
    pub fn fetch_one<T: FromRow, E: Executor>(self, executor: &mut E) -> (r: Result<T, Error>)
        requires
            self.wf(),
        ensures
            final(executor).skips_after_error() == old(executor).skips_after_error(),
            !self.fully_bound() ==> r == Err::<T, Error>(Error::EncodeError) && final(executor).model() == old(executor).model(),
            self.fully_bound() ==> final(executor).model() == step(
                old(executor).model(),
                self.stmt(),
            ) && r == interp_fetch_one::<T>(next_response(old(executor).model())),
    {
        if !self.is_fully_bound() {
            return Err(Error::EncodeError);
        }
        match executor.raw_execute(self.sql.as_str(), self.params) {
            Err(e) => Err(e),
            Ok(StatementOutcome::Affected(_)) => Err(Error::NoRows),
            Ok(StatementOutcome::ResultRows(rows)) => {
                if rows.len() == 0 {
                    Err(Error::NoRows)
                } else {
                    T::from_row(&rows[0])
                }
            },
        }
    }
}

/// The lazy, finite, non-restartable sequence a `fetch` yields: its rows in
/// arrival order, a cursor, and at most one trailing transport or rejection
/// error. Each pull decodes one row independently, so one row's decode
/// failure does not invalidate rows already yielded or still to come.
pub struct FetchStream<T> {
    pub rows: Vec<Row>,
    pub pos: usize,
    pub trailing: Option<Error>,
    pub target: core::marker::PhantomData<T>,
}

impl<T: FromRow> FetchStream<T> {
    /// Pulls the next element: the next row decoded, then the trailing
    /// error if the statement itself failed, then nothing.
    pub fn next(&mut self) -> (r: Option<Result<T, Error>>)
        ensures
            final(self).rows == old(self).rows,
            old(self).pos < old(self).rows@.len() ==> final(self).pos == old(self).pos + 1 && final(self).trailing == old(self).trailing && r == Some(
                T::decode_spec(old(self).rows.deep_view()[old(self).pos as int]),
            ),
            old(self).pos >= old(self).rows@.len() && old(self).trailing is Some ==> final(self).pos == old(self).pos && final(self).trailing is None && r == Some(
                Err::<T, Error>(old(self).trailing.unwrap()),
            ),
            old(self).pos >= old(self).rows@.len() && old(self).trailing is None ==> final(self).pos == old(self).pos && final(self).trailing is None && r is None,
    {
        if self.pos < self.rows.len() {
            let res = T::from_row(&self.rows[self.pos]);
            self.pos = self.pos + 1;
            Some(res)
        } else {
            let t = self.trailing;
            self.trailing = None;
            match t {
                Some(e) => Some(Err(e)),
                None => None,
            }
        }
    }

    /// How many rows have not been pulled yet.
    pub fn rows_left(&self) -> (n: usize)
        ensures
            n == if self.pos <= self.rows@.len() {
                self.rows@.len() - self.pos
            } else {
                0
            },
    {
        if self.pos <= self.rows.len() {
            self.rows.len() - self.pos
        } else {
            0
        }
    }
}

} // verus!
