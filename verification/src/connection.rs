//! Connection parameters and the state machine of a database connection.
//!
//! The network session itself lives outside this library: a driver performs the session
//! calls the methods here ask for and hands their outcomes back, and these methods decide
//! what state the connection is in, which operations it accepts, what it returns and which
//! errors it reports.
use vstd::prelude::*;

use std::collections::VecDeque;

use crate::error::MgError;
use crate::text::contains_nul;

verus! {

/// Determines whether a secure SSL TCP/IP connection will be negotiated with the server.
#[derive(Debug, PartialEq, Eq, Clone, Copy, Structural)]
pub enum SSLMode {
    /// Only try a non-SSL connection.
    Disable,
    /// Only try a SSL connection.
    Require,
}

/// The code of an SSL mode in the C client library.
pub fn sslmode_to_c(sslmode: &SSLMode) -> (r: u32)
    ensures
        *sslmode == SSLMode::Disable ==> r == 0,
        *sslmode == SSLMode::Require ==> r == 1,
{
    match sslmode {
        SSLMode::Disable => 0,
        SSLMode::Require => 1,
    }
}

/// Parameters for connecting to database. Validation of parameters is performed while
/// connecting.
pub struct ConnectParams {
    /// Port number to connect to at the server host. Default port is 7687.
    pub port: u16,
    /// DNS resolvable name of host to connect to. Exactly one of host and address
    /// parameters must be specified.
    pub host: Option<String>,
    /// Numeric IP address of host to connect to.
    pub address: Option<String>,
    /// Username to connect as.
    pub username: Option<String>,
    /// Password to be used if the server demands password authentication.
    pub password: Option<String>,
    /// Alternate name and version of the client to send to server. Default is
    /// "MemgraphBolt/0.1".
    pub client_name: String,
    /// Whether a secure SSL TCP/IP connection will be negotiated with the server. Default
    /// value is `SSLMode::Require`.
    pub sslmode: SSLMode,
    /// File name of the client SSL certificate.
    pub sslcert: Option<String>,
    /// Location of the secret key used for the client certificate.
    pub sslkey: Option<String>,
    /// Initial value of `lazy` field, defaults to true.
    pub lazy: bool,
    /// Initial value of `autocommit` field, defaults to false.
    pub autocommit: bool,
}

impl Default for ConnectParams {
    fn default() -> (r: Self)
        ensures
            r.port == 7687,
            r.host is None,
            r.address is None,
            r.username is None,
            r.password is None,
            r.client_name@ == "MemgraphBolt/0.1"@,
            r.sslmode == SSLMode::Require,
            r.sslcert is None,
            r.sslkey is None,
            r.lazy,
            !r.autocommit,
    {
        ConnectParams {
            port: 7687,
            host: None,
            address: None,
            username: None,
            password: None,
            client_name: String::from_str("MemgraphBolt/0.1"),
            sslmode: SSLMode::Require,
            sslcert: None,
            sslkey: None,
            lazy: true,
            autocommit: false,
        }
    }
}

/// Representation of current connection status.
#[derive(Debug, PartialEq, Eq, Clone, Copy, Structural)]
pub enum ConnectionStatus {
    /// Connection is ready to start executing.
    Ready,
    /// Connection is inside a transaction and ready to start executing.
    InTransaction,
    /// Connection has executed a query and no record has been fetched yet.
    Executing,
    /// Connection is fetching the records of a query.
    Fetching,
    /// Connection is closed and can no longer be used.
    Closed,
    /// There was an error with current session and connection is no longer usable.
    Bad,
}

/// How the status is named in error and panic messages.
pub open spec fn status_text(s: ConnectionStatus) -> Seq<char> {
    match s {
        ConnectionStatus::Ready => "ready"@,
        ConnectionStatus::InTransaction => "in transaction"@,
        ConnectionStatus::Executing => "executing"@,
        ConnectionStatus::Fetching => "fetching"@,
        ConnectionStatus::Closed => "connection is closed"@,
        ConnectionStatus::Bad => "connection is bad"@,
    }
}

/// How the status is named in error and panic messages.
pub fn describe_status(s: ConnectionStatus) -> (r: &'static str)
    ensures
        r@ == status_text(s),
{
    match s {
        ConnectionStatus::Ready => "ready",
        ConnectionStatus::InTransaction => "in transaction",
        ConnectionStatus::Executing => "executing",
        ConnectionStatus::Fetching => "fetching",
        ConnectionStatus::Closed => "connection is closed",
        ConnectionStatus::Bad => "connection is bad",
    }
}

/// Whether `e` is the error that refuses operation `op` in a state named `state`.
pub open spec fn is_state_error(e: MgError, op: Seq<char>, state: Seq<char>) -> bool {
    e matches MgError::InvalidState { operation, state: st } && operation@ == op && st@ == state
}

/// Whether `e` is the connection error carrying the session's message `m`.
pub open spec fn is_session_error(e: MgError, m: String) -> bool {
    e matches MgError::Connection(msg) && msg@ == m@
}

/// Whether a query may be started: the connection is ready or inside a transaction.
pub open spec fn can_execute(s: ConnectionStatus) -> bool {
    s == ConnectionStatus::Ready || s == ConnectionStatus::InTransaction
}

/// Whether records may be fetched: a query has been executed and not yet exhausted.
pub open spec fn can_fetch(s: ConnectionStatus) -> bool {
    s == ConnectionStatus::Executing || s == ConnectionStatus::Fetching
}

/// What a session query that returns no records (`BEGIN`, `COMMIT`, `ROLLBACK` or a query
/// whose records are discarded) came to.
pub enum QueryOutcome {
    /// The query ran and all its results were pulled.
    Completed,
    /// The session refused to run the query; the message is the session's.
    RunFailed(String),
    /// The query ran but pulling its results failed; the message is the session's.
    PullFailed(String),
}

/// What one pull from the session of a lazily executed query gave.
pub enum PullOutcome<R, S> {
    /// The next record.
    Row(R),
    /// No more records; the query's summary.
    Summary(S),
    /// Pulling failed; the message is the session's.
    Failed(String),
}

/// What `fetchone` needs next.
pub enum FetchStep<R> {
    /// The next record, taken from the records already pulled.
    Row(R),
    /// All records have been fetched.
    Exhausted,
    /// The next record must be pulled from the session (lazy mode).
    Pull,
}

/// The abstract state of a connection.
pub struct ConnectionView<R, S> {
    pub lazy: bool,
    pub autocommit: bool,
    pub in_transaction: bool,
    pub status: ConnectionStatus,
    pub arraysize: u32,
    /// Records pulled by a non-lazy query and not yet fetched, next first.
    pub pending: Seq<R>,
    pub summary: Option<S>,
}

impl<R, S> ConnectionView<R, S> {
    /// The consistency every connection state keeps: a ready connection has no pending
    /// transaction and an in-transaction one has; autocommit never leaves a transaction
    /// open; pulled records wait only while a non-lazy query is being fetched.
    pub open spec fn well_formed(self) -> bool {
        &&& self.status == ConnectionStatus::Ready ==> !self.in_transaction
        &&& self.status == ConnectionStatus::InTransaction ==> self.in_transaction
        &&& self.autocommit ==> !self.in_transaction
        &&& (self.lazy || !can_fetch(self.status)) ==> self.pending.len() == 0
    }

    /// The status a connection returns to once a query's records are exhausted.
    pub open spec fn idle_status(self) -> ConnectionStatus {
        if self.in_transaction {
            ConnectionStatus::InTransaction
        } else {
            ConnectionStatus::Ready
        }
    }
}

/// The records of a vector, in order, as a queue.
fn into_queue<R>(records: Vec<R>) -> (queue: VecDeque<R>)
    ensures
        queue@ == records@,
{
    let mut records = records;
    let mut queue: VecDeque<R> = VecDeque::new();
    let ghost all = records@;
    while records.len() > 0
        invariant
            records@.len() <= all.len(),
            queue@ == all.subrange(records@.len() as int, all.len() as int),
            records@ == all.subrange(0, records@.len() as int),
        decreases records@.len(),
    {
        let ghost k = records@.len();
        let x = records.pop().unwrap();
        queue.push_front(x);
        assert(queue@ =~= all.subrange(k - 1, all.len() as int));
        assert(records@ =~= all.subrange(0, k - 1));
    }
    assert(queue@ =~= all);
    queue
}

/// Encapsulates the state of a database connection; `R` is the record type and `S` the
/// type of query summaries.
pub struct Connection<R, S> {
    lazy: bool,
    autocommit: bool,
    in_transaction: bool,
    status: ConnectionStatus,
    results: VecDeque<R>,
    arraysize: u32,
    summary: Option<S>,
}

impl<R, S> View for Connection<R, S> {
    type V = ConnectionView<R, S>;

    closed spec fn view(&self) -> ConnectionView<R, S> {
        ConnectionView {
            lazy: self.lazy,
            autocommit: self.autocommit,
            in_transaction: self.in_transaction,
            status: self.status,
            arraysize: self.arraysize,
            pending: self.results@,
            summary: self.summary,
        }
    }
}

impl<R, S> Connection<R, S> {
    #[verifier::type_invariant]
    spec fn inv(self) -> bool {
        self@.well_formed()
    }

    /// Creates the state of a connection once the session has been opened (`session` is
    /// `Ok`), or reports the session's error.
    pub fn connect(params: &ConnectParams, session: Result<(), String>) -> (r: Result<Self, MgError>)
        ensures
            session is Ok <==> r is Ok,
            r matches Ok(c) ==> c@ == (ConnectionView::<R, S> {
                lazy: params.lazy,
                autocommit: params.autocommit,
                in_transaction: false,
                status: ConnectionStatus::Ready,
                arraysize: 1,
                pending: Seq::empty(),
                summary: None,
            }),
            r matches Err(e) ==> session matches Err(m) && is_session_error(e, m),
    {
        match session {
            Ok(()) => Ok(
                Connection {
                    lazy: params.lazy,
                    autocommit: params.autocommit,
                    in_transaction: false,
                    status: ConnectionStatus::Ready,
                    results: VecDeque::new(),
                    arraysize: 1,
                    summary: None,
                },
            ),
            Err(m) => Err(MgError::new(m)),
        }
    }

    /// Whether the connection executes lazily: if not, all records of a query are pulled
    /// when it is executed.
    pub fn lazy(&self) -> (r: bool)
        ensures
            r == self@.lazy,
    {
        self.lazy
    }

    /// Whether all queries are committed automatically; if not, queries run inside a
    /// transaction that `commit` or `rollback` ends.
    pub fn autocommit(&self) -> (r: bool)
        ensures
            r == self@.autocommit,
    {
        self.autocommit
    }

    /// Default amount of rows to get fetched when calling `fetchmany`; initially `1`.
    pub fn arraysize(&self) -> (r: u32)
        ensures
            r == self@.arraysize,
    {
        self.arraysize
    }

    /// Whether the connection is currently inside a transaction.
    pub fn in_transaction(&self) -> (r: bool)
        ensures
            r == self@.in_transaction,
    {
        self.in_transaction
    }

    /// Current connection status.
    pub fn status(&self) -> (r: ConnectionStatus)
        ensures
            r == self@.status,
    {
        self.status
    }

    /// The summary of the last query, present once all its records have been fetched.
    pub fn summary(&self) -> (r: Option<&S>)
        ensures
            r == match self@.summary {
                Some(s) => Some(&s),
                None => None::<&S>,
            },
    {
        match &self.summary {
            Some(s) => Some(s),
            None => None,
        }
    }

    /// Sets whether the connection executes lazily; only a ready connection accepts it.
    pub fn set_lazy(&mut self, lazy: bool)
        requires
            old(self)@.status == ConnectionStatus::Ready,
        ensures
            final(self)@ == (ConnectionView { lazy, ..old(self)@ }),
    {
        proof {
            use_type_invariant(&*self);
        }
        self.lazy = lazy;
    }

    /// Sets whether queries are committed automatically; only a ready connection accepts
    /// it.
    pub fn set_autocommit(&mut self, autocommit: bool)
        requires
            old(self)@.status == ConnectionStatus::Ready,
        ensures
            final(self)@ == (ConnectionView { autocommit, ..old(self)@ }),
    {
        proof {
            use_type_invariant(&*self);
        }
        self.autocommit = autocommit;
    }

    /// Sets the default amount of rows `fetchmany` fetches.
    pub fn set_arraysize(&mut self, arraysize: u32)
        ensures
            final(self)@ == (ConnectionView { arraysize, ..old(self)@ }),
    {
        proof {
            use_type_invariant(&*self);
        }
        self.arraysize = arraysize;
    }

    /// Moves to `status` with `in_transaction` in one step.
    fn set_transaction_status(&mut self, status: ConnectionStatus, in_transaction: bool)
        requires
            (ConnectionView { status, in_transaction, ..old(self)@ }).well_formed(),
        ensures
            final(self)@ == (ConnectionView { status, in_transaction, ..old(self)@ }),
    {
        proof {
            use_type_invariant(&*self);
        }
        let mut results: VecDeque<R> = VecDeque::new();
        std::mem::swap(&mut results, &mut self.results);
        let mut summary: Option<S> = None;
        std::mem::swap(&mut summary, &mut self.summary);
        *self = Connection {
            lazy: self.lazy,
            autocommit: self.autocommit,
            in_transaction,
            status,
            results,
            arraysize: self.arraysize,
            summary,
        };
    }

    /// Decides whether `execute` may start; `Ok(true)` asks the driver to open a
    /// transaction first (with `BEGIN`), because autocommit is off and none is open.
    pub fn execute_start(&self) -> (r: Result<bool, MgError>)
        ensures
            r is Ok <==> can_execute(self@.status),
            r matches Ok(b) ==> b == (!self@.autocommit && self@.status == ConnectionStatus::Ready),
            r matches Err(e) ==> is_state_error(e, "execute"@, status_text(self@.status)),
    {
        match self.status {
            ConnectionStatus::Ready => Ok(!self.autocommit),
            ConnectionStatus::InTransaction => Ok(false),
            _ => Err(MgError::invalid_state("execute", describe_status(self.status))),
        }
    }

    /// Takes the outcome of the `BEGIN` that `execute_start` asked for.
    pub fn begin_finished(&mut self, outcome: QueryOutcome) -> (r: Result<(), MgError>)
        requires
            old(self)@.status == ConnectionStatus::Ready,
            !old(self)@.autocommit,
        ensures
            final(self)@.well_formed(),
            outcome is Completed <==> r is Ok,
            outcome is Completed ==> final(self)@ == (ConnectionView {
                in_transaction: true,
                status: ConnectionStatus::InTransaction,
                ..old(self)@
            }),
            outcome matches QueryOutcome::RunFailed(m) ==> r matches Err(e) && is_session_error(e, m)
                && final(self)@ == (ConnectionView { status: ConnectionStatus::Bad, ..old(self)@ }),
            outcome matches QueryOutcome::PullFailed(m) ==> r matches Err(e) && is_session_error(e, m)
                && final(self)@ == old(self)@,
    {
        proof {
            use_type_invariant(&*self);
        }
        match outcome {
            QueryOutcome::Completed => {
                self.set_transaction_status(ConnectionStatus::InTransaction, true);
                Ok(())
            },
            QueryOutcome::RunFailed(m) => {
                self.status = ConnectionStatus::Bad;
                Err(MgError::new(m))
            },
            QueryOutcome::PullFailed(m) => Err(MgError::new(m)),
        }
    }

    /// Takes the outcome of running the query itself. On success the connection is
    /// executing and the previous summary is gone; `Ok(true)` asks the driver to pull all
    /// records now, because the connection is not lazy.
    pub fn run_finished(&mut self, outcome: Result<(), String>) -> (r: Result<bool, MgError>)
        requires
            can_execute(old(self)@.status),
        ensures
            final(self)@.well_formed(),
            outcome is Ok <==> r is Ok,
            r is Ok ==> final(self)@.pending.len() == 0,
            r matches Ok(pull_all) ==> pull_all == !old(self)@.lazy && final(self)@ == (ConnectionView {
                status: ConnectionStatus::Executing,
                summary: None,
                ..old(self)@
            }),
            outcome matches Err(m) ==> r matches Err(e) && is_session_error(e, m) && final(self)@
                == (ConnectionView { status: ConnectionStatus::Bad, summary: None, ..old(self)@ }),
    {
        proof {
            use_type_invariant(&*self);
        }
        self.summary = None;
        match outcome {
            Ok(()) => {
                self.status = ConnectionStatus::Executing;
                Ok(!self.lazy)
            },
            Err(m) => {
                self.status = ConnectionStatus::Bad;
                Err(MgError::new(m))
            },
        }
    }

    /// Takes the records and the summary that pulling all results of a non-lazy query gave,
    /// or the session's error.
    pub fn pull_all_finished(&mut self, outcome: Result<(Vec<R>, S), String>) -> (r: Result<(), MgError>)
        requires
            old(self)@.status == ConnectionStatus::Executing,
            !old(self)@.lazy,
            old(self)@.pending.len() == 0,
        ensures
            final(self)@.well_formed(),
            outcome is Ok <==> r is Ok,
            outcome matches Ok((records, summary)) ==> final(self)@ == (ConnectionView {
                pending: records@,
                summary: Some(summary),
                ..old(self)@
            }),
            outcome matches Err(m) ==> r matches Err(e) && is_session_error(e, m) && final(self)@
                == (ConnectionView { status: ConnectionStatus::Bad, ..old(self)@ }),
    {
        proof {
            use_type_invariant(&*self);
        }
        match outcome {
            Ok((records, summary)) => {
                let queue = into_queue(records);
                self.results = queue;
                self.summary = Some(summary);
                Ok(())
            },
            Err(m) => {
                self.status = ConnectionStatus::Bad;
                Err(MgError::new(m))
            },
        }
    }

    /// Decides the next step of `fetchone`: from the records already pulled (non-lazy) or
    /// by pulling one from the session (lazy). Taking a record moves the connection to
    /// fetching; running out of records returns it to its idle status.
    pub fn fetchone_start(&mut self) -> (r: Result<FetchStep<R>, MgError>)
        ensures
            final(self)@.well_formed(),
            r is Ok <==> can_fetch(old(self)@.status),
            r matches Err(e) ==> is_state_error(e, "fetchone"@, status_text(old(self)@.status))
                && final(self)@ == old(self)@,
            r is Ok && old(self)@.lazy ==> (r matches Ok(FetchStep::Pull) && final(self)@ == old(self)@),
            r is Ok && !old(self)@.lazy && old(self)@.pending.len() > 0 ==> (r matches Ok(FetchStep::Row(x))
                && x == old(self)@.pending[0] && final(self)@ == (ConnectionView {
                status: ConnectionStatus::Fetching,
                pending: old(self)@.pending.drop_first(),
                ..old(self)@
            })),
            r is Ok && !old(self)@.lazy && old(self)@.pending.len() == 0 ==> (r matches Ok(FetchStep::Exhausted)
                && final(self)@ == (ConnectionView { status: old(self)@.idle_status(), ..old(self)@ })),
    {
        proof {
            use_type_invariant(&*self);
        }
        match self.status {
            ConnectionStatus::Executing | ConnectionStatus::Fetching => {},
            _ => {
                return Err(MgError::invalid_state("fetchone", describe_status(self.status)));
            },
        }
        if self.lazy {
            return Ok(FetchStep::Pull);
        }
        let mut queue: VecDeque<R> = VecDeque::new();
        std::mem::swap(&mut queue, &mut self.results);
        let next = queue.pop_front();
        std::mem::swap(&mut queue, &mut self.results);
        match next {
            Some(x) => {
                self.status = ConnectionStatus::Fetching;
                Ok(FetchStep::Row(x))
            },
            None => {
                self.status = if self.in_transaction {
                    ConnectionStatus::InTransaction
                } else {
                    ConnectionStatus::Ready
                };
                Ok(FetchStep::Exhausted)
            },
        }
    }

    /// Takes what one pull from the session of a lazy query gave: a record moves the
    /// connection to fetching; the summary ends the query, keeps the summary and returns the
    /// connection to its idle status; a failure leaves the connection bad.
    pub fn pull_finished(&mut self, outcome: PullOutcome<R, S>) -> (r: Result<Option<R>, MgError>)
        requires
            old(self)@.lazy,
            can_fetch(old(self)@.status),
        ensures
            final(self)@.well_formed(),
            outcome matches PullOutcome::Row(x) ==> r == Ok::<Option<R>, MgError>(Some(x)) && final(self)@ == (
            ConnectionView { status: ConnectionStatus::Fetching, ..old(self)@ }),
            outcome matches PullOutcome::Summary(s) ==> r == Ok::<Option<R>, MgError>(None) && final(self)@ == (
            ConnectionView { status: old(self)@.idle_status(), summary: Some(s), ..old(self)@ }),
            outcome matches PullOutcome::Failed(m) ==> r matches Err(e) && is_session_error(e, m)
                && final(self)@ == (ConnectionView { status: ConnectionStatus::Bad, ..old(self)@ }),
    {
        proof {
            use_type_invariant(&*self);
        }
        match outcome {
            PullOutcome::Row(x) => {
                self.status = ConnectionStatus::Fetching;
                Ok(Some(x))
            },
            PullOutcome::Summary(s) => {
                self.status = if self.in_transaction {
                    ConnectionStatus::InTransaction
                } else {
                    ConnectionStatus::Ready
                };
                self.summary = Some(s);
                Ok(None)
            },
            PullOutcome::Failed(m) => {
                self.status = ConnectionStatus::Bad;
                Err(MgError::new(m))
            },
        }
    }

    /// Decides whether `fetchmany` may proceed, before any row is fetched: only a connection
    /// that is executing or fetching accepts it, and the rows to fetch are `size` when given,
    /// else `arraysize`.
    pub fn fetchmany_start(&self, size: Option<u32>) -> (r: Result<u32, MgError>)
        ensures
            r is Ok <==> can_fetch(self@.status),
            r matches Ok(n) ==> n == match size {
                Some(k) => k,
                None => self@.arraysize,
            },
            r matches Err(e) ==> is_state_error(e, "fetchmany"@, status_text(self@.status)),
    {
        match self.status {
            ConnectionStatus::Executing | ConnectionStatus::Fetching => Ok(
                match size {
                    Some(n) => n,
                    None => self.arraysize,
                },
            ),
            _ => Err(MgError::invalid_state("fetchmany", describe_status(self.status))),
        }
    }

    /// Decides whether `execute_without_results` may run: the connection is ready or inside
    /// a transaction.
    pub fn without_results_start(&self) -> (r: Result<(), MgError>)
        ensures
            r is Ok <==> can_execute(self@.status),
            r matches Err(e) ==> is_state_error(e, "execute_without_results"@, status_text(self@.status)),
    {
        match self.status {
            ConnectionStatus::Ready | ConnectionStatus::InTransaction => Ok(()),
            _ => Err(MgError::invalid_state("execute_without_results", describe_status(self.status))),
        }
    }

    /// Takes the outcome of a query run with its results discarded: the status stays, unless
    /// the session refused to run it, which leaves the connection bad.
    pub fn without_results_finished(&mut self, outcome: QueryOutcome) -> (r: Result<(), MgError>)
        requires
            can_execute(old(self)@.status),
        ensures
            final(self)@.well_formed(),
            outcome is Completed <==> r is Ok,
            outcome is Completed ==> final(self)@ == old(self)@,
            outcome matches QueryOutcome::RunFailed(m) ==> r matches Err(e) && is_session_error(e, m)
                && final(self)@ == (ConnectionView { status: ConnectionStatus::Bad, ..old(self)@ }),
            outcome matches QueryOutcome::PullFailed(m) ==> r matches Err(e) && is_session_error(e, m)
                && final(self)@ == old(self)@,
    {
        proof {
            use_type_invariant(&*self);
        }
        match outcome {
            QueryOutcome::Completed => Ok(()),
            QueryOutcome::RunFailed(m) => {
                self.status = ConnectionStatus::Bad;
                Err(MgError::new(m))
            },
            QueryOutcome::PullFailed(m) => Err(MgError::new(m)),
        }
    }

    /// Decides whether `commit` may proceed; `Ok(true)` asks the driver to run `COMMIT`,
    /// `Ok(false)` means there is no transaction to commit.
    pub fn commit_start(&self) -> (r: Result<bool, MgError>)
        ensures
            r is Ok <==> can_execute(self@.status),
            r matches Ok(b) ==> b == (self@.status == ConnectionStatus::InTransaction),
            r matches Err(e) ==> is_state_error(e, "commit"@, status_text(self@.status)),
    {
        match self.status {
            ConnectionStatus::Ready => Ok(false),
            ConnectionStatus::InTransaction => Ok(true),
            _ => Err(MgError::invalid_state("commit", describe_status(self.status))),
        }
    }

    /// Decides whether `rollback` may proceed: only inside a transaction. A ready
    /// connection is refused as not being in a transaction.
    pub fn rollback_start(&self) -> (r: Result<(), MgError>)
        ensures
            r is Ok <==> self@.status == ConnectionStatus::InTransaction,
            r matches Err(e) ==> is_state_error(
                e,
                "rollback"@,
                if self@.status == ConnectionStatus::Ready {
                    "not in transaction"@
                } else {
                    status_text(self@.status)
                },
            ),
    {
        match self.status {
            ConnectionStatus::InTransaction => Ok(()),
            ConnectionStatus::Ready => Err(MgError::invalid_state("rollback", "not in transaction")),
            _ => Err(MgError::invalid_state("rollback", describe_status(self.status))),
        }
    }

    /// Takes the outcome of the `COMMIT` or `ROLLBACK` that ends the transaction: on success
    /// the connection is ready and outside any transaction.
    pub fn end_transaction_finished(&mut self, outcome: QueryOutcome) -> (r: Result<(), MgError>)
        requires
            old(self)@.status == ConnectionStatus::InTransaction,
        ensures
            final(self)@.well_formed(),
            outcome is Completed <==> r is Ok,
            outcome is Completed ==> final(self)@ == (ConnectionView {
                in_transaction: false,
                status: ConnectionStatus::Ready,
                ..old(self)@
            }),
            outcome matches QueryOutcome::RunFailed(m) ==> r matches Err(e) && is_session_error(e, m)
                && final(self)@ == (ConnectionView { status: ConnectionStatus::Bad, ..old(self)@ }),
            outcome matches QueryOutcome::PullFailed(m) ==> r matches Err(e) && is_session_error(e, m)
                && final(self)@ == old(self)@,
    {
        proof {
            use_type_invariant(&*self);
        }
        match outcome {
            QueryOutcome::Completed => {
                self.set_transaction_status(ConnectionStatus::Ready, false);
                Ok(())
            },
            QueryOutcome::RunFailed(m) => {
                self.status = ConnectionStatus::Bad;
                Err(MgError::new(m))
            },
            QueryOutcome::PullFailed(m) => Err(MgError::new(m)),
        }
    }

    /// Closes the connection: a ready or in-transaction connection becomes closed; a closed
    /// or bad one stays as it is. A connection that is executing or fetching cannot be
    /// closed.
    pub fn close(&mut self)
        requires
            !can_fetch(old(self)@.status),
        ensures
            final(self)@.well_formed(),
            can_execute(old(self)@.status) ==> final(self)@ == (ConnectionView {
                status: ConnectionStatus::Closed,
                ..old(self)@
            }),
            !can_execute(old(self)@.status) ==> final(self)@ == old(self)@,
    {
        proof {
            use_type_invariant(&*self);
        }
        match self.status {
            ConnectionStatus::Ready | ConnectionStatus::InTransaction => {
                self.status = ConnectionStatus::Closed;
            },
            _ => {},
        }
    }
}

/// Refuses a query that holds a NUL character, which cannot be handed to the session as a
/// C string.
pub fn check_query(query: &str) -> (r: Result<(), MgError>)
    ensures
        r is Ok <==> !query@.contains('\0'),
        r matches Err(e) ==> e matches MgError::NullByte { parameter } && parameter@ == "query"@,
{
    if contains_nul(query) {
        Err(MgError::null_byte("query"))
    } else {
        Ok(())
    }
}

/// Whether a batch of `len` rows has reached its limit; `None` sets no limit.
pub open spec fn batch_is_full(len: int, limit: Option<u32>) -> bool {
    match limit {
        Some(n) => len >= n,
        None => false,
    }
}

/// Whether a batch of `len` rows has reached its limit (`fetchmany` asks for `Some(size)`
/// rows, `fetchall` for `None`, every row).
pub fn batch_full(len: usize, limit: Option<u32>) -> (r: bool)
    ensures
        r == batch_is_full(len as int, limit),
{
    match limit {
        Some(n) => len >= n as usize,
        None => false,
    }
}

/// The batch that successive fetches collect, starting from `batch`: each record is
/// added until the batch is full or a fetch reports the end of the records.
pub open spec fn collect_batch<R>(outcomes: Seq<Option<R>>, batch: Seq<R>, limit: Option<u32>) -> Seq<R>
    decreases outcomes.len(),
{
    if batch_is_full(batch.len() as int, limit) || outcomes.len() == 0 {
        batch
    } else {
        match outcomes[0] {
            Some(x) => collect_batch(outcomes.drop_first(), batch.push(x), limit),
            None => batch,
        }
    }
}

/// One step of a batch fetch (`fetchmany` or `fetchall`): the record a fetch gave is added
/// to the batch, and the batch goes on (`true`) until it is full; the end of the records
/// (`None`) ends it.
pub fn batch_step<R>(batch: &mut Vec<R>, limit: Option<u32>, fetched: Option<R>) -> (more: bool)
    requires
        !batch_is_full(old(batch)@.len() as int, limit),
    ensures
        fetched matches Some(x) ==> final(batch)@ == old(batch)@.push(x) && more == !batch_is_full(
            final(batch)@.len() as int,
            limit,
        ),
        fetched is None ==> final(batch)@ == old(batch)@ && !more,
        forall|rest: Seq<Option<R>>|
            #![trigger collect_batch(seq![fetched] + rest, old(batch)@, limit)]
            collect_batch(seq![fetched] + rest, old(batch)@, limit) == if more {
                collect_batch(rest, final(batch)@, limit)
            } else {
                final(batch)@
            },
{
    let ghost before = batch@;
    let more = match fetched {
        Some(x) => {
            batch.push(x);
            !batch_full(batch.len(), limit)
        },
        None => false,
    };
    proof {
        assert forall|rest: Seq<Option<R>>|
            #![trigger collect_batch(seq![fetched] + rest, before, limit)]
            collect_batch(seq![fetched] + rest, before, limit) == if more {
                collect_batch(rest, batch@, limit)
            } else {
                batch@
            } by {
            let outs = seq![fetched] + rest;
            assert(outs[0] == fetched);
            assert(outs.drop_first() =~= rest);
            if !more && fetched is Some {
                assert(batch_is_full(batch@.len() as int, limit));
                assert(collect_batch(rest, batch@, limit) == batch@);
            }
        }
    }
    more
}

/// What successive fetches give when `rows` remain: each row, then the end.
pub open spec fn fetch_outcomes<R>(rows: Seq<R>) -> Seq<Option<R>> {
    rows.map_values(|x: R| Some(x)).push(None)
}

proof fn lemma_collect_batch_from<R>(rows: Seq<R>, i: int, limit: Option<u32>)
    requires
        0 <= i <= rows.len(),
        limit matches Some(n) ==> i <= n,
    ensures
        collect_batch(fetch_outcomes(rows).skip(i), rows.take(i), limit) == rows.take(
            match limit {
                Some(n) => if n < rows.len() {
                    n as int
                } else {
                    rows.len() as int
                },
                None => rows.len() as int,
            },
        ),
    decreases rows.len() - i,
{
    let outs = fetch_outcomes(rows).skip(i);
    if batch_is_full(rows.take(i).len() as int, limit) {
    } else if i == rows.len() {
        assert(outs[0] is None);
    } else {
        assert(outs[0] == Some(rows[i]));
        assert(outs.drop_first() =~= fetch_outcomes(rows).skip(i + 1));
        assert(rows.take(i).push(rows[i]) =~= rows.take(i + 1));
        lemma_collect_batch_from(rows, i + 1, limit);
    }
}

/// A batch fetch hands out the next rows in order: `fetchmany` of `n` rows gives
/// min(`n`, remaining) of them, and `fetchall` every remaining row.
pub proof fn lemma_batch_takes_remaining_rows<R>(rows: Seq<R>, limit: Option<u32>)
    ensures
        limit matches Some(n) ==> collect_batch(fetch_outcomes(rows), Seq::empty(), limit)
            == rows.take(if n < rows.len() { n as int } else { rows.len() as int }),
        limit is None ==> collect_batch(fetch_outcomes(rows), Seq::empty(), limit) == rows,
{
    lemma_collect_batch_from(rows, 0, limit);
    assert(fetch_outcomes(rows).skip(0) =~= fetch_outcomes(rows));
    assert(rows.take(0) =~= Seq::<R>::empty());
    assert(rows.take(rows.len() as int) =~= rows);
}

/// A closed or bad connection can no longer be used: it refuses to execute a query, to run
/// one without results, to fetch, to commit and to roll back, and closing it changes
/// nothing.
pub proof fn lemma_unusable_connection_refuses(status: ConnectionStatus)
    requires
        status == ConnectionStatus::Closed || status == ConnectionStatus::Bad,
    ensures
        !can_execute(status),
        !can_fetch(status),
        status != ConnectionStatus::InTransaction,
{
}

/// Records are fetched only between executing a query and exhausting it, and queries are
/// started only outside that window: no state accepts both.
pub proof fn lemma_execute_and_fetch_exclusive(status: ConnectionStatus)
    ensures
        !(can_execute(status) && can_fetch(status)),
{
}

/// Once a query's records are exhausted, the connection is back where queries may start,
/// inside a transaction exactly when one is pending.
pub proof fn lemma_idle_status_accepts_queries<R, S>(v: ConnectionView<R, S>)
    requires
        v.well_formed(),
        v.pending.len() == 0,
    ensures
        can_execute(v.idle_status()),
        (v.idle_status() == ConnectionStatus::InTransaction) == v.in_transaction,
        (ConnectionView { status: v.idle_status(), ..v }).well_formed(),
{
}

/// With autocommit on, a connection is never inside a transaction.
pub proof fn lemma_autocommit_never_in_transaction<R, S>(v: ConnectionView<R, S>)
    requires
        v.well_formed(),
        v.autocommit,
    ensures
        !v.in_transaction,
        v.status != ConnectionStatus::InTransaction,
        v.idle_status() == ConnectionStatus::Ready,
{
}

} // verus!
