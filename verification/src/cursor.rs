//! A cursor over the records of the queries run on a connection.
//!
//! As with the connection, the session lives outside this library: the methods here decide
//! what the cursor accepts, which rows it hands out and in which state it is left, and a
//! driver performs the runs and pulls they ask for and hands back what those gave.
use vstd::prelude::*;

use crate::connection::FetchStep;
use crate::error::MgError;

verus! {

/// Status of a cursor.
#[derive(Debug, PartialEq, Eq, Clone, Copy, Structural)]
pub enum CursorStatus {
    /// The cursor may execute a query.
    Ready,
    /// A query has been executed and its records may be fetched.
    Executing,
    /// The cursor is closed and executes nothing more.
    Closed,
}

/// What a batch fetch (`fetchmany` or `fetchall`) needs next.
pub enum Batch<T> {
    /// The rows, taken from the records already pulled.
    Rows(T),
    /// Up to this many records must be pulled from the session, one at a time, each handed
    /// to `pull_into_batch` (lazy mode).
    PullUpTo(u32),
    /// All remaining records must be pulled from the session and handed to
    /// `fetchall_pulled` (lazy mode).
    PullAll,
}

/// The abstract state of a cursor.
pub struct CursorView<R> {
    /// Whether the connection the cursor runs on executes lazily.
    pub lazy: bool,
    pub status: CursorStatus,
    /// The record last pulled by `fetchone` in lazy mode.
    pub record: Option<R>,
    /// The records pulled and kept: all records of the query in non-lazy mode, the rows of
    /// the last batch in lazy mode.
    pub cached: Seq<R>,
    pub arraysize: u32,
    /// The number of the row last handed out, counted from `0`; `-1` before the first.
    pub rownumber: int,
    pub columns: Option<Seq<String>>,
}

impl<R> CursorView<R> {
    /// The consistency every cursor state keeps: row numbers start at `-1`; in non-lazy
    /// mode the records can be numbered by an `i32`, and while executing the last row
    /// handed out is one of them.
    pub open spec fn well_formed(self) -> bool {
        &&& -1 <= self.rownumber <= i32::MAX
        &&& !self.lazy ==> self.cached.len() <= i32::MAX
        &&& (!self.lazy && self.status == CursorStatus::Executing) ==> self.rownumber
            < self.cached.len()
    }

    /// The state in which the cursor starts a query: ready, with nothing pulled or fetched.
    pub open spec fn reset(self) -> CursorView<R> {
        CursorView {
            status: CursorStatus::Ready,
            record: None,
            cached: Seq::empty(),
            rownumber: -1,
            columns: None,
            ..self
        }
    }

    /// The rows handed out so far in non-lazy mode: the records up to the last row handed
    /// out.
    pub open spec fn handed_out(self) -> Seq<R> {
        self.cached.subrange(0, self.rownumber + 1)
    }

    /// Whether the cursor is in the state `reset` gives.
    pub open spec fn is_reset(self) -> bool {
        self == self.reset()
    }
}

/// Whether `e` is the client error with message `text`.
pub open spec fn is_client_error(e: MgError, text: Seq<char>) -> bool {
    e matches MgError::Connection(m) && m@ == text
}

/// The end of the rows `fetchmany` hands out in non-lazy mode: `amount` rows after the last
/// one handed out, or the end of the records.
pub open spec fn batch_end(rownumber: int, amount: int, len: int) -> int {
    if len < rownumber + 1 + amount {
        len
    } else {
        rownumber + 1 + amount
    }
}

/// The number of rows a batch fetch asks for: `size` when given, else `arraysize`.
pub open spec fn batch_amount<R>(v: CursorView<R>, size: Option<u32>) -> int {
    match size {
        Some(n) => n as int,
        None => v.arraysize as int,
    }
}

/// A cursor over the records of the queries run on a connection; `R` is the record type.
pub struct Cursor<R> {
    lazy: bool,
    status: CursorStatus,
    record: Option<R>,
    cached_records: Vec<R>,
    arraysize: u32,
    rownumber: i32,
    columns: Option<Vec<String>>,
}

impl<R> View for Cursor<R> {
    type V = CursorView<R>;

    closed spec fn view(&self) -> CursorView<R> {
        CursorView {
            lazy: self.lazy,
            status: self.status,
            record: self.record,
            cached: self.cached_records@,
            arraysize: self.arraysize,
            rownumber: self.rownumber as int,
            columns: match self.columns {
                Some(c) => Some(c@),
                None => None,
            },
        }
    }
}

impl<R> Cursor<R> {
    #[verifier::type_invariant]
    spec fn inv(self) -> bool {
        self@.well_formed()
    }

    /// A ready cursor on a connection that executes lazily or not, fetching `arraysize`
    /// rows by default.
    pub fn new(lazy: bool, arraysize: u32) -> (r: Cursor<R>)
        ensures
            r@ == (CursorView::<R> {
                lazy,
                status: CursorStatus::Ready,
                record: None,
                cached: Seq::empty(),
                arraysize,
                rownumber: -1,
                columns: None,
            }),
    {
        Cursor {
            lazy,
            status: CursorStatus::Ready,
            record: None,
            cached_records: Vec::new(),
            arraysize,
            rownumber: -1,
            columns: None,
        }
    }

    /// Whether the connection the cursor runs on executes lazily.
    pub fn lazy(&self) -> (r: bool)
        ensures
            r == self@.lazy,
    {
        self.lazy
    }

    /// Default amount of rows `fetchmany` fetches.
    pub fn arraysize(&self) -> (r: u32)
        ensures
            r == self@.arraysize,
    {
        self.arraysize
    }

    /// Current cursor status.
    pub fn status(&self) -> (r: CursorStatus)
        ensures
            r == self@.status,
    {
        self.status
    }

    /// The number of the row last handed out.
    pub fn rownumber(&self) -> (r: i32)
        ensures
            r == self@.rownumber,
    {
        self.rownumber
    }

    /// The names of the columns of the executed query.
    pub fn get_columns(&self) -> (r: Result<&Vec<String>, MgError>)
        ensures
            r is Ok <==> self@.columns is Some,
            r matches Ok(c) ==> self@.columns == Some(c@),
            r matches Err(e) ==> is_client_error(e, "Columns not available"@),
    {
        match &self.columns {
            Some(x) => Ok(x),
            None => Err(MgError::connection("Columns not available")),
        }
    }

    /// The records pulled and kept.
    pub fn cached_rows(&self) -> (r: &[R])
        ensures
            r@ == self@.cached,
    {
        self.cached_records.as_slice()
    }

    /// Forgets the previous query.
    fn reset(&mut self)
        ensures
            final(self)@ == old(self)@.reset(),
    {
        proof {
            use_type_invariant(&*self);
        }
        *self = Cursor {
            lazy: self.lazy,
            status: CursorStatus::Ready,
            record: None,
            cached_records: Vec::new(),
            arraysize: self.arraysize,
            rownumber: -1,
            columns: None,
        };
    }

    /// Decides whether a query may be executed: a closed or executing cursor refuses;
    /// a ready one forgets its previous query, and the driver then runs the query and hands
    /// the outcome to `run_finished`.
    pub fn execute_start(&mut self) -> (r: Result<(), MgError>)
        ensures
            r is Ok <==> old(self)@.status == CursorStatus::Ready,
            r is Ok ==> final(self)@ == old(self)@.reset(),
            old(self)@.status == CursorStatus::Closed ==> (r matches Err(e) && is_client_error(
                e,
                "Cursor is closed"@,
            ) && final(self)@ == old(self)@),
            old(self)@.status == CursorStatus::Executing ==> (r matches Err(e) && is_client_error(
                e,
                "Cursor is executing"@,
            ) && final(self)@ == old(self)@),
    {
        match self.status {
            CursorStatus::Closed => {
                return Err(MgError::connection("Cursor is closed"));
            },
            CursorStatus::Executing => {
                return Err(MgError::connection("Cursor is executing"));
            },
            CursorStatus::Ready => {},
        }
        self.reset();
        Ok(())
    }

    /// Takes the outcome of running the query: its column names, or the error, which is
    /// passed on. On success the cursor is executing; `Ok(true)` asks the driver to pull
    /// all records now and hand them to `pull_all_finished`, because the connection is not
    /// lazy.
    pub fn run_finished(&mut self, outcome: Result<Vec<String>, MgError>) -> (r: Result<bool, MgError>)
        requires
            old(self)@.is_reset(),
        ensures
            outcome is Ok <==> r is Ok,
            outcome matches Ok(cols) ==> r == Ok::<bool, MgError>(!old(self)@.lazy) && final(self)@
                == (CursorView {
                status: CursorStatus::Executing,
                columns: Some(cols@),
                ..old(self)@
            }),
            outcome matches Err(e) ==> r == Err::<bool, MgError>(e) && final(self)@ == old(self)@,
    {
        proof {
            use_type_invariant(&*self);
        }
        match outcome {
            Ok(cols) => {
                self.columns = Some(cols);
                self.status = CursorStatus::Executing;
                Ok(!self.lazy)
            },
            Err(e) => Err(e),
        }
    }

    /// Takes all records of a non-lazy query, or the error of pulling them, which is passed
    /// on (the cursor then stays executing with no records).
    pub fn pull_all_finished(&mut self, outcome: Result<Vec<R>, MgError>) -> (r: Result<(), MgError>)
        requires
            !old(self)@.lazy,
            old(self)@.status == CursorStatus::Executing,
            old(self)@.rownumber == -1,
            old(self)@.cached.len() == 0,
            outcome matches Ok(records) ==> records@.len() <= i32::MAX,
        ensures
            outcome is Ok <==> r is Ok,
            outcome matches Ok(records) ==> final(self)@ == (CursorView {
                cached: records@,
                ..old(self)@
            }),
            outcome matches Err(e) ==> r == Err::<(), MgError>(e) && final(self)@ == old(self)@,
    {
        proof {
            use_type_invariant(&*self);
        }
        match outcome {
            Ok(records) => {
                self.cached_records = records;
                Ok(())
            },
            Err(e) => Err(e),
        }
    }

    /// Fetches the next row. Only an executing cursor accepts it. In non-lazy mode the row
    /// comes from the records already pulled, and when there are none left the cursor is
    /// ready again; in lazy mode the driver pulls one record and hands it to `pull_finished`.
    pub fn fetchone(&mut self) -> (r: Result<FetchStep<&R>, MgError>)
        ensures
            r is Ok <==> old(self)@.status == CursorStatus::Executing,
            r matches Err(e) ==> is_client_error(e, "Invalid cursor status"@) && final(self)@
                == old(self)@,
            r is Ok && old(self)@.lazy ==> (r matches Ok(FetchStep::Pull) && final(self)@
                == old(self)@),
            r is Ok && !old(self)@.lazy && old(self)@.rownumber + 1 < old(self)@.cached.len() ==> (
            r matches Ok(FetchStep::Row(x)) && *x == old(self)@.cached[old(self)@.rownumber + 1]
                && final(self)@ == (CursorView {
                rownumber: old(self)@.rownumber + 1,
                ..old(self)@
            })),
            r is Ok && !old(self)@.lazy && old(self)@.rownumber + 1 >= old(self)@.cached.len() ==> (
            r matches Ok(FetchStep::Exhausted) && final(self)@ == (CursorView {
                status: CursorStatus::Ready,
                rownumber: old(self)@.rownumber + 1,
                ..old(self)@
            })),
    {
        proof {
            use_type_invariant(&*self);
        }
        if self.status != CursorStatus::Executing {
            return Err(MgError::connection("Invalid cursor status"));
        }
        if self.lazy {
            return Ok(FetchStep::Pull);
        }
        let next = self.rownumber + 1;
        if (next as usize) < self.cached_records.len() {
            self.rownumber = next;
            Ok(FetchStep::Row(&self.cached_records[next as usize]))
        } else {
            self.status = CursorStatus::Ready;
            self.rownumber = next;
            Ok(FetchStep::Exhausted)
        }
    }

    /// Takes what one pull for `fetchone` gave in lazy mode: a record is counted, kept and
    /// handed out; the end of the records leaves the cursor ready; an error is passed on.
    pub fn pull_finished(&mut self, outcome: Result<Option<R>, MgError>) -> (r: Result<Option<&R>, MgError>)
        requires
            old(self)@.lazy,
            old(self)@.status == CursorStatus::Executing,
            outcome matches Ok(Some(_)) ==> old(self)@.rownumber < i32::MAX,
        ensures
            outcome is Ok <==> r is Ok,
            outcome matches Ok(Some(x)) ==> r matches Ok(Some(y)) && *y == x && final(self)@ == (
            CursorView { rownumber: old(self)@.rownumber + 1, record: Some(x), ..old(self)@ }),
            outcome matches Ok(None) ==> r matches Ok(None) && final(self)@ == (CursorView {
                status: CursorStatus::Ready,
                ..old(self)@
            }),
            outcome matches Err(e) ==> r matches Err(f) && f == e && final(self)@ == old(self)@,
    {
        proof {
            use_type_invariant(&*self);
        }
        match outcome {
            Ok(Some(x)) => {
                self.rownumber = self.rownumber + 1;
                self.record = Some(x);
                Ok(self.record.as_ref())
            },
            Ok(None) => {
                self.status = CursorStatus::Ready;
                Ok(None)
            },
            Err(e) => Err(e),
        }
    }

    /// Fetches the next `size` rows, or `arraysize` rows when no size is given. Only an
    /// executing cursor accepts it. In non-lazy mode the rows come from the records already
    /// pulled, starting after the last row handed out; when fewer than asked for are left,
    /// the cursor is ready again. In lazy mode the rows of the previous batch are dropped and
    /// the driver pulls up to that many records, handing each to `pull_into_batch`, and then
    /// takes the batch from `cached_rows`.
    pub fn fetchmany(&mut self, size: Option<u32>) -> (r: Result<Batch<&[R]>, MgError>)
        requires
            old(self)@.status == CursorStatus::Executing && !old(self)@.lazy ==> ({
                let amount = batch_amount(old(self)@, size);
                &&& amount <= i32::MAX
                &&& old(self)@.rownumber + 1 + amount <= i32::MAX
                &&& batch_end(old(self)@.rownumber, amount, old(self)@.cached.len() as int) >= 1
            }),
        ensures
            r is Ok <==> old(self)@.status == CursorStatus::Executing,
            r matches Err(e) ==> is_client_error(e, "Invalid cursor status"@) && final(self)@
                == old(self)@,
            r is Ok && old(self)@.lazy ==> (r matches Ok(Batch::PullUpTo(n)) && n == batch_amount(
                old(self)@,
                size,
            ) && final(self)@ == (CursorView { cached: Seq::empty(), ..old(self)@ })),
            r is Ok && !old(self)@.lazy ==> ({
                let amount = batch_amount(old(self)@, size);
                let start = old(self)@.rownumber + 1;
                let end = batch_end(old(self)@.rownumber, amount, old(self)@.cached.len() as int);
                &&& r matches Ok(Batch::Rows(rows)) && rows@ == old(self)@.cached.subrange(start, end)
                &&& final(self)@ == (CursorView {
                    rownumber: end - 1,
                    status: if end - start < amount {
                        CursorStatus::Ready
                    } else {
                        CursorStatus::Executing
                    },
                    ..old(self)@
                })
                &&& r matches Ok(Batch::Rows(rows)) && rows@.len() == (if amount < old(
                    self,
                )@.cached.len() - start {
                    amount
                } else {
                    old(self)@.cached.len() - start
                }) && rows@ == old(self)@.cached.subrange(start, start + rows@.len())
            }),
    {
        proof {
            use_type_invariant(&*self);
        }
        if self.status != CursorStatus::Executing {
            return Err(MgError::connection("Invalid cursor status"));
        }
        let amount: u32 = match size {
            Some(x) => x,
            None => self.arraysize,
        };
        if self.lazy {
            self.cached_records = Vec::new();
            return Ok(Batch::PullUpTo(amount));
        }
        let start: i32 = self.rownumber + 1;
        let len: i32 = self.cached_records.len() as i32;
        let wanted: i32 = start + amount as i32;
        let end: i32 = if len < wanted {
            len
        } else {
            wanted
        };
        if ((end - start) as u32) < amount {
            self.status = CursorStatus::Ready;
        }
        self.rownumber = end - 1;
        let rows = vstd::slice::slice_subrange(
            self.cached_records.as_slice(),
            start as usize,
            end as usize,
        );
        proof {
            lemma_batch_end_takes_min(old(self)@.rownumber, amount as int, old(self)@.cached.len() as int);
        }
        Ok(Batch::Rows(rows))
    }

    /// Takes what one pull of a lazy `fetchmany` gave: a record is counted and added to the
    /// batch (`Ok(true)`: the driver may pull again); the end of the records leaves the
    /// cursor ready (`Ok(false)`); an error is passed on.
    pub fn pull_into_batch(&mut self, outcome: Result<Option<R>, MgError>) -> (r: Result<bool, MgError>)
        requires
            old(self)@.lazy,
            old(self)@.status == CursorStatus::Executing,
            outcome matches Ok(Some(_)) ==> old(self)@.rownumber < i32::MAX,
        ensures
            outcome is Ok <==> r is Ok,
            outcome matches Ok(Some(x)) ==> r == Ok::<bool, MgError>(true) && final(self)@ == (
            CursorView {
                rownumber: old(self)@.rownumber + 1,
                cached: old(self)@.cached.push(x),
                ..old(self)@
            }),
            outcome matches Ok(None) ==> r == Ok::<bool, MgError>(false) && final(self)@ == (
            CursorView { status: CursorStatus::Ready, ..old(self)@ }),
            outcome matches Err(e) ==> r == Err::<bool, MgError>(e) && final(self)@ == old(self)@,
    {
        proof {
            use_type_invariant(&*self);
        }
        match outcome {
            Ok(Some(x)) => {
                let mut rows: Vec<R> = Vec::new();
                std::mem::swap(&mut rows, &mut self.cached_records);
                rows.push(x);
                self.cached_records = rows;
                self.rownumber = self.rownumber + 1;
                Ok(true)
            },
            Ok(None) => {
                self.status = CursorStatus::Ready;
                Ok(false)
            },
            Err(e) => Err(e),
        }
    }

    /// Fetches all rows. Only an executing cursor accepts it. In non-lazy mode these are
    /// all the records pulled for the query, and the cursor is ready again; in lazy mode the
    /// driver pulls all remaining records and hands them to `fetchall_pulled`.
    pub fn fetchall(&mut self) -> (r: Result<Batch<&[R]>, MgError>)
        ensures
            r is Ok <==> old(self)@.status == CursorStatus::Executing,
            r matches Err(e) ==> is_client_error(e, "Invalid state"@) && final(self)@ == old(self)@,
            r is Ok && old(self)@.lazy ==> (r matches Ok(Batch::PullAll) && final(self)@ == old(
                self,
            )@),
            r is Ok && !old(self)@.lazy ==> (r matches Ok(Batch::Rows(rows)) && rows@ == old(
                self,
            )@.cached && final(self)@ == (CursorView {
                status: CursorStatus::Ready,
                ..old(self)@
            })),
    {
        proof {
            use_type_invariant(&*self);
        }
        if self.status != CursorStatus::Executing {
            return Err(MgError::connection("Invalid state"));
        }
        if self.lazy {
            return Ok(Batch::PullAll);
        }
        self.status = CursorStatus::Ready;
        Ok(Batch::Rows(self.cached_records.as_slice()))
    }

    /// Takes all remaining records that a lazy `fetchall` pulled, keeps and hands them out,
    /// or passes the error on.
    pub fn fetchall_pulled(&mut self, outcome: Result<Vec<R>, MgError>) -> (r: Result<&[R], MgError>)
        requires
            old(self)@.lazy,
            old(self)@.status == CursorStatus::Executing,
        ensures
            outcome is Ok <==> r is Ok,
            outcome matches Ok(records) ==> r matches Ok(rows) && rows@ == records@ && final(self)@
                == (CursorView { cached: records@, ..old(self)@ }),
            outcome matches Err(e) ==> r matches Err(f) && f == e && final(self)@ == old(self)@,
    {
        proof {
            use_type_invariant(&*self);
        }
        match outcome {
            Ok(records) => {
                self.cached_records = records;
                Ok(self.cached_records.as_slice())
            },
            Err(e) => Err(e),
        }
    }

    /// Closes the cursor, forgetting its query. An executing cursor cannot be closed.
    pub fn close(&mut self) -> (r: Result<(), MgError>)
        ensures
            r is Ok <==> old(self)@.status != CursorStatus::Executing,
            r is Ok ==> final(self)@ == (CursorView {
                status: CursorStatus::Closed,
                ..old(self)@.reset()
            }),
            r matches Err(e) ==> is_client_error(e, "Cannot close cursor while executing"@)
                && final(self)@ == old(self)@,
    {
        if self.status == CursorStatus::Executing {
            return Err(MgError::connection("Cannot close cursor while executing"));
        }
        self.reset();
        self.status = CursorStatus::Closed;
        Ok(())
    }
}

/// A non-lazy batch holds exactly min(amount, remaining) rows: it starts after the last row
/// handed out and ends `amount` rows later, or at the end of the records when fewer remain.
pub proof fn lemma_batch_end_takes_min(rownumber: int, amount: int, len: int)
    requires
        -1 <= rownumber < len,
        0 <= amount,
    ensures
        rownumber + 1 <= batch_end(rownumber, amount, len) <= len,
        batch_end(rownumber, amount, len) <= rownumber + 1 + amount,
        batch_end(rownumber, amount, len) - (rownumber + 1) == (if amount < len - (rownumber + 1) {
            amount
        } else {
            len - (rownumber + 1)
        }),
{
}

/// In non-lazy mode `fetchone` continues where the last fetch stopped: the row it hands out
/// is the record after the last one handed out, and it reports the records exhausted only
/// once every record has been handed out, each once and in order.
pub proof fn lemma_fetchone_continues<R>(v: CursorView<R>)
    requires
        v.well_formed(),
        !v.lazy,
        v.status == CursorStatus::Executing,
    ensures
        v.rownumber + 1 < v.cached.len() ==> (CursorView { rownumber: v.rownumber + 1, ..v }).handed_out()
            == v.handed_out().push(v.cached[v.rownumber + 1]),
        v.rownumber + 1 >= v.cached.len() ==> v.handed_out() == v.cached,
{
    let next = CursorView { rownumber: v.rownumber + 1, ..v };
    if v.rownumber + 1 < v.cached.len() {
        assert(next.handed_out() =~= v.handed_out().push(v.cached[v.rownumber + 1]));
    } else {
        assert(v.handed_out() =~= v.cached);
    }
}

/// In non-lazy mode `fetchmany` continues where the last fetch stopped: the rows it hands
/// out are the records that follow the last one handed out, none skipped or repeated, and a
/// batch shorter than asked for means every record has been handed out.
pub proof fn lemma_fetchmany_continues<R>(v: CursorView<R>, amount: int)
    requires
        v.well_formed(),
        !v.lazy,
        v.status == CursorStatus::Executing,
        0 <= amount,
    ensures
        ({
            let start = v.rownumber + 1;
            let end = batch_end(v.rownumber, amount, v.cached.len() as int);
            let next = CursorView { rownumber: end - 1, ..v };
            &&& 0 <= start <= end <= v.cached.len()
            &&& next.handed_out() == v.handed_out() + v.cached.subrange(start, end)
            &&& end - start < amount ==> next.handed_out() == v.cached
        }),
{
    let start = v.rownumber + 1;
    let end = batch_end(v.rownumber, amount, v.cached.len() as int);
    let next = CursorView { rownumber: end - 1, ..v };
    assert(next.handed_out() =~= v.handed_out() + v.cached.subrange(start, end));
    if end - start < amount {
        assert(next.handed_out() =~= v.cached);
    }
}

} // verus!
