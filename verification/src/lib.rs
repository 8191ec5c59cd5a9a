use vstd::prelude::*;

pub mod calendar;
pub mod connection;
pub mod cursor;
pub mod error;
pub mod format;
pub mod text;
pub mod value;

pub use connection::{
    ConnectParams, Connection, ConnectionStatus, FetchStep, PullOutcome, QueryOutcome, SSLMode,
};
pub use cursor::{Cursor, CursorStatus};
pub use error::MgError;
pub use value::{Date, DateTime, Duration, LocalDateTime, LocalTime};

verus! {

/// Adds two to `a`.
pub fn add_two(a: i32) -> (r: i32)
    requires
        a <= i32::MAX - 2,
    ensures
        r == a + 2,
{
    internal_adder(a, 2)
}

/// Adds `a` and `b`.
pub fn internal_adder(a: i32, b: i32) -> (r: i32)
    requires
        a + b <= i32::MAX,
        a + b >= i32::MIN,
    ensures
        r == a + b,
{
    a + b
}

} // verus!
