//! The closed taxonomy of domain failures.

use vstd::prelude::*;

verus! {

/// Every way an operation on an event record can fail. Each failure is a
/// normal business-rule outcome, never a crash: a failing operation leaves
/// the record unchanged.
#[derive(Clone, Copy, Debug, PartialEq, Eq, Structural)]
pub enum ErrorCode {
    /// The event name must be 1 to 32 bytes long.
    InvalidEventName,
    /// The event date must lie strictly in the future at creation time.
    PastDateNotAllowed,
    /// Voting closes once the event time has passed.
    EventPassed,
    /// At most 5 RSVPs are kept per event.
    TooManyRSVPs,
    /// At most 5 comments are kept per event.
    TooManyComments,
    /// Comment content must be 1 to 500 bytes long.
    InvalidComment,
    /// Only a comment's own author may remove it.
    Unauthorized,
    /// No comment carries the requested identifier.
    CommentNotFound,
    /// The storage layer found no record under the requested key;
    /// never produced by the operations in this crate.
    EventNotFound,
    /// A front end could not parse a human-readable date;
    /// never produced by the operations in this crate.
    InvalidDate,
}

} // verus!
