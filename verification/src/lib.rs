//! State machine for a single birthday-event record.
//!
//! One creator owns an event; callers toggle an attendance decision
//! (confirm / decline) and post or retract short comments, under hard
//! capacity limits. Every operation is a pure, synchronous transition on
//! one record: it takes the current record, an already-authenticated
//! caller identity and the current time, and either updates the record or
//! reports one typed failure and leaves the record unchanged. Storage,
//! authentication and the clock live outside this crate.

use vstd::prelude::*;

pub mod attendance;
pub mod comments;
pub mod create;
pub mod errors;
pub mod laws;
pub mod states;

verus! {

pub use attendance::confirm_attendance;
pub use attendance::decline_attendance;
pub use comments::add_comment;
pub use comments::remove_comment;
pub use create::initialize_bday_event;
pub use errors::ErrorCode;
pub use states::BirthdayEvent;
pub use states::Comment;
pub use states::Identity;
pub use states::RSVP;

} // verus!
