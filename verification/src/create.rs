//! Creation of a new event record.

use vstd::prelude::*;

use crate::errors::ErrorCode;
use crate::states::BirthdayEvent;
use crate::states::EventView;
use crate::states::Identity;
use crate::states::MAX_NAME_BYTES;

verus! {

/// What creating an event returns: the fresh record, or the one failure
/// the inputs earn. The name is validated before the date.
pub open spec fn create_spec(
    event_name: Seq<u8>,
    event_date: i64,
    creator: Identity,
    now: i64,
) -> Result<EventView, ErrorCode> {
    if !(1 <= event_name.len() <= MAX_NAME_BYTES) {
        Err(ErrorCode::InvalidEventName)
    } else if event_date <= now {
        Err(ErrorCode::PastDateNotAllowed)
    } else {
        Ok(
            EventView {
                creator,
                event_name,
                event_date,
                coming_count: 0,
                busy_count: 0,
                rsvps: Seq::empty(),
                comments: Seq::empty(),
            },
        )
    }
}

/// Create a new event record owned by `creator`. Succeeds exactly when the
/// name is 1 to 32 bytes and the date lies strictly after `now`; the fresh
/// record has zeroed counters and empty RSVP and comment lists, and
/// satisfies the record invariant.
pub fn initialize_bday_event(
    event_name: Vec<u8>,
    event_date: i64,
    creator: Identity,
    now: i64,
) -> (r: Result<BirthdayEvent, ErrorCode>)
    ensures
        match create_spec(event_name@, event_date, creator, now) {
            Ok(v) => r matches Ok(ev) && ev@ == v && v.wf(),
            Err(c) => r matches Err(e) && e == c,
        },
{
    if event_name.len() == 0 || event_name.len() > MAX_NAME_BYTES {
        return Err(ErrorCode::InvalidEventName);
    }
    if event_date <= now {
        return Err(ErrorCode::PastDateNotAllowed);
    }
    let event = BirthdayEvent {
        creator,
        event_name,
        event_date,
        coming_count: 0,
        busy_count: 0,
        rsvps: Vec::new(),
        comments: Vec::new(),
    };
    proof {
        assert(event@ == create_spec(event.event_name@, event_date, creator, now)->Ok_0);
    }
    Ok(event)
}

} // verus!
