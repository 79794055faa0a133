//! Attendance voting: confirm and decline, which are mirror images.
//!
//! A vote is an idempotent toggle. Voting the choice a caller already
//! holds retracts the RSVP entirely; voting the opposite choice switches
//! the entry in place; a first vote appends a new entry, subject to the
//! capacity cap. Voting closes once the event time has passed.

use vstd::prelude::*;

use crate::errors::ErrorCode;
use crate::states::BirthdayEvent;
use crate::states::EventView;
use crate::states::Identity;
use crate::states::RSVP;
use crate::states::MAX_RSVPS;
use crate::states::lemma_count_votes_push;
use crate::states::lemma_count_votes_remove;
use crate::states::lemma_count_votes_sum;
use crate::states::lemma_count_votes_update;
use crate::states::lemma_rsvp_pos;
use crate::states::lemma_rsvp_pos_is_first;
use crate::states::lemma_rsvp_pos_none;
use crate::states::rsvp_pos;

verus! {

/// What one vote with the decision `coming` returns: the updated record,
/// or the one failure the inputs earn.
///
/// After the event time has passed every vote fails. Otherwise a caller
/// without an entry gets a fresh one appended, unless the list is full; a
/// caller whose entry already holds `coming` has it removed (the toggle);
/// a caller whose entry holds the opposite has it switched in place.
pub open spec fn vote_spec(e: EventView, caller: Identity, now: i64, coming: bool) -> Result<
    EventView,
    ErrorCode,
> {
    if e.event_date <= now {
        Err(ErrorCode::EventPassed)
    } else {
        let p = rsvp_pos(e.rsvps, caller);
        if p < 0 {
            if e.rsvps.len() >= MAX_RSVPS {
                Err(ErrorCode::TooManyRSVPs)
            } else {
                Ok(e.with_rsvps(e.rsvps.push(RSVP { invited_person: caller, is_coming: coming })))
            }
        } else if e.rsvps[p].is_coming == coming {
            Ok(e.with_rsvps(e.rsvps.remove(p)))
        } else {
            Ok(
                e.with_rsvps(
                    e.rsvps.update(p, RSVP { invited_person: caller, is_coming: coming }),
                ),
            )
        }
    }
}

/// What `confirm_attendance` returns.
pub open spec fn confirm_spec(e: EventView, caller: Identity, now: i64) -> Result<
    EventView,
    ErrorCode,
> {
    vote_spec(e, caller, now, true)
}

/// What `decline_attendance` returns.
pub open spec fn decline_spec(e: EventView, caller: Identity, now: i64) -> Result<
    EventView,
    ErrorCode,
> {
    vote_spec(e, caller, now, false)
}

/// Index of the first (and, in a well-formed record, only) RSVP entry of
/// `who`, or `None` when `who` has none.
fn find_rsvp(rsvps: &Vec<RSVP>, who: Identity) -> (r: Option<usize>)
    ensures
        match r {
            Some(i) => rsvp_pos(rsvps@, who) == i && i < rsvps@.len(),
            None => rsvp_pos(rsvps@, who) == -1,
        },
{
    let mut i: usize = 0;
    while i < rsvps.len()
        invariant
            i <= rsvps@.len(),
            forall|j: int| 0 <= j < i ==> (#[trigger] rsvps@[j]).invited_person != who,
        decreases rsvps@.len() - i,
    {
        if rsvps[i].invited_person == who {
            proof {
                lemma_rsvp_pos_is_first(rsvps@, who, i as int);
            }
            return Some(i);
        }
        i = i + 1;
    }
    proof {
        lemma_rsvp_pos_none(rsvps@, who);
    }
    None
}

/// Apply one vote with the decision `coming`, as `vote_spec` says; a
/// failing vote leaves the record untouched.
fn apply_vote(event: &mut BirthdayEvent, caller: Identity, now: i64, coming: bool) -> (r: Result<
    (),
    ErrorCode,
>)
    requires
        old(event)@.wf(),
    ensures
        final(event)@.wf(),
        match vote_spec(old(event)@, caller, now, coming) {
            Ok(v) => r is Ok && final(event)@ == v,
            Err(c) => r matches Err(e) && e == c && *final(event) == *old(event),
        },
{
    if event.event_date <= now {
        return Err(ErrorCode::EventPassed);
    }
    let ghost s0 = event.rsvps@;
    match find_rsvp(&event.rsvps, caller) {
        None => {
            if event.rsvps.len() >= MAX_RSVPS {
                return Err(ErrorCode::TooManyRSVPs);
            }
            let entry = RSVP { invited_person: caller, is_coming: coming };
            proof {
                lemma_rsvp_pos(s0, caller);
                lemma_count_votes_sum(s0);
                lemma_count_votes_push(s0, entry, true);
                lemma_count_votes_push(s0, entry, false);
            }
            event.rsvps.push(entry);
            if coming {
                event.coming_count = event.coming_count + 1;
            } else {
                event.busy_count = event.busy_count + 1;
            }
            proof {
                let s1 = s0.push(entry);
                assert forall|i: int, j: int| 0 <= i < j < s1.len() implies s1[i].invited_person
                    != s1[j].invited_person by {
                    if j < s0.len() {
                        assert(old(event)@.rsvps_unique());
                    } else {
                        assert(s1[i] == s0[i]);
                    }
                }
                assert(event@ =~= vote_spec(old(event)@, caller, now, coming)->Ok_0);
            }
            Ok(())
        },
        Some(p) => {
            let current = event.rsvps[p];
            if current.is_coming == coming {
                proof {
                    lemma_count_votes_remove(s0, p as int, true);
                    lemma_count_votes_remove(s0, p as int, false);
                }
                event.rsvps.remove(p);
                if coming {
                    event.coming_count = event.coming_count - 1;
                } else {
                    event.busy_count = event.busy_count - 1;
                }
                proof {
                    let s1 = s0.remove(p as int);
                    assert forall|i: int, j: int| 0 <= i < j < s1.len() implies s1[i].invited_person
                        != s1[j].invited_person by {
                        assert(old(event)@.rsvps_unique());
                        assert(s1[i] == (if i < p { s0[i] } else { s0[i + 1] }));
                        assert(s1[j] == (if j < p { s0[j] } else { s0[j + 1] }));
                    }
                    assert(event@ =~= vote_spec(old(event)@, caller, now, coming)->Ok_0);
                }
                Ok(())
            } else {
                let entry = RSVP { invited_person: caller, is_coming: coming };
                proof {
                    lemma_rsvp_pos(s0, caller);
                    lemma_count_votes_sum(s0);
                    lemma_count_votes_update(s0, p as int, entry, true);
                    lemma_count_votes_update(s0, p as int, entry, false);
                }
                event.rsvps[p] = entry;
                if coming {
                    event.busy_count = event.busy_count - 1;
                    event.coming_count = event.coming_count + 1;
                } else {
                    event.coming_count = event.coming_count - 1;
                    event.busy_count = event.busy_count + 1;
                }
                proof {
                    let s1 = s0.update(p as int, entry);
                    assert forall|i: int, j: int| 0 <= i < j < s1.len() implies s1[i].invited_person
                        != s1[j].invited_person by {
                        assert(old(event)@.rsvps_unique());
                        assert(s0[p as int].invited_person == caller);
                    }
                    assert(event@ =~= vote_spec(old(event)@, caller, now, coming)->Ok_0);
                }
                Ok(())
            }
        },
    }
}

/// Confirm attendance: a first vote appends a coming entry; confirming an
/// already-coming entry retracts it; confirming a busy entry switches it
/// to coming in place. Fails with `EventPassed` once the event time has
/// passed and with `TooManyRSVPs` when a first vote meets a full list; a
/// failing call leaves the record unchanged.
pub fn confirm_attendance(event: &mut BirthdayEvent, caller: Identity, now: i64) -> (r: Result<
    (),
    ErrorCode,
>)
    requires
        old(event)@.wf(),
    ensures
        final(event)@.wf(),
        match confirm_spec(old(event)@, caller, now) {
            Ok(v) => r is Ok && final(event)@ == v,
            Err(c) => r matches Err(e) && e == c && *final(event) == *old(event),
        },
{
    apply_vote(event, caller, now, true)
}

/// Decline attendance: the mirror image of `confirm_attendance`, with the
/// roles of coming and busy swapped.
pub fn decline_attendance(event: &mut BirthdayEvent, caller: Identity, now: i64) -> (r: Result<
    (),
    ErrorCode,
>)
    requires
        old(event)@.wf(),
    ensures
        final(event)@.wf(),
        match decline_spec(old(event)@, caller, now) {
            Ok(v) => r is Ok && final(event)@ == v,
            Err(c) => r matches Err(e) && e == c && *final(event) == *old(event),
        },
{
    apply_vote(event, caller, now, false)
}

} // verus!
