//! Laws of the event state machine, proved once and for all states.

use vstd::prelude::*;

use crate::attendance::vote_spec;
use crate::errors::ErrorCode;
use crate::states::EventView;
use crate::states::Identity;
use crate::states::RSVP;
use crate::states::lemma_count_votes_sum;
use crate::states::lemma_rsvp_pos;
use crate::states::lemma_rsvp_pos_is_first;
use crate::states::lemma_rsvp_pos_none;
use crate::states::rsvp_pos;

verus! {

/// Counter consistency: in every well-formed record the coming and busy
/// counters sum to the number of RSVP entries. Creation establishes
/// well-formedness and every operation preserves it, so this holds of
/// every reachable record.
pub proof fn lemma_counter_consistency(e: EventView)
    requires
        e.wf(),
    ensures
        e.coming_count + e.busy_count == e.rsvps.len(),
{
    lemma_count_votes_sum(e.rsvps);
}

/// Idempotent toggle: when a caller who does not currently hold the
/// choice `coming` casts that vote twice in a row, the second vote also
/// succeeds and the caller ends with no RSVP entry at all — the double
/// vote is a retraction. (A caller who already holds the choice is
/// excluded: for them the first vote itself is the retraction, and the
/// second vote files the choice afresh.)
pub proof fn lemma_double_vote_retracts(e: EventView, caller: Identity, now: i64, coming: bool)
    requires
        e.wf(),
        !e.has_vote(caller, coming),
        vote_spec(e, caller, now, coming) is Ok,
    ensures
        vote_spec(vote_spec(e, caller, now, coming)->Ok_0, caller, now, coming) is Ok,
        !vote_spec(vote_spec(e, caller, now, coming)->Ok_0, caller, now, coming)->Ok_0.has_rsvp(
            caller,
        ),
{
    let s = e.rsvps;
    let p = rsvp_pos(s, caller);
    let entry = RSVP { invited_person: caller, is_coming: coming };
    lemma_rsvp_pos(s, caller);
    if p < 0 {
        let s1 = s.push(entry);
        assert forall|j: int| 0 <= j < s.len() implies (#[trigger] s1[j]).invited_person
            != caller by {
            assert(s1[j] == s[j]);
        }
        lemma_rsvp_pos_is_first(s1, caller, s.len() as int);
        let s2 = s1.remove(s.len() as int);
        assert(s2 =~= s);
    } else {
        let s1 = s.update(p, entry);
        assert forall|j: int| 0 <= j < p implies (#[trigger] s1[j]).invited_person != caller by {
            assert(s1[j] == s[j]);
        }
        lemma_rsvp_pos_is_first(s1, caller, p);
        let s2 = s1.remove(p);
        assert forall|j: int| 0 <= j < s2.len() implies (#[trigger] s2[j]).invited_person
            != caller by {
            if j < p {
                assert(s2[j] == s[j]);
            } else {
                assert(s2[j] == s[j + 1]);
            }
        }
        lemma_rsvp_pos_none(s2, caller);
    }
}

/// Switching away and back: when the caller's entry holds the choice
/// `coming`, voting the opposite choice and then `coming` again both
/// succeed, and the second vote returns the record exactly to its
/// starting state — in particular the entry holds `coming` again and the
/// list length never changed.
pub proof fn lemma_opposite_vote_round_trip(e: EventView, caller: Identity, now: i64, coming: bool)
    requires
        e.wf(),
        e.event_date > now,
        e.has_vote(caller, coming),
    ensures
        vote_spec(e, caller, now, !coming) is Ok,
        vote_spec(vote_spec(e, caller, now, !coming)->Ok_0, caller, now, coming) == Ok::<
            EventView,
            ErrorCode,
        >(e),
{
    let s = e.rsvps;
    let p = rsvp_pos(s, caller);
    lemma_rsvp_pos(s, caller);
    let away = RSVP { invited_person: caller, is_coming: !coming };
    let back = RSVP { invited_person: caller, is_coming: coming };
    let s1 = s.update(p, away);
    let e1 = vote_spec(e, caller, now, !coming)->Ok_0;
    assert forall|j: int| 0 <= j < p implies (#[trigger] s1[j]).invited_person != caller by {
        assert(s1[j] == s[j]);
    }
    lemma_rsvp_pos_is_first(s1, caller, p);
    let s2 = s1.update(p, back);
    assert(s[p] == back);
    assert(s2 =~= s);
    assert(vote_spec(e1, caller, now, coming)->Ok_0 =~= e);
}

} // verus!
