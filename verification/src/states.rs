//! The event record, its parts, their mathematical views, and the record
//! invariant together with the counting and position functions the
//! contracts are stated over.

use vstd::prelude::*;

verus! {

/// Largest number of RSVP entries an event keeps.
pub const MAX_RSVPS: usize = 5;

/// Largest number of comments an event keeps.
pub const MAX_COMMENTS: usize = 5;

/// Largest byte length of an event name.
pub const MAX_NAME_BYTES: usize = 32;

/// Largest byte length of a comment's content.
pub const MAX_COMMENT_BYTES: usize = 500;

/// An opaque, equality-comparable caller identity. Authentication happens
/// in the hosting layer; this crate only ever compares identities.
#[derive(Clone, Copy, Debug, PartialEq, Eq, Structural)]
pub struct Identity {
    pub key: u64,
}

/// One participant's current attendance decision.
#[derive(Clone, Copy, Debug, PartialEq, Eq, Structural)]
pub struct RSVP {
    pub invited_person: Identity,
    /// `true` means coming, `false` means busy.
    pub is_coming: bool,
}

/// One discussion entry. Content is kept as bytes: the 1-to-500 limit is a
/// byte-length limit, not a character count.
#[derive(Clone, Debug)]
pub struct Comment {
    pub comment_author: Identity,
    /// Assigned at insertion as the number of comments present at that
    /// moment; identifiers can repeat once removals have occurred.
    pub comment_id: u64,
    pub content: Vec<u8>,
}

/// Mathematical image of a comment.
#[verifier::ext_equal]
pub ghost struct CommentView {
    pub comment_author: Identity,
    pub comment_id: u64,
    pub content: Seq<u8>,
}

impl View for Comment {
    type V = CommentView;

    open spec fn view(&self) -> CommentView {
        CommentView {
            comment_author: self.comment_author,
            comment_id: self.comment_id,
            content: self.content@,
        }
    }
}

/// The image of a whole comment list.
pub open spec fn comments_view(s: Seq<Comment>) -> Seq<CommentView> {
    s.map_values(|c: Comment| c@)
}

/// One birthday event with its RSVPs and comments. The name is kept as
/// bytes: its 1-to-32 limit is a byte-length limit.
#[derive(Clone, Debug)]
pub struct BirthdayEvent {
    pub creator: Identity,
    pub event_name: Vec<u8>,
    /// Seconds since the epoch.
    pub event_date: i64,
    pub coming_count: u32,
    pub busy_count: u32,
    pub rsvps: Vec<RSVP>,
    pub comments: Vec<Comment>,
}

/// Mathematical image of an event record; every contract in this crate
/// speaks of it.
#[verifier::ext_equal]
pub ghost struct EventView {
    pub creator: Identity,
    pub event_name: Seq<u8>,
    pub event_date: i64,
    pub coming_count: u32,
    pub busy_count: u32,
    pub rsvps: Seq<RSVP>,
    pub comments: Seq<CommentView>,
}

impl View for BirthdayEvent {
    type V = EventView;

    open spec fn view(&self) -> EventView {
        EventView {
            creator: self.creator,
            event_name: self.event_name@,
            event_date: self.event_date,
            coming_count: self.coming_count,
            busy_count: self.busy_count,
            rsvps: self.rsvps@,
            comments: comments_view(self.comments@),
        }
    }
}

/// How many RSVP entries hold the decision `coming`.
pub open spec fn count_votes(s: Seq<RSVP>, coming: bool) -> nat
    decreases s.len(),
{
    if s.len() == 0 {
        0
    } else {
        count_votes(s.drop_last(), coming) + if s.last().is_coming == coming {
            1nat
        } else {
            0nat
        }
    }
}

/// Index of the first RSVP entry of `who`, or -1 when `who` has none.
pub open spec fn rsvp_pos(s: Seq<RSVP>, who: Identity) -> int
    decreases s.len(),
{
    if s.len() == 0 {
        -1
    } else if s.first().invited_person == who {
        0
    } else {
        let rest = rsvp_pos(s.drop_first(), who);
        if rest < 0 {
            -1
        } else {
            1 + rest
        }
    }
}

/// Index of the first comment carrying `comment_id`, or -1 when none does.
pub open spec fn comment_pos(s: Seq<CommentView>, comment_id: u64) -> int
    decreases s.len(),
{
    if s.len() == 0 {
        -1
    } else if s.first().comment_id == comment_id {
        0
    } else {
        let rest = comment_pos(s.drop_first(), comment_id);
        if rest < 0 {
            -1
        } else {
            1 + rest
        }
    }
}

impl EventView {
    /// No two RSVP entries belong to the same person.
    pub open spec fn rsvps_unique(self) -> bool {
        forall|i: int, j: int|
            0 <= i < j < self.rsvps.len() ==> self.rsvps[i].invited_person
                != self.rsvps[j].invited_person
    }

    /// Every stored comment has content of 1 to 500 bytes.
    pub open spec fn comments_valid(self) -> bool {
        forall|i: int|
            0 <= i < self.comments.len() ==> 1 <= (#[trigger] self.comments[i].content).len()
                <= MAX_COMMENT_BYTES
    }

    /// The record invariant: creation establishes it and every operation
    /// preserves it.
    pub open spec fn wf(self) -> bool {
        &&& 1 <= self.event_name.len() <= MAX_NAME_BYTES
        &&& self.rsvps.len() <= MAX_RSVPS
        &&& self.comments.len() <= MAX_COMMENTS
        &&& self.coming_count == count_votes(self.rsvps, true)
        &&& self.busy_count == count_votes(self.rsvps, false)
        &&& self.rsvps_unique()
        &&& self.comments_valid()
    }

    /// Whether `who` currently holds an RSVP entry.
    pub open spec fn has_rsvp(self, who: Identity) -> bool {
        rsvp_pos(self.rsvps, who) >= 0
    }

    /// Whether `who` currently holds an RSVP entry with the decision `coming`.
    pub open spec fn has_vote(self, who: Identity, coming: bool) -> bool {
        let p = rsvp_pos(self.rsvps, who);
        p >= 0 && self.rsvps[p].is_coming == coming
    }

    /// The record with a new RSVP list and both counters recomputed from
    /// it; everything else is unchanged.
    pub open spec fn with_rsvps(self, rsvps: Seq<RSVP>) -> EventView {
        EventView {
            rsvps,
            coming_count: count_votes(rsvps, true) as u32,
            busy_count: count_votes(rsvps, false) as u32,
            ..self
        }
    }
}

impl BirthdayEvent {
    /// Decide the record invariant at run time: returns exactly `self@.wf()`.
    /// The hosting layer can call this before handing a record it did not
    /// obtain from this crate to one of the operations.
    pub fn check_invariants(&self) -> (b: bool)
        ensures
            b == self@.wf(),
    {
        if self.event_name.len() == 0 || self.event_name.len() > MAX_NAME_BYTES {
            return false;
        }
        if self.rsvps.len() > MAX_RSVPS {
            return false;
        }
        if self.comments.len() > MAX_COMMENTS {
            return false;
        }
        let mut coming: u32 = 0;
        let mut busy: u32 = 0;
        let mut i: usize = 0;
        while i < self.rsvps.len()
            invariant
                i <= self.rsvps@.len(),
                self.rsvps@.len() <= MAX_RSVPS,
                coming + busy == i,
                coming == count_votes(self.rsvps@.subrange(0, i as int), true),
                busy == count_votes(self.rsvps@.subrange(0, i as int), false),
            decreases self.rsvps@.len() - i,
        {
            proof {
                assert(self.rsvps@.subrange(0, i + 1).drop_last() =~= self.rsvps@.subrange(
                    0,
                    i as int,
                ));
                assert(self.rsvps@.subrange(0, i + 1).last() == self.rsvps@[i as int]);
            }
            if self.rsvps[i].is_coming {
                coming = coming + 1;
            } else {
                busy = busy + 1;
            }
            i = i + 1;
        }
        proof {
            assert(self.rsvps@.subrange(0, self.rsvps@.len() as int) =~= self.rsvps@);
        }
        if coming != self.coming_count || busy != self.busy_count {
            return false;
        }
        let mut a: usize = 0;
        while a < self.rsvps.len()
            invariant
                a <= self.rsvps@.len(),
                forall|i: int, j: int|
                    0 <= i < j < self.rsvps@.len() && i < a ==> (#[trigger] self.rsvps@[i]).invited_person
                        != (#[trigger] self.rsvps@[j]).invited_person,
            decreases self.rsvps@.len() - a,
        {
            let mut b: usize = a + 1;
            while b < self.rsvps.len()
                invariant
                    a < b <= self.rsvps@.len(),
                    forall|i: int, j: int|
                        0 <= i < j < self.rsvps@.len() && i < a ==> (#[trigger] self.rsvps@[i]).invited_person
                            != (#[trigger] self.rsvps@[j]).invited_person,
                    forall|j: int|
                        a < j < b ==> self.rsvps@[a as int].invited_person
                            != (#[trigger] self.rsvps@[j]).invited_person,
                decreases self.rsvps@.len() - b,
            {
                if self.rsvps[b].invited_person == self.rsvps[a].invited_person {
                    proof {
                        assert(!self@.rsvps_unique()) by {
                            assert(self@.rsvps == self.rsvps@);
                            assert(self@.rsvps[a as int].invited_person
                                == self@.rsvps[b as int].invited_person);
                        }
                    }
                    return false;
                }
                b = b + 1;
            }
            a = a + 1;
        }
        let mut k: usize = 0;
        while k < self.comments.len()
            invariant
                k <= self.comments@.len(),
                forall|i: int|
                    0 <= i < k ==> 1 <= (#[trigger] comments_view(
                        self.comments@,
                    )[i].content).len() <= MAX_COMMENT_BYTES,
            decreases self.comments@.len() - k,
        {
            let n = self.comments[k].content.len();
            if n == 0 || n > MAX_COMMENT_BYTES {
                proof {
                    assert(!self@.comments_valid()) by {
                        assert(self@.comments == comments_view(self.comments@));
                        assert(self@.comments[k as int].content == self.comments@[k as int].content@);
                        assert(!(1 <= self@.comments[k as int].content.len() <= MAX_COMMENT_BYTES));
                    }
                }
                return false;
            }
            proof {
                assert(comments_view(self.comments@)[k as int].content == self.comments@[k as int].content@);
            }
            k = k + 1;
        }
        true
    }
}

/// The two vote counts always sum to the number of RSVP entries.
pub proof fn lemma_count_votes_sum(s: Seq<RSVP>)
    ensures
        count_votes(s, true) + count_votes(s, false) == s.len(),
    decreases s.len(),
{
    if s.len() > 0 {
        lemma_count_votes_sum(s.drop_last());
    }
}

/// Appending one entry raises the count of its own decision by one.
pub proof fn lemma_count_votes_push(s: Seq<RSVP>, r: RSVP, coming: bool)
    ensures
        count_votes(s.push(r), coming) == count_votes(s, coming) + if r.is_coming == coming {
            1nat
        } else {
            0nat
        },
{
    assert(s.push(r).drop_last() =~= s);
    assert(s.push(r).last() == r);
}

/// Removing the entry at `i` lowers the count of its decision by one.
pub proof fn lemma_count_votes_remove(s: Seq<RSVP>, i: int, coming: bool)
    requires
        0 <= i < s.len(),
    ensures
        count_votes(s.remove(i), coming) + (if s[i].is_coming == coming {
            1nat
        } else {
            0nat
        }) == count_votes(s, coming),
    decreases s.len(),
{
    if i == s.len() - 1 {
        assert(s.remove(i) =~= s.drop_last());
    } else {
        assert(s.remove(i).drop_last() =~= s.drop_last().remove(i));
        assert(s.remove(i).last() == s.last());
        lemma_count_votes_remove(s.drop_last(), i, coming);
    }
}

/// Replacing the entry at `i` trades its old decision for the new one in
/// the counts.
pub proof fn lemma_count_votes_update(s: Seq<RSVP>, i: int, r: RSVP, coming: bool)
    requires
        0 <= i < s.len(),
    ensures
        count_votes(s.update(i, r), coming) + (if s[i].is_coming == coming {
            1nat
        } else {
            0nat
        }) == count_votes(s, coming) + if r.is_coming == coming {
            1nat
        } else {
            0nat
        },
    decreases s.len(),
{
    if i == s.len() - 1 {
        assert(s.update(i, r).drop_last() =~= s.drop_last());
        assert(s.update(i, r).last() == r);
    } else {
        assert(s.update(i, r).drop_last() =~= s.drop_last().update(i, r));
        assert(s.update(i, r).last() == s.last());
        lemma_count_votes_update(s.drop_last(), i, r, coming);
    }
}

/// What `rsvp_pos` means: -1 exactly when `who` has no entry; otherwise
/// the index of the first entry of `who`.
pub proof fn lemma_rsvp_pos(s: Seq<RSVP>, who: Identity)
    ensures
        rsvp_pos(s, who) < 0 ==> rsvp_pos(s, who) == -1 && (forall|i: int|
            0 <= i < s.len() ==> (#[trigger] s[i]).invited_person != who),
        rsvp_pos(s, who) >= 0 ==> rsvp_pos(s, who) < s.len() && s[rsvp_pos(
            s,
            who,
        )].invited_person == who && (forall|i: int|
            0 <= i < rsvp_pos(s, who) ==> (#[trigger] s[i]).invited_person != who),
    decreases s.len(),
{
    if s.len() == 0 {
    } else if s.first().invited_person == who {
    } else {
        let t = s.drop_first();
        lemma_rsvp_pos(t, who);
        if rsvp_pos(t, who) < 0 {
            assert forall|i: int| 0 <= i < s.len() implies (#[trigger] s[i]).invited_person
                != who by {
                if i >= 1 {
                    assert(t[i - 1] == s[i]);
                }
            }
        } else {
            let p = rsvp_pos(t, who);
            assert(s[1 + p] == t[p]);
            assert forall|i: int| 0 <= i < 1 + p implies (#[trigger] s[i]).invited_person
                != who by {
                if i >= 1 {
                    assert(t[i - 1] == s[i]);
                }
            }
        }
    }
}

/// The first index whose entry belongs to `who` is `rsvp_pos`.
pub proof fn lemma_rsvp_pos_is_first(s: Seq<RSVP>, who: Identity, i: int)
    requires
        0 <= i < s.len(),
        s[i].invited_person == who,
        forall|j: int| 0 <= j < i ==> (#[trigger] s[j]).invited_person != who,
    ensures
        rsvp_pos(s, who) == i,
{
    lemma_rsvp_pos(s, who);
    let p = rsvp_pos(s, who);
    if p < 0 {
        assert(s[i].invited_person != who);
    } else if p < i {
        assert(s[p].invited_person != who);
    } else if p > i {
        assert(s[i].invited_person != who);
    }
}

/// When no entry belongs to `who`, `rsvp_pos` is -1.
pub proof fn lemma_rsvp_pos_none(s: Seq<RSVP>, who: Identity)
    requires
        forall|j: int| 0 <= j < s.len() ==> (#[trigger] s[j]).invited_person != who,
    ensures
        rsvp_pos(s, who) == -1,
{
    lemma_rsvp_pos(s, who);
    if rsvp_pos(s, who) >= 0 {
        assert(s[rsvp_pos(s, who)].invited_person != who);
    }
}

/// What `comment_pos` means: -1 exactly when no comment carries the
/// identifier; otherwise the index of the first comment that does.
pub proof fn lemma_comment_pos(s: Seq<CommentView>, comment_id: u64)
    ensures
        comment_pos(s, comment_id) < 0 ==> comment_pos(s, comment_id) == -1 && (forall|i: int|
            0 <= i < s.len() ==> (#[trigger] s[i]).comment_id != comment_id),
        comment_pos(s, comment_id) >= 0 ==> comment_pos(s, comment_id) < s.len() && s[comment_pos(
            s,
            comment_id,
        )].comment_id == comment_id && (forall|i: int|
            0 <= i < comment_pos(s, comment_id) ==> (#[trigger] s[i]).comment_id != comment_id),
    decreases s.len(),
{
    if s.len() == 0 {
    } else if s.first().comment_id == comment_id {
    } else {
        let t = s.drop_first();
        lemma_comment_pos(t, comment_id);
        if comment_pos(t, comment_id) < 0 {
            assert forall|i: int| 0 <= i < s.len() implies (#[trigger] s[i]).comment_id
                != comment_id by {
                if i >= 1 {
                    assert(t[i - 1] == s[i]);
                }
            }
        } else {
            let p = comment_pos(t, comment_id);
            assert(s[1 + p] == t[p]);
            assert forall|i: int| 0 <= i < 1 + p implies (#[trigger] s[i]).comment_id
                != comment_id by {
                if i >= 1 {
                    assert(t[i - 1] == s[i]);
                }
            }
        }
    }
}

/// The first index whose comment carries `comment_id` is `comment_pos`.
pub proof fn lemma_comment_pos_is_first(s: Seq<CommentView>, comment_id: u64, i: int)
    requires
        0 <= i < s.len(),
        s[i].comment_id == comment_id,
        forall|j: int| 0 <= j < i ==> (#[trigger] s[j]).comment_id != comment_id,
    ensures
        comment_pos(s, comment_id) == i,
{
    lemma_comment_pos(s, comment_id);
    let p = comment_pos(s, comment_id);
    if p < 0 {
        assert(s[i].comment_id != comment_id);
    } else if p < i {
        assert(s[p].comment_id != comment_id);
    } else if p > i {
        assert(s[i].comment_id != comment_id);
    }
}

/// When no comment carries `comment_id`, `comment_pos` is -1.
pub proof fn lemma_comment_pos_none(s: Seq<CommentView>, comment_id: u64)
    requires
        forall|j: int| 0 <= j < s.len() ==> (#[trigger] s[j]).comment_id != comment_id,
    ensures
        comment_pos(s, comment_id) == -1,
{
    lemma_comment_pos(s, comment_id);
    if comment_pos(s, comment_id) >= 0 {
        assert(s[comment_pos(s, comment_id)].comment_id != comment_id);
    }
}

} // verus!
