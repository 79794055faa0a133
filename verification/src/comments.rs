//! The bounded discussion thread: adding and removing comments.
//!
//! A new comment's identifier is the number of comments present at the
//! moment of insertion. Identifiers are unique at insertion time but are
//! not durable: after a removal, the next insertion can reuse an
//! identifier still carried by an unrelated comment, and removal always
//! targets the first comment that carries the requested identifier.

use vstd::prelude::*;

use crate::errors::ErrorCode;
use crate::states::BirthdayEvent;
use crate::states::Comment;
use crate::states::CommentView;
use crate::states::EventView;
use crate::states::Identity;
use crate::states::MAX_COMMENTS;
use crate::states::MAX_COMMENT_BYTES;
use crate::states::comment_pos;
use crate::states::comments_view;
use crate::states::lemma_comment_pos;
use crate::states::lemma_comment_pos_is_first;
use crate::states::lemma_comment_pos_none;

verus! {

/// What adding a comment returns: the record with the comment appended,
/// carrying the current list length as its identifier, or the one failure
/// the inputs earn. Content is validated before capacity.
pub open spec fn add_comment_spec(e: EventView, author: Identity, content: Seq<u8>) -> Result<
    EventView,
    ErrorCode,
> {
    if !(1 <= content.len() <= MAX_COMMENT_BYTES) {
        Err(ErrorCode::InvalidComment)
    } else if e.comments.len() >= MAX_COMMENTS {
        Err(ErrorCode::TooManyComments)
    } else {
        Ok(
            EventView {
                comments: e.comments.push(
                    CommentView {
                        comment_author: author,
                        comment_id: e.comments.len() as u64,
                        content,
                    },
                ),
                ..e
            },
        )
    }
}

/// What removing a comment returns: the record without the first comment
/// that carries `comment_id`, provided the caller wrote it, or the one
/// failure the inputs earn.
pub open spec fn remove_comment_spec(e: EventView, caller: Identity, comment_id: u64) -> Result<
    EventView,
    ErrorCode,
> {
    let p = comment_pos(e.comments, comment_id);
    if p < 0 {
        Err(ErrorCode::CommentNotFound)
    } else if e.comments[p].comment_author != caller {
        Err(ErrorCode::Unauthorized)
    } else {
        Ok(EventView { comments: e.comments.remove(p), ..e })
    }
}

/// Index of the first comment carrying `comment_id`, or `None` when none
/// does.
fn find_comment(comments: &Vec<Comment>, comment_id: u64) -> (r: Option<usize>)
    ensures
        match r {
            Some(i) => comment_pos(comments_view(comments@), comment_id) == i && i
                < comments@.len(),
            None => comment_pos(comments_view(comments@), comment_id) == -1,
        },
{
    let ghost cs = comments_view(comments@);
    let mut i: usize = 0;
    while i < comments.len()
        invariant
            i <= comments@.len(),
            cs == comments_view(comments@),
            cs.len() == comments@.len(),
            forall|j: int| 0 <= j < i ==> (#[trigger] cs[j]).comment_id != comment_id,
        decreases comments@.len() - i,
    {
        if comments[i].comment_id == comment_id {
            proof {
                assert(cs[i as int].comment_id == comment_id);
                lemma_comment_pos_is_first(cs, comment_id, i as int);
            }
            return Some(i);
        }
        proof {
            assert(cs[i as int].comment_id != comment_id);
        }
        i = i + 1;
    }
    proof {
        lemma_comment_pos_none(cs, comment_id);
    }
    None
}

/// Post a comment by `author`. Succeeds exactly when the content is 1 to
/// 500 bytes and fewer than 5 comments are stored; the new comment is
/// appended with the pre-insertion list length as its identifier. A
/// failing call leaves the record unchanged.
pub fn add_comment(event: &mut BirthdayEvent, author: Identity, content: Vec<u8>) -> (r: Result<
    (),
    ErrorCode,
>)
    requires
        old(event)@.wf(),
    ensures
        final(event)@.wf(),
        match add_comment_spec(old(event)@, author, content@) {
            Ok(v) => r is Ok && final(event)@ == v,
            Err(c) => r matches Err(e) && e == c && *final(event) == *old(event),
        },
{
    if content.len() == 0 || content.len() > MAX_COMMENT_BYTES {
        return Err(ErrorCode::InvalidComment);
    }
    if event.comments.len() >= MAX_COMMENTS {
        return Err(ErrorCode::TooManyComments);
    }
    let ghost c0 = event.comments@;
    let comment_id = event.comments.len() as u64;
    let entry = Comment { comment_author: author, comment_id, content };
    event.comments.push(entry);
    proof {
        assert(comments_view(event.comments@) =~= comments_view(c0).push(entry@));
        assert(event@ =~= add_comment_spec(old(event)@, author, entry.content@)->Ok_0);
    }
    Ok(())
}

/// Retract the first comment that carries `comment_id`, when `caller`
/// wrote it. Fails with `CommentNotFound` when no comment carries the
/// identifier and with `Unauthorized` when the first one that does has
/// another author; a failing call leaves the record unchanged.
pub fn remove_comment(event: &mut BirthdayEvent, caller: Identity, comment_id: u64) -> (r: Result<
    (),
    ErrorCode,
>)
    requires
        old(event)@.wf(),
    ensures
        final(event)@.wf(),
        match remove_comment_spec(old(event)@, caller, comment_id) {
            Ok(v) => r is Ok && final(event)@ == v,
            Err(c) => r matches Err(e) && e == c && *final(event) == *old(event),
        },
{
    let ghost c0 = comments_view(event.comments@);
    match find_comment(&event.comments, comment_id) {
        None => Err(ErrorCode::CommentNotFound),
        Some(p) => {
            proof {
                lemma_comment_pos(c0, comment_id);
            }
            if event.comments[p].comment_author != caller {
                return Err(ErrorCode::Unauthorized);
            }
            event.comments.remove(p);
            proof {
                assert(comments_view(event.comments@) =~= c0.remove(p as int));
                assert(event@ =~= remove_comment_spec(old(event)@, caller, comment_id)->Ok_0);
            }
            Ok(())
        },
    }
}

} // verus!
