use birthday_invite::add_comment;
use birthday_invite::confirm_attendance;
use birthday_invite::decline_attendance;
use birthday_invite::initialize_bday_event;
use birthday_invite::remove_comment;
use birthday_invite::BirthdayEvent;
use birthday_invite::ErrorCode;
use birthday_invite::Identity;

const NOW: i64 = 1_700_000_000;

fn id(n: u64) -> Identity {
    Identity { key: n }
}

fn fresh_event() -> BirthdayEvent {
    initialize_bday_event(b"Party".to_vec(), NOW + 1000, id(99), NOW).unwrap()
}

#[test]
fn create_rejects_empty_name() {
    let r = initialize_bday_event(Vec::new(), NOW + 1000, id(1), NOW);
    assert_eq!(r.unwrap_err(), ErrorCode::InvalidEventName);
}

#[test]
fn create_rejects_name_over_32_bytes() {
    let name = vec![b'x'; 33];
    let r = initialize_bday_event(name, NOW + 1000, id(1), NOW);
    assert_eq!(r.unwrap_err(), ErrorCode::InvalidEventName);
}

#[test]
fn create_accepts_name_boundaries() {
    let one = initialize_bday_event(vec![b'x'], NOW + 1000, id(1), NOW);
    assert!(one.is_ok());
    let thirty_two = initialize_bday_event(vec![b'x'; 32], NOW + 1000, id(1), NOW);
    assert!(thirty_two.is_ok());
}

#[test]
fn create_rejects_date_not_in_future() {
    let at_now = initialize_bday_event(b"Party".to_vec(), NOW, id(1), NOW);
    assert_eq!(at_now.unwrap_err(), ErrorCode::PastDateNotAllowed);
    let before_now = initialize_bday_event(b"Party".to_vec(), NOW - 1, id(1), NOW);
    assert_eq!(before_now.unwrap_err(), ErrorCode::PastDateNotAllowed);
}

#[test]
fn create_checks_name_before_date() {
    let r = initialize_bday_event(Vec::new(), NOW - 1, id(1), NOW);
    assert_eq!(r.unwrap_err(), ErrorCode::InvalidEventName);
}

#[test]
fn create_initial_state() {
    let event = initialize_bday_event(b"Party".to_vec(), NOW + 1000, id(99), NOW).unwrap();
    assert_eq!(event.creator, id(99));
    assert_eq!(event.event_name, b"Party".to_vec());
    assert_eq!(event.event_date, NOW + 1000);
    assert_eq!(event.coming_count, 0);
    assert_eq!(event.busy_count, 0);
    assert!(event.rsvps.is_empty());
    assert!(event.comments.is_empty());
    assert!(event.check_invariants());
}

#[test]
fn first_confirm_appends_coming_entry() {
    let mut event = fresh_event();
    assert!(confirm_attendance(&mut event, id(1), NOW).is_ok());
    assert_eq!(event.coming_count, 1);
    assert_eq!(event.busy_count, 0);
    assert_eq!(event.rsvps.len(), 1);
    assert_eq!(event.rsvps[0].invited_person, id(1));
    assert!(event.rsvps[0].is_coming);
}

#[test]
fn first_decline_appends_busy_entry() {
    let mut event = fresh_event();
    assert!(decline_attendance(&mut event, id(1), NOW).is_ok());
    assert_eq!(event.coming_count, 0);
    assert_eq!(event.busy_count, 1);
    assert_eq!(event.rsvps.len(), 1);
    assert!(!event.rsvps[0].is_coming);
}

#[test]
fn double_confirm_retracts() {
    let mut event = fresh_event();
    assert!(confirm_attendance(&mut event, id(1), NOW).is_ok());
    assert!(confirm_attendance(&mut event, id(1), NOW).is_ok());
    assert_eq!(event.rsvps.len(), 0);
    assert_eq!(event.coming_count, 0);
    assert_eq!(event.busy_count, 0);
}

#[test]
fn double_decline_retracts() {
    let mut event = fresh_event();
    assert!(decline_attendance(&mut event, id(1), NOW).is_ok());
    assert!(decline_attendance(&mut event, id(1), NOW).is_ok());
    assert_eq!(event.rsvps.len(), 0);
    assert_eq!(event.coming_count, 0);
    assert_eq!(event.busy_count, 0);
}

#[test]
fn confirm_decline_confirm_restores_coming() {
    let mut event = fresh_event();
    assert!(confirm_attendance(&mut event, id(1), NOW).is_ok());
    let len_after_first = event.rsvps.len();
    assert!(decline_attendance(&mut event, id(1), NOW).is_ok());
    assert_eq!(event.rsvps.len(), len_after_first);
    assert!(!event.rsvps[0].is_coming);
    assert_eq!(event.busy_count, 1);
    assert!(confirm_attendance(&mut event, id(1), NOW).is_ok());
    assert_eq!(event.rsvps.len(), len_after_first);
    assert!(event.rsvps[0].is_coming);
    assert_eq!(event.coming_count, 1);
    assert_eq!(event.busy_count, 0);
}

#[test]
fn switch_keeps_other_entries_in_place() {
    let mut event = fresh_event();
    assert!(confirm_attendance(&mut event, id(1), NOW).is_ok());
    assert!(decline_attendance(&mut event, id(2), NOW).is_ok());
    assert!(confirm_attendance(&mut event, id(2), NOW).is_ok());
    assert_eq!(event.rsvps.len(), 2);
    assert_eq!(event.rsvps[0].invited_person, id(1));
    assert_eq!(event.rsvps[1].invited_person, id(2));
    assert!(event.rsvps[1].is_coming);
    assert_eq!(event.coming_count, 2);
    assert_eq!(event.busy_count, 0);
}

#[test]
fn counters_match_list_through_mixed_operations() {
    let mut event = fresh_event();
    assert!(confirm_attendance(&mut event, id(1), NOW).is_ok());
    assert!(decline_attendance(&mut event, id(2), NOW).is_ok());
    assert!(confirm_attendance(&mut event, id(3), NOW).is_ok());
    assert!(decline_attendance(&mut event, id(3), NOW).is_ok());
    assert!(confirm_attendance(&mut event, id(1), NOW).is_ok());
    assert_eq!(
        event.coming_count as usize + event.busy_count as usize,
        event.rsvps.len()
    );
    assert!(event.check_invariants());
}

#[test]
fn sixth_distinct_caller_is_rejected() {
    let mut event = fresh_event();
    for n in 1..=5 {
        assert!(confirm_attendance(&mut event, id(n), NOW).is_ok());
    }
    assert_eq!(event.rsvps.len(), 5);
    let r = confirm_attendance(&mut event, id(6), NOW);
    assert_eq!(r.unwrap_err(), ErrorCode::TooManyRSVPs);
    assert_eq!(event.rsvps.len(), 5);
    let r = decline_attendance(&mut event, id(6), NOW);
    assert_eq!(r.unwrap_err(), ErrorCode::TooManyRSVPs);
    assert_eq!(event.rsvps.len(), 5);
    assert_eq!(event.coming_count, 5);
}

#[test]
fn existing_caller_can_still_vote_at_capacity() {
    let mut event = fresh_event();
    for n in 1..=5 {
        assert!(confirm_attendance(&mut event, id(n), NOW).is_ok());
    }
    assert!(decline_attendance(&mut event, id(3), NOW).is_ok());
    assert_eq!(event.rsvps.len(), 5);
    assert_eq!(event.coming_count, 4);
    assert_eq!(event.busy_count, 1);
    assert!(!event.rsvps[2].is_coming);
}

#[test]
fn sixth_comment_is_rejected() {
    let mut event = fresh_event();
    for n in 0..5 {
        assert!(add_comment(&mut event, id(n), vec![b'a' + n as u8]).is_ok());
    }
    assert_eq!(event.comments.len(), 5);
    let r = add_comment(&mut event, id(7), b"late".to_vec());
    assert_eq!(r.unwrap_err(), ErrorCode::TooManyComments);
    assert_eq!(event.comments.len(), 5);
    for n in 0..5 {
        assert_eq!(event.comments[n].comment_id, n as u64);
        assert_eq!(event.comments[n].content, vec![b'a' + n as u8]);
    }
}

#[test]
fn comment_content_length_is_validated() {
    let mut event = fresh_event();
    let r = add_comment(&mut event, id(1), Vec::new());
    assert_eq!(r.unwrap_err(), ErrorCode::InvalidComment);
    let r = add_comment(&mut event, id(1), vec![b'x'; 501]);
    assert_eq!(r.unwrap_err(), ErrorCode::InvalidComment);
    assert!(event.comments.is_empty());
    assert!(add_comment(&mut event, id(1), vec![b'x'; 500]).is_ok());
    assert!(add_comment(&mut event, id(1), vec![b'x']).is_ok());
    assert_eq!(event.comments.len(), 2);
}

#[test]
fn remove_by_non_author_is_unauthorized() {
    let mut event = fresh_event();
    assert!(add_comment(&mut event, id(2), b"Excited!".to_vec()).is_ok());
    let r = remove_comment(&mut event, id(1), 0);
    assert_eq!(r.unwrap_err(), ErrorCode::Unauthorized);
    assert_eq!(event.comments.len(), 1);
    assert_eq!(event.comments[0].comment_author, id(2));
}

#[test]
fn remove_by_author_removes_exactly_that_comment() {
    let mut event = fresh_event();
    assert!(add_comment(&mut event, id(1), b"one".to_vec()).is_ok());
    assert!(add_comment(&mut event, id(2), b"two".to_vec()).is_ok());
    assert!(add_comment(&mut event, id(1), b"three".to_vec()).is_ok());
    assert!(remove_comment(&mut event, id(2), 1).is_ok());
    assert_eq!(event.comments.len(), 2);
    assert_eq!(event.comments[0].content, b"one".to_vec());
    assert_eq!(event.comments[1].content, b"three".to_vec());
}

#[test]
fn remove_unknown_id_is_not_found() {
    let mut event = fresh_event();
    let r = remove_comment(&mut event, id(1), 0);
    assert_eq!(r.unwrap_err(), ErrorCode::CommentNotFound);
    assert!(add_comment(&mut event, id(1), b"hi".to_vec()).is_ok());
    let r = remove_comment(&mut event, id(1), 7);
    assert_eq!(r.unwrap_err(), ErrorCode::CommentNotFound);
    assert_eq!(event.comments.len(), 1);
}

#[test]
fn reused_comment_id_targets_first_match() {
    let mut event = fresh_event();
    assert!(add_comment(&mut event, id(1), b"first".to_vec()).is_ok());
    assert!(add_comment(&mut event, id(2), b"second".to_vec()).is_ok());
    assert!(remove_comment(&mut event, id(1), 0).is_ok());
    // The list now holds only "second", still carrying identifier 1; the
    // next insertion derives its identifier from the new length and
    // collides with it.
    assert!(add_comment(&mut event, id(3), b"third".to_vec()).is_ok());
    assert_eq!(event.comments[0].comment_id, 1);
    assert_eq!(event.comments[1].comment_id, 1);
    assert!(remove_comment(&mut event, id(2), 1).is_ok());
    assert_eq!(event.comments.len(), 1);
    assert_eq!(event.comments[0].content, b"third".to_vec());
    assert_eq!(event.comments[0].comment_author, id(3));
}

#[test]
fn past_event_locks_votes_and_leaves_record_unchanged() {
    let mut event = fresh_event();
    assert!(confirm_attendance(&mut event, id(1), NOW).is_ok());
    let late = event.event_date;
    let r = confirm_attendance(&mut event, id(2), late);
    assert_eq!(r.unwrap_err(), ErrorCode::EventPassed);
    let r = decline_attendance(&mut event, id(1), late + 50);
    assert_eq!(r.unwrap_err(), ErrorCode::EventPassed);
    assert_eq!(event.rsvps.len(), 1);
    assert_eq!(event.coming_count, 1);
    assert_eq!(event.busy_count, 0);
    assert!(event.rsvps[0].is_coming);
}

#[test]
fn voting_is_open_until_the_event_time() {
    let mut event = fresh_event();
    let last_moment = event.event_date - 1;
    assert!(confirm_attendance(&mut event, id(1), last_moment).is_ok());
    assert_eq!(event.coming_count, 1);
}

#[test]
fn full_scenario() {
    let t = NOW;
    let mut event = initialize_bday_event(b"Party".to_vec(), t + 1000, id(99), t).unwrap();
    assert_eq!(event.coming_count, 0);
    assert_eq!(event.busy_count, 0);

    let a = id(1);
    let b = id(2);

    assert!(confirm_attendance(&mut event, a, t).is_ok());
    assert_eq!(event.coming_count, 1);

    assert!(confirm_attendance(&mut event, a, t).is_ok());
    assert_eq!(event.coming_count, 0);
    assert!(event.rsvps.iter().all(|r| r.invited_person != a));

    assert!(decline_attendance(&mut event, a, t).is_ok());
    assert_eq!(event.busy_count, 1);

    assert!(add_comment(&mut event, b, b"Excited!".to_vec()).is_ok());
    assert_eq!(event.comments[0].comment_id, 0);

    assert!(add_comment(&mut event, a, b"Me too".to_vec()).is_ok());
    assert_eq!(event.comments[1].comment_id, 1);

    assert!(remove_comment(&mut event, a, 1).is_ok());
    assert_eq!(event.comments.len(), 1);
    assert_eq!(event.comments[0].comment_author, b);
    assert_eq!(event.comments[0].content, b"Excited!".to_vec());

    let r = remove_comment(&mut event, a, 1);
    assert_eq!(r.unwrap_err(), ErrorCode::CommentNotFound);
    assert!(event.check_invariants());
}

#[test]
fn check_invariants_rejects_tampered_records() {
    let mut event = fresh_event();
    assert!(confirm_attendance(&mut event, id(1), NOW).is_ok());
    assert!(event.check_invariants());

    let mut wrong_count = event.clone();
    wrong_count.coming_count = 2;
    assert!(!wrong_count.check_invariants());

    let mut duplicate = event.clone();
    duplicate.rsvps.push(birthday_invite::RSVP {
        invited_person: id(1),
        is_coming: false,
    });
    duplicate.busy_count = 1;
    assert!(!duplicate.check_invariants());

    let mut bad_name = event.clone();
    bad_name.event_name = Vec::new();
    assert!(!bad_name.check_invariants());

    let mut bad_comment = event.clone();
    bad_comment.comments.push(birthday_invite::Comment {
        comment_author: id(1),
        comment_id: 0,
        content: Vec::new(),
    });
    assert!(!bad_comment.check_invariants());
}
