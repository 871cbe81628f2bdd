//! Applying a committed prefix page by page.

use raft_engine::bounded_apply::{BoundedApply, Range};
use raft_engine::command_state::CommandState;
use raft_engine::config::{Config, ConfigError, NonZeroU64};

fn limit() -> NonZeroU64 {
    NonZeroU64::new(64).unwrap()
}

#[test]
fn bounded_apply_does_not_release_page_or_command_before_exact_completion() {
    let mut apply = BoundedApply::default();
    apply.enqueue(4, 20, 85).unwrap();
    assert_eq!(apply.next_page(limit()), Some((4, 20, 84)));
    // An actual byte-limited read may be shorter than the requested page.
    apply.sent_page(21).unwrap();
    assert_eq!(apply.next_page(limit()), None);
    assert!(apply.sent_page(22).is_err());
    for (seq, since, end) in [(5, 20, 21), (4, 19, 21), (4, 20, 22)] {
        assert!(apply.complete_page(seq, since, end).is_err());
        assert_eq!(apply.next_page(limit()), None);
    }
    assert_eq!(apply.complete_page(4, 20, 21).unwrap(), None);
    assert_eq!(apply.next_page(limit()), Some((4, 21, 85)));
    apply.sent_page(85).unwrap();
    assert_eq!(apply.complete_page(4, 21, 85).unwrap(), Some(4));
    assert!(!apply.is_pending());
    assert!(apply.complete_page(4, 21, 85).is_err());
}

#[test]
fn bounded_apply_coalesces_a_long_backlog_without_storing_entries_or_ranges() {
    let mut apply = BoundedApply::default();
    apply.enqueue(1, 0, 1).unwrap();
    apply.sent_page(1).unwrap();
    for index in 1..4096 {
        apply.enqueue(index + 1, index, index + 1).unwrap();
    }
    assert_eq!(
        apply.pending(),
        Some(Range {
            seq: 4096,
            next: 1,
            end: 4096
        })
    );
    assert_eq!(apply.next_page(limit()), None);
    assert_eq!(apply.complete_page(1, 0, 1).unwrap(), Some(1));
    let mut next = 1;
    let mut complete = None;
    while let Some((seq, since, end)) = apply.next_page(limit()) {
        assert_eq!(since, next);
        assert!(end - since <= 64);
        apply.sent_page(end).unwrap();
        complete = apply.complete_page(seq, since, end).unwrap();
        next = end;
        assert_eq!(complete.is_some(), end == 4096);
    }
    assert_eq!((next, complete), (4096, Some(4096)));
    assert!(!apply.is_pending());
}

#[test]
fn bounded_apply_rejects_gaps_overlap_and_sequence_reuse_without_changing_work() {
    let mut apply = BoundedApply::default();
    assert!(apply.enqueue(1, 0, 0).is_err());
    assert!(apply.enqueue(1, 2, 1).is_err());
    apply.enqueue(4, 0, 64).unwrap();
    for (seq, since, end) in [(4, 64, 65), (5, 63, 65), (5, 65, 66)] {
        assert!(apply.enqueue(seq, since, end).is_err());
        assert!(apply.pending().is_none());
    }
    apply.enqueue(5, 64, 65).unwrap();
    assert!(apply.enqueue(5, 65, 66).is_err());
    assert_eq!(
        apply.pending(),
        Some(Range {
            seq: 5,
            next: 64,
            end: 65
        })
    );
    assert_eq!(apply.next_page(limit()), Some((4, 0, 64)));
}

#[test]
fn bounded_apply_last_page_uses_checked_domain_without_overflow() {
    let mut apply = BoundedApply::default();
    apply.enqueue(1, u64::MAX - 1, u64::MAX).unwrap();
    assert_eq!(apply.next_page(limit()), Some((1, u64::MAX - 1, u64::MAX)));
    apply.sent_page(u64::MAX).unwrap();
    assert_eq!(apply.complete_page(1, u64::MAX - 1, u64::MAX).unwrap(), Some(1));
}

#[test]
fn bounded_apply_configuration_is_opt_in_and_rejects_zero() {
    assert_eq!(Config::default().max_apply_entries, None);
    assert_eq!(
        Config::build(&["test", "--max-apply-entries", "64"]).unwrap().max_apply_entries,
        Some(limit())
    );
    assert!(Config::build(&["test", "--max-apply-entries", "0"]).is_err());
}

#[test]
fn each_refusal_says_why() {
    let mut apply = BoundedApply::default();
    assert_eq!(Err("empty or reversed bounded apply range"), apply.enqueue(1, 3, 3));
    assert_eq!(Err("missing bounded apply range"), apply.sent_page(1));
    assert_eq!(Err("unexpected bounded apply completion"), apply.complete_page(1, 0, 1));
    apply.enqueue(1, 0, 10).unwrap();
    assert_eq!(
        Err("noncontiguous or unordered bounded apply range"),
        apply.enqueue(2, 11, 12)
    );
    for end in [0, 11] {
        assert_eq!(Err("invalid bounded apply page dispatch"), apply.sent_page(end));
    }
    assert_eq!(Err("unordered bounded apply completion"), apply.complete_page(1, 0, 10));
}

#[test]
fn entries_apply_once_and_in_order_with_pages_of_any_size() {
    let mut apply = BoundedApply::default();
    let mut applied = Vec::new();
    let mut finished = Vec::new();
    apply.enqueue(1, 5, 12).unwrap();
    for (size, more) in [(3, Some((2, 12, 13))), (1, None), (2, Some((3, 13, 20))), (7, None), (7, None)] {
        let (seq, since, end) = apply.next_page(NonZeroU64::new(size).unwrap()).unwrap();
        apply.sent_page(end).unwrap();
        if let Some((seq, since, end)) = more {
            apply.enqueue(seq, since, end).unwrap();
        }
        if let Some(seq) = apply.complete_page(seq, since, end).unwrap() {
            finished.push(seq);
        }
        applied.extend(since..end);
    }
    assert_eq!((5..19).collect::<Vec<u64>>(), applied);
    assert_eq!(vec![1], finished);
    assert!(apply.is_pending());
    assert_eq!(Some((3, 19, 20)), apply.next_page(limit()));
}

#[test]
fn copy_goes_its_own_way() {
    let mut apply = BoundedApply::default();
    apply.enqueue(1, 0, 2).unwrap();
    let copy = apply.clone();
    apply.sent_page(2).unwrap();
    assert_eq!(None, apply.next_page(limit()));
    assert_eq!(Some((1, 0, 2)), copy.next_page(limit()));
    let state = CommandState::default();
    assert_eq!(0, state.finished_sm_seq);
    assert!(!state.bounded_apply.is_pending());
}

#[test]
fn arguments_are_one_option_with_a_positive_number() {
    assert_eq!(Ok(Config::default()), Config::build(&[]));
    assert_eq!(Ok(Config::default()), Config::build(&["test"]));
    for (value, expected) in [
        ("1", Some(1)),
        ("+7", Some(7)),
        ("0064", Some(64)),
        ("18446744073709551615", Some(u64::MAX)),
        ("18446744073709551616", None),
        ("99999999999999999999", None),
        ("00", None),
        ("", None),
        ("+", None),
        ("-1", None),
        ("6x", None),
        ("\u{663}", None),
    ] {
        let built = Config::build(&["test", "--max-apply-entries", value]);
        match expected {
            Some(n) => assert_eq!(Some(n), built.unwrap().max_apply_entries.map(|limit| limit.get())),
            None => assert_eq!(Err(ConfigError::InvalidValue), built),
        }
    }
    assert_eq!(
        Err(ConfigError::UnexpectedArgument),
        Config::build(&["test", "--max-apply-entry"])
    );
    assert_eq!(
        Err(ConfigError::MissingValue),
        Config::build(&["test", "--max-apply-entries"])
    );
    assert_eq!(
        Err(ConfigError::UnexpectedArgument),
        Config::build(&["test", "--max-apply-entries", "1", "2"])
    );
}

#[test]
fn pages_of_any_length_drain_a_range_in_order() {
    let mut apply = BoundedApply::default();
    apply.enqueue(1, 10, 14).unwrap();
    apply.enqueue(3, 14, 17).unwrap();
    let mut applied = Vec::new();
    let mut finished = Vec::new();
    // The reader returns fewer entries than asked for, a different number each time.
    for length in [2, 1, 1, 1, 2] {
        let (seq, since, end) = apply.next_page(NonZeroU64::new(3).unwrap()).unwrap();
        assert!(since + length <= end);
        apply.sent_page(since + length).unwrap();
        finished.extend(apply.complete_page(seq, since, since + length).unwrap());
        applied.extend(since..since + length);
    }
    assert_eq!((10..17).collect::<Vec<u64>>(), applied);
    assert_eq!(vec![1, 3], finished);
    assert_eq!(None, apply.next_page(limit()));
    assert!(!apply.is_pending());
}
