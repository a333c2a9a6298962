use nimi::error::Error;
use nimi::subreaper::{ChildGuard, ReapKind, ReapStep, Subreaper, WaitOutcome};
use std::collections::HashSet;

#[test]
fn registry_tracks_children_until_their_guards_are_released() {
    let mut registry = Subreaper::new();
    assert!(registry.registry().is_empty());
    let first = registry.track_child(Some(100)).unwrap();
    let second = registry.track_child(Some(200)).unwrap();
    assert_eq!(first.pid(), Some(100));
    assert_eq!(registry.registry(), &HashSet::from([100, 200]));
    first.release(&mut registry);
    assert_eq!(registry.registry(), &HashSet::from([200]));
    second.release(&mut registry);
    assert!(registry.registry().is_empty());
}

#[test]
fn tracking_without_a_pid_registers_nothing() {
    let mut registry = Subreaper::new();
    let guard = registry.track_child(None).unwrap();
    assert_eq!(guard.pid(), None);
    assert_eq!(guard, ChildGuard::noop());
    assert!(registry.registry().is_empty());
    guard.release(&mut registry);
    assert!(registry.registry().is_empty());
}

#[test]
fn register_and_unregister_change_only_their_pid() {
    let mut registry = Subreaper::new();
    registry.register_child(7);
    registry.register_child(8);
    registry.register_child(7);
    assert_eq!(registry.snapshot_managed(), HashSet::from([7, 8]));
    registry.unregister_child(9);
    assert_eq!(registry.snapshot_managed(), HashSet::from([7, 8]));
    registry.unregister_child(7);
    assert_eq!(registry.snapshot_managed(), HashSet::from([8]));
}

#[test]
fn snapshot_is_a_copy() {
    let mut registry = Subreaper::new();
    registry.register_child(1);
    let snapshot = registry.snapshot_managed();
    registry.register_child(2);
    assert_eq!(snapshot, HashSet::from([1]));
    assert_eq!(registry.registry(), &HashSet::from([1, 2]));
}

#[test]
fn guards_name_their_child() {
    assert_eq!(ChildGuard::new(5).pid(), Some(5));
    assert_eq!(ChildGuard::noop().pid(), None);
}

#[test]
fn enabling_fails_with_the_message_of_the_system() {
    assert!(Subreaper::enable(0, String::new()).is_ok());
    let failed = Subreaper::enable(-1, "operation not permitted".to_string());
    assert_eq!(failed.err(), Some(Error::IOErr("operation not permitted".to_string())));
}

#[test]
fn children_file_lists_pids_between_blanks() {
    assert_eq!(Subreaper::parse_children(""), Vec::<i32>::new());
    assert_eq!(Subreaper::parse_children("   \n"), Vec::<i32>::new());
    assert_eq!(Subreaper::parse_children("123 4567 89 "), vec![123, 4567, 89]);
    assert_eq!(Subreaper::parse_children("1\t2\n3"), vec![1, 2, 3]);
    assert_eq!(Subreaper::parse_children("12 x 13 1a 14"), vec![12, 13, 14]);
    assert_eq!(Subreaper::parse_children("7\u{2003}8\u{a0}9"), vec![7, 8, 9]);
}

#[test]
fn words_are_read_as_32_bit_integers() {
    assert_eq!(Subreaper::parse_children("+5 -6 007"), vec![5, -6, 7]);
    assert_eq!(Subreaper::parse_children("2147483647 2147483648"), vec![2147483647]);
    assert_eq!(Subreaper::parse_children("-2147483648 -2147483649"), vec![-2147483648]);
    assert_eq!(Subreaper::parse_children("+ - ++1 1+ 99999999999999999999"), Vec::<i32>::new());
    assert_eq!(Subreaper::parse_children("٣ 1.5 0x10"), Vec::<i32>::new());
}

#[test]
fn parsing_agrees_with_the_standard_library() {
    let texts = [
        "1 2 3",
        " 10\t-20\n+30 ",
        "a 1 b 2",
        "00012 2147483647 2147483648 -2147483648 -2147483649",
        "1\u{85}2\u{1680}3\u{2028}4\u{3000}5",
        "1\u{200b}2",
        "",
    ];
    for text in texts {
        let expected: Vec<i32> =
            text.split_whitespace().filter_map(|word| word.parse::<i32>().ok()).collect();
        assert_eq!(Subreaper::parse_children(text), expected);
    }
}

#[test]
fn parse_pid_reads_one_word() {
    let word: Vec<char> = "4321".chars().collect();
    assert_eq!(Subreaper::parse_pid(&word), Some(4321));
    assert_eq!(Subreaper::parse_pid(&Vec::new()), None);
    assert_eq!(Subreaper::parse_pid(&vec!['-']), None);
    assert_eq!(Subreaper::parse_pid(&vec!['-', '0']), Some(0));
}

#[test]
fn orphans_are_listed_positive_and_unmanaged() {
    let managed = HashSet::from([10, 30]);
    let children = vec![10, 20, 30, 40, 20, 0, -1, 40];
    assert_eq!(Subreaper::orphans(&children, &managed), vec![20, 40]);
    assert!(Subreaper::orphans(&Vec::new(), &managed).is_empty());
    assert_eq!(Subreaper::orphans(&vec![10, 30], &managed), Vec::<i32>::new());
    assert_eq!(Subreaper::orphans(&vec![5], &HashSet::new()), vec![5]);
}

#[test]
fn wait_outcomes_decide_what_follows() {
    assert_eq!(
        Subreaper::after_wait(WaitOutcome::Exited(3)),
        ReapStep::Done(Some(ReapKind::Exited(3)))
    );
    assert_eq!(
        Subreaper::after_wait(WaitOutcome::Signaled(9)),
        ReapStep::Done(Some(ReapKind::Signaled(9)))
    );
    assert_eq!(Subreaper::after_wait(WaitOutcome::StillAlive), ReapStep::Done(None));
    assert_eq!(Subreaper::after_wait(WaitOutcome::NoChild), ReapStep::Done(None));
    assert_eq!(Subreaper::after_wait(WaitOutcome::Other), ReapStep::Retry);
    assert_eq!(Subreaper::after_wait(WaitOutcome::Interrupted), ReapStep::Retry);
    assert_eq!(
        Subreaper::after_wait(WaitOutcome::Failed("invalid argument".to_string())),
        ReapStep::Done(Some(ReapKind::Failed("invalid argument".to_string())))
    );
}

#[test]
fn waiting_on_a_process_that_is_no_child_reports_nothing() {
    assert_eq!(Subreaper::reap_one(1), None);
}

#[test]
fn reaping_leaves_managed_children_alone() {
    let mut registry = Subreaper::new();
    registry.register_child(1);
    let reports = registry.reap_orphaned_children(&vec![1, 1, 0, -5]);
    assert!(reports.is_empty());
    let reports = Subreaper::new().reap_orphaned_children(&vec![1]);
    assert!(reports.is_empty());
}
