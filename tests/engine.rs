use mail_sync::engine::dedup_outcome;
use mail_sync::engine::Action;
use mail_sync::engine::DedupOutcome;
use mail_sync::engine::Event;
use mail_sync::engine::MailboxStatus;
use mail_sync::engine::SyncEngine;
use mail_sync::engine::SyncMailboxResult;

fn strings(v: &[&str]) -> Vec<String> {
    v.iter().map(|s| s.to_string()).collect()
}

fn ids(v: &[Option<&str>]) -> Vec<Option<Vec<u8>>> {
    v.iter().map(|o| o.map(|s| s.as_bytes().to_vec())).collect()
}

/// Plays both servers: the source holds `source`, one message list per
/// mailbox of the work list; the destination holds identifiers per mailbox.
fn run(
    mailboxes: &[&str],
    source: &[Vec<Option<Vec<u8>>>],
    dest: &mut Vec<(String, String)>,
) -> (Vec<SyncMailboxResult>, usize) {
    let mut engine = SyncEngine::new(strings(mailboxes));
    let mut action = engine.next_action();
    let mut current: usize = 0;
    let mut append_calls: usize = 0;
    loop {
        let event = match action {
            Action::SelectSource { mailbox } => {
                current = mailboxes.iter().position(|m| *m == mailbox).unwrap();
                Event::Selected { exists: source[current].len() as u32 }
            },
            Action::Fetch { .. } => Event::Fetched { identifiers: source[current].clone() },
            Action::Query { mailbox, criterion } => {
                let id = criterion.strip_prefix("HEADER Message-ID ").unwrap();
                let matches: Vec<u32> = dest
                    .iter()
                    .enumerate()
                    .filter(|(_, (m, d))| *m == mailbox && d == id)
                    .map(|(i, _)| i as u32 + 1)
                    .collect();
                Event::Searched { matches }
            },
            Action::Append { mailbox, index } => {
                append_calls += 1;
                let raw = source[current][index].clone().unwrap();
                dest.push((mailbox, String::from_utf8(raw).unwrap()));
                Event::Appended
            },
            Action::Finished => break,
        };
        action = engine.handle(event);
    }
    assert!(engine.is_finished());
    (engine.summary().clone(), append_calls)
}

fn counts(r: &SyncMailboxResult) -> (usize, usize, usize, usize) {
    (r.total, r.appended, r.skipped_existing, r.failed)
}

fn assert_complete(results: &[SyncMailboxResult]) {
    for r in results {
        assert_eq!(r.appended + r.skipped_existing + r.failed, r.total);
    }
}

#[test]
fn inbox_scenario_appends_missing_messages() {
    let mut dest = vec![("INBOX".to_string(), "<a@x>".to_string())];
    let source = vec![ids(&[Some("<a@x>"), Some("<b@x>"), Some("<c@x>")])];
    let (summary, appends) = run(&["INBOX"], &source, &mut dest);
    assert_eq!(summary.len(), 1);
    assert_eq!(summary[0].mailbox, "INBOX");
    assert_eq!(counts(&summary[0]), (3, 2, 1, 0));
    assert_eq!(summary[0].status, MailboxStatus::Completed);
    assert_eq!(appends, 2);
    for id in ["<a@x>", "<b@x>", "<c@x>"] {
        assert!(dest.iter().any(|(m, d)| m == "INBOX" && d == id));
    }
}

#[test]
fn second_run_appends_nothing() {
    let mut dest = vec![("Work".to_string(), "<w1@x>".to_string())];
    let source = vec![
        ids(&[Some("<a@x>"), Some("<b@x>")]),
        ids(&[Some("<w1@x>"), Some("<w2@x>"), Some("<w2@x>")]),
    ];
    let (first, _) = run(&["INBOX", "Work"], &source, &mut dest);
    assert_eq!(counts(&first[0]), (2, 2, 0, 0));
    assert_eq!(counts(&first[1]), (3, 1, 2, 0));
    let held = dest.clone();
    let (second, appends) = run(&["INBOX", "Work"], &source, &mut dest);
    assert_eq!(appends, 0);
    assert_eq!(counts(&second[0]), (2, 0, 2, 0));
    assert_eq!(counts(&second[1]), (3, 0, 3, 0));
    assert_eq!(dest, held);
    assert_complete(&first);
    assert_complete(&second);
}

#[test]
fn message_without_identifier_fails_and_is_not_appended() {
    let mut dest = Vec::new();
    let source = vec![ids(&[None, Some("<b@x>"), None])];
    let (summary, appends) = run(&["INBOX"], &source, &mut dest);
    assert_eq!(counts(&summary[0]), (3, 1, 0, 2));
    assert_eq!(appends, 1);
    assert_eq!(dest, vec![("INBOX".to_string(), "<b@x>".to_string())]);
}

#[test]
fn identifier_that_is_not_utf8_fails() {
    let mut engine = SyncEngine::new(strings(&["INBOX"]));
    engine.handle(Event::Selected { exists: 1 });
    let a = engine.handle(Event::Fetched { identifiers: vec![Some(vec![0xff, 0xfe])] });
    assert!(matches!(a, Action::Finished));
    assert_eq!(counts(&engine.summary()[0]), (1, 0, 0, 1));
}

#[test]
fn one_message_is_fetched_by_single_index() {
    let mut engine = SyncEngine::new(strings(&["INBOX"]));
    match engine.handle(Event::Selected { exists: 1 }) {
        Action::Fetch { mailbox, range } => {
            assert_eq!(mailbox, "INBOX");
            assert_eq!(range, "1");
        },
        other => panic!("unexpected action {:?}", other),
    }
}

#[test]
fn several_messages_are_fetched_by_range() {
    let mut engine = SyncEngine::new(strings(&["INBOX"]));
    match engine.handle(Event::Selected { exists: 42 }) {
        Action::Fetch { range, .. } => assert_eq!(range, "1:42"),
        other => panic!("unexpected action {:?}", other),
    }
}

#[test]
fn empty_mailbox_is_not_fetched() {
    let mut engine = SyncEngine::new(strings(&["Empty", "INBOX"]));
    match engine.next_action() {
        Action::SelectSource { mailbox } => assert_eq!(mailbox, "Empty"),
        other => panic!("unexpected action {:?}", other),
    }
    match engine.handle(Event::Selected { exists: 0 }) {
        Action::SelectSource { mailbox } => assert_eq!(mailbox, "INBOX"),
        other => panic!("unexpected action {:?}", other),
    }
    let r = &engine.summary()[0];
    assert_eq!(r.mailbox, "Empty");
    assert_eq!(counts(r), (0, 0, 0, 0));
    assert_eq!(r.status, MailboxStatus::Completed);
}

#[test]
fn empty_work_list_is_finished_at_once() {
    let engine = SyncEngine::new(Vec::new());
    assert!(engine.is_finished());
    assert!(matches!(engine.next_action(), Action::Finished));
    assert!(engine.summary().is_empty());
}

#[test]
fn select_failure_aborts_only_that_mailbox() {
    let mut engine = SyncEngine::new(strings(&["Gone", "INBOX"]));
    match engine.handle(Event::SelectFailed) {
        Action::SelectSource { mailbox } => assert_eq!(mailbox, "INBOX"),
        other => panic!("unexpected action {:?}", other),
    }
    assert_eq!(engine.summary()[0].status, MailboxStatus::Aborted);
    assert_eq!(counts(&engine.summary()[0]), (0, 0, 0, 0));
}

#[test]
fn fetch_failure_aborts_only_that_mailbox() {
    let mut engine = SyncEngine::new(strings(&["INBOX"]));
    engine.handle(Event::Selected { exists: 5 });
    let a = engine.handle(Event::FetchFailed);
    assert!(matches!(a, Action::Finished));
    assert_eq!(engine.summary()[0].status, MailboxStatus::Aborted);
}

#[test]
fn search_failure_counts_as_failed_without_append() {
    let mut engine = SyncEngine::new(strings(&["INBOX"]));
    engine.handle(Event::Selected { exists: 2 });
    let a = engine.handle(Event::Fetched { identifiers: ids(&[Some("<a@x>"), Some("<b@x>")]) });
    match a {
        Action::Query { mailbox, criterion } => {
            assert_eq!(mailbox, "INBOX");
            assert_eq!(criterion, "HEADER Message-ID <a@x>");
        },
        other => panic!("unexpected action {:?}", other),
    }
    match engine.handle(Event::SearchFailed) {
        Action::Query { criterion, .. } => assert_eq!(criterion, "HEADER Message-ID <b@x>"),
        other => panic!("unexpected action {:?}", other),
    }
    match engine.handle(Event::Searched { matches: vec![] }) {
        Action::Append { mailbox, index } => {
            assert_eq!(mailbox, "INBOX");
            assert_eq!(index, 1);
        },
        other => panic!("unexpected action {:?}", other),
    }
    assert!(matches!(engine.handle(Event::Appended), Action::Finished));
    assert_eq!(counts(&engine.summary()[0]), (2, 1, 0, 1));
}

#[test]
fn append_failure_counts_as_failed() {
    let mut engine = SyncEngine::new(strings(&["INBOX"]));
    engine.handle(Event::Selected { exists: 1 });
    engine.handle(Event::Fetched { identifiers: ids(&[Some("<a@x>")]) });
    engine.handle(Event::Searched { matches: vec![] });
    assert!(matches!(engine.handle(Event::AppendFailed), Action::Finished));
    assert_eq!(counts(&engine.summary()[0]), (1, 0, 0, 1));
}

#[test]
fn fetch_may_return_fewer_messages_than_reported() {
    let mut engine = SyncEngine::new(strings(&["INBOX"]));
    engine.handle(Event::Selected { exists: 3 });
    assert!(matches!(engine.handle(Event::Fetched { identifiers: vec![] }), Action::Finished));
    assert_eq!(counts(&engine.summary()[0]), (0, 0, 0, 0));
}

#[test]
fn unexpected_event_is_ignored() {
    let mut engine = SyncEngine::new(strings(&["INBOX"]));
    match engine.handle(Event::Appended) {
        Action::SelectSource { mailbox } => assert_eq!(mailbox, "INBOX"),
        other => panic!("unexpected action {:?}", other),
    }
    assert!(engine.summary().is_empty());
}

#[test]
fn dedup_first_match_wins() {
    assert_eq!(dedup_outcome(None), DedupOutcome::QueryError);
    assert_eq!(dedup_outcome(Some(&vec![])), DedupOutcome::NotFound);
    assert_eq!(dedup_outcome(Some(&vec![7, 3])), DedupOutcome::Found(7));
}

#[test]
fn cancel_within_mailbox_keeps_what_was_handled() {
    let mut engine = SyncEngine::new(strings(&["INBOX", "Work", "Archive"]));
    engine.handle(Event::Selected { exists: 3 });
    engine.handle(Event::Fetched { identifiers: ids(&[Some("<a@x>"), Some("<b@x>"), Some("<c@x>")]) });
    engine.handle(Event::Searched { matches: vec![4] });
    engine.handle(Event::Searched { matches: vec![] });
    assert!(matches!(engine.handle(Event::Cancelled), Action::Finished));
    let summary = engine.summary();
    assert_eq!(summary.len(), 3);
    assert_eq!(summary[0].status, MailboxStatus::Interrupted);
    assert_eq!(counts(&summary[0]), (1, 0, 1, 0));
    assert_eq!(summary[1].mailbox, "Work");
    assert_eq!(summary[1].status, MailboxStatus::NotAttempted);
    assert_eq!(summary[2].mailbox, "Archive");
    assert_eq!(summary[2].status, MailboxStatus::NotAttempted);
    assert_complete(summary);
}

#[test]
fn cancel_between_mailboxes() {
    let mut engine = SyncEngine::new(strings(&["Empty", "INBOX"]));
    engine.handle(Event::Selected { exists: 0 });
    assert!(matches!(engine.handle(Event::Cancelled), Action::Finished));
    let summary = engine.summary();
    assert_eq!(summary[0].status, MailboxStatus::Completed);
    assert_eq!(summary[1].status, MailboxStatus::NotAttempted);
    assert_eq!(counts(&summary[1]), (0, 0, 0, 0));
    assert!(matches!(engine.handle(Event::Cancelled), Action::Finished));
    assert_eq!(engine.summary().len(), 2);
}
