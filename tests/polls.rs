use lpbot::polls::{mention_of, ModPoll, PollAction, GO, MAX_POLLS, START, YES};

fn module() -> ModPoll {
    ModPoll::new(None, None, None, Some("c"), None)
}

fn edit_text(a: PollAction) -> String {
    match a {
        PollAction::Edit(s) => s,
        other => panic!("expected an edit, got {:?}", other),
    }
}

#[test]
fn defaults_and_overrides() {
    let m = ModPoll::new(None, Some("nope"), None, None, None);
    assert_eq!(m.yes, YES);
    assert_eq!(m.no, "nope");
    assert_eq!(m.start, START);
    assert_eq!(m.go, GO);
    assert!(m.ready_polls.is_empty());
}

#[test]
fn mentions() {
    assert_eq!(mention_of(42), "<@42>");
    assert_eq!(mention_of(0), "<@0>");
}

#[test]
fn ready_users_are_listed_once() {
    let mut m = module();
    m.create_poll(7, None, None);
    let yes = m.yes.clone();
    assert_eq!(edit_text(m.handle_ready_poll(7, 1, 2, Some(99), &yes)), "Ready? (<@2> is ready)");
    assert_eq!(edit_text(m.handle_ready_poll(7, 1, 3, Some(99), &yes)), "Ready? (<@2>, <@3> are ready)");
    assert_eq!(edit_text(m.handle_ready_poll(7, 1, 2, Some(99), &yes)), "Ready? (<@2>, <@3> are ready)");
    // The bot's own reaction does not count.
    assert!(matches!(m.handle_ready_poll(7, 1, 99, Some(99), &yes), PollAction::Ignore));
    assert_eq!(m.handle_remove_react(7, 2, &yes).as_deref(), Some("Ready? (<@3> is ready)"));
    assert_eq!(m.handle_remove_react(7, 2, &yes), None);
    assert_eq!(m.handle_remove_react(7, 3, &"x".to_string()), None);
    assert_eq!(m.handle_remove_react(7, 3, &yes).as_deref(), Some("Ready?"));
}

#[test]
fn owner_starts_countdown() {
    let mut m = module();
    m.create_poll(7, Some("n".to_string()), None);
    let start = m.start.clone();
    // Only the poll's owner starts it.
    assert!(matches!(m.handle_ready_poll(7, 1, 2, None, &start), PollAction::Ignore));
    assert!(matches!(m.handle_ready_poll(7, 1, 1, None, &"other".to_string()), PollAction::Ignore));
    match m.handle_ready_poll(7, 1, 1, None, &start) {
        PollAction::Countdown(count, go) => {
            assert_eq!(count.as_deref(), Some("n"));
            assert_eq!(go, None);
            assert_eq!(
                m.countdown(&count, &go),
                vec!["Starting 3s countdown".to_string(), "n n n".to_string(), "n n".to_string(), "n".to_string(), GO.to_string()]
            );
        }
        other => panic!("expected a countdown, got {:?}", other),
    }
    assert!(m.ready_polls.is_empty());
}

#[test]
fn unknown_poll_is_made_pending() {
    let mut m = module();
    let yes = m.yes.clone();
    assert_eq!(edit_text(m.handle_ready_poll(5, 1, 2, None, &yes)), "Ready? (<@2> is ready)");
    assert_eq!(m.ready_polls.len(), 1);
    assert_eq!(m.ready_polls[0].id, 5);
    let defaults = m.countdown(&None, &None);
    assert_eq!(defaults[1], "c c c");
}

#[test]
fn oldest_polls_are_dropped() {
    let mut m = module();
    for id in 0..(MAX_POLLS as u64 + 5) {
        m.create_poll(id, None, None);
    }
    assert_eq!(m.ready_polls.len(), MAX_POLLS);
    assert_eq!(m.ready_polls[0].id, MAX_POLLS as u64 + 4);
    assert_eq!(m.ready_polls[MAX_POLLS - 1].id, 5);
}
