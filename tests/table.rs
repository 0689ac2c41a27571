use lpbot::command::{CommandDescriptor, CommandKey, CommandKind, CommandTable};
use lpbot::completion::ResolverOutcome::{Claimed, Failed, NotMine};
use lpbot::completion::{ChainStep, CompletionChain, ResolverOutcome};

fn desc(name: &str, kind: CommandKind, runner: &'static str) -> CommandDescriptor<&'static str> {
    CommandDescriptor {
        key: CommandKey::new(name, kind),
        scope: None,
        description: String::new(),
        options: vec![],
        runner,
    }
}

#[test]
fn same_key_twice_keeps_second() {
    let mut t = CommandTable::new();
    t.insert(desc("quote", CommandKind::ChatInput, "first"));
    t.insert(desc("quote", CommandKind::ChatInput, "second"));
    assert_eq!(t.len(), 1);
    let got = t.get(&CommandKey::new("quote", CommandKind::ChatInput)).unwrap();
    assert_eq!(got.runner, "second");
    assert_eq!(t.all().len(), 1);
    assert_eq!(t.all()[0].runner, "second");
}

#[test]
fn kind_is_part_of_identity() {
    let mut t = CommandTable::new();
    t.insert(desc("quote", CommandKind::ChatInput, "slash"));
    t.insert(desc("quote", CommandKind::MessageMenu, "menu"));
    assert_eq!(t.len(), 2);
    assert_eq!(t.get(&CommandKey::new("quote", CommandKind::ChatInput)).unwrap().runner, "slash");
    assert_eq!(t.get(&CommandKey::new("quote", CommandKind::MessageMenu)).unwrap().runner, "menu");
    assert!(t.get(&CommandKey::new("quote", CommandKind::UserMenu)).is_none());
    assert!(t.get(&CommandKey::new("quotes", CommandKind::ChatInput)).is_none());
}

#[test]
fn last_write_wins_among_many() {
    let mut t = CommandTable::new();
    t.insert(desc("a", CommandKind::ChatInput, "a1"));
    t.insert(desc("b", CommandKind::ChatInput, "b1"));
    t.insert(desc("a", CommandKind::ChatInput, "a2"));
    t.insert(desc("c", CommandKind::ChatInput, "c1"));
    t.insert(desc("a", CommandKind::ChatInput, "a3"));
    assert_eq!(t.len(), 3);
    assert_eq!(t.get(&CommandKey::new("a", CommandKind::ChatInput)).unwrap().runner, "a3");
    assert_eq!(t.get(&CommandKey::new("b", CommandKind::ChatInput)).unwrap().runner, "b1");
}

/// Drives the chain, the resolver at each position answering `answers[i]`;
/// returns the positions invoked and the final step.
fn drive(chain: &CompletionChain<char>, answers: &[ResolverOutcome]) -> (Vec<char>, ChainStep) {
    let mut invoked = Vec::new();
    let mut step = chain.start();
    while let ChainStep::Invoke(i) = step {
        invoked.push(*chain.get(i));
        step = chain.advance(i, answers[i]);
    }
    (invoked, step)
}

fn xyz() -> CompletionChain<char> {
    let mut chain = CompletionChain::new();
    chain.push('X');
    chain.push('Y');
    chain.push('Z');
    chain
}

#[test]
fn only_last_resolver_claims() {
    let (invoked, last) = drive(&xyz(), &[NotMine, NotMine, Claimed]);
    assert_eq!(invoked, vec!['X', 'Y', 'Z']);
    assert_eq!(last, ChainStep::Claimed(2));
}

#[test]
fn first_claim_stops_chain() {
    let (invoked, last) = drive(&xyz(), &[NotMine, Claimed, Claimed]);
    assert_eq!(invoked, vec!['X', 'Y']);
    assert_eq!(last, ChainStep::Claimed(1));
}

#[test]
fn nobody_claims_still_answers() {
    let (invoked, last) = drive(&xyz(), &[NotMine, NotMine, NotMine]);
    assert_eq!(invoked, vec!['X', 'Y', 'Z']);
    assert_eq!(last, ChainStep::Unclaimed);
    let empty: CompletionChain<char> = CompletionChain::new();
    assert_eq!(empty.start(), ChainStep::Unclaimed);
}

#[test]
fn failing_resolver_stops_chain() {
    let (invoked, last) = drive(&xyz(), &[Failed, Claimed, Claimed]);
    assert_eq!(invoked, vec!['X']);
    assert_eq!(last, ChainStep::Failed(0));
}
