use lpbot::command::{CommandDescriptor, CommandKey, CommandKind, CommandTable};
use lpbot::dispatch::{
    after_reply, defer, dispatch_error_reply, prepare, reply_for, AckState, CommandResponse,
    DispatchError, ReplyKind,
};
use lpbot::options::{declare, CommandOption, DecodeError, OptionKind, OptionValue};

fn text(name: &str, v: &str) -> CommandOption {
    CommandOption { name: name.to_string(), value: OptionValue::String(v.to_string()), focused: false }
}

#[test]
fn error_after_defer_is_one_private_follow_up() {
    // The command defers, then fails in its slow work.
    let (ack, send) = defer(AckState::Pending);
    assert!(send);
    assert_eq!(ack, AckState::Deferred);
    // A second deferral is not sent.
    assert_eq!(defer(ack), (AckState::Deferred, false));
    let reply = reply_for(ack, Err("lookup failed".to_string())).unwrap();
    assert_eq!(reply.kind, ReplyKind::FollowUp);
    assert!(reply.private);
    assert_eq!(reply.content, "lookup failed");
}

#[test]
fn error_before_any_reply_acknowledges_privately() {
    let reply = reply_for(AckState::Pending, Err("boom".to_string())).unwrap();
    assert_eq!(reply.kind, ReplyKind::Respond);
    assert!(reply.private);
    assert_eq!(reply.content, "boom");
    assert_eq!(after_reply(AckState::Pending, reply.kind), AckState::Responded);
}

#[test]
fn error_after_response_follows_up() {
    let reply = reply_for(AckState::Responded, Err("late".to_string())).unwrap();
    assert_eq!(reply.kind, ReplyKind::FollowUp);
    assert!(reply.private);
    assert_eq!(after_reply(AckState::Responded, reply.kind), AckState::Responded);
}

#[test]
fn responses_keep_visibility() {
    let public = reply_for(AckState::Pending, Ok(CommandResponse::Public("hi".to_string()))).unwrap();
    assert_eq!((public.kind, public.private, public.content.as_str()), (ReplyKind::Respond, false, "hi"));
    let private = reply_for(AckState::Deferred, Ok(CommandResponse::Private("psst".to_string()))).unwrap();
    assert_eq!((private.kind, private.private, private.content.as_str()), (ReplyKind::FollowUp, true, "psst"));
    assert!(reply_for(AckState::Pending, Ok(CommandResponse::NoReply)).is_none());
}

#[test]
fn contents_and_flags() {
    assert_eq!(CommandResponse::NoReply.to_contents_and_flags(), None);
    assert_eq!(CommandResponse::Public("a".to_string()).to_contents_and_flags(), Some(("a".to_string(), false)));
    assert_eq!(CommandResponse::Private("b".to_string()).to_contents_and_flags(), Some(("b".to_string(), true)));
}

fn table() -> CommandTable<u8> {
    let mut t = CommandTable::new();
    t.insert(CommandDescriptor {
        key: CommandKey::new("album", CommandKind::ChatInput),
        scope: None,
        description: String::new(),
        options: vec![
            declare("album", "what", OptionKind::String, true, false),
            declare("provider", "where", OptionKind::String, false, false),
        ],
        runner: 1,
    });
    t
}

#[test]
fn prepare_finds_command_and_decodes() {
    let t = table();
    let key = CommandKey::new("album", CommandKind::ChatInput);
    let (d, vals) = prepare(&t, &key, &vec![text("album", "Blue")]).unwrap();
    assert_eq!(d.runner, 1);
    assert_eq!(vals.len(), 2);
    assert!(matches!(&vals[0], Some(OptionValue::String(s)) if s == "Blue"));
    assert!(vals[1].is_none());
}

#[test]
fn unknown_command_is_a_private_reply() {
    let t = table();
    let key = CommandKey::new("nope", CommandKind::ChatInput);
    let e = prepare(&t, &key, &vec![]).err().unwrap();
    assert!(matches!(&e, DispatchError::UnknownCommand(n) if n == "nope"));
    let reply = dispatch_error_reply(&e);
    assert_eq!(reply.kind, ReplyKind::Respond);
    assert!(reply.private);
    assert_eq!(reply.content, "unknown command: nope");
}

#[test]
fn missing_and_mistyped_arguments() {
    let t = table();
    let key = CommandKey::new("album", CommandKind::ChatInput);
    let e = prepare(&t, &key, &vec![text("provider", "x")]).err().unwrap();
    assert!(matches!(&e, DispatchError::BadArguments(DecodeError::Missing(n)) if n == "album"));
    assert_eq!(e.message(), "missing required argument: album");
    let wrong = CommandOption { name: "album".to_string(), value: OptionValue::Integer(3), focused: false };
    let e = prepare(&t, &key, &vec![wrong]).err().unwrap();
    assert!(matches!(&e, DispatchError::BadArguments(DecodeError::Mismatch(n)) if n == "album"));
    assert_eq!(dispatch_error_reply(&e).content, "wrong type for argument: album");
}
