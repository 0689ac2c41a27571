use lpbot::commands::{
    AddAutoreact, AlbumLookup, Birthday, GetAotys, ReadyPoll, RemoveAutoreact, SetBday,
    SetCreateThreads, SetPinboardWebhook, SetWebhook,
};
use lpbot::dispatch::CommandResponse;
use lpbot::options::{decode, lookup, CommandOption, DecodeError, OptionKind, OptionValue};

fn opt(name: &str, value: OptionValue) -> CommandOption {
    CommandOption { name: name.to_string(), value, focused: false }
}

fn s(v: &str) -> OptionValue {
    OptionValue::String(v.to_string())
}

fn private_text(r: CommandResponse) -> String {
    match r {
        CommandResponse::Private(t) => t,
        other => panic!("expected a private response, got {:?}", other),
    }
}

#[test]
fn album_lookup_decodes() {
    let a = AlbumLookup::decode(&vec![opt("album", s("Kid A")), opt("provider", s("bandcamp"))]).unwrap();
    assert_eq!(a.album, "Kid A");
    assert_eq!(a.provider.as_deref(), Some("bandcamp"));
    let a = AlbumLookup::decode(&vec![opt("album", s("Kid A"))]).unwrap();
    assert_eq!(a.provider, None);
    let e = AlbumLookup::decode(&vec![]).unwrap_err();
    assert!(matches!(e, DecodeError::Missing(n) if n == "album"));
    let e = AlbumLookup::decode(&vec![opt("album", s("x")), opt("provider", OptionValue::Boolean(true))]).unwrap_err();
    assert!(matches!(e, DecodeError::Mismatch(n) if n == "provider"));
}

#[test]
fn first_supplied_value_counts() {
    let provided = vec![opt("album", s("one")), opt("album", s("two"))];
    assert!(matches!(lookup(&provided, "album"), Some(OptionValue::String(v)) if v == "one"));
    assert!(lookup(&provided, "other").is_none());
}

#[test]
fn schemas_match_fields() {
    let o = SetBday::options();
    assert_eq!(o.len(), 3);
    assert_eq!((o[0].name.as_str(), o[0].kind, o[0].required), ("day", OptionKind::Integer, true));
    assert_eq!((o[2].name.as_str(), o[2].required), ("year", false));
    let o = RemoveAutoreact::options();
    assert!(o[0].autocomplete && o[1].autocomplete);
    assert_eq!(GetAotys::key().name, "aoty");
    assert_eq!(ReadyPoll::key().name, "ready_poll");
    assert_eq!(AlbumLookup::description(), "lookup an album");
}

#[test]
fn generic_decode_agrees_with_typed_decode() {
    let provided = vec![opt("month", OptionValue::Integer(4)), opt("day", OptionValue::Integer(9))];
    let vals = decode(&SetBday::options(), &provided).unwrap();
    assert!(matches!(vals[0], Some(OptionValue::Integer(9))));
    assert!(matches!(vals[1], Some(OptionValue::Integer(4))));
    assert!(vals[2].is_none());
    let b = SetBday::decode(&provided).unwrap();
    assert_eq!((b.day, b.month, b.year), (9, 4, None));
}

#[test]
fn birthday_ranges() {
    let b = SetBday { day: 31, month: 12, year: Some(1990) };
    assert_eq!(b.birthday(5), Some(Birthday { user_id: 5, day: 31, month: 12, year: Some(1990) }));
    assert_eq!(SetBday { day: 0, month: 1, year: None }.birthday(5), None);
    assert_eq!(SetBday { day: 1, month: 13, year: None }.birthday(5), None);
    assert_eq!(SetBday { day: 1, month: 1, year: Some(70000) }.birthday(5), None);
    assert_eq!(SetBday { day: 1, month: 1, year: None }.birthday(5).unwrap().year, None);
    assert_eq!(private_text(SetBday::response()), "Birthday set!");
}

#[test]
fn settings_responses() {
    let on = SetCreateThreads::decode(&vec![opt("create_threads", OptionValue::Boolean(true))]).unwrap();
    assert!(on.enabled());
    assert_eq!(private_text(on.response()), "LPBot will create threads for listening parties");
    let unset = SetCreateThreads::decode(&vec![]).unwrap();
    assert!(!unset.enabled());
    assert_eq!(private_text(unset.response()), "LPBot will not create threads for listening parties");
    let wh = SetWebhook::decode(&vec![opt("webhook", s("https://example.test/hook"))]).unwrap();
    assert_eq!(private_text(wh.response()), "LPBot will use a webhook");
    let no = SetWebhook::decode(&vec![]).unwrap();
    assert_eq!(private_text(no.response()), "LPBot will not use a webhook");
    let pin = SetPinboardWebhook { webhook: None };
    assert_eq!(private_text(pin.response()), "Pinboard webhook removed");
    let pin = SetPinboardWebhook::decode(&vec![opt("webhook", s("w"))]).unwrap();
    assert_eq!(private_text(pin.response()), "Pinboard webhook set");
}

#[test]
fn autoreact_inputs() {
    let a = AddAutoreact::decode(&vec![opt("emote", s(":crab:")), opt("trigger", s("crab"))]).unwrap();
    assert_eq!((a.trigger.as_str(), a.emote.as_str()), ("crab", ":crab:"));
    let e = RemoveAutoreact::decode(&vec![opt("trigger", s("crab"))]).unwrap_err();
    assert!(matches!(e, DecodeError::Missing(n) if n == "emote"));
    assert_eq!(private_text(AddAutoreact::response()), "Autoreact added");
    assert_eq!(private_text(RemoveAutoreact::response()), "Autoreact removed");
}

#[test]
fn aoty_and_poll_inputs() {
    let g = GetAotys::decode(&vec![opt("username", s("rj")), opt("year", OptionValue::Integer(2023))]).unwrap();
    assert_eq!((g.username.as_str(), g.year, g.skip), ("rj", Some(2023), None));
    let e = GetAotys::decode(&vec![opt("username", s("rj")), opt("year", s("2023"))]).unwrap_err();
    assert!(matches!(e, DecodeError::Mismatch(n) if n == "year"));
    let p = ReadyPoll::decode(&vec![opt("go_emote", s("go"))]).unwrap();
    assert_eq!((p.count_emote, p.go_emote.as_deref()), (None, Some("go")));
}

#[test]
fn focused_input() {
    let mut provided = vec![opt("trigger", s("cr")), opt("emote", s(""))];
    assert_eq!(lpbot::options::focused_option(&provided), None);
    provided[1].focused = true;
    assert_eq!(lpbot::options::focused_option(&provided).map(String::as_str), Some("emote"));
}

#[test]
fn birthday_input_bounds() {
    let o = SetBday::options();
    assert_eq!((o[0].min_int, o[0].max_int), (Some(1), Some(31)));
    assert_eq!(o[1].choices.len(), 12);
    assert_eq!(o[1].choices[0], ("January".to_string(), 1));
    assert_eq!(o[1].choices[11], ("December".to_string(), 12));
    assert!(o[2].choices.is_empty() && o[2].min_int.is_none());
}
