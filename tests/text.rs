use lpbot::text::{build_message, escape_str, sanitize_string};
use std::borrow::Cow;

#[test]
fn escape_doubles_quotes() {
    assert_eq!(escape_str("it's"), "it''s");
    assert_eq!(escape_str("''"), "''''");
    assert!(matches!(escape_str("plain"), Cow::Borrowed("plain")));
    assert_eq!(escape_str(""), "");
}

#[test]
fn sanitize_drops_noise_and_cuts() {
    assert_eq!(sanitize_string(r#"a"b'c+d(e)f[g]h"#), "abcdefgh");
    assert_eq!(sanitize_string("0123456789012345678901234567890123456789"), "012345678901234567890123456789");
    assert_eq!(sanitize_string("(((x)))"), "x");
    assert_eq!(sanitize_string("héllo wörld"), "héllo wörld");
}

#[test]
fn ready_message_lists_users() {
    assert_eq!(build_message(&[]), "Ready?");
    assert_eq!(build_message(&["<@1>".to_string()]), "Ready? (<@1> is ready)");
    assert_eq!(
        build_message(&["<@1>".to_string(), "<@2>".to_string(), "<@3>".to_string()]),
        "Ready? (<@1>, <@2>, <@3> are ready)"
    );
}
