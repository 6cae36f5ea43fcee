use l1_proxy::server::{after_accept, AcceptAction};
use l1_proxy::text::{same_text, strip_prefix};

#[test]
fn a_failure_to_accept_is_followed_by_a_pause() {
    assert_eq!(after_accept(false), AcceptAction::BackOff { millis: 100 });
    assert_eq!(after_accept(true), AcceptAction::Serve);
}

#[test]
fn texts_are_compared_by_their_characters() {
    assert!(same_text("é", "é"));
    assert!(!same_text("a", "b"));
    assert!(!same_text("a", "ab"));
}

#[test]
fn prefixes_are_removed_once() {
    assert_eq!(strip_prefix("0x0xé", "0x"), Some("0xé"));
    assert_eq!(strip_prefix("0X12", "0x"), None);
    assert_eq!(strip_prefix("0", "0x"), None);
    assert_eq!(strip_prefix("abc", ""), Some("abc"));
}
