use loki::error::{failure_action, Error, FailureAction, PlatformFailure};
use loki::events::{Event, Events};

#[test]
fn event_names_round_trip() {
    for e in [Event::Startup, Event::Stream, Event::Error] {
        assert_eq!(Event::parse(&e.text()), Ok(e));
    }
    assert_eq!(Event::text(&Event::Stream), "Streaming");
}

#[test]
fn unknown_event_name_is_rejected() {
    let r = Event::parse(&String::from("Nonsense"));
    assert_eq!(r, Err(Error::InvalidEvent(String::from("Nonsense"))));
}

#[test]
fn subscription_is_idempotent() {
    let mut list: Vec<u64> = Vec::new();
    assert!(Events::subscribe(&mut list, 1));
    assert!(Events::subscribe(&mut list, 2));
    assert!(!Events::subscribe(&mut list, 1));
    assert_eq!(list, vec![1, 2]);
    assert!(Events::unsubscribe(&mut list, 1));
    assert_eq!(list, vec![2]);
    assert!(!Events::unsubscribe(&mut list, 1));
}

#[test]
fn error_texts() {
    assert_eq!(Error::InvalidChannel.text(), "**Error: Invalid channel**");
    assert_eq!(
        Error::InvalidEvent(String::from("Nope")).text(),
        "**Error: Invalid event**\nNope"
    );
    assert_eq!(
        Error::InvalidParam(String::from("user")).text(),
        "**Error: Invalid parameter**\nuser"
    );
    assert_eq!(
        Error::Platform(PlatformFailure::Connectivity).text(),
        "**Platform error: no connection**"
    );
}

#[test]
fn connectivity_errors_retry_quietly() {
    assert_eq!(
        failure_action(&Error::Platform(PlatformFailure::Connectivity)),
        FailureAction::RetryQuietly
    );
}

#[test]
fn other_errors_escalate_before_retrying() {
    assert_eq!(
        failure_action(&Error::Platform(PlatformFailure::Api)),
        FailureAction::EscalateThenRetry
    );
    assert_eq!(failure_action(&Error::InvalidChannel), FailureAction::EscalateThenRetry);
    assert_eq!(
        failure_action(&Error::InvalidParam(String::from("user"))),
        FailureAction::EscalateThenRetry
    );
    assert_eq!(failure_action(&Error::MissingActionRoutine), FailureAction::EscalateThenRetry);
}
