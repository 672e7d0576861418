use twitch_gift_farm::notice::NoticeEvent;
use twitch_gift_farm::session::{
    ChatSession, JoinOutcome, SessionAction, SessionEvent, SessionLog, SessionState,
};

fn session(channels: &[&str]) -> ChatSession {
    ChatSession::new(
        channels.iter().map(|s| s.to_string()).collect(),
        "me".to_string(),
    )
}

fn join(channel: usize, outcome: JoinOutcome) -> SessionEvent {
    SessionEvent::Join { channel, outcome }
}

fn gift_to(recipient: Option<&str>) -> SessionEvent {
    SessionEvent::Notice(NoticeEvent {
        channel: "#a".to_string(),
        kind: Some("subgift".to_string()),
        plan: Some("Prime".to_string()),
        plan_name: None,
        display_name: None,
        login: Some("giver".to_string()),
        recipient: recipient.map(|s| s.to_string()),
    })
}

#[test]
fn new_session_connects_first() {
    let s = session(&["a"]);
    assert_eq!(s.state(), SessionState::Connecting);
    assert_eq!(s.pending_action(), SessionAction::Connect);
}

#[test]
fn one_channel_times_out_the_rest_join() {
    let mut s = session(&["a", "b", "c"]);
    let r = s.step(SessionEvent::Connected);
    assert_eq!(r.action, SessionAction::Join { channel: 0 });
    assert_eq!(s.channel_name(0), "a");
    let r = s.step(join(0, JoinOutcome::Acked));
    assert_eq!(r.action, SessionAction::Join { channel: 1 });
    assert!(r.logs.is_empty());
    let r = s.step(join(1, JoinOutcome::TimedOut));
    assert_eq!(r.action, SessionAction::Join { channel: 2 });
    assert_eq!(r.logs.len(), 1);
    assert!(matches!(
        r.logs[0],
        SessionLog::JoinFailed { channel: 1, timed_out: true }
    ));
    let r = s.step(join(2, JoinOutcome::Acked));
    assert_eq!(r.action, SessionAction::AwaitEvent);
    assert_eq!(r.logs.len(), 1);
    assert!(matches!(r.logs[0], SessionLog::JoinedAll));
    assert_eq!(s.state(), SessionState::Running);
    assert_eq!(s.joined(), &vec![0, 2]);
    assert_eq!(s.failed(), &vec![1]);
}

#[test]
fn late_ack_is_not_a_join() {
    let mut s = session(&["a", "b"]);
    s.step(SessionEvent::Connected);
    let r = s.step(join(0, JoinOutcome::TimedOut));
    assert_eq!(r.action, SessionAction::Join { channel: 1 });
    let r = s.step(join(0, JoinOutcome::Acked));
    assert_eq!(r.action, SessionAction::Keep);
    assert!(r.logs.is_empty());
    assert!(s.joined().is_empty());
    assert_eq!(s.failed(), &vec![0]);
    let r = s.step(join(1, JoinOutcome::Failed));
    assert!(matches!(
        r.logs[0],
        SessionLog::JoinFailed { channel: 1, timed_out: false }
    ));
    assert!(matches!(r.logs[1], SessionLog::JoinedAll));
    assert_eq!(s.state(), SessionState::Running);
}

#[test]
fn no_channels_runs_at_once() {
    let mut s = session(&[]);
    let r = s.step(SessionEvent::Connected);
    assert_eq!(r.action, SessionAction::AwaitEvent);
    assert_eq!(s.state(), SessionState::Running);
}

#[test]
fn connect_failure_stops() {
    let mut s = session(&["a"]);
    let r = s.step(SessionEvent::ConnectFailed);
    assert_eq!(r.action, SessionAction::Stop);
    assert!(matches!(r.logs[0], SessionLog::ConnectFailed));
    assert_eq!(s.state(), SessionState::Stopped);
}

#[test]
fn end_of_stream_reconnects_and_rejoins() {
    let mut s = session(&["a", "b"]);
    s.step(SessionEvent::Connected);
    s.step(join(0, JoinOutcome::Failed));
    s.step(join(1, JoinOutcome::Acked));
    let r = s.step(SessionEvent::EndOfStream);
    assert_eq!(r.action, SessionAction::Connect);
    assert!(matches!(r.logs[0], SessionLog::Reconnecting));
    let r = s.step(SessionEvent::Connected);
    assert_eq!(r.action, SessionAction::Join { channel: 0 });
    assert!(s.joined().is_empty());
    assert!(s.failed().is_empty());
    s.step(join(0, JoinOutcome::Acked));
    s.step(join(1, JoinOutcome::Acked));
    let r = s.step(SessionEvent::StreamError);
    assert_eq!(r.action, SessionAction::Connect);
}

#[test]
fn notices_while_running() {
    let mut s = session(&[]);
    s.step(SessionEvent::Connected);
    let r = s.step(gift_to(Some("me")));
    assert_eq!(r.action, SessionAction::AwaitEvent);
    assert_eq!(r.logs.len(), 1);
    match &r.logs[0] {
        SessionLog::Gift(rep) => {
            assert_eq!(rep.sender, "giver");
            assert_eq!(rep.plan_name, "unknown");
        }
        _ => panic!("expected a gift"),
    }
    let r = s.step(gift_to(None));
    assert!(r.logs.is_empty());
    let r = s.step(gift_to(Some("ME")));
    assert!(r.logs.is_empty());
    let r = s.step(SessionEvent::Other);
    assert_eq!(r.action, SessionAction::AwaitEvent);
    assert!(r.logs.is_empty());
}

#[test]
fn quit_stops_as_unexpected() {
    let mut s = session(&[]);
    s.step(SessionEvent::Connected);
    let r = s.step(SessionEvent::Quit);
    assert_eq!(r.action, SessionAction::Stop);
    assert!(matches!(r.logs[0], SessionLog::UnexpectedQuit));
}
