use sometime::handle_request;
use sometime::step;
use sometime::str_eq;
use sometime::strip_line_end;
use sometime::Action;
use sometime::Command;
use sometime::Event;
use sometime::State;
use sometime::ViewKind;

#[test]
fn valid_tokens_are_acknowledged() {
    let (cmd, reply) = handle_request("clock\n");
    assert_eq!(cmd, Some(Command::Clock));
    assert_eq!(reply, "is happening");
    let (cmd, reply) = handle_request("calendar\n");
    assert_eq!(cmd, Some(Command::Calendar));
    assert_eq!(reply, "is happening");
    let (cmd, reply) = handle_request("dismiss");
    assert_eq!(cmd, Some(Command::Dismiss));
    assert_eq!(reply, "is happening");
}

#[test]
fn unknown_token_is_rejected_and_state_is_kept() {
    let (cmd, reply) = handle_request("xyz\n");
    assert_eq!(cmd, None);
    assert_eq!(reply, "Unknown command: xyz");
    // No command, so the event loop applies no event: every lifecycle
    // state stays exactly as it was.
    assert!(cmd.is_none());
}

#[test]
fn empty_line_is_rejected() {
    let (cmd, reply) = handle_request("\n");
    assert_eq!(cmd, None);
    assert_eq!(reply, "Unknown command: ");
}

#[test]
fn line_endings_are_stripped() {
    assert_eq!(strip_line_end("clock\n"), "clock");
    assert_eq!(strip_line_end("clock\r\n"), "clock");
    assert_eq!(strip_line_end("clock"), "clock");
    assert_eq!(strip_line_end(""), "");
}

#[test]
fn string_comparison() {
    assert!(str_eq("calendar", "calendar"));
    assert!(!str_eq("calendar", "calendars"));
    assert!(!str_eq("clock", "dismiss"));
}

#[test]
fn command_parsing() {
    assert_eq!(Command::from_str("clock"), Ok(Command::Clock));
    assert_eq!(Command::from_str("calendar"), Ok(Command::Calendar));
    assert_eq!(Command::from_str("dismiss"), Ok(Command::Dismiss));
    assert_eq!(
        Command::from_str("status"),
        Err("Unknown command: status".to_string())
    );
}

#[test]
fn sleeping_widget_wakes_through_init() {
    let (s, a) = step(State::Sleep, Event::Cmd(Command::Clock));
    assert_eq!(s, State::Init(ViewKind::Clock));
    assert_eq!(a, Action::CreateSurface);
    let (s, a) = step(s, Event::ConfigureAck);
    assert_eq!(s, State::Awake(ViewKind::Clock));
    assert_eq!(a, Action::Wake);
}

#[test]
fn dismiss_from_sleep_is_a_no_op() {
    let (s, a) = step(State::Sleep, Event::Cmd(Command::Dismiss));
    assert_eq!(s, State::Sleep);
    assert_eq!(a, Action::NoOp);
}

#[test]
fn matching_view_toggles_off() {
    let (s, a) = step(State::Awake(ViewKind::Clock), Event::Cmd(Command::Clock));
    assert_eq!(s, State::Sleep);
    assert_eq!(a, Action::DestroySurface);
}

#[test]
fn other_view_while_awake_is_ignored() {
    let (s, a) = step(State::Awake(ViewKind::Clock), Event::Cmd(Command::Calendar));
    assert_eq!(s, State::Awake(ViewKind::Clock));
    assert_eq!(a, Action::NoOp);
}

#[test]
fn dismiss_while_awake_destroys_the_surface() {
    let (s, a) = step(State::Awake(ViewKind::Calendar), Event::Cmd(Command::Dismiss));
    assert_eq!(s, State::Sleep);
    assert_eq!(a, Action::DestroySurface);
}

#[test]
fn view_request_while_initializing_is_ignored() {
    let (s, a) = step(State::Init(ViewKind::Clock), Event::Cmd(Command::Calendar));
    assert_eq!(s, State::Init(ViewKind::Clock));
    assert_eq!(a, Action::NoOp);
}

#[test]
fn a_closed_surface_always_sleeps() {
    for s0 in [
        State::Sleep,
        State::Init(ViewKind::Clock),
        State::Awake(ViewKind::Calendar),
    ] {
        let (s, a) = step(s0, Event::SurfaceClosed);
        assert_eq!(s, State::Sleep);
        assert_eq!(a, Action::Cleanup);
    }
}

#[test]
fn command_labels_and_views() {
    assert_eq!(Command::Clock.label(), "clock");
    assert_eq!(Command::Calendar.label(), "calendar");
    assert_eq!(Command::Dismiss.label(), "dismiss");
    assert_eq!(Command::Clock.view(), Some(ViewKind::Clock));
    assert_eq!(Command::Dismiss.view(), None);
    assert!(Command::Calendar.matches_view(ViewKind::Calendar));
    assert!(!Command::Calendar.matches_view(ViewKind::Clock));
}
