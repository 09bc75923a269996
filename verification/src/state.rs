//! The lifecycle state machine and the line-oriented command protocol.
//! The state machine enforces the sleep, init, awake, sleep discipline: a
//! new view request is honored only from `Sleep`, a toggle-off only from
//! `Awake` with the matching view, and every other request is a no-op.

use vstd::prelude::*;
use vstd::string::StrSliceExecFns;
use vstd::string::StringExecFns;

verus! {

/// Which of the two renderings is active.
#[derive(Clone, Copy, PartialEq, Eq, Structural, Debug)]
pub enum ViewKind {
    Clock,
    Calendar,
}

/// An externally supplied command, parsed from one line of text.
#[derive(Clone, Copy, PartialEq, Eq, Structural, Debug)]
pub enum Command {
    Clock,
    Calendar,
    Dismiss,
}

/// The lifecycle of the presentation surface. `Sleep`: no surface exists.
/// `Init(v)`: a surface was requested and awaits the presenter's first
/// configure acknowledgement. `Awake(v)`: the surface is live and view `v`
/// receives scheduled redraws.
#[derive(Clone, Copy, PartialEq, Eq, Structural, Debug)]
pub enum State {
    Sleep,
    Init(ViewKind),
    Awake(ViewKind),
}

/// What the event loop observes: an inbound command, the presenter's
/// configure acknowledgement, or the presenter reporting the surface gone.
#[derive(Clone, Copy, PartialEq, Eq, Structural, Debug)]
pub enum Event {
    Cmd(Command),
    ConfigureAck,
    SurfaceClosed,
}

/// The side effect the event loop must perform after a transition.
#[derive(Clone, Copy, PartialEq, Eq, Structural, Debug)]
pub enum Action {
    /// Request a presentation surface from the presenter.
    CreateSurface,
    /// Build the background cache, render and present the first frame,
    /// and arm the per-second scheduler.
    Wake,
    /// Destroy the presentation surface and disarm the scheduler.
    DestroySurface,
    /// Clean up after the presenter closed the surface on its own.
    Cleanup,
    /// Nothing to do.
    NoOp,
}

impl Command {
    /// The view a view-selecting command asks for; `Dismiss` selects none.
    pub open spec fn spec_view(self) -> Option<ViewKind> {
        match self {
            Command::Clock => Some(ViewKind::Clock),
            Command::Calendar => Some(ViewKind::Calendar),
            Command::Dismiss => None,
        }
    }

    /// The view a view-selecting command asks for; `Dismiss` selects none.
    #[verifier::when_used_as_spec(spec_view)]
    pub fn view(self) -> (v: Option<ViewKind>)
        ensures
            v == self.spec_view(),
    {
        match self {
            Command::Clock => Some(ViewKind::Clock),
            Command::Calendar => Some(ViewKind::Calendar),
            Command::Dismiss => None,
        }
    }

    /// Whether this command selects exactly the given view.
    pub fn matches_view(self, v: ViewKind) -> (r: bool)
        ensures
            r == (self.spec_view() == Some(v)),
    {
        match (self, v) {
            (Command::Clock, ViewKind::Clock) => true,
            (Command::Calendar, ViewKind::Calendar) => true,
            _ => false,
        }
    }

    /// The protocol token for this command.
    pub fn label(self) -> (r: &'static str)
        ensures
            self is Clock ==> r@ == "clock"@,
            self is Calendar ==> r@ == "calendar"@,
            self is Dismiss ==> r@ == "dismiss"@,
    {
        match self {
            Command::Clock => "clock",
            Command::Calendar => "calendar",
            Command::Dismiss => "dismiss",
        }
    }

    /// Parses a protocol token. Rejects anything but the exact tokens
    /// `clock`, `calendar` and `dismiss`, answering with the diagnostic
    /// the server sends back.
    pub fn from_str(s: &str) -> (r: Result<Command, String>)
        ensures
            s@ == "clock"@ ==> r == Result::<Command, String>::Ok(Command::Clock),
            s@ == "calendar"@ ==> r == Result::<Command, String>::Ok(Command::Calendar),
            s@ == "dismiss"@ ==> r == Result::<Command, String>::Ok(Command::Dismiss),
            s@ != "clock"@ && s@ != "calendar"@ && s@ != "dismiss"@ ==> r is Err && r->Err_0@
                == "Unknown command: "@ + s@,
    {
        proof {
            reveal_strlit("clock");
            reveal_strlit("calendar");
            reveal_strlit("dismiss");
            assert("clock"@.len() == 5);
            assert("calendar"@.len() == 8);
            assert("dismiss"@.len() == 7);
        }
        if str_eq(s, "clock") {
            Ok(Command::Clock)
        } else if str_eq(s, "calendar") {
            Ok(Command::Calendar)
        } else if str_eq(s, "dismiss") {
            Ok(Command::Dismiss)
        } else {
            Err(String::from_str("Unknown command: ").concat(s))
        }
    }
}

/// The transition function of the lifecycle state machine. From `Sleep` a
/// view command opens a surface; a configure acknowledgement wakes an
/// initializing surface; the matching view command toggles an awake
/// surface off; `Dismiss` returns to `Sleep` from anywhere; a command for
/// the other view while awake is deliberately ignored; everything else is
/// a no-op.
pub open spec fn spec_step(s: State, e: Event) -> (State, Action) {
    match e {
        Event::Cmd(c) => match c {
            Command::Dismiss => match s {
                State::Sleep => (State::Sleep, Action::NoOp),
                _ => (State::Sleep, Action::DestroySurface),
            },
            _ => match s {
                State::Sleep => (
                    State::Init(
                        match c {
                            Command::Clock => ViewKind::Clock,
                            _ => ViewKind::Calendar,
                        },
                    ),
                    Action::CreateSurface,
                ),
                State::Init(_) => (s, Action::NoOp),
                State::Awake(v) => if c.spec_view() == Some(v) {
                    (State::Sleep, Action::DestroySurface)
                } else {
                    (s, Action::NoOp)
                },
            },
        },
        Event::ConfigureAck => match s {
            State::Init(v) => (State::Awake(v), Action::Wake),
            _ => (s, Action::NoOp),
        },
        Event::SurfaceClosed => (State::Sleep, Action::Cleanup),
    }
}

/// Executable transition of the lifecycle state machine.
pub fn step(s: State, e: Event) -> (r: (State, Action))
    ensures
        r == spec_step(s, e),
{
    match e {
        Event::Cmd(c) => match c {
            Command::Dismiss => match s {
                State::Sleep => (State::Sleep, Action::NoOp),
                _ => (State::Sleep, Action::DestroySurface),
            },
            _ => match s {
                State::Sleep => {
                    let v = match c {
                        Command::Clock => ViewKind::Clock,
                        _ => ViewKind::Calendar,
                    };
                    (State::Init(v), Action::CreateSurface)
                },
                State::Init(_) => (s, Action::NoOp),
                State::Awake(v) => if c.matches_view(v) {
                    (State::Sleep, Action::DestroySurface)
                } else {
                    (s, Action::NoOp)
                },
            },
        },
        Event::ConfigureAck => match s {
            State::Init(v) => (State::Awake(v), Action::Wake),
            _ => (s, Action::NoOp),
        },
        Event::SurfaceClosed => (State::Sleep, Action::Cleanup),
    }
}

/// From `Sleep`, `Dismiss` is a no-op: the machine stays asleep and asks
/// for no side effect.
pub proof fn lemma_dismiss_from_sleep_is_noop()
    ensures
        spec_step(State::Sleep, Event::Cmd(Command::Dismiss)) == (State::Sleep, Action::NoOp),
{
}

/// From `Awake(v)`, the command selecting the same view `v` toggles the
/// widget off: the machine goes to `Sleep` and the surface is destroyed.
pub proof fn lemma_toggle_off(v: ViewKind, c: Command)
    requires
        c.spec_view() == Some(v),
    ensures
        spec_step(State::Awake(v), Event::Cmd(c)) == (State::Sleep, Action::DestroySurface),
{
}

/// From `Awake(v)`, a command for the other view never corrupts state: it
/// is defined and ignored, and in particular never yields a second awake
/// view.
pub proof fn lemma_other_view_ignored(v: ViewKind, c: Command)
    requires
        c.spec_view() is Some,
        c.spec_view() != Some(v),
    ensures
        spec_step(State::Awake(v), Event::Cmd(c)) == (State::Awake(v), Action::NoOp),
{
}

/// Every reachable transition respects the sleep, init, awake, sleep
/// discipline: a step either keeps the state, falls back to `Sleep`,
/// enters `Init` only from `Sleep` on a view command, or enters `Awake(v)`
/// only from `Init(v)` on the configure acknowledgement.
pub proof fn lemma_lifecycle_discipline(s: State, e: Event)
    ensures
        ({
            let s2 = spec_step(s, e).0;
            ||| s2 == s
            ||| s2 == State::Sleep
            ||| (s == State::Sleep && s2 is Init && (e matches Event::Cmd(c) && c.spec_view()
                == Some(s2->Init_0)))
            ||| (s == State::Init(s2->Awake_0) && s2 is Awake && e == Event::ConfigureAck)
        }),
{
}

/// A request line with its line terminator (a trailing newline, or
/// carriage return and newline) removed.
pub open spec fn spec_strip_line_end(s: Seq<char>) -> Seq<char> {
    if s.len() >= 2 && s[s.len() - 2] == '\r' && s[s.len() - 1] == '\n' {
        s.subrange(0, s.len() - 2)
    } else if s.len() >= 1 && s[s.len() - 1] == '\n' {
        s.subrange(0, s.len() - 1)
    } else {
        s
    }
}

/// Removes the line terminator from one request line.
pub fn strip_line_end(s: &str) -> (r: &str)
    ensures
        r@ == spec_strip_line_end(s@),
{
    let n = s.unicode_len();
    if n >= 2 && s.get_char(n - 2) == '\r' && s.get_char(n - 1) == '\n' {
        s.substring_char(0, n - 2)
    } else if n >= 1 && s.get_char(n - 1) == '\n' {
        s.substring_char(0, n - 1)
    } else {
        s
    }
}

/// Serves one line of the command channel: strips the line terminator and
/// parses the token. On the three valid tokens the parsed command comes
/// back with the acknowledgement line; on anything else no command comes
/// back, only the diagnostic naming the rejected text, and the caller
/// leaves the lifecycle state untouched.
pub fn handle_request(line: &str) -> (r: (Option<Command>, String))
    ensures
        ({
            let t = spec_strip_line_end(line@);
            &&& t == "clock"@ ==> r.0 == Some(Command::Clock) && r.1@ == "is happening"@
            &&& t == "calendar"@ ==> r.0 == Some(Command::Calendar) && r.1@ == "is happening"@
            &&& t == "dismiss"@ ==> r.0 == Some(Command::Dismiss) && r.1@ == "is happening"@
            &&& (t != "clock"@ && t != "calendar"@ && t != "dismiss"@) ==> r.0 is None && r.1@
                == "Unknown command: "@ + t
        }),
{
    let token = strip_line_end(line);
    match Command::from_str(token) {
        Ok(c) => (Some(c), String::from_str("is happening")),
        Err(msg) => (None, msg),
    }
}

/// Compares two strings character by character.
pub fn str_eq(a: &str, b: &str) -> (r: bool)
    ensures
        r == (a@ == b@),
{
    let la = a.unicode_len();
    let lb = b.unicode_len();
    if la != lb {
        return false;
    }
    let mut i: usize = 0;
    while i < la
        invariant
            la == a@.len(),
            lb == b@.len(),
            la == lb,
            i <= la,
            forall|j: int| 0 <= j < i ==> a@[j] == b@[j],
        decreases la - i,
    {
        if a.get_char(i) != b.get_char(i) {
            assert(a@[i as int] != b@[i as int]);
            return false;
        }
        i = i + 1;
    }
    proof {
        assert(a@ =~= b@);
    }
    true
}

} // verus!
