use vstd::prelude::*;

verus! {

/// The two dispositions the interrupt signal can have for this process:
/// the platform's default response, or the custom handler once the
/// registration step has installed it.
#[derive(Clone, Copy, PartialEq, Eq, Structural, Debug)]
pub enum Disposition {
    PlatformDefault,
    Installed,
}

/// Where the main sequence stands.  It greets, installs the handler,
/// sleeps, says goodbye, and is then done.
#[derive(Clone, Copy, PartialEq, Eq, Structural, Debug)]
pub enum Phase {
    Init,
    Greeted,
    Registered,
    Slept,
    Done,
}

/// What the surrounding program is asked to do next.  Emitting a line,
/// installing the handler and sleeping are the caller's work; the library
/// only decides their order.
#[derive(Clone, Copy, PartialEq, Eq, Structural, Debug)]
pub enum Action {
    EmitGreeting,
    RegisterHandler,
    Sleep,
    EmitClosing,
}

/// How long the sleeping step blocks, in seconds.
pub const SLEEP_SECONDS: u64 = 10;

/// The greeting line, printed before anything else.
pub open spec fn greeting_text() -> Seq<char> {
    "Hello"@
}

/// The notice the custom handler prints each time the signal is delivered
/// while the handler is installed.
pub open spec fn notice_text() -> Seq<char> {
    "Sorry we didn't get the chance to finish"@
}

/// The closing line, printed after the delay in every run.
pub open spec fn closing_text() -> Seq<char> {
    "Goodbye"@
}

/// The action the main sequence performs next in phase `p`, if any.
pub open spec fn step_action(p: Phase) -> Option<Action> {
    match p {
        Phase::Init => Some(Action::EmitGreeting),
        Phase::Greeted => Some(Action::RegisterHandler),
        Phase::Registered => Some(Action::Sleep),
        Phase::Slept => Some(Action::EmitClosing),
        Phase::Done => None,
    }
}

/// The phase the main sequence moves to from phase `p`.
pub open spec fn step_phase(p: Phase) -> Phase {
    match p {
        Phase::Init => Phase::Greeted,
        Phase::Greeted => Phase::Registered,
        Phase::Registered => Phase::Slept,
        Phase::Slept => Phase::Done,
        Phase::Done => Phase::Done,
    }
}

/// The signal's disposition after action `a`: only registration changes it,
/// and only one way — the handler is never removed.
pub open spec fn action_disposition(d: Disposition, a: Option<Action>) -> Disposition {
    match a {
        Some(Action::RegisterHandler) => Disposition::Installed,
        _ => d,
    }
}

/// The lines action `a` prints: the greeting, the closing line, or nothing.
/// Registering and sleeping print nothing themselves.
pub open spec fn action_lines(a: Option<Action>) -> Seq<Seq<char>> {
    match a {
        Some(Action::EmitGreeting) => seq![greeting_text()],
        Some(Action::EmitClosing) => seq![closing_text()],
        _ => seq![],
    }
}

/// The interrupt-aware sleeper: the process's program counter together with
/// the process-wide disposition slot for the interrupt signal.
pub struct Sleeper {
    pub phase: Phase,
    pub disposition: Disposition,
}

impl Sleeper {
    /// The handler is installed exactly when the registration step has run.
    pub open spec fn wf(self) -> bool {
        (self.disposition == Disposition::Installed) <==> (self.phase == Phase::Registered
            || self.phase == Phase::Slept || self.phase == Phase::Done)
    }

    /// A process at its start: nothing printed yet, default disposition.
    pub fn new() -> (s: Sleeper)
        ensures
            s.phase == Phase::Init,
            s.disposition == Disposition::PlatformDefault,
            s.wf(),
    {
        Sleeper { phase: Phase::Init, disposition: Disposition::PlatformDefault }
    }

    /// Advance the main sequence one step and tell the caller what to do:
    /// emit the greeting, install the handler, sleep, emit the closing
    /// line, and after that nothing — the run is over.
    pub fn step(&mut self) -> (a: Option<Action>)
        ensures
            a == step_action(old(self).phase),
            final(self).phase == step_phase(old(self).phase),
            final(self).disposition == action_disposition(old(self).disposition, a),
            old(self).wf() ==> final(self).wf(),
    {
        match self.phase {
            Phase::Init => {
                self.phase = Phase::Greeted;
                Some(Action::EmitGreeting)
            },
            Phase::Greeted => {
                self.phase = Phase::Registered;
                self.disposition = Disposition::Installed;
                Some(Action::RegisterHandler)
            },
            Phase::Registered => {
                self.phase = Phase::Slept;
                Some(Action::Sleep)
            },
            Phase::Slept => {
                self.phase = Phase::Done;
                Some(Action::EmitClosing)
            },
            Phase::Done => None,
        }
    }

    /// What the custom handler prints when the signal is delivered to the
    /// live process: the notice once the handler is installed, nothing
    /// under the default disposition, which runs no code of this program.
    /// Delivery changes no state: the handler prints and returns.
    pub fn on_signal(&self) -> (r: Option<String>)
        ensures
            r is Some <==> self.disposition == Disposition::Installed,
            r matches Some(l) ==> l@ == notice_text(),
    {
        match self.disposition {
            Disposition::Installed => Some(handler_notice()),
            Disposition::PlatformDefault => None,
        }
    }
}

pub fn greeting() -> (s: String)
    ensures
        s@ == greeting_text(),
{
    "Hello".to_owned()
}

pub fn handler_notice() -> (s: String)
    ensures
        s@ == notice_text(),
{
    "Sorry we didn't get the chance to finish".to_owned()
}

pub fn closing() -> (s: String)
    ensures
        s@ == closing_text(),
{
    "Goodbye".to_owned()
}

} // verus!
