use vstd::prelude::*;

use crate::machine::{
    action_disposition, action_lines, closing_text, greeting_text, notice_text, step_action,
    step_phase, Disposition, Phase, Sleeper,
};

verus! {

/// One occurrence during a run: the main sequence takes its next step, or
/// the interrupt signal is delivered to the process.
pub enum Event {
    Step,
    Signal,
}

/// The state after one event.  A delivered signal changes nothing: the
/// custom handler only prints and returns, and the default disposition
/// runs no code of this program at all.
pub open spec fn step_state(s: Sleeper, e: Event) -> Sleeper {
    match e {
        Event::Step => Sleeper {
            phase: step_phase(s.phase),
            disposition: action_disposition(s.disposition, step_action(s.phase)),
        },
        Event::Signal => s,
    }
}

/// The lines one event prints.  A delivery is answered with the notice
/// only while the custom handler is installed and the process still runs;
/// before registration the default disposition applies, and after the run
/// is over the process no longer exists.
pub open spec fn event_lines(s: Sleeper, e: Event) -> Seq<Seq<char>> {
    match e {
        Event::Step => action_lines(step_action(s.phase)),
        Event::Signal => if s.disposition == Disposition::Installed && s.phase != Phase::Done {
            seq![notice_text()]
        } else {
            seq![]
        },
    }
}

/// Every line printed, in order, when the events of `es` happen one after
/// another starting from state `s`.
pub open spec fn run_from(s: Sleeper, es: Seq<Event>) -> Seq<Seq<char>>
    decreases es.len(),
{
    if es.len() == 0 {
        seq![]
    } else {
        event_lines(s, es[0]) + run_from(step_state(s, es[0]), es.drop_first())
    }
}

/// The state at the end of the events of `es`, starting from `s`.
pub open spec fn state_after(s: Sleeper, es: Seq<Event>) -> Sleeper
    decreases es.len(),
{
    if es.len() == 0 {
        s
    } else {
        state_after(step_state(s, es[0]), es.drop_first())
    }
}

/// The state a process starts in: nothing printed, default disposition.
pub open spec fn start() -> Sleeper {
    Sleeper { phase: Phase::Init, disposition: Disposition::PlatformDefault }
}

/// A whole run: the events of `es`, from the start state.
pub open spec fn run(es: Seq<Event>) -> Seq<Seq<char>> {
    run_from(start(), es)
}

/// `n` deliveries of the interrupt signal, one after another.
pub open spec fn signals(n: nat) -> Seq<Event> {
    Seq::new(n, |i: int| Event::Signal)
}

/// `n` copies of the handler's notice.
pub open spec fn notices(n: nat) -> Seq<Seq<char>> {
    Seq::new(n, |i: int| notice_text())
}

/// The events of a run whose delay is interrupted `a + b` times: the
/// greeting and registration steps, `a` deliveries while the sleep still
/// blocks, the sleep's return, `b` more deliveries before the closing
/// step.
pub open spec fn delay_interrupted_events(a: nat, b: nat) -> Seq<Event> {
    seq![Event::Step, Event::Step] + signals(a) + seq![Event::Step] + signals(b)
        + seq![Event::Step]
}

/// The lines such a run prints: the greeting, one notice for each
/// delivered signal, and the closing line.
pub open spec fn expected_lines(n: nat) -> Seq<Seq<char>> {
    seq![greeting_text()] + notices(n) + seq![closing_text()]
}

proof fn lemma_run_one(s: Sleeper, e: Event)
    ensures
        run_from(s, seq![e]) == event_lines(s, e),
        state_after(s, seq![e]) == step_state(s, e),
{
    let es = seq![e];
    assert(es.drop_first() =~= Seq::<Event>::empty());
    assert(run_from(step_state(s, e), Seq::<Event>::empty()) =~= Seq::<Seq<char>>::empty());
    assert(run_from(s, es) =~= event_lines(s, e));
    assert(state_after(step_state(s, e), Seq::<Event>::empty()) == step_state(s, e));
    assert(state_after(s, es) == step_state(s, e));
}

/// Runs compose: the lines of `es1 + es2` are the lines of `es1` followed
/// by the lines of `es2` from where `es1` left off.
proof fn lemma_run_concat(s: Sleeper, es1: Seq<Event>, es2: Seq<Event>)
    ensures
        run_from(s, es1 + es2) == run_from(s, es1) + run_from(state_after(s, es1), es2),
        state_after(s, es1 + es2) == state_after(state_after(s, es1), es2),
    decreases es1.len(),
{
    if es1.len() == 0 {
        assert(es1 + es2 =~= es2);
        assert(run_from(s, es1) =~= Seq::<Seq<char>>::empty());
        assert(run_from(s, es1) + run_from(s, es2) =~= run_from(s, es2));
    } else {
        let e = es1[0];
        let s1 = step_state(s, e);
        assert((es1 + es2)[0] == e);
        assert((es1 + es2).drop_first() =~= es1.drop_first() + es2);
        lemma_run_concat(s1, es1.drop_first(), es2);
        assert(event_lines(s, e) + (run_from(s1, es1.drop_first()) + run_from(
            state_after(s1, es1.drop_first()),
            es2,
        )) =~= (event_lines(s, e) + run_from(s1, es1.drop_first())) + run_from(
            state_after(s1, es1.drop_first()),
            es2,
        ));
    }
}

/// While the handler is installed and the process runs, a block of `n`
/// deliveries prints `n` notices and changes nothing.
proof fn lemma_signal_block(s: Sleeper, n: nat)
    requires
        s.disposition == Disposition::Installed,
        s.phase != Phase::Done,
    ensures
        run_from(s, signals(n)) == notices(n),
        state_after(s, signals(n)) == s,
    decreases n,
{
    if n == 0 {
        assert(signals(0) =~= Seq::<Event>::empty());
        assert(run_from(s, signals(0)) =~= notices(0));
    } else {
        let es = signals(n);
        assert(es[0] == Event::Signal);
        assert(es.drop_first() =~= signals((n - 1) as nat));
        lemma_signal_block(s, (n - 1) as nat);
        assert(seq![notice_text()] + notices((n - 1) as nat) =~= notices(n));
    }
}

/// Under the default disposition a block of `n` deliveries prints nothing
/// and changes nothing: no code of this program runs.
proof fn lemma_silent_signal_block(s: Sleeper, n: nat)
    requires
        s.disposition == Disposition::PlatformDefault,
    ensures
        run_from(s, signals(n)) == Seq::<Seq<char>>::empty(),
        state_after(s, signals(n)) == s,
    decreases n,
{
    if n == 0 {
        assert(signals(0) =~= Seq::<Event>::empty());
        assert(run_from(s, signals(0)) =~= Seq::<Seq<char>>::empty());
    } else {
        let es = signals(n);
        assert(es[0] == Event::Signal);
        assert(es.drop_first() =~= signals((n - 1) as nat));
        lemma_silent_signal_block(s, (n - 1) as nat);
        assert(run_from(s, es) =~= Seq::<Seq<char>>::empty());
    }
}

/// One notice per delivered signal: a run whose delay is interrupted
/// `a + b` times prints the greeting, then exactly one notice for each
/// delivery, then the closing line.  However often the signal arrives,
/// the run still ends with the closing line: delivery never cuts it short.
pub proof fn lemma_interrupted_run(a: nat, b: nat)
    ensures
        run(delay_interrupted_events(a, b)) == expected_lines(a + b),
{
    let p = seq![Event::Step];
    let s0 = start();
    let s1 = step_state(s0, Event::Step);
    let s2 = step_state(s1, Event::Step);
    let s3 = step_state(s2, Event::Step);

    lemma_run_one(s0, Event::Step);
    let q2 = p + p;
    lemma_run_concat(s0, p, p);
    lemma_run_one(s1, Event::Step);

    let q3 = q2 + signals(a);
    lemma_run_concat(s0, q2, signals(a));
    lemma_signal_block(s2, a);

    let q4 = q3 + p;
    lemma_run_concat(s0, q3, p);
    lemma_run_one(s2, Event::Step);

    let q5 = q4 + signals(b);
    lemma_run_concat(s0, q4, signals(b));
    lemma_signal_block(s3, b);

    let q6 = q5 + p;
    lemma_run_concat(s0, q5, p);
    lemma_run_one(s3, Event::Step);

    assert(delay_interrupted_events(a, b) =~= q6);
    assert(run_from(s0, q6) =~= expected_lines(a + b));
}

/// A run in which the interrupt signal is never delivered prints exactly
/// the greeting and then, after the delay, the closing line.
pub proof fn lemma_quiet_run()
    ensures
        run(delay_interrupted_events(0, 0)) == seq![greeting_text(), closing_text()],
{
    lemma_interrupted_run(0, 0);
    assert(expected_lines(0) =~= seq![greeting_text(), closing_text()]);
}

/// Installing the handler has no observable effect until a signal is in
/// fact delivered: on any events that include no delivery, two states
/// that differ only in the signal's disposition print exactly the same
/// lines.
pub proof fn lemma_registration_unobservable(s1: Sleeper, s2: Sleeper, es: Seq<Event>)
    requires
        s1.phase == s2.phase,
        forall|i: int| 0 <= i < es.len() ==> es[i] != Event::Signal,
    ensures
        run_from(s1, es) == run_from(s2, es),
    decreases es.len(),
{
    if es.len() == 0 {
        assert(run_from(s1, es) =~= run_from(s2, es));
    } else {
        let e = es[0];
        assert(e != Event::Signal);
        assert(step_state(s1, e).phase == step_state(s2, e).phase);
        assert(forall|i: int|
            0 <= i < es.drop_first().len() ==> es.drop_first()[i] != Event::Signal) by {
            assert(forall|i: int|
                0 <= i < es.drop_first().len() ==> es.drop_first()[i] == es[i + 1]);
        }
        lemma_registration_unobservable(step_state(s1, e), step_state(s2, e), es.drop_first());
        assert(event_lines(s1, e) == event_lines(s2, e));
    }
}

/// The events of a run in which `k` signals arrive before the greeting
/// and `m` more between the greeting and the registration step.
pub open spec fn early_signal_events(k: nat, m: nat) -> Seq<Event> {
    signals(k) + seq![Event::Step] + signals(m) + seq![
        Event::Step,
        Event::Step,
        Event::Step,
    ]
}

/// A signal delivered before registration completes does not invoke the
/// custom handler: however many deliveries precede the registration step,
/// no notice is printed and the run's lines are those of a quiet run.
/// (What the platform's default disposition itself does to the process is
/// outside this program's code.)
pub proof fn lemma_early_signals_unnoticed(k: nat, m: nat)
    ensures
        run(early_signal_events(k, m)) == seq![greeting_text(), closing_text()],
{
    let p = seq![Event::Step];
    let s0 = start();
    let s1 = step_state(s0, Event::Step);
    let s2 = step_state(s1, Event::Step);
    let s3 = step_state(s2, Event::Step);

    let q1 = signals(k);
    lemma_silent_signal_block(s0, k);

    let q2 = q1 + p;
    lemma_run_concat(s0, q1, p);
    lemma_run_one(s0, Event::Step);

    let q3 = q2 + signals(m);
    lemma_run_concat(s0, q2, signals(m));
    lemma_silent_signal_block(s1, m);

    let q4 = q3 + p;
    lemma_run_concat(s0, q3, p);
    lemma_run_one(s1, Event::Step);

    let q5 = q4 + p;
    lemma_run_concat(s0, q4, p);
    lemma_run_one(s2, Event::Step);

    let q6 = q5 + p;
    lemma_run_concat(s0, q5, p);
    lemma_run_one(s3, Event::Step);

    assert(early_signal_events(k, m) =~= q6);
    assert(run_from(s0, q6) =~= seq![greeting_text(), closing_text()]);
}

/// Once the closing line is printed and the run is over, the process has
/// exited: from the final state, any further events print nothing.
pub proof fn lemma_signals_after_exit(s: Sleeper, es: Seq<Event>)
    requires
        s.phase == Phase::Done,
    ensures
        run_from(s, es) == Seq::<Seq<char>>::empty(),
    decreases es.len(),
{
    if es.len() == 0 {
        assert(run_from(s, es) =~= Seq::<Seq<char>>::empty());
    } else {
        let e = es[0];
        assert(event_lines(s, e) =~= Seq::<Seq<char>>::empty());
        assert(step_state(s, e).phase == Phase::Done);
        lemma_signals_after_exit(step_state(s, e), es.drop_first());
        assert(run_from(s, es) =~= Seq::<Seq<char>>::empty());
    }
}

} // verus!
