use interrupt_sleeper::machine::{
    closing, greeting, handler_notice, Action, Disposition, Phase, Sleeper, SLEEP_SECONDS,
};

/// Deliver the interrupt signal `count` times, collecting what the custom
/// handler prints (nothing at all under the default disposition).
fn deliver(sleeper: &Sleeper, lines: &mut Vec<String>, count: usize) {
    let mut i: usize = 0;
    while i < count {
        if let Some(line) = sleeper.on_signal() {
            lines.push(line);
        }
        i += 1;
    }
}

/// Drive a whole run, delivering the signal at three points: before the
/// greeting, between the greeting and registration, and during the delay.
/// Returns every line printed, in order.
fn drive(before_greeting: usize, before_registration: usize, during_delay: usize) -> Vec<String> {
    let mut sleeper = Sleeper::new();
    let mut lines: Vec<String> = Vec::new();
    deliver(&sleeper, &mut lines, before_greeting);
    while let Some(action) = sleeper.step() {
        match action {
            Action::EmitGreeting => {
                lines.push(greeting());
                deliver(&sleeper, &mut lines, before_registration);
            }
            Action::RegisterHandler => {}
            Action::Sleep => {
                deliver(&sleeper, &mut lines, during_delay);
            }
            Action::EmitClosing => {
                lines.push(closing());
            }
        }
    }
    lines
}

#[test]
fn greeting_is_hello() {
    assert_eq!(greeting(), "Hello".to_string());
}

#[test]
fn notice_is_the_apology() {
    assert_eq!(
        handler_notice(),
        "Sorry we didn't get the chance to finish".to_string()
    );
}

#[test]
fn closing_is_goodbye() {
    assert_eq!(closing(), "Goodbye".to_string());
}

#[test]
fn delay_lasts_ten_seconds() {
    assert_eq!(SLEEP_SECONDS, 10);
}

#[test]
fn actions_come_in_order() {
    let mut sleeper = Sleeper::new();
    assert_eq!(sleeper.phase, Phase::Init);
    assert_eq!(sleeper.disposition, Disposition::PlatformDefault);
    assert_eq!(sleeper.step(), Some(Action::EmitGreeting));
    assert_eq!(sleeper.step(), Some(Action::RegisterHandler));
    assert_eq!(sleeper.disposition, Disposition::Installed);
    assert_eq!(sleeper.step(), Some(Action::Sleep));
    assert_eq!(sleeper.step(), Some(Action::EmitClosing));
    assert_eq!(sleeper.step(), None);
    assert_eq!(sleeper.phase, Phase::Done);
}

#[test]
fn quiet_run_prints_hello_then_goodbye() {
    let lines = drive(0, 0, 0);
    assert_eq!(lines, vec!["Hello".to_string(), "Goodbye".to_string()]);
}

#[test]
fn one_interrupt_prints_the_notice_between() {
    let lines = drive(0, 0, 1);
    assert_eq!(
        lines,
        vec![
            "Hello".to_string(),
            "Sorry we didn't get the chance to finish".to_string(),
            "Goodbye".to_string(),
        ]
    );
}

#[test]
fn each_interrupt_prints_one_notice() {
    let lines = drive(0, 0, 3);
    assert_eq!(
        lines,
        vec![
            "Hello".to_string(),
            "Sorry we didn't get the chance to finish".to_string(),
            "Sorry we didn't get the chance to finish".to_string(),
            "Sorry we didn't get the chance to finish".to_string(),
            "Goodbye".to_string(),
        ]
    );
}

#[test]
fn registration_alone_prints_nothing() {
    let mut sleeper = Sleeper::new();
    let mut lines: Vec<String> = Vec::new();
    while let Some(action) = sleeper.step() {
        match action {
            Action::EmitGreeting => lines.push(greeting()),
            Action::RegisterHandler => {
                // The registration step emits no line of its own: up to
                // here the run looks exactly as if nothing were installed.
                assert_eq!(lines, vec!["Hello".to_string()]);
            }
            Action::Sleep => {}
            Action::EmitClosing => lines.push(closing()),
        }
    }
    assert_eq!(lines, vec!["Hello".to_string(), "Goodbye".to_string()]);
}

#[test]
fn handler_answers_only_once_installed() {
    let mut sleeper = Sleeper::new();
    assert_eq!(sleeper.on_signal(), None);
    sleeper.step();
    assert_eq!(sleeper.on_signal(), None);
    sleeper.step();
    assert_eq!(
        sleeper.on_signal(),
        Some("Sorry we didn't get the chance to finish".to_string())
    );
}

#[test]
fn signals_before_registration_go_unnoticed() {
    let lines = drive(2, 1, 0);
    assert_eq!(lines, vec!["Hello".to_string(), "Goodbye".to_string()]);
}
