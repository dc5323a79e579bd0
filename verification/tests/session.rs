use asitop::session::{
    timeout_seconds, Attempts, Key, Missed, Phase, UiAction, UiEvent, UiLoop, MAX_ATTEMPTS,
};

const MS: u128 = 1_000_000;

#[test]
fn wait_is_given_up_at_the_last_attempt() {
    let mut attempts = Attempts::new();
    let mut notices = Vec::new();
    for n in 1..=MAX_ATTEMPTS {
        let missed = attempts.missed();
        assert_eq!(missed.give_up, n == MAX_ATTEMPTS);
        if let Some(seconds) = missed.notice {
            notices.push(seconds);
        }
    }
    assert_eq!(notices, vec![5, 10, 15, 20, 25, 30]);
}

#[test]
fn first_attempt_is_quiet() {
    assert_eq!(Attempts::new().missed(), Missed { notice: None, give_up: false });
}

#[test]
fn thirty_seconds_of_tenths() {
    assert_eq!(timeout_seconds(100), 30);
    assert_eq!(timeout_seconds(0), 0);
    assert_eq!(timeout_seconds(7), 2);
}

#[test]
fn quit_keys_end_the_loop() {
    for (key, quits) in [
        (Key::Char('q', false), true),
        (Key::Char('q', true), true),
        (Key::Escape, true),
        (Key::Char('c', true), true),
        (Key::Char('c', false), false),
        (Key::Char('x', true), false),
        (Key::Char('Q', false), false),
        (Key::Other, false),
    ] {
        let mut ui = UiLoop::new(0);
        assert_eq!(ui.step(UiEvent::Polled(Some(key))), UiAction::TellTime);
        assert_eq!(ui.running, !quits);
        assert_eq!(ui.step(UiEvent::Time(0, false)), UiAction::Draw);
        let end = if quits { UiAction::Stop } else { UiAction::Poll };
        assert_eq!(ui.step(UiEvent::Drawn), end);
    }
}

#[test]
fn quitting_round_still_reads_and_draws() {
    let mut ui = UiLoop::new(0);
    ui.step(UiEvent::Polled(Some(Key::Escape)));
    assert_eq!(ui.step(UiEvent::Time(200 * MS, false)), UiAction::Read);
    assert_eq!(ui.step(UiEvent::Read(true, 210 * MS, false)), UiAction::Draw);
    assert_eq!(ui.step(UiEvent::Drawn), UiAction::Stop);
}

/// Runs one round without a key press and tells whether it read and drew.
fn round(ui: &mut UiLoop, now: u128, changed: bool) -> (bool, bool) {
    assert_eq!(ui.step(UiEvent::Polled(None)), UiAction::TellTime);
    let mut action = ui.step(UiEvent::Time(now, false));
    let mut read = false;
    let mut drawn = false;
    if action == UiAction::Read {
        read = true;
        action = ui.step(UiEvent::Read(changed, now + MS, false));
    }
    if action == UiAction::Draw {
        drawn = true;
        action = ui.step(UiEvent::Drawn);
    }
    assert_eq!(action, UiAction::Poll);
    assert!(!ui.needs_redraw);
    (read, drawn)
}

#[test]
fn drawing_follows_changes() {
    let mut ui = UiLoop::new(0);
    assert_eq!(round(&mut ui, 0, false), (false, true));
    assert_eq!(round(&mut ui, 50 * MS, false), (false, false));
    assert_eq!(round(&mut ui, 100 * MS, false), (true, false));
    assert_eq!(round(&mut ui, 101 * MS, true), (true, true));
    assert_eq!(round(&mut ui, 150 * MS, true), (false, false));
}

#[test]
fn readings_keep_their_distance() {
    let mut ui = UiLoop::new(50 * MS);
    assert!(!round(&mut ui, 149 * MS, true).0);
    assert!(round(&mut ui, 150 * MS, false).0);
    assert!(round(&mut ui, 150 * MS, true).0);
    assert!(!round(&mut ui, 250 * MS, true).0);
    assert!(round(&mut ui, 251 * MS, true).0);
    assert!(!round(&mut ui, 0, true).0);
}

#[test]
fn restart_comes_between_reading_and_drawing() {
    let mut ui = UiLoop::new(0);
    ui.step(UiEvent::Polled(None));
    assert_eq!(ui.step(UiEvent::Time(200 * MS, false)), UiAction::Read);
    assert_eq!(ui.step(UiEvent::Read(true, 210 * MS, true)), UiAction::Restart);
    assert!(ui.needs_redraw);
    assert_eq!(ui.step(UiEvent::Restarted), UiAction::Draw);
    assert_eq!(ui.step(UiEvent::Drawn), UiAction::Poll);
}

#[test]
fn restart_needs_no_reading() {
    let mut ui = UiLoop::new(0);
    ui.step(UiEvent::Polled(Some(Key::Escape)));
    assert_eq!(ui.step(UiEvent::Time(0, true)), UiAction::Restart);
    assert_eq!(ui.step(UiEvent::Restarted), UiAction::Draw);
    assert_eq!(ui.step(UiEvent::Drawn), UiAction::Stop);
}

#[test]
fn reading_goes_before_a_restart() {
    let mut ui = UiLoop::new(0);
    ui.step(UiEvent::Polled(None));
    assert_eq!(ui.step(UiEvent::Time(100 * MS, true)), UiAction::Read);
    assert_eq!(ui.step(UiEvent::Read(false, 101 * MS, true)), UiAction::Restart);
}

#[test]
fn loop_waits_for_what_it_asked() {
    let mut ui = UiLoop::new(0);
    assert_eq!(ui.phase, Phase::Polling);
    for (event, action, phase) in [
        (UiEvent::Polled(None), UiAction::TellTime, Phase::Timing),
        (UiEvent::Time(100 * MS, false), UiAction::Read, Phase::Reading),
        (UiEvent::Read(true, 101 * MS, true), UiAction::Restart, Phase::Restarting),
        (UiEvent::Restarted, UiAction::Draw, Phase::Drawing),
        (UiEvent::Drawn, UiAction::Poll, Phase::Polling),
        (UiEvent::Polled(Some(Key::Escape)), UiAction::TellTime, Phase::Timing),
        (UiEvent::Time(102 * MS, false), UiAction::Stop, Phase::Stopped),
    ] {
        assert_eq!(ui.step(event), action);
        assert_eq!(ui.phase, phase);
    }
}
