//! The course of a session: waiting for the first reading, and the loop that
//! takes keys and samples and decides when to draw.
//!
//! Moments are nanoseconds on a clock that never goes back.

use crate::state::AppState;
use vstd::prelude::*;

verus! {

/// How often the first reading is tried for.
pub const MAX_ATTEMPTS: u32 = 300;

/// After how many attempts in vain the user is told of the wait.
pub const NOTICE_EVERY: u32 = 50;

/// What follows an attempt in vain.
#[derive(Debug, Clone, Copy, PartialEq, Eq, Structural)]
pub struct Missed {
    /// The seconds of waiting to tell the user of, if it is time to.
    pub notice: Option<u32>,
    /// Whether that was the last attempt.
    pub give_up: bool,
}

/// What follows the attempt in vain that `earlier` others went before.
pub open spec fn after_miss(earlier: u32) -> Missed {
    Missed {
        notice: if (earlier + 1) % (NOTICE_EVERY as int) == 0 {
            Some(((earlier + 1) / 10) as u32)
        } else {
            None
        },
        give_up: earlier + 1 >= MAX_ATTEMPTS,
    }
}

/// The attempts to get a first reading.
pub struct Attempts {
    made: u32,
}

impl Attempts {
    /// How many attempts were made.
    pub closed spec fn count(&self) -> u32 {
        self.made
    }

    /// No attempts yet.
    pub fn new() -> (res: Self)
        ensures
            res.count() == 0,
    {
        Attempts { made: 0 }
    }

    /// Counts an attempt in vain and tells what follows. A reading is tried
    /// for a tenth of a second at a time, so that ten attempts are a second.
    pub fn missed(&mut self) -> (res: Missed)
        requires
            old(self).count() < MAX_ATTEMPTS,
        ensures
            final(self).count() == old(self).count() + 1,
            res == after_miss(old(self).count()),
    {
        let attempt: u32 = self.made;
        self.made = attempt + 1;
        Missed {
            notice: if attempt % NOTICE_EVERY == NOTICE_EVERY - 1 {
                Some((attempt + 1) / 10)
            } else {
                None
            },
            give_up: attempt + 1 >= MAX_ATTEMPTS,
        }
    }
}

/// The seconds after which waiting ends, where each attempt is followed by a
/// wait of `wait_ms` milliseconds.
pub fn timeout_seconds(wait_ms: u64) -> (res: u64)
    requires
        MAX_ATTEMPTS * wait_ms <= u64::MAX,
    ensures
        res == MAX_ATTEMPTS * wait_ms / 1000,
{
    MAX_ATTEMPTS as u64 * wait_ms / 1000
}

/// A key press, as far as it matters.
#[derive(Debug, Clone, Copy, PartialEq, Eq, Structural)]
pub enum Key {
    /// A character, and whether the control key was held.
    Char(char, bool),
    Escape,
    Other,
}

/// Whether a key ends the session: `q`, escape, or control and `c`.
pub open spec fn is_quit(key: Key) -> bool {
    match key {
        Key::Char(c, control) => c == 'q' || (c == 'c' && control),
        Key::Escape => true,
        Key::Other => false,
    }
}

/// The least time between the last update and the next look for a reading.
pub const SAMPLE_INTERVAL: u128 = 100_000_000;

/// What the loop waits for.
#[derive(Debug, Clone, Copy, PartialEq, Eq, Structural)]
pub enum Phase {
    Polling,
    Timing,
    Reading,
    Restarting,
    Drawing,
    Stopped,
}

/// What happened.
#[derive(Debug, Clone, Copy)]
pub enum UiEvent {
    /// The poll for input ended, with a key press or without.
    Polled(Option<Key>),
    /// It is this moment; and whether `powermetrics` has to be started anew.
    Time(u128, bool),
    /// A reading was looked for; whether it changed the state, the moment
    /// after that, and whether `powermetrics` now has to be started anew.
    Read(bool, u128, bool),
    /// `powermetrics` was started anew.
    Restarted,
    /// The display was drawn.
    Drawn,
}

/// What to do next.
#[derive(Debug, Clone, Copy, PartialEq, Eq, Structural)]
pub enum UiAction {
    /// Poll for input, for a tenth of a second at most.
    Poll,
    /// Tell the moment.
    TellTime,
    /// Look for a reading, and take it over if it is new.
    Read,
    /// Start `powermetrics` anew.
    Restart,
    /// Draw the display.
    Draw,
    /// End the session.
    Stop,
}

/// The loop of a session. Each round polls for input, looks for a reading if
/// one is due, starts `powermetrics` anew if that is due, and draws if there is
/// something new to show; a quit key lets the round end before the loop does.
#[derive(Debug, Clone, Copy, PartialEq, Eq, Structural)]
pub struct UiLoop {
    pub phase: Phase,
    pub running: bool,
    pub needs_redraw: bool,
    pub last_sample: u128,
}

impl UiLoop {
    /// Whether the loop waits for an event of that kind.
    pub open spec fn expects(self, event: UiEvent) -> bool {
        match event {
            UiEvent::Polled(_) => self.phase == Phase::Polling,
            UiEvent::Time(_, _) => self.phase == Phase::Timing,
            UiEvent::Read(_, _, _) => self.phase == Phase::Reading,
            UiEvent::Restarted => self.phase == Phase::Restarting,
            UiEvent::Drawn => self.phase == Phase::Drawing,
        }
    }

    /// Whether a reading is due at `now`.
    pub open spec fn is_due(self, now: u128) -> bool {
        now - self.last_sample >= SAMPLE_INTERVAL
    }

    /// The end of a round: another one, unless the loop has to end.
    pub open spec fn round_ended(self) -> (UiLoop, UiAction) {
        if self.running {
            (UiLoop { phase: Phase::Polling, ..self }, UiAction::Poll)
        } else {
            (UiLoop { phase: Phase::Stopped, ..self }, UiAction::Stop)
        }
    }

    /// The drawing of a round, where there is something new to show.
    pub open spec fn restarting_ended(self) -> (UiLoop, UiAction) {
        if self.needs_redraw {
            (UiLoop { phase: Phase::Drawing, needs_redraw: false, ..self }, UiAction::Draw)
        } else {
            self.round_ended()
        }
    }

    /// The restart of a round, where it is due.
    pub open spec fn reading_ended(self, restart_due: bool) -> (UiLoop, UiAction) {
        if restart_due {
            (UiLoop { phase: Phase::Restarting, ..self }, UiAction::Restart)
        } else {
            self.restarting_ended()
        }
    }

    /// What the loop becomes by an event that it waits for, and what it then
    /// asks for.
    pub open spec fn after(self, event: UiEvent) -> (UiLoop, UiAction) {
        match event {
            UiEvent::Polled(key) => (
                UiLoop {
                    phase: Phase::Timing,
                    running: self.running && !(key matches Some(k) && is_quit(k)),
                    ..self
                },
                UiAction::TellTime,
            ),
            UiEvent::Time(now, restart_due) => if self.is_due(now) {
                (UiLoop { phase: Phase::Reading, ..self }, UiAction::Read)
            } else {
                self.reading_ended(restart_due)
            },
            UiEvent::Read(changed, now, restart_due) => if changed {
                (UiLoop { needs_redraw: true, last_sample: now, ..self }).reading_ended(restart_due)
            } else {
                self.reading_ended(restart_due)
            },
            UiEvent::Restarted => self.restarting_ended(),
            UiEvent::Drawn => self.round_ended(),
        }
    }

    /// A loop that starts at `now`: it polls first, and has yet to draw.
    pub fn new(now: u128) -> (res: Self)
        ensures
            res == (UiLoop {
                phase: Phase::Polling,
                running: true,
                needs_redraw: true,
                last_sample: now,
            }),
    {
        UiLoop { phase: Phase::Polling, running: true, needs_redraw: true, last_sample: now }
    }

    /// Takes an event that the loop waits for, and tells what to do next.
    pub fn step(&mut self, event: UiEvent) -> (res: UiAction)
        requires
            old(self).expects(event),
        ensures
            (*final(self), res) == old(self).after(event),
    {
        match event {
            UiEvent::Polled(key) => {
                match key {
                    Some(Key::Char('q', _)) | Some(Key::Escape) => {
                        self.running = false;
                    },
                    Some(Key::Char('c', true)) => {
                        self.running = false;
                    },
                    _ => {},
                }
                self.phase = Phase::Timing;
                UiAction::TellTime
            },
            UiEvent::Time(now, restart_due) => {
                if now.saturating_sub(self.last_sample) >= SAMPLE_INTERVAL {
                    self.phase = Phase::Reading;
                    UiAction::Read
                } else {
                    self.end_reading(restart_due)
                }
            },
            UiEvent::Read(changed, now, restart_due) => {
                if changed {
                    self.last_sample = now;
                    self.needs_redraw = true;
                }
                self.end_reading(restart_due)
            },
            UiEvent::Restarted => self.end_restarting(),
            UiEvent::Drawn => self.end_round(),
        }
    }

    fn end_reading(&mut self, restart_due: bool) -> (res: UiAction)
        ensures
            (*final(self), res) == old(self).reading_ended(restart_due),
    {
        if restart_due {
            self.phase = Phase::Restarting;
            UiAction::Restart
        } else {
            self.end_restarting()
        }
    }

    fn end_restarting(&mut self) -> (res: UiAction)
        ensures
            (*final(self), res) == old(self).restarting_ended(),
    {
        if self.needs_redraw {
            self.needs_redraw = false;
            self.phase = Phase::Drawing;
            UiAction::Draw
        } else {
            self.end_round()
        }
    }

    fn end_round(&mut self) -> (res: UiAction)
        ensures
            (*final(self), res) == old(self).round_ended(),
    {
        if self.running {
            self.phase = Phase::Polling;
            UiAction::Poll
        } else {
            self.phase = Phase::Stopped;
            UiAction::Stop
        }
    }
}

/// The user is told of the wait every five seconds at ten attempts a second,
/// the last time when the wait is given up; and it is given up at the last
/// attempt and at no other.
pub proof fn law_wait_is_bounded(earlier: u32)
    requires
        earlier < MAX_ATTEMPTS,
    ensures
        after_miss(earlier).give_up == (earlier == MAX_ATTEMPTS - 1),
        after_miss(earlier).notice matches Some(seconds) ==> seconds * 10 == earlier + 1 && seconds
            % 5 == 0,
        after_miss(earlier).give_up ==> after_miss(earlier).notice == Some(30u32),
{
}

/// How many events at most are left of a round.
pub open spec fn left_of_round(phase: Phase) -> nat {
    match phase {
        Phase::Timing => 4,
        Phase::Reading => 3,
        Phase::Restarting => 2,
        Phase::Drawing => 1,
        _ => 0,
    }
}

/// Every round comes to its end: each event but the poll brings it closer, and
/// at its end the loop polls again or stops.
pub proof fn law_rounds_end(ui: UiLoop, event: UiEvent)
    requires
        ui.expects(event),
    ensures
        event !is Polled ==> left_of_round(ui.after(event).0.phase) < left_of_round(ui.phase),
        left_of_round(ui.after(event).0.phase) == 0 <==> (ui.after(event).1 == UiAction::Poll
            || ui.after(event).1 == UiAction::Stop),
{
}

/// The phase in which the loop waits for an action to be done.
pub open spec fn phase_of(action: UiAction) -> Phase {
    match action {
        UiAction::Poll => Phase::Polling,
        UiAction::TellTime => Phase::Timing,
        UiAction::Read => Phase::Reading,
        UiAction::Restart => Phase::Restarting,
        UiAction::Draw => Phase::Drawing,
        UiAction::Stop => Phase::Stopped,
    }
}

/// The loop waits for what it asked for: after each event, its phase is that
/// of the action that it names, so that the outcome of that action is the
/// event that it expects next.
pub proof fn law_loop_waits_for_what_it_asked(ui: UiLoop, event: UiEvent)
    requires
        ui.expects(event),
    ensures
        ui.after(event).0.phase == phase_of(ui.after(event).1),
{
}

/// Only a quit key ends the loop, and nothing starts it again; the loop stops
/// only after one, and never polls after one.
pub proof fn law_only_quit_keys_end_the_loop(ui: UiLoop, event: UiEvent)
    requires
        ui.expects(event),
    ensures
        ui.after(event).0.running == (ui.running && !(event matches UiEvent::Polled(Some(key))
            && is_quit(key))),
        ui.after(event).1 == UiAction::Stop ==> !ui.after(event).0.running,
        ui.after(event).1 == UiAction::Poll ==> ui.after(event).0.running,
{
}

/// The display is drawn when a reading has changed the state, or when it has
/// not been drawn yet, and not otherwise; and a change not drawn yet is kept.
pub proof fn law_drawings_follow_changes(ui: UiLoop, event: UiEvent)
    requires
        ui.expects(event),
    ensures
        ({
            let pending = ui.needs_redraw || event matches UiEvent::Read(true, _, _);
            &&& ui.after(event).1 == UiAction::Draw ==> pending
            &&& pending ==> ui.after(event).1 == UiAction::Draw || ui.after(event).0.needs_redraw
        }),
{
}

/// No round ends with a change that is not drawn.
pub proof fn law_rounds_leave_nothing_undrawn(ui: UiLoop, event: UiEvent)
    requires
        ui.expects(event),
        ui.phase == Phase::Drawing ==> !ui.needs_redraw,
    ensures
        left_of_round(ui.after(event).0.phase) == 0 ==> !ui.after(event).0.needs_redraw,
        ui.after(event).0.phase == Phase::Drawing ==> !ui.after(event).0.needs_redraw,
{
}

/// A reading is looked for only when the interval since the last change has
/// passed, and always then.
pub proof fn law_readings_keep_their_distance(ui: UiLoop, now: u128, restart_due: bool)
    ensures
        ui.after(UiEvent::Time(now, restart_due)).1 == UiAction::Read <==> now - ui.last_sample
            >= SAMPLE_INTERVAL,
        ui.after(UiEvent::Read(true, now, restart_due)).0.last_sample == now,
        ui.after(UiEvent::Read(false, now, restart_due)).0.last_sample == ui.last_sample,
{
}

/// Whether an event ends the part of a round in which readings are taken.
pub open spec fn ends_reading(ui: UiLoop, event: UiEvent) -> bool {
    match event {
        UiEvent::Time(now, _) => !ui.is_due(now),
        UiEvent::Read(_, _, _) => true,
        _ => false,
    }
}

/// Whether an event tells truly of `state` that a restart is due or is not.
pub open spec fn tells_of<W: Copy>(event: UiEvent, state: AppState<W>) -> bool {
    match event {
        UiEvent::Time(_, restart_due) => restart_due == state.restart_due_spec(),
        UiEvent::Read(_, _, restart_due) => restart_due == state.restart_due_spec(),
        _ => true,
    }
}

/// `powermetrics` is started anew once the readings of a round are taken, if
/// and only if as many samples as the options say have come in since it was
/// last started; where the options say zero, never.
pub proof fn law_restarts_follow_the_samples<W: Copy>(
    ui: UiLoop,
    event: UiEvent,
    state: AppState<W>,
)
    requires
        ui.expects(event),
        tells_of(event, state),
    ensures
        ui.after(event).1 == UiAction::Restart <==> ends_reading(ui, event) && state.config.max_count
            > 0 && state.samples_taken >= state.config.max_count,
        state.config.max_count == 0 ==> ui.after(event).1 != UiAction::Restart,
{
}

/// An attempt in vain is told of where it is a multiple of fifty, as a tenth of
/// its number in seconds, and the three hundredth is the last.
pub proof fn law_attempts_are_counted(attempts: &mut Attempts, missed: Missed)
    requires
        old(attempts).count() < 300,
        call_ensures(Attempts::missed, (attempts,), missed),
    ensures
        final(attempts).count() == old(attempts).count() + 1,
        missed.give_up <==> final(attempts).count() == 300,
        match missed.notice {
            Some(seconds) => final(attempts).count() % 50 == 0 && seconds * 10
                == final(attempts).count(),
            None => final(attempts).count() % 50 != 0,
        },
{
}

/// The wait ends after three hundred times the pause between two attempts, in
/// whole seconds.
pub proof fn law_timeout_is_three_hundred_pauses(wait_ms: u64, seconds: u64)
    requires
        call_ensures(timeout_seconds, (wait_ms,), seconds),
    ensures
        seconds * 1000 <= 300 * wait_ms < (seconds + 1) * 1000,
{
}

/// The keys that end the session are `q`, escape, and `c` with control; in the
/// round that a key ends, and in every other, the next step is to tell the
/// time, and the rest of the loop stays as it was.
pub proof fn law_keys_that_quit(ui: &mut UiLoop, key: Option<Key>, action: UiAction)
    requires
        old(ui).phase == Phase::Polling,
        call_ensures(UiLoop::step, (ui, UiEvent::Polled(key)), action),
    ensures
        final(ui).running == (old(ui).running && !(match key {
            Some(Key::Char(c, control)) => c == 'q' || c == 'c' && control,
            Some(Key::Escape) => true,
            _ => false,
        })),
        action == UiAction::TellTime,
        final(ui).phase == Phase::Timing,
        final(ui).needs_redraw == old(ui).needs_redraw,
        final(ui).last_sample == old(ui).last_sample,
{
}

/// Where a tenth of a second has passed since the last change, the loop looks
/// for a reading, whatever else is due.
pub proof fn law_reading_is_due_after_a_tenth(
    ui: &mut UiLoop,
    now: u128,
    restart_due: bool,
    action: UiAction,
)
    requires
        old(ui).phase == Phase::Timing,
        call_ensures(UiLoop::step, (ui, UiEvent::Time(now, restart_due)), action),
    ensures
        action == UiAction::Read <==> now - old(ui).last_sample >= 100_000_000,
        action == UiAction::Read ==> *final(ui) == (UiLoop { phase: Phase::Reading, ..*old(ui) }),
        action != UiAction::Read ==> comes_next(*old(ui), restart_due, *final(ui), action),
{
}

/// Whether `after` and `action` are what follows once the readings of a round
/// are taken: a restart first, where it is due; then a drawing, where something
/// is to be shown, which then counts as shown; then the next round, or the end
/// where a quit key was pressed. Nothing else changes.
pub open spec fn comes_next(
    before: UiLoop,
    restart_due: bool,
    after: UiLoop,
    action: UiAction,
) -> bool {
    let draws = !restart_due && before.needs_redraw;
    let ends = !restart_due && !before.needs_redraw;
    &&& action == UiAction::Restart <==> restart_due
    &&& action == UiAction::Draw <==> draws
    &&& action == UiAction::Poll <==> ends && before.running
    &&& action == UiAction::Stop <==> ends && !before.running
    &&& after.phase == Phase::Restarting <==> restart_due
    &&& after.phase == Phase::Drawing <==> draws
    &&& after.phase == Phase::Polling <==> ends && before.running
    &&& after.phase == Phase::Stopped <==> ends && !before.running
    &&& after.needs_redraw == (before.needs_redraw && restart_due)
    &&& after.running == before.running
    &&& after.last_sample == before.last_sample
}

/// A reading that changed the state is to be shown and starts the next tenth of
/// a second; one that did not changes nothing. Either way the round goes on.
pub proof fn law_changes_are_to_be_shown(
    ui: &mut UiLoop,
    changed: bool,
    now: u128,
    restart_due: bool,
    action: UiAction,
)
    requires
        old(ui).phase == Phase::Reading,
        call_ensures(UiLoop::step, (ui, UiEvent::Read(changed, now, restart_due)), action),
    ensures
        changed ==> comes_next(
            UiLoop { needs_redraw: true, last_sample: now, ..*old(ui) },
            restart_due,
            *final(ui),
            action,
        ),
        !changed ==> comes_next(*old(ui), restart_due, *final(ui), action),
{
}

/// After a restart the round goes on as if none had been due, and after a
/// drawing the next round begins, or the loop ends.
pub proof fn law_rounds_go_on(ui: &mut UiLoop, action: UiAction)
    ensures
        old(ui).phase == Phase::Restarting && call_ensures(
            UiLoop::step,
            (ui, UiEvent::Restarted),
            action,
        ) ==> comes_next(*old(ui), false, *final(ui), action),
        old(ui).phase == Phase::Drawing && call_ensures(UiLoop::step, (ui, UiEvent::Drawn), action)
            ==> comes_next(
            UiLoop { needs_redraw: false, ..*old(ui) },
            false,
            UiLoop { needs_redraw: false, ..*final(ui) },
            action,
        ) && final(ui).needs_redraw == old(ui).needs_redraw,
{
}

/// A loop begins by polling, with something to draw, at the moment given.
pub proof fn law_loop_begins_by_polling(now: u128, ui: UiLoop)
    requires
        call_ensures(UiLoop::new, (now,), ui),
    ensures
        ui.phase == Phase::Polling && ui.running && ui.needs_redraw,
        ui.last_sample == now,
{
}

/// Waiting begins with no attempts made.
pub proof fn law_waiting_begins_with_no_attempts(attempts: Attempts)
    requires
        call_ensures(Attempts::new, (), attempts),
    ensures
        attempts.count() == 0,
{
}

} // verus!
