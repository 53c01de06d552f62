//! Push buttons: debouncing, short and long presses, and repeating presses.
//!
//! A button pulls its pin low. Its debounced state is `true` while pressed.
use vstd::prelude::*;

verus! {

/// Time in milliseconds for which a pin is not looked at after an edge.
pub const DEBOUNCE_MS: u64 = 50;

/// Time in milliseconds after which a press counts as long.
pub const LONG_PRESS_MS: u64 = 1000;

/// Times in milliseconds before a held button repeats, and between repeats.
pub const TYPEMATIC_DELAY_MS: u64 = 1000;

pub const TYPEMATIC_PERIOD_MS: u64 = 100;

/// What the debouncing of a button waits for.
#[derive(Clone, Copy, Debug, PartialEq, Eq, Structural)]
pub enum ButtonWait {
    /// The pin is low.
    Low,
    /// The pin is high.
    High,
    /// That many milliseconds have passed.
    Millis(u64),
}

#[derive(Clone, Copy, Debug, PartialEq, Eq, Structural)]
enum DebouncePhase {
    UntilPressed,
    PressSettles,
    UntilReleased,
    ReleaseSettles,
}

/// Software debouncing of one button.
#[derive(Clone, Copy, Debug, PartialEq, Eq, Structural)]
pub struct Debouncer {
    phase: DebouncePhase,
}

impl Debouncer {
    /// Place in the cycle: until pressed, settling, until released, settling.
    pub closed spec fn phase_index(self) -> int {
        match self.phase {
            DebouncePhase::UntilPressed => 0,
            DebouncePhase::PressSettles => 1,
            DebouncePhase::UntilReleased => 2,
            DebouncePhase::ReleaseSettles => 3,
        }
    }

    /// What is waited for.
    pub open spec fn spec_wait(self) -> ButtonWait {
        if self.phase_index() == 0 {
            ButtonWait::Low
        } else if self.phase_index() == 2 {
            ButtonWait::High
        } else {
            ButtonWait::Millis(DEBOUNCE_MS)
        }
    }

    /// What is reported when the wait is over.
    pub open spec fn spec_report(self) -> Option<bool> {
        if self.phase_index() == 0 {
            Some(true)
        } else if self.phase_index() == 2 {
            Some(false)
        } else {
            None
        }
    }

    /// Starts with a first report, which is the state of the pin as it is.
    pub fn new(is_low: bool) -> (r: (Debouncer, bool))
        ensures
            r.0.phase_index() == 0,
            r.1 == is_low,
    {
        (Debouncer { phase: DebouncePhase::UntilPressed }, is_low)
    }

    /// What to wait for.
    pub fn wait(&self) -> (w: ButtonWait)
        ensures
            w == self.spec_wait(),
    {
        match self.phase {
            DebouncePhase::UntilPressed => ButtonWait::Low,
            DebouncePhase::UntilReleased => ButtonWait::High,
            DebouncePhase::PressSettles => ButtonWait::Millis(DEBOUNCE_MS),
            DebouncePhase::ReleaseSettles => ButtonWait::Millis(DEBOUNCE_MS),
        }
    }

    /// The wait is over: what to report, if anything.
    pub fn advance(&mut self) -> (report: Option<bool>)
        ensures
            report == old(self).spec_report(),
            final(self).phase_index() == (old(self).phase_index() + 1) % 4,
    {
        match self.phase {
            DebouncePhase::UntilPressed => {
                self.phase = DebouncePhase::PressSettles;
                Some(true)
            },
            DebouncePhase::PressSettles => {
                self.phase = DebouncePhase::UntilReleased;
                None
            },
            DebouncePhase::UntilReleased => {
                self.phase = DebouncePhase::ReleaseSettles;
                Some(false)
            },
            DebouncePhase::ReleaseSettles => {
                self.phase = DebouncePhase::UntilPressed;
                None
            },
        }
    }
}

/// After a report comes a pause of the debounce time, and then the report of
/// the opposite: pressing and releasing are reported in turn.
pub proof fn law_reports_alternate(
    reporting: Debouncer,
    settling: Debouncer,
    next: Debouncer,
    state: bool,
)
    requires
        reporting.spec_report() == Some(state),
        settling.phase_index() == (reporting.phase_index() + 1) % 4,
        next.phase_index() == (settling.phase_index() + 1) % 4,
    ensures
        settling.spec_wait() == ButtonWait::Millis(DEBOUNCE_MS),
        settling.spec_report() is None,
        next.spec_report() == Some(!state),
{
}

/// How long a button was pressed.
#[derive(Clone, Copy, Debug, PartialEq, Eq, Structural)]
pub enum ButtonPressed {
    Short,
    Long,
}

/// What the classification of a press has seen.
#[derive(Clone, Copy, Debug, PartialEq, Eq, Structural)]
pub enum PressPhase {
    /// The button may still be held from before.
    UntilReleased,
    /// The button is up.
    UntilPressed,
    /// The button is down, and a press of `LONG_PRESS_MS` is timed.
    Held,
}

/// Something that happens while a press is classified.
#[derive(Clone, Copy, Debug, PartialEq, Eq, Structural)]
pub enum PressEvent {
    /// The debounced state of the button.
    State(bool),
    /// `LONG_PRESS_MS` have passed since the button went down.
    Elapsed,
}

/// Tells a short press from a long one.
#[derive(Clone, Copy, Debug, PartialEq, Eq, Structural)]
pub struct PressClassifier {
    pub phase: PressPhase,
}

pub open spec fn spec_press_phase(phase: PressPhase, event: PressEvent) -> PressPhase {
    match (phase, event) {
        (PressPhase::UntilReleased, PressEvent::State(false)) => PressPhase::UntilPressed,
        (PressPhase::UntilPressed, PressEvent::State(true)) => PressPhase::Held,
        _ => phase,
    }
}

pub open spec fn spec_pressed(phase: PressPhase, event: PressEvent) -> Option<ButtonPressed> {
    match (phase, event) {
        (PressPhase::Held, PressEvent::State(false)) => Some(ButtonPressed::Short),
        (PressPhase::Held, PressEvent::Elapsed) => Some(ButtonPressed::Long),
        _ => None,
    }
}

impl PressClassifier {
    /// Waits for the button to be up first.
    pub fn new() -> (r: PressClassifier)
        ensures
            r.phase == PressPhase::UntilReleased,
    {
        PressClassifier { phase: PressPhase::UntilReleased }
    }

    /// Takes an event; the result is there when the press is over or long.
    pub fn take(&mut self, event: PressEvent) -> (r: Option<ButtonPressed>)
        ensures
            final(self).phase == spec_press_phase(old(self).phase, event),
            r == spec_pressed(old(self).phase, event),
    {
        match (self.phase, event) {
            (PressPhase::UntilReleased, PressEvent::State(false)) => {
                self.phase = PressPhase::UntilPressed;
                None
            },
            (PressPhase::UntilPressed, PressEvent::State(true)) => {
                self.phase = PressPhase::Held;
                None
            },
            (PressPhase::Held, PressEvent::State(false)) => Some(ButtonPressed::Short),
            (PressPhase::Held, PressEvent::Elapsed) => Some(ButtonPressed::Long),
            _ => None,
        }
    }
}

/// Phase after a run of events.
pub open spec fn phase_after(phase: PressPhase, events: Seq<PressEvent>) -> PressPhase
    decreases events.len(),
{
    if events.len() == 0 {
        phase
    } else {
        spec_press_phase(phase_after(phase, events.drop_last()), events.last())
    }
}

/// A press is never taken from a button that was down from the start: before
/// a result, the button was seen up and after that down.
pub proof fn law_press_follows_a_release(events: Seq<PressEvent>, event: PressEvent)
    requires
        spec_pressed(phase_after(PressPhase::UntilReleased, events), event) is Some,
    ensures
        exists|i: int, j: int|
            0 <= i < j < events.len() && #[trigger] events[i] == PressEvent::State(false)
                && #[trigger] events[j] == PressEvent::State(true),
{
    lemma_held(events);
}

proof fn lemma_held(events: Seq<PressEvent>)
    ensures
        phase_after(PressPhase::UntilReleased, events) == PressPhase::UntilPressed ==> exists|
            i: int,
        |
            0 <= i < events.len() && #[trigger] events[i] == PressEvent::State(false),
        phase_after(PressPhase::UntilReleased, events) == PressPhase::Held ==> exists|
            i: int,
            j: int,
        |
            0 <= i < j < events.len() && #[trigger] events[i] == PressEvent::State(false)
                && #[trigger] events[j] == PressEvent::State(true),
    decreases events.len(),
{
    if events.len() > 0 {
        let before = events.drop_last();
        let last = events.len() - 1;
        lemma_held(before);
        let was = phase_after(PressPhase::UntilReleased, before);
        let now = phase_after(PressPhase::UntilReleased, events);
        if now == PressPhase::UntilPressed {
            if was == PressPhase::UntilPressed {
                let i = choose|i: int|
                    0 <= i < before.len() && #[trigger] before[i] == PressEvent::State(false);
                assert(events[i] == PressEvent::State(false));
            } else {
                assert(events[last] == PressEvent::State(false));
            }
        } else if now == PressPhase::Held {
            if was == PressPhase::Held {
                let (i, j) = choose|i: int, j: int|
                    0 <= i < j < before.len() && #[trigger] before[i] == PressEvent::State(false)
                        && #[trigger] before[j] == PressEvent::State(true);
                assert(events[i] == PressEvent::State(false));
                assert(events[j] == PressEvent::State(true));
            } else {
                let i = choose|i: int|
                    0 <= i < before.len() && #[trigger] before[i] == PressEvent::State(false);
                assert(events[i] == PressEvent::State(false));
                assert(events[last] == PressEvent::State(true));
            }
        }
    }
}

/// Repeating presses of a button that is held.
#[derive(Clone, Copy, Debug, PartialEq, Eq, Structural)]
pub struct Typematic {
    /// Signals given in the current press, or `None` while the button is up.
    pub held: Option<u32>,
}

/// Pause in milliseconds after the signal with number `i`.
pub open spec fn typematic_pause(i: int) -> u64 {
    if i == 0 {
        TYPEMATIC_DELAY_MS
    } else {
        TYPEMATIC_PERIOD_MS
    }
}

/// Milliseconds from the press to the signal with number `i`.
pub open spec fn signal_time(i: nat) -> int
    decreases i,
{
    if i == 0 {
        0
    } else {
        signal_time((i - 1) as nat) + typematic_pause(i - 1)
    }
}

impl Typematic {
    pub fn new() -> (r: Typematic)
        ensures
            r.held is None,
    {
        Typematic { held: None }
    }

    /// Takes the debounced state of the button. A press starts the signals
    /// over, and a release ends them.
    pub fn button(&mut self, pressed: bool)
        ensures
            final(self).held == (if !pressed {
                None
            } else if old(self).held is None {
                Some(0u32)
            } else {
                old(self).held
            }),
    {
        if !pressed {
            self.held = None;
        } else if self.held.is_none() {
            self.held = Some(0);
        }
    }

    /// The next signal of a held button, and the milliseconds to wait before
    /// the one after it.
    pub fn signal(&mut self) -> (r: Option<(u32, u64)>)
        requires
            old(self).held != Some(u32::MAX),
        ensures
            match old(self).held {
                None => r is None && final(self).held is None,
                Some(i) => r == Some((i, typematic_pause(i as int))) && final(self).held == Some(
                    (i + 1) as u32,
                ),
            },
            r matches Some(signal) ==> signal.1 == (if signal.0 == 0 {
                1000u64
            } else {
                100
            }),
    {
        match self.held {
            None => None,
            Some(i) => {
                self.held = Some(i + 1);
                if i == 0 {
                    Some((i, TYPEMATIC_DELAY_MS))
                } else {
                    Some((i, TYPEMATIC_PERIOD_MS))
                }
            },
        }
    }
}

/// A held button signals at once, after a second, and from then on ten times a
/// second.
pub proof fn law_times_of_the_signals(i: nat)
    ensures
        signal_time(i) == (if i == 0 {
            0
        } else {
            TYPEMATIC_DELAY_MS + (i - 1) * TYPEMATIC_PERIOD_MS
        }),
    decreases i,
{
    if i > 0 {
        law_times_of_the_signals((i - 1) as nat);
    }
}

/// A press is reported when the pin goes low and a release when it goes high;
/// while a button settles nothing is reported for 50 milliseconds. The first
/// thing waited for is a press.
pub proof fn law_edges_are_reported(button: Debouncer, wait: ButtonWait)
    requires
        0 <= button.phase_index() < 4,
        call_ensures(Debouncer::wait, (&button,), wait),
    ensures
        wait is Low <==> button.spec_report() == Some(true),
        wait is High <==> button.spec_report() == Some(false),
        wait == ButtonWait::Millis(50) <==> button.spec_report() is None,
        wait is Low <==> button.phase_index() == 0,
        wait is High <==> button.phase_index() == 2,
{
}

/// A press runs its course: whatever comes before the button is seen up, and
/// whatever comes before it is seen down again, gives no result. From then on a
/// release ends a short press and the passing of the time a long one, whichever
/// comes first.
pub proof fn law_press_is_classified(
    before: Seq<PressEvent>,
    up: Seq<PressEvent>,
    down: Seq<PressEvent>,
    event: PressEvent,
)
    requires
        forall|i: int| 0 <= i < before.len() ==> #[trigger] before[i] != PressEvent::State(false),
        forall|i: int| 0 <= i < up.len() ==> #[trigger] up[i] != PressEvent::State(true),
        forall|i: int| 0 <= i < down.len() ==> #[trigger] down[i] == PressEvent::State(true),
    ensures
        ({
            let seen_up = before.push(PressEvent::State(false)) + up;
            let held = seen_up.push(PressEvent::State(true)) + down;
            let start = PressPhase::UntilReleased;
            &&& spec_pressed(phase_after(start, before), event) is None
            &&& spec_pressed(phase_after(start, seen_up), event) is None
            &&& spec_pressed(phase_after(start, held), event) == match event {
                PressEvent::State(true) => None,
                PressEvent::State(false) => Some(ButtonPressed::Short),
                PressEvent::Elapsed => Some(ButtonPressed::Long),
            }
        }),
{
    let start = PressPhase::UntilReleased;
    lemma_phase_stays(start, before, Seq::empty());
    assert(Seq::<PressEvent>::empty() + before =~= before);
    let first = before.push(PressEvent::State(false));
    assert(first.drop_last() =~= before);
    assert(phase_after(start, first) == PressPhase::UntilPressed);
    lemma_phase_stays(start, up, first);
    let seen_up = first + up;
    let second = seen_up.push(PressEvent::State(true));
    assert(second.drop_last() =~= seen_up);
    assert(phase_after(start, second) == PressPhase::Held);
    lemma_phase_stays(start, down, second);
}

/// Events that change nothing leave the phase as it is.
proof fn lemma_phase_stays(start: PressPhase, events: Seq<PressEvent>, before: Seq<PressEvent>)
    requires
        ({
            let phase = phase_after(start, before);
            forall|i: int|
                0 <= i < events.len() ==> spec_press_phase(phase, #[trigger] events[i]) == phase
        }),
    ensures
        phase_after(start, before + events) == phase_after(start, before),
    decreases events.len(),
{
    if events.len() == 0 {
        assert(before + events =~= before);
    } else {
        lemma_phase_stays(start, events.drop_last(), before);
        assert((before + events).drop_last() =~= before + events.drop_last());
        assert(events.last() == events[events.len() - 1]);
    }
}

/// Times of the signals in milliseconds: at once, after 1000, and then every
/// 100.
pub proof fn law_signals_in_milliseconds(i: nat)
    ensures
        signal_time(0) == 0,
        i > 0 ==> signal_time(i) == 1000 + (i - 1) * 100,
{
    law_times_of_the_signals(i);
}

/// A button whose pin was waited for to go low is reported pressed, and then
/// settles for 50 milliseconds before its release is waited for.
pub proof fn law_button_is_pressed_and_settles(
    button: &mut Debouncer,
    settling: &mut Debouncer,
    waits: (ButtonWait, ButtonWait, ButtonWait),
    reports: (Option<bool>, Option<bool>),
)
    requires
        0 <= old(button).phase_index() < 4,
        call_ensures(Debouncer::wait, (&*old(button),), waits.0),
        call_ensures(Debouncer::advance, (button,), reports.0),
        call_ensures(Debouncer::wait, (&*final(button),), waits.1),
        *old(settling) == *final(button),
        call_ensures(Debouncer::advance, (settling,), reports.1),
        call_ensures(Debouncer::wait, (&*final(settling),), waits.2),
    ensures
        waits.0 is Low ==> reports.0 == Some(true) && waits.1 == ButtonWait::Millis(50)
            && reports.1 is None && waits.2 is High,
        waits.0 is High ==> reports.0 == Some(false) && waits.1 == ButtonWait::Millis(50)
            && reports.1 is None && waits.2 is Low,
{
}

/// A fresh classifier that sees a button up and then down, tells a short press
/// by the release and a long one by the time.
pub proof fn law_classifier_tells_presses_apart(
    fresh: PressClassifier,
    up: &mut PressClassifier,
    down: &mut PressClassifier,
    over: &mut PressClassifier,
    event: PressEvent,
    results: (Option<ButtonPressed>, Option<ButtonPressed>, Option<ButtonPressed>),
)
    requires
        call_ensures(PressClassifier::new, (), fresh),
        *old(up) == fresh,
        call_ensures(PressClassifier::take, (up, PressEvent::State(false)), results.0),
        *old(down) == *final(up),
        call_ensures(PressClassifier::take, (down, PressEvent::State(true)), results.1),
        *old(over) == *final(down),
        call_ensures(PressClassifier::take, (over, event), results.2),
    ensures
        results.0 is None && results.1 is None,
        event == PressEvent::State(false) ==> results.2 == Some(ButtonPressed::Short),
        event is Elapsed ==> results.2 == Some(ButtonPressed::Long),
        event == PressEvent::State(true) ==> results.2 is None,
{
}

/// A button signals from its press on, counting from zero, and a release ends
/// the signals.
pub proof fn law_held_button_signals(
    pressed: &mut Typematic,
    first: &mut Typematic,
    second: &mut Typematic,
    released: &mut Typematic,
    last: &mut Typematic,
    signals: (Option<(u32, u64)>, Option<(u32, u64)>, Option<(u32, u64)>),
)
    requires
        old(pressed).held is None,
        call_ensures(Typematic::button, (pressed, true), ()),
        *old(first) == *final(pressed),
        call_ensures(Typematic::signal, (first,), signals.0),
        *old(second) == *final(first),
        call_ensures(Typematic::signal, (second,), signals.1),
        *old(released) == *final(second),
        call_ensures(Typematic::button, (released, false), ()),
        *old(last) == *final(released),
        call_ensures(Typematic::signal, (last,), signals.2),
    ensures
        signals.0 == Some((0u32, 1000u64)),
        signals.1 == Some((1u32, 100u64)),
        signals.2 is None,
{
}

} // verus!
