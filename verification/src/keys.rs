//! The keys of the device and what is told of them.
use crate::script::{
    law_all_actions_are_done, law_first_failure_ends_it, Script, ScriptView, StepView,
};
use vstd::prelude::*;

verus! {

/// Something that is told of a key.
#[derive(Clone, Copy, Debug, PartialEq, Eq, Structural)]
pub enum KeyEvent {
    /// The key was pressed and released.
    K0,
    /// The key was held down.
    K0Held,
    VolumeUp,
    VolumeDown,
}

/// Milliseconds after which a key counts as held down.
pub const HOLD_MS: u64 = 1000;

/// The watch over the single key of a board: what is to be done.
#[derive(Clone, Copy, Debug, PartialEq, Eq, Structural)]
pub enum KeyWatch {
    /// Wait until the key goes down.
    AwaitPress,
    /// Wait until the key goes up, [`HOLD_MS`] at most.
    AwaitRelease,
    /// Tell this.
    Tell(KeyEvent),
}

/// What came of it.
#[derive(Clone, Copy, Debug, PartialEq, Eq, Structural)]
pub enum KeyOutcome {
    /// It came to pass: the key went down or up, or what was to be told was told.
    Happened,
    /// It did not: the time was over, or nobody listens any more.
    Lapsed,
}

impl KeyWatch {
    /// What comes next; nothing once nobody listens.
    pub open spec fn after(self, outcome: KeyOutcome) -> Option<KeyWatch> {
        match (self, outcome) {
            (KeyWatch::AwaitPress, _) => Some(KeyWatch::AwaitRelease),
            (KeyWatch::AwaitRelease, KeyOutcome::Happened) => Some(KeyWatch::Tell(KeyEvent::K0)),
            (KeyWatch::AwaitRelease, KeyOutcome::Lapsed) => Some(KeyWatch::Tell(KeyEvent::K0Held)),
            (KeyWatch::Tell(_), KeyOutcome::Happened) => Some(KeyWatch::AwaitPress),
            (KeyWatch::Tell(_), KeyOutcome::Lapsed) => None,
        }
    }

    /// Tells what comes next; nothing once nobody listens.
    pub fn report(self, outcome: KeyOutcome) -> (next: Option<KeyWatch>)
        ensures
            next == self.after(outcome),
    {
        match (self, outcome) {
            (KeyWatch::AwaitPress, _) => Some(KeyWatch::AwaitRelease),
            (KeyWatch::AwaitRelease, KeyOutcome::Happened) => Some(KeyWatch::Tell(KeyEvent::K0)),
            (KeyWatch::AwaitRelease, KeyOutcome::Lapsed) => Some(KeyWatch::Tell(KeyEvent::K0Held)),
            (KeyWatch::Tell(_), KeyOutcome::Happened) => Some(KeyWatch::AwaitPress),
            (KeyWatch::Tell(_), KeyOutcome::Lapsed) => None,
        }
    }
}

/// Every press is told once, as a press or as holding down, before the next one is waited for.
pub proof fn law_every_press_is_told(release: KeyOutcome)
    ensures
        ({
            let down = KeyWatch::AwaitPress.after(KeyOutcome::Happened);
            let told = down->0.after(release);
            &&& down == Some(KeyWatch::AwaitRelease)
            &&& told == Some(
                KeyWatch::Tell(
                    if release == KeyOutcome::Happened {
                        KeyEvent::K0
                    } else {
                        KeyEvent::K0Held
                    },
                ),
            )
            &&& told->0.after(KeyOutcome::Happened) == Some(KeyWatch::AwaitPress)
        }),
{
}

/// One of the two keys for the volume.
#[derive(Clone, Copy, Debug, PartialEq, Eq, Structural)]
pub enum VolumeKey {
    Up,
    Down,
}

/// The watch over the two keys for the volume: what is to be done.
#[derive(Clone, Copy, Debug, PartialEq, Eq, Structural)]
pub enum VolumeWatch {
    /// Wait until one of the keys goes down.
    AwaitKey,
    /// Tell this.
    Tell(KeyEvent),
}

/// What came of it.
#[derive(Clone, Copy, Debug, PartialEq, Eq, Structural)]
pub enum VolumeOutcome {
    /// This key went down.
    Pressed(VolumeKey),
    /// It was told.
    Told,
    /// Nobody listens.
    NotTold,
}

/// What is told of a key for the volume.
pub open spec fn volume_event(key: VolumeKey) -> KeyEvent {
    match key {
        VolumeKey::Up => KeyEvent::VolumeUp,
        VolumeKey::Down => KeyEvent::VolumeDown,
    }
}

impl VolumeWatch {
    /// An outcome is one that what is to be done can have.
    pub open spec fn expects(self, outcome: VolumeOutcome) -> bool {
        self is AwaitKey <==> outcome is Pressed
    }

    /// What comes next. The keys are watched on even where nobody listens.
    pub open spec fn after(self, outcome: VolumeOutcome) -> VolumeWatch {
        match outcome {
            VolumeOutcome::Pressed(key) => VolumeWatch::Tell(volume_event(key)),
            _ => VolumeWatch::AwaitKey,
        }
    }

    /// Tells what comes next.
    pub fn report(self, outcome: VolumeOutcome) -> (next: VolumeWatch)
        requires
            self.expects(outcome),
        ensures
            next == self.after(outcome),
    {
        match outcome {
            VolumeOutcome::Pressed(VolumeKey::Up) => VolumeWatch::Tell(KeyEvent::VolumeUp),
            VolumeOutcome::Pressed(VolumeKey::Down) => VolumeWatch::Tell(KeyEvent::VolumeDown),
            _ => VolumeWatch::AwaitKey,
        }
    }
}

/// The edge at which a pin interrupts.
#[derive(Clone, Copy, Debug, PartialEq, Eq, Structural)]
pub enum Edge {
    Rising,
    Falling,
}

/// Something that is to be done to watch keys.
#[derive(Clone, Copy, Debug, PartialEq, Eq, Structural)]
pub enum KeyAction {
    /// Make a pin an input.
    MakeInput(i32),
    /// Let a pin be drawn up.
    PullUp(i32),
    /// Set at which edge a pin interrupts.
    InterruptAt(i32, Edge),
    /// Start the one task that watches the keys; that does not fail.
    Watch,
}

/// What makes a pin ready for a key.
pub open spec fn pin_set_up(pin: i32, edge: Edge) -> Seq<KeyAction> {
    seq![KeyAction::MakeInput(pin), KeyAction::PullUp(pin), KeyAction::InterruptAt(pin, edge)]
}

/// What makes the keys for the volume watched: the pin of one is made ready, that of the other,
/// and the watch is started.
pub open spec fn volume_actions(up: i32, down: i32) -> Seq<KeyAction> {
    pin_set_up(up, Edge::Rising) + pin_set_up(down, Edge::Rising) + seq![KeyAction::Watch]
}

fn push_pin_set_up(actions: &mut Vec<KeyAction>, pin: i32, edge: Edge)
    ensures
        final(actions)@ == old(actions)@ + pin_set_up(pin, edge),
{
    actions.push(KeyAction::MakeInput(pin));
    actions.push(KeyAction::PullUp(pin));
    actions.push(KeyAction::InterruptAt(pin, edge));
    assert(actions@ =~= old(actions)@ + pin_set_up(pin, edge));
}

/// Tells what makes the pin of a board's single key ready.
pub fn take_key(pin: i32) -> (script: Script<KeyAction>)
    ensures
        script@ == (ScriptView { actions: pin_set_up(pin, Edge::Falling), done: 0 }),
        script@.wf(),
{
    let mut actions: Vec<KeyAction> = Vec::new();
    push_pin_set_up(&mut actions, pin, Edge::Falling);
    assert(actions@ =~= pin_set_up(pin, Edge::Falling));
    Script::new(actions)
}

/// Tells what makes the keys for the volume on these pins watched, and how the watch begins.
pub fn start_btn_worker(up: i32, down: i32) -> (begun: (Script<KeyAction>, VolumeWatch))
    ensures
        begun.0@ == (ScriptView { actions: volume_actions(up, down), done: 0 }),
        begun.0@.wf(),
        begun.1 == VolumeWatch::AwaitKey,
{
    let mut actions: Vec<KeyAction> = Vec::new();
    push_pin_set_up(&mut actions, up, Edge::Rising);
    push_pin_set_up(&mut actions, down, Edge::Rising);
    actions.push(KeyAction::Watch);
    assert(actions@ =~= volume_actions(up, down));
    (Script::new(actions), VolumeWatch::AwaitKey)
}

/// The keys for the volume are watched, by one task, if and only if each of the six steps that make
/// their pins ready succeeds. The first that fails ends it with its code, and no task is started.
pub proof fn law_keys_are_watched_once_ready(up: i32, down: i32, codes: Seq<i32>)
    requires
        codes.len() == 6,
    ensures
        ({
            let actions = volume_actions(up, down);
            let script = ScriptView { actions, done: 0 };
            let end = script.after_all(codes);
            &&& actions.take(3) == pin_set_up(up, Edge::Rising)
            &&& actions.subrange(3, 6) == pin_set_up(down, Edge::Rising)
            &&& forall|i: int|
                0 <= i < actions.len() ==> (#[trigger] actions[i] is Watch <==> i == 6)
            &&& actions.len() == 7
            &&& end is Failed <==> exists|i: int| 0 <= i < 6 && #[trigger] codes[i] != 0
            &&& !(end is Failed) ==> {
                &&& end == StepView::More(ScriptView { actions, done: 6 })
                &&& (ScriptView { actions, done: 6 }).after(0) == StepView::<KeyAction>::Done
            }
            &&& forall|k: int|
                0 <= k < 6 && #[trigger] codes[k] != 0 && (forall|i: int|
                    0 <= i < k ==> codes[i] == 0) ==> end == StepView::<KeyAction>::Failed(codes[k])
        }),
{
    let actions = volume_actions(up, down);
    let script = ScriptView { actions, done: 0 };
    assert(actions.len() == 7);
    assert(actions.take(3) =~= pin_set_up(up, Edge::Rising));
    assert(actions.subrange(3, 6) =~= pin_set_up(down, Edge::Rising));
    assert forall|k: int|
        0 <= k < 6 && #[trigger] codes[k] != 0 && (forall|i: int|
            0 <= i < k ==> codes[i] == 0) implies script.after_all(codes) == StepView::<
        KeyAction,
    >::Failed(codes[k]) by {
        law_first_failure_ends_it(script, codes, k);
    }
    if exists|i: int| 0 <= i < 6 && #[trigger] codes[i] != 0 {
        let i = choose|i: int| 0 <= i < 6 && #[trigger] codes[i] != 0;
        let k = lemma_first_failure(codes, i);
        law_first_failure_ends_it(script, codes, k);
    } else {
        law_all_actions_are_done(script, codes);
    }
}

proof fn lemma_first_failure(codes: Seq<i32>, i: int) -> (k: int)
    requires
        0 <= i < codes.len(),
        codes[i] != 0,
    ensures
        0 <= k <= i,
        codes[k] != 0,
        forall|j: int| 0 <= j < k ==> codes[j] == 0,
    decreases i,
{
    if exists|j: int| 0 <= j < i && #[trigger] codes[j] != 0 {
        let j = choose|j: int| 0 <= j < i && #[trigger] codes[j] != 0;
        lemma_first_failure(codes, j)
    } else {
        i
    }
}

/// Every press of a key for the volume is told once, as what the key stands for, and the keys are
/// watched on whether it could be told or not.
pub proof fn law_volume_keys_are_always_watched(key: VolumeKey, told: bool)
    ensures
        ({
            let down = VolumeWatch::AwaitKey.after(VolumeOutcome::Pressed(key));
            let outcome = if told {
                VolumeOutcome::Told
            } else {
                VolumeOutcome::NotTold
            };
            &&& down == VolumeWatch::Tell(volume_event(key))
            &&& down.expects(outcome)
            &&& down.after(outcome) == VolumeWatch::AwaitKey
        }),
{
}

/// Whatever is to be told of a key, the next press is waited for once it was told, and the watch
/// ends once nobody listens. A press is followed by the wait for the release, even where the wait
/// for the press was cut short.
pub proof fn law_key_is_watched_on(event: KeyEvent, outcome: KeyOutcome)
    ensures
        KeyWatch::Tell(event).after(KeyOutcome::Happened) == Some(KeyWatch::AwaitPress),
        KeyWatch::Tell(event).after(KeyOutcome::Lapsed) is None,
        KeyWatch::AwaitPress.after(outcome) == Some(KeyWatch::AwaitRelease),
        KeyWatch::AwaitRelease.after(KeyOutcome::Happened) == Some(KeyWatch::Tell(KeyEvent::K0)),
        KeyWatch::AwaitRelease.after(KeyOutcome::Lapsed) == Some(KeyWatch::Tell(KeyEvent::K0Held)),
{
}

/// The keys for the volume are told as what they stand for, and are watched on after it.
pub proof fn law_volume_keys_stand_for_the_volume(event: KeyEvent)
    ensures
        VolumeWatch::AwaitKey.after(VolumeOutcome::Pressed(VolumeKey::Up)) == VolumeWatch::Tell(
            KeyEvent::VolumeUp,
        ),
        VolumeWatch::AwaitKey.after(VolumeOutcome::Pressed(VolumeKey::Down)) == VolumeWatch::Tell(
            KeyEvent::VolumeDown,
        ),
        VolumeWatch::Tell(event).after(VolumeOutcome::Told) == VolumeWatch::AwaitKey,
        VolumeWatch::Tell(event).after(VolumeOutcome::NotTold) == VolumeWatch::AwaitKey,
{
}

/// A pin is made ready by three actions on that pin, and the pins of two keys one after the other.
pub proof fn law_pins_are_made_ready_in_order(pin: i32, up: i32, down: i32, edge: Edge)
    ensures
        pin_set_up(pin, edge) == seq![
            KeyAction::MakeInput(pin),
            KeyAction::PullUp(pin),
            KeyAction::InterruptAt(pin, edge),
        ],
        volume_actions(up, down) == seq![
            KeyAction::MakeInput(up),
            KeyAction::PullUp(up),
            KeyAction::InterruptAt(up, Edge::Rising),
            KeyAction::MakeInput(down),
            KeyAction::PullUp(down),
            KeyAction::InterruptAt(down, Edge::Rising),
            KeyAction::Watch,
        ],
{
}

} // verus!
