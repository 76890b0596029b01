//! Dimming state and transition logic.
//!
//! [`DimController`] owns all per-output dimming state and computes updates
//! atomically. Every update holds both opacity and brightness, so they never
//! drift out of sync.
//!
//! # Focus transitions
//!
//! When the focus changes ([`DimController::focus_changed`]):
//!
//! 1. The old active output snaps to dimmed at once.
//! 2. The new active output starts a cross-fade after 325 milliseconds.
//!
//! The delay lets the window settle on the new output before revealing it.
//!
//! # Animation
//!
//! - [`DimController::fade_in_frame`]: startup animation, all outputs together
//! - [`DimController::tick`]: cross-fade on the revealing output only
//! - [`DimController::reveal_output`]: reveal after a choreographed launch
//! - [`DimController::snap_to_target`]: instant jump, no animation
//! - [`DimController::snap_all_to_dimmed`]: snap while a window is dragged

use crate::fraction;
use crate::fraction::WHOLE;
use crate::names;
use crate::names::same_name;
use crate::render;
use crate::render::{Brightness, Opacity};
use crate::span;
use crate::span::Span;
use vstd::prelude::*;

verus! {

/// Per-output dimming state: what the output should look like.
#[derive(Debug, Clone, Copy, PartialEq, Eq, Structural)]
pub struct OutputDimState {
    /// Current overlay opacity, up to the target opacity when fully dimmed.
    pub alpha: Opacity,
    /// Current gamma brightness, down to the target brightness when dimmed.
    pub brightness: Brightness,
    /// Whether this output is skipped: it has the focus and stays undimmed.
    pub skipped: bool,
}

/// A dimming state in numbers.
pub struct ShadeView {
    pub alpha: int,
    pub brightness: int,
    pub skipped: bool,
}

impl View for OutputDimState {
    type V = ShadeView;

    open spec fn view(&self) -> ShadeView {
        ShadeView { alpha: self.alpha@, brightness: self.brightness@, skipped: self.skipped }
    }
}

/// A single output's new dimming values.
#[derive(Debug)]
pub struct OutputUpdate {
    pub name: String,
    pub opacity: Opacity,
    pub brightness: Brightness,
}

/// An update in characters and numbers.
pub struct UpdateView {
    pub name: Seq<char>,
    pub opacity: int,
    pub brightness: int,
}

impl View for OutputUpdate {
    type V = UpdateView;

    open spec fn view(&self) -> UpdateView {
        UpdateView {
            name: self.name@,
            opacity: self.opacity@,
            brightness: self.brightness@,
        }
    }
}

/// Updates to apply to surfaces after a change of the dimming state.
#[derive(Debug)]
pub struct DimUpdates(pub Vec<OutputUpdate>);

impl View for DimUpdates {
    type V = Seq<UpdateView>;

    open spec fn view(&self) -> Seq<UpdateView> {
        self.0@.map_values(|update: OutputUpdate| update@)
    }
}

impl std::ops::Deref for DimUpdates {
    type Target = [OutputUpdate];

    fn deref(&self) -> (updates: &[OutputUpdate])
        ensures
            updates@ == self.0@,
    {
        self.0.as_slice()
    }
}

/// A cross-fade in progress.
#[derive(Debug)]
pub struct Transition {
    /// When the transition was started.
    pub start: Span,
    /// How long to wait before fading.
    pub delay: Span,
    /// How long the fade takes.
    pub duration: Span,
    /// Output being revealed: its overlay fades out, its gamma returns to normal.
    pub revealing: String,
}

/// A cross-fade in nanoseconds and characters.
pub struct TransitionView {
    pub start: nat,
    pub delay: nat,
    pub duration: nat,
    pub revealing: Seq<char>,
}

impl View for Transition {
    type V = TransitionView;

    open spec fn view(&self) -> TransitionView {
        TransitionView {
            start: self.start@,
            delay: self.delay@,
            duration: self.duration@,
            revealing: self.revealing@,
        }
    }
}

/// The state of a [`DimController`].
#[verifier::ext_equal]
pub struct DimView {
    pub target_opacity: int,
    pub target_brightness: int,
    /// The outputs, in the order in which they were first added.
    pub names: Seq<Seq<char>>,
    pub states: Map<Seq<char>, ShadeView>,
    pub active: Option<Seq<char>>,
    pub transition: Option<TransitionView>,
}

/// An output and its state.
#[derive(Debug)]
struct Output {
    name: String,
    state: OutputDimState,
}

/// Owns all dimming logic. Computes opacity and gamma together.
#[derive(Debug)]
pub struct DimController {
    target_opacity: Opacity,
    target_brightness: Brightness,
    outputs: Vec<Output>,
    active: Option<String>,
    transition: Option<Transition>,
}

/// The names of some outputs, in order.
spec fn names_of(outputs: Seq<Output>) -> Seq<Seq<char>> {
    outputs.map_values(|output: Output| output.name@)
}

/// The states of some outputs, by name.
spec fn states_of(outputs: Seq<Output>) -> Map<Seq<char>, ShadeView> {
    Map::new(
        |name: Seq<char>| names_of(outputs).contains(name),
        |name: Seq<char>| outputs[names_of(outputs).index_of(name)].state@,
    )
}

impl View for DimController {
    type V = DimView;

    closed spec fn view(&self) -> DimView {
        DimView {
            target_opacity: self.target_opacity@,
            target_brightness: self.target_brightness@,
            names: names_of(self.outputs@),
            states: states_of(self.outputs@),
            active: names::opt_view(self.active),
            transition: match self.transition {
                Some(t) => Some(t@),
                None => None,
            },
        }
    }
}

impl DimView {
    /// What holds of every state: no output is there twice, exactly the
    /// outputs have a state, and all numbers are fractions.
    pub open spec fn wf(self) -> bool {
        &&& self.names.no_duplicates()
        &&& self.states.dom() == self.names.to_set()
        &&& 0 <= self.target_opacity <= WHOLE
        &&& 0 <= self.target_brightness <= WHOLE
    }

    /// The state of an output that is fully dimmed.
    pub open spec fn dimmed(self) -> ShadeView {
        ShadeView {
            alpha: self.target_opacity,
            brightness: self.target_brightness,
            skipped: false,
        }
    }

    /// The update that brings a surface to the present state of an output.
    pub open spec fn update(self, name: Seq<char>) -> UpdateView {
        UpdateView {
            name,
            opacity: self.states[name].alpha,
            brightness: self.states[name].brightness,
        }
    }

    /// The updates of all outputs.
    pub open spec fn all_updates(self) -> Seq<UpdateView> {
        self.names.map_values(|name: Seq<char>| self.update(name))
    }

    /// The state with a function applied to every output.
    pub open spec fn with_each(self, change: spec_fn(ShadeView) -> ShadeView) -> DimView {
        DimView { states: self.states.map_values(change), ..self }
    }
}

/// A skipped output is transparent and at normal brightness.
pub open spec fn undimmed() -> ShadeView {
    ShadeView { alpha: 0, brightness: WHOLE as int, skipped: true }
}

/// The delay before a focus change reveals the new output.
pub const FOCUS_DELAY_MILLIS: u64 = 325;

/// How long the reveal after a focus change takes.
pub const FOCUS_FADE_MILLIS: u64 = 150;

/// The delay before a launched window's output is revealed.
pub const LAUNCH_DELAY_MILLIS: u64 = 50;

/// How long the reveal after a launch takes.
pub const LAUNCH_FADE_MILLIS: u64 = 200;

/// A cross-fade that starts `now`.
pub open spec fn fresh_transition(
    now: nat,
    delay_millis: u64,
    fade_millis: u64,
    revealing: Seq<char>,
) -> TransitionView {
    TransitionView {
        start: now,
        delay: (delay_millis * span::NANOS_PER_MILLI) as nat,
        duration: (fade_millis * span::NANOS_PER_MILLI) as nat,
        revealing,
    }
}

/// The time between two moments, and zero where the second lies ahead.
pub open spec fn elapsed_since(now: nat, start: nat) -> nat {
    if now >= start {
        (now - start) as nat
    } else {
        0
    }
}

impl TransitionView {
    /// Whether the fade has not begun yet.
    pub open spec fn waiting(self, now: nat) -> bool {
        elapsed_since(now, self.start) < self.delay
    }

    /// How far the fade has come, easing applied.
    pub open spec fn eased(self, now: nat) -> int {
        fraction::eased(
            fraction::progress_parts(
                (elapsed_since(now, self.start) - self.delay) as nat,
                self.duration,
            ),
        )
    }

    /// Whether the fade has come to its end.
    pub open spec fn finished(self, now: nat) -> bool {
        elapsed_since(now, self.start) >= self.delay + self.duration
    }
}

impl DimView {
    /// After an output has been added.
    pub open spec fn added(self, name: Seq<char>, is_active: bool) -> DimView {
        DimView {
            names: if self.names.contains(name) {
                self.names
            } else {
                self.names.push(name)
            },
            states: self.states.insert(
                name,
                ShadeView { alpha: 0, brightness: WHOLE as int, skipped: is_active },
            ),
            active: if is_active {
                Some(name)
            } else {
                self.active
            },
            ..self
        }
    }

    /// After an output has been removed: nothing refers to it any more.
    pub open spec fn removed(self, name: Seq<char>) -> DimView {
        DimView {
            names: if self.names.contains(name) {
                self.names.remove(self.names.index_of(name))
            } else {
                self.names
            },
            states: self.states.remove(name),
            active: if self.active == Some(name) {
                None
            } else {
                self.active
            },
            transition: match self.transition {
                Some(t) => if t.revealing == name {
                    None
                } else {
                    Some(t)
                },
                None => None,
            },
            ..self
        }
    }

    /// The output that a focus change dims: the one that was active, if known.
    pub open spec fn losing_focus(self, new_active: Option<Seq<char>>) -> Option<Seq<char>> {
        match self.active {
            Some(name) => if self.active != new_active && self.states.dom().contains(name) {
                Some(name)
            } else {
                None
            },
            None => None,
        }
    }

    /// After the focus has moved to another output, or to none.
    pub open spec fn focused(self, new_active: Option<Seq<char>>, now: nat) -> DimView {
        if self.active == new_active {
            self
        } else {
            let dimmed = match self.losing_focus(new_active) {
                Some(name) => self.states.insert(name, self.dimmed()),
                None => self.states,
            };
            DimView {
                states: match new_active {
                    Some(name) => if self.states.dom().contains(name) {
                        dimmed.insert(name, ShadeView { skipped: true, ..dimmed[name] })
                    } else {
                        dimmed
                    },
                    None => dimmed,
                },
                active: new_active,
                transition: match new_active {
                    Some(name) => Some(
                        fresh_transition(now, FOCUS_DELAY_MILLIS, FOCUS_FADE_MILLIS, name),
                    ),
                    None => self.transition,
                },
                ..self
            }
        }
    }

    /// The updates that a focus change calls for.
    pub open spec fn focus_updates(self, new_active: Option<Seq<char>>) -> Seq<UpdateView> {
        match self.losing_focus(new_active) {
            Some(name) => seq![
                UpdateView {
                    name,
                    opacity: self.target_opacity,
                    brightness: self.target_brightness,
                },
            ],
            None => Seq::empty(),
        }
    }

    /// The output that a tick animates: the revealing one, once the delay has
    /// passed, if it is known.
    pub open spec fn animating(self, now: nat) -> Option<Seq<char>> {
        match self.transition {
            Some(t) => if !t.waiting(now) && self.states.dom().contains(t.revealing) {
                Some(t.revealing)
            } else {
                None
            },
            None => None,
        }
    }

    /// After a tick: the revealing output has gone from dimmed towards normal.
    pub open spec fn ticked(self, now: nat) -> DimView {
        DimView {
            states: match self.animating(now) {
                Some(name) => {
                    let eased = self.transition->0.eased(now);
                    self.states.insert(
                        name,
                        ShadeView {
                            alpha: fraction::product(self.target_opacity, WHOLE - eased),
                            brightness: render::recovering_parts(self.target_brightness, eased),
                            skipped: self.states[name].skipped,
                        },
                    )
                },
                None => self.states,
            },
            transition: match self.transition {
                Some(t) => if t.finished(now) {
                    None
                } else {
                    Some(t)
                },
                None => None,
            },
            ..self
        }
    }

    /// The updates that a tick calls for.
    pub open spec fn tick_updates(self, now: nat) -> Seq<UpdateView> {
        match self.animating(now) {
            Some(name) => seq![self.ticked(now).update(name)],
            None => Seq::empty(),
        }
    }

    /// What an output looks like when those without focus are at `shade`.
    pub open spec fn shaded(shade: ShadeView) -> spec_fn(ShadeView) -> ShadeView {
        |state: ShadeView|
            if state.skipped {
                undimmed()
            } else {
                shade
            }
    }

    /// After a frame of the initial animation.
    pub open spec fn faded_in(self, elapsed: nat, duration: nat) -> DimView {
        let eased = fraction::eased(fraction::progress_parts(elapsed, duration));
        self.with_each(
            DimView::shaded(
                ShadeView {
                    alpha: fraction::product(self.target_opacity, eased),
                    brightness: render::dimming_parts(self.target_brightness, eased),
                    skipped: false,
                },
            ),
        )
    }

    /// After all outputs have jumped to their final look.
    pub open spec fn snapped(self) -> DimView {
        self.with_each(DimView::shaded(self.dimmed()))
    }

    /// After all outputs have been dimmed, the active one too.
    pub open spec fn all_dimmed(self) -> DimView {
        self.with_each(|state: ShadeView| self.dimmed())
    }

    /// After the reveal of an output has been started.
    pub open spec fn revealed(self, name: Seq<char>, now: nat) -> DimView {
        DimView {
            states: if self.states.dom().contains(name) {
                self.states.insert(name, ShadeView { skipped: true, ..self.states[name] })
            } else {
                self.states
            },
            active: Some(name),
            transition: Some(fresh_transition(now, LAUNCH_DELAY_MILLIS, LAUNCH_FADE_MILLIS, name)),
            ..self
        }
    }
}

proof fn lemma_dom(outputs: Seq<Output>)
    ensures
        states_of(outputs).dom() == names_of(outputs).to_set(),
{
    assert(states_of(outputs).dom() =~= names_of(outputs).to_set());
}

proof fn lemma_lookup(outputs: Seq<Output>, i: int)
    requires
        0 <= i < outputs.len(),
        names_of(outputs).no_duplicates(),
    ensures
        names_of(outputs).contains(outputs[i].name@),
        names_of(outputs).index_of(outputs[i].name@) == i,
        states_of(outputs).dom().contains(outputs[i].name@),
        states_of(outputs)[outputs[i].name@] == outputs[i].state@,
{
    assert(names_of(outputs)[i] == outputs[i].name@);
}

proof fn lemma_set_state(before: Seq<Output>, after: Seq<Output>, i: int)
    requires
        0 <= i < before.len(),
        names_of(before).no_duplicates(),
        after.len() == before.len(),
        forall|j: int| 0 <= j < before.len() && j != i ==> after[j] == before[j],
        after[i].name@ == before[i].name@,
    ensures
        names_of(after) == names_of(before),
        states_of(after) == states_of(before).insert(before[i].name@, after[i].state@),
{
    assert(names_of(after) =~= names_of(before));
    lemma_lookup(before, i);
    lemma_lookup(after, i);
    assert(states_of(after) =~= states_of(before).insert(before[i].name@, after[i].state@)) by {
        assert forall|name: Seq<char>|
            names_of(before).contains(name) && name != before[i].name@ implies states_of(
            after,
        )[name] == states_of(before)[name] by {
            let k = names_of(before).index_of(name);
            assert(names_of(before)[k] == name);
        }
    }
}

proof fn lemma_push(before: Seq<Output>, output: Output)
    requires
        names_of(before).no_duplicates(),
        !names_of(before).contains(output.name@),
    ensures
        names_of(before.push(output)) == names_of(before).push(output.name@),
        names_of(before.push(output)).no_duplicates(),
        states_of(before.push(output)) == states_of(before).insert(output.name@, output.state@),
{
    let after = before.push(output);
    assert(names_of(after) =~= names_of(before).push(output.name@));
    lemma_lookup(after, before.len() as int);
    assert forall|name: Seq<char>| #[trigger]
        names_of(after).contains(name) == (names_of(before).contains(name) || name
            == output.name@) by {
        if names_of(before).contains(name) {
            let k = names_of(before).index_of(name);
            assert(names_of(after)[k] == name);
        }
    }
    assert forall|name: Seq<char>| names_of(before).contains(name) implies states_of(after)[name]
        == states_of(before)[name] by {
        let k = names_of(before).index_of(name);
        assert(names_of(before)[k] == name);
        assert(after[k] == before[k]);
        lemma_lookup(after, k);
    }
    assert(states_of(after) =~= states_of(before).insert(output.name@, output.state@));
}

proof fn lemma_remove(before: Seq<Output>, i: int)
    requires
        0 <= i < before.len(),
        names_of(before).no_duplicates(),
    ensures
        names_of(before.remove(i)) == names_of(before).remove(i),
        names_of(before.remove(i)).no_duplicates(),
        states_of(before.remove(i)) == states_of(before).remove(before[i].name@),
{
    let after = before.remove(i);
    let gone = before[i].name@;
    assert(names_of(after) =~= names_of(before).remove(i));
    lemma_lookup(before, i);
    assert forall|name: Seq<char>| #[trigger]
        names_of(after).contains(name) == (names_of(before).contains(name) && name != gone) by {
        if names_of(before).contains(name) && name != gone {
            let k = names_of(before).index_of(name);
            assert(names_of(before)[k] == name);
            assert(names_of(after)[if k < i {
                k
            } else {
                k - 1
            }] == name);
        }
        if names_of(after).contains(name) {
            let k = names_of(after).index_of(name);
            assert(names_of(after)[k] == name);
            assert(names_of(before)[if k < i {
                k
            } else {
                k + 1
            }] == name);
        }
    }
    assert forall|name: Seq<char>| names_of(after).contains(name) implies states_of(after)[name]
        == states_of(before)[name] by {
        let k = names_of(after).index_of(name);
        assert(names_of(after)[k] == name);
        lemma_lookup(after, k);
        lemma_lookup(before, if k < i {
            k
        } else {
            k + 1
        });
    }
    assert(states_of(after) =~= states_of(before).remove(gone));
}

proof fn lemma_each(
    before: Seq<Output>,
    after: Seq<Output>,
    change: spec_fn(ShadeView) -> ShadeView,
)
    requires
        after.len() == before.len(),
        forall|i: int|
            0 <= i < before.len() ==> (#[trigger] after[i]).name@ == before[i].name@
                && after[i].state@ == change(before[i].state@),
    ensures
        names_of(after) == names_of(before),
        states_of(after) == states_of(before).map_values(change),
{
    assert(names_of(after) =~= names_of(before));
    assert forall|name: Seq<char>| names_of(before).contains(name) implies states_of(after)[name]
        == change(states_of(before)[name]) by {
        let k = names_of(before).index_of(name);
        assert(names_of(before)[k] == name);
        assert(after[k].state@ == change(before[k].state@));
    }
    assert(states_of(after) =~= states_of(before).map_values(change));
}

impl DimController {
    /// Whether the state is one that can come up, see [`DimView::wf`].
    pub open spec fn wf(&self) -> bool {
        self@.wf()
    }

    /// A controller without outputs. Without a target brightness, gamma stays
    /// at normal.
    pub fn new(
        target_opacity: Opacity,
        target_brightness: Option<Brightness>,
    ) -> (controller: DimController)
        ensures
            controller.wf(),
            controller@ == (DimView {
                target_opacity: target_opacity@,
                target_brightness: match target_brightness {
                    Some(brightness) => brightness@,
                    None => WHOLE as int,
                },
                names: Seq::empty(),
                states: Map::empty(),
                active: None,
                transition: None,
            }),
    {
        let brightness = match target_brightness {
            Some(brightness) => brightness,
            None => Brightness::normal(),
        };
        let controller = DimController {
            target_opacity,
            target_brightness: brightness,
            outputs: Vec::new(),
            active: None,
            transition: None,
        };
        // Reading the parts shows that they lie between zero and one.
        let _parts: (u64, u64) = (target_opacity.parts(), brightness.parts());
        assert(controller@.names =~= Seq::empty());
        assert(controller@.states =~= Map::empty());
        assert(controller@.states.dom() =~= controller@.names.to_set());
        controller
    }

    /// The place of an output in the list.
    fn find(&self, name: &str) -> (index: Option<usize>)
        requires
            self.wf(),
        ensures
            match index {
                Some(i) => i < self.outputs.len() && self.outputs[i as int].name@ == name@
                    && self@.states.dom().contains(name@) && self@.states[name@]
                    == self.outputs[i as int].state@ && self@.names.index_of(name@) == i,
                None => !self@.states.dom().contains(name@),
            },
            self@.states.dom().contains(name@) == self@.names.contains(name@),
    {
        let mut i: usize = 0;
        while i < self.outputs.len()
            invariant
                i <= self.outputs.len(),
                self.wf(),
                forall|j: int| 0 <= j < i ==> (#[trigger] self.outputs[j]).name@ != name@,
            decreases self.outputs.len() - i,
        {
            if same_name(self.outputs[i].name.as_str(), name) {
                proof {
                    lemma_lookup(self.outputs@, i as int);
                }
                return Some(i);
            }
            i = i + 1;
        }
        None
    }

    /// Register an output. Active outputs are skipped: left undimmed.
    ///
    /// All outputs start transparent and at normal brightness; the fade-in
    /// animates them.
    pub fn add_output(&mut self, name: String, is_active: bool)
        requires
            old(self).wf(),
        ensures
            final(self).wf(),
            final(self)@ == old(self)@.added(name@, is_active),
    {
        if is_active {
            self.active = Some(name.clone());
        }
        let state = OutputDimState {
            alpha: Opacity::transparent(),
            brightness: Brightness::normal(),
            skipped: is_active,
        };
        match self.find(name.as_str()) {
            Some(i) => {
                let ghost before = self.outputs@;
                self.outputs[i].state = state;
                proof {
                    lemma_set_state(before, self.outputs@, i as int);
                }
            },
            None => {
                let ghost before = self.outputs@;
                let output = Output { name, state };
                proof {
                    lemma_push(before, output);
                }
                self.outputs.push(output);
            },
        }
        proof {
            lemma_dom(self.outputs@);
        }
        assert(self@ =~= old(self)@.added(name@, is_active));
    }

    /// Remove an output, for example when it is unplugged.
    pub fn remove_output(&mut self, name: &str)
        requires
            old(self).wf(),
        ensures
            final(self).wf(),
            final(self)@ == old(self)@.removed(name@),
    {
        match self.find(name) {
            Some(i) => {
                proof {
                    lemma_remove(self.outputs@, i as int);
                }
                let _gone = self.outputs.remove(i);
            },
            None => {
                assert(old(self)@.states.remove(name@) =~= old(self)@.states);
            },
        }
        if names::is_named(&self.active, name) {
            self.active = None;
        }
        let reveals = match &self.transition {
            Some(t) => same_name(t.revealing.as_str(), name),
            None => false,
        };
        if reveals {
            self.transition = None;
        }
        proof {
            lemma_dom(self.outputs@);
        }
        assert(self@ =~= old(self)@.removed(name@));
    }

    /// Get the current state of an output.
    pub fn get(&self, name: &str) -> (state: Option<&OutputDimState>)
        requires
            self.wf(),
        ensures
            match state {
                Some(s) => self@.states.dom().contains(name@) && s@ == self@.states[name@],
                None => !self@.states.dom().contains(name@),
            },
    {
        match self.find(name) {
            Some(i) => Some(&self.outputs[i].state),
            None => None,
        }
    }

    /// Check if an output is currently skipped.
    pub fn is_output_skipped(&self, name: &str) -> (skipped: bool)
        requires
            self.wf(),
        ensures
            skipped == (self@.states.dom().contains(name@) && self@.states[name@].skipped),
    {
        match self.find(name) {
            Some(i) => self.outputs[i].state.skipped,
            None => false,
        }
    }

    /// Get the name of the currently active output.
    pub fn active_output(&self) -> (name: Option<&str>)
        ensures
            names::opt_str_view(name) == self@.active,
    {
        names::opt_as_str(&self.active)
    }

    /// The update for the output at a place in the list.
    fn update_at(&self, i: usize) -> (update: OutputUpdate)
        requires
            self.wf(),
            i < self.outputs.len(),
        ensures
            update@ == self@.update(self.outputs[i as int].name@),
    {
        proof {
            lemma_lookup(self.outputs@, i as int);
        }
        let output = &self.outputs[i];
        OutputUpdate {
            name: output.name.clone(),
            opacity: output.state.alpha,
            brightness: output.state.brightness,
        }
    }

    /// The updates for all outputs.
    fn report(&self) -> (updates: DimUpdates)
        requires
            self.wf(),
        ensures
            updates@ == self@.all_updates(),
    {
        let mut updates: Vec<OutputUpdate> = Vec::new();
        let mut i: usize = 0;
        while i < self.outputs.len()
            invariant
                self.wf(),
                i <= self.outputs.len(),
                updates.len() == i,
                forall|j: int|
                    0 <= j < i ==> (#[trigger] updates[j])@ == self@.update(self.outputs[j].name@),
            decreases self.outputs.len() - i,
        {
            updates.push(self.update_at(i));
            i = i + 1;
        }
        let result = DimUpdates(updates);
        assert(result@ =~= self@.all_updates());
        result
    }

    /// Give every output a state: `shade`, except that with `spare_skipped` the
    /// skipped ones are undimmed.
    fn shade_all(&mut self, shade: OutputDimState, spare_skipped: bool)
        requires
            old(self).wf(),
            !shade.skipped,
        ensures
            final(self).wf(),
            spare_skipped ==> final(self)@ == old(self)@.with_each(DimView::shaded(shade@)),
            !spare_skipped ==> final(self)@ == old(self)@.with_each(|state: ShadeView| shade@),
    {
        let clear = OutputDimState {
            alpha: Opacity::transparent(),
            brightness: Brightness::normal(),
            skipped: true,
        };
        let ghost before = self.outputs@;
        let ghost change = if spare_skipped {
            DimView::shaded(shade@)
        } else {
            |state: ShadeView| shade@
        };
        let mut i: usize = 0;
        while i < self.outputs.len()
            invariant
                i <= self.outputs.len(),
                self.outputs.len() == before.len(),
                before == old(self).outputs@,
                clear@ == undimmed(),
                change == if spare_skipped {
                    DimView::shaded(shade@)
                } else {
                    |state: ShadeView| shade@
                },
                forall|j: int|
                    0 <= j < before.len() ==> (#[trigger] self.outputs[j]).name@
                        == before[j].name@,
                forall|j: int|
                    0 <= j < i ==> (#[trigger] self.outputs[j]).state@ == change(
                        before[j].state@,
                    ),
                forall|j: int|
                    i <= j < before.len() ==> (#[trigger] self.outputs[j]).state
                        == before[j].state,
                self.target_opacity == old(self).target_opacity,
                self.target_brightness == old(self).target_brightness,
                self.active == old(self).active,
                self.transition == old(self).transition,
            decreases self.outputs.len() - i,
        {
            if spare_skipped && self.outputs[i].state.skipped {
                self.outputs[i].state = clear;
            } else {
                self.outputs[i].state = shade;
            }
            i = i + 1;
        }
        proof {
            lemma_each(before, self.outputs@, change);
            lemma_dom(self.outputs@);
        }
    }

    /// The focus changed to another output. Dims the old one at once and
    /// starts the transition that reveals the new one.
    pub fn focus_changed(&mut self, new_active: Option<String>, now: Span) -> (updates: DimUpdates)
        requires
            old(self).wf(),
        ensures
            final(self).wf(),
            final(self)@ == old(self)@.focused(names::opt_view(new_active), now@),
            updates@ == old(self)@.focus_updates(names::opt_view(new_active)),
    {
        let ghost new_name = names::opt_view(new_active);
        let mut updates: Vec<OutputUpdate> = Vec::new();
        if names::same_opt_name(&self.active, &new_active) {
            assert(updates@.map_values(|update: OutputUpdate| update@) =~= Seq::empty());
            return DimUpdates(updates);
        }
        let dimmed = OutputDimState {
            alpha: self.target_opacity,
            brightness: self.target_brightness,
            skipped: false,
        };
        let old_active = names::clone_opt_name(&self.active);
        if let Some(name) = &old_active {
            if let Some(i) = self.find(name.as_str()) {
                let ghost before = self.outputs@;
                self.outputs[i].state = dimmed;
                proof {
                    lemma_set_state(before, self.outputs@, i as int);
                }
                updates.push(self.update_at(i));
            }
        }
        if let Some(name) = &new_active {
            if let Some(i) = self.find(name.as_str()) {
                let ghost before = self.outputs@;
                // The look stays as it is: the transition will animate it.
                let state = OutputDimState { skipped: true, ..self.outputs[i].state };
                self.outputs[i].state = state;
                proof {
                    lemma_set_state(before, self.outputs@, i as int);
                }
            }
            self.transition = Some(
                Transition {
                    start: now,
                    delay: Span::from_millis(FOCUS_DELAY_MILLIS),
                    duration: Span::from_millis(FOCUS_FADE_MILLIS),
                    revealing: name.clone(),
                },
            );
        }
        self.active = new_active;
        let result = DimUpdates(updates);
        proof {
            lemma_dom(self.outputs@);
        }
        assert(self@ =~= old(self)@.focused(new_name, now@));
        assert(result@ =~= old(self)@.focus_updates(new_name));
        result
    }

    /// Whether a transition is in progress.
    pub fn is_animating(&self) -> (animating: bool)
        ensures
            animating == self@.transition is Some,
    {
        self.transition.is_some()
    }

    /// Tick the cross-fade transition. Returns the updates to apply.
    pub fn tick(&mut self, now: Span) -> (updates: DimUpdates)
        requires
            old(self).wf(),
        ensures
            final(self).wf(),
            final(self)@ == old(self)@.ticked(now@),
            updates@ == old(self)@.tick_updates(now@),
    {
        let mut updates: Vec<OutputUpdate> = Vec::new();
        let mut finished = false;
        if let Some(transition) = &self.transition {
            let elapsed = now.since(transition.start);
            if !elapsed.is_less(transition.delay) {
                let fade_elapsed = elapsed.since(transition.delay);
                let t: u64 = fraction::progress(fade_elapsed, transition.duration);
                let eased: u64 = fraction::ease_out_quad(t);
                proof {
                    fraction::lemma_progress_bounds(fade_elapsed@, transition.duration@);
                }
                finished = t >= WHOLE;
                if let Some(i) = self.find(transition.revealing.as_str()) {
                    let state = OutputDimState {
                        alpha: self.target_opacity.scaled(WHOLE - eased),
                        brightness: self.target_brightness.recovering(eased),
                        skipped: self.outputs[i].state.skipped,
                    };
                    let ghost before = self.outputs@;
                    self.outputs[i].state = state;
                    proof {
                        lemma_set_state(before, self.outputs@, i as int);
                    }
                    updates.push(self.update_at(i));
                }
            }
        }
        if finished {
            self.transition = None;
        }
        let result = DimUpdates(updates);
        proof {
            lemma_dom(self.outputs@);
        }
        assert(self@ =~= old(self)@.ticked(now@));
        assert(result@ =~= old(self)@.tick_updates(now@));
        result
    }

    /// Compute a frame of the initial animation.
    ///
    /// Skipped outputs stay transparent; the others fade from transparent to
    /// the target opacity.
    pub fn fade_in_frame(&mut self, elapsed: Span, duration: Span) -> (updates: DimUpdates)
        requires
            old(self).wf(),
        ensures
            final(self).wf(),
            final(self)@ == old(self)@.faded_in(elapsed@, duration@),
            updates@ == final(self)@.all_updates(),
    {
        let t: u64 = fraction::progress(elapsed, duration);
        let eased: u64 = fraction::ease_out_quad(t);
        let shade = OutputDimState {
            alpha: self.target_opacity.scaled(eased),
            brightness: self.target_brightness.dimming(eased),
            skipped: false,
        };
        self.shade_all(shade, true);
        self.report()
    }

    /// Snap all outputs to their final look, without animation.
    pub fn snap_to_target(&mut self) -> (updates: DimUpdates)
        requires
            old(self).wf(),
        ensures
            final(self).wf(),
            final(self)@ == old(self)@.snapped(),
            updates@ == final(self)@.all_updates(),
    {
        let shade = OutputDimState {
            alpha: self.target_opacity,
            brightness: self.target_brightness,
            skipped: false,
        };
        self.shade_all(shade, true);
        self.report()
    }

    /// Get the update for a single output at its current state.
    pub fn current_update(&self, name: &str) -> (update: Option<OutputUpdate>)
        requires
            self.wf(),
        ensures
            match update {
                Some(u) => self@.states.dom().contains(name@) && u@ == self@.update(name@),
                None => !self@.states.dom().contains(name@),
            },
    {
        match self.find(name) {
            Some(i) => Some(self.update_at(i)),
            None => None,
        }
    }

    /// Cancel the current transition.
    pub fn cancel_transition(&mut self)
        requires
            old(self).wf(),
        ensures
            final(self).wf(),
            final(self)@ == (DimView { transition: None, ..old(self)@ }),
    {
        self.transition = None;
    }

    /// Reveal an output after a choreographed launch.
    ///
    /// Marks the output as the active (skipped) one and starts a transition
    /// that fades its overlay from the target opacity to transparent.
    pub fn reveal_output(&mut self, name: &str, now: Span)
        requires
            old(self).wf(),
        ensures
            final(self).wf(),
            final(self)@ == old(self)@.revealed(name@, now@),
    {
        self.active = Some(name.to_owned());
        if let Some(i) = self.find(name) {
            let ghost before = self.outputs@;
            let state = OutputDimState { skipped: true, ..self.outputs[i].state };
            self.outputs[i].state = state;
            proof {
                lemma_set_state(before, self.outputs@, i as int);
            }
        }
        self.transition = Some(
            Transition {
                start: now,
                delay: Span::from_millis(LAUNCH_DELAY_MILLIS),
                duration: Span::from_millis(LAUNCH_FADE_MILLIS),
                revealing: name.to_owned(),
            },
        );
        proof {
            lemma_dom(self.outputs@);
        }
        assert(self@ =~= old(self)@.revealed(name@, now@));
    }

    /// Snap all outputs to dimmed, the active one too. Used while a window
    /// moves, to prevent a flash.
    pub fn snap_all_to_dimmed(&mut self) -> (updates: DimUpdates)
        requires
            old(self).wf(),
        ensures
            final(self).wf(),
            final(self)@ == old(self)@.all_dimmed(),
            updates@ == final(self)@.all_updates(),
    {
        let shade = OutputDimState {
            alpha: self.target_opacity,
            brightness: self.target_brightness,
            skipped: false,
        };
        self.shade_all(shade, false);
        self.report()
    }
}

} // verus!
