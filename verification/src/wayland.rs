//! Protocol state and event handlers.
//!
//! The event loop hands over plain values: outputs and toplevels are known by
//! the keys that it gave them.
//!
//! # Focus tracking
//!
//! [`TrackedToplevel`] records per-window state: which output each toplevel is
//! on, and whether it has keyboard focus ([`ToplevelFocus`]).

use crate::app;
use crate::app::{App, AppPhase};
use crate::dim;
use crate::gamma::ByteOrder;
use crate::names;
use crate::render;
use crate::render::{Action, GammaState, Surface, SurfaceConfig, SurfaceKey, SurfaceRole};
use crate::seqs;
use crate::span::Span;
use crate::window::SpawnMode;
use vstd::prelude::*;
use wayland_protocols_wlr::foreign_toplevel::v1::client::zwlr_foreign_toplevel_handle_v1::State as WireState;

verus! {

/// Whether a toplevel has keyboard focus.
#[derive(Debug, Clone, Copy, PartialEq, Eq, Structural)]
pub enum ToplevelFocus {
    Active,
    Inactive,
}

/// A state that a toplevel can be in.
#[derive(Debug, Clone, Copy, PartialEq, Eq, Structural)]
pub enum ToplevelState {
    Maximized,
    Minimized,
    Activated,
    Fullscreen,
}

/// The state that a number on the wire stands for.
pub open spec fn wire_state(raw: u32) -> Option<ToplevelState> {
    if raw == 0 {
        Some(ToplevelState::Maximized)
    } else if raw == 1 {
        Some(ToplevelState::Minimized)
    } else if raw == 2 {
        Some(ToplevelState::Activated)
    } else if raw == 3 {
        Some(ToplevelState::Fullscreen)
    } else {
        None
    }
}

/// Calls `State::try_from` of the foreign-toplevel protocol. It knows the
/// numbers 0 to 3, for maximized, minimized, activated and fullscreen, and
/// refuses every other.
#[verifier::external_body]
fn toplevel_state(raw: u32) -> (state: Option<ToplevelState>)
    ensures
        state == wire_state(raw),
{
    match WireState::try_from(raw) {
        Ok(WireState::Maximized) => Some(ToplevelState::Maximized),
        Ok(WireState::Minimized) => Some(ToplevelState::Minimized),
        Ok(WireState::Activated) => Some(ToplevelState::Activated),
        Ok(WireState::Fullscreen) => Some(ToplevelState::Fullscreen),
        _ => None,
    }
}

/// The number that four bytes hold.
pub open spec fn word(b0: u8, b1: u8, b2: u8, b3: u8, order: ByteOrder) -> u32 {
    match order {
        ByteOrder::Little => (b0 + b1 * 0x100 + b2 * 0x1_0000 + b3 * 0x100_0000) as u32,
        ByteOrder::Big => (b3 + b2 * 0x100 + b1 * 0x1_0000 + b0 * 0x100_0000) as u32,
    }
}

/// The numbers that an array of bytes holds, four bytes each. Bytes left over
/// at the end count for nothing.
pub open spec fn words(raw: Seq<u8>, order: ByteOrder) -> Seq<u32> {
    Seq::new(
        raw.len() / 4,
        |i: int| word(raw[4 * i], raw[4 * i + 1], raw[4 * i + 2], raw[4 * i + 3], order),
    )
}

/// The known states among some numbers, in order.
pub open spec fn known_states(numbers: Seq<u32>) -> Seq<ToplevelState> {
    numbers.filter_map(|number: u32| wire_state(number))
}

/// The numbers in an array of bytes.
pub fn decode_words(raw: &Vec<u8>, order: ByteOrder) -> (numbers: Vec<u32>)
    ensures
        numbers@ == words(raw@, order),
{
    let mut numbers: Vec<u32> = Vec::new();
    let count: usize = raw.len() / 4;
    let mut i: usize = 0;
    while i < count
        invariant
            i <= count,
            count == raw.len() / 4,
            numbers@ =~= words(raw@, order).take(i as int),
        decreases count - i,
    {
        let b0: u32 = raw[4 * i] as u32;
        let b1: u32 = raw[4 * i + 1] as u32;
        let b2: u32 = raw[4 * i + 2] as u32;
        let b3: u32 = raw[4 * i + 3] as u32;
        let number: u32 = match order {
            ByteOrder::Little => b0 + b1 * 0x100 + b2 * 0x1_0000 + b3 * 0x100_0000,
            ByteOrder::Big => b3 + b2 * 0x100 + b1 * 0x1_0000 + b0 * 0x100_0000,
        };
        numbers.push(number);
        i = i + 1;
    }
    assert(words(raw@, order).take(count as int) =~= words(raw@, order));
    numbers
}

/// The states in the array of a state event.
pub fn decode_states(raw: &Vec<u8>, order: ByteOrder) -> (states: Vec<ToplevelState>)
    ensures
        states@ == known_states(words(raw@, order)),
{
    let numbers = decode_words(raw, order);
    let mut states: Vec<ToplevelState> = Vec::new();
    let mut i: usize = 0;
    while i < numbers.len()
        invariant
            i <= numbers.len(),
            states@ == known_states(numbers@.take(i as int)),
        decreases numbers.len() - i,
    {
        proof {
            numbers@.lemma_filter_map_take_succ(|number: u32| wire_state(number), i as int);
        }
        if let Some(state) = toplevel_state(numbers[i]) {
            states.push(state);
        }
        i = i + 1;
    }
    assert(numbers@.take(i as int) =~= numbers@);
    states
}

/// Tracked toplevel for focus detection.
#[derive(Debug)]
pub struct TrackedToplevel {
    pub handle: u32,
    pub output: Option<u32>,
    pub focus: ToplevelFocus,
    pub states: Vec<ToplevelState>,
}

/// A tracked toplevel, with its states as a sequence.
#[verifier::ext_equal]
pub struct ToplevelView {
    pub handle: u32,
    pub output: Option<u32>,
    pub focus: ToplevelFocus,
    pub states: Seq<ToplevelState>,
}

impl View for TrackedToplevel {
    type V = ToplevelView;

    open spec fn view(&self) -> ToplevelView {
        ToplevelView {
            handle: self.handle,
            output: self.output,
            focus: self.focus,
            states: self.states@,
        }
    }
}

impl ToplevelView {
    /// A toplevel of which nothing but its handle is known.
    pub open spec fn fresh(handle: u32) -> ToplevelView {
        ToplevelView {
            handle,
            output: None,
            focus: ToplevelFocus::Inactive,
            states: Seq::empty(),
        }
    }

    /// The output it is focused on.
    pub open spec fn active_output(self) -> Option<u32> {
        match self.focus {
            ToplevelFocus::Active => self.output,
            ToplevelFocus::Inactive => None,
        }
    }

    /// After a state event.
    pub open spec fn with_states(self, states: Seq<ToplevelState>) -> ToplevelView {
        ToplevelView {
            states,
            focus: if states.contains(ToplevelState::Activated) {
                ToplevelFocus::Active
            } else {
                ToplevelFocus::Inactive
            },
            ..self
        }
    }

    /// After it has left an output. Where it is on another one by now, it stays
    /// there.
    pub open spec fn having_left(self, left: u32) -> ToplevelView {
        ToplevelView {
            output: if self.output == Some(left) {
                None
            } else {
                self.output
            },
            ..self
        }
    }

    /// Whether it has the focus and is on an output other than `new_output`.
    pub open spec fn moving_to(self, new_output: u32) -> bool {
        self.focus == ToplevelFocus::Active && match self.output {
            Some(output) => output != new_output,
            None => false,
        }
    }
}

impl TrackedToplevel {
    /// A toplevel of which nothing but its handle is known.
    pub fn new(handle: u32) -> (toplevel: TrackedToplevel)
        ensures
            toplevel@ == ToplevelView::fresh(handle),
    {
        let toplevel = TrackedToplevel {
            handle,
            output: None,
            focus: ToplevelFocus::Inactive,
            states: Vec::new(),
        };
        assert(toplevel@ =~= ToplevelView::fresh(handle));
        toplevel
    }

    /// The key of its handle.
    pub fn handle_id(&self) -> (handle: u32)
        ensures
            handle == self@.handle,
    {
        self.handle
    }

    /// The output this toplevel is focused on, if any.
    pub fn active_output(&self) -> (output: Option<u32>)
        ensures
            output == self@.active_output(),
    {
        match self.focus {
            ToplevelFocus::Active => self.output,
            ToplevelFocus::Inactive => None,
        }
    }

    /// The output this toplevel is currently on, regardless of focus.
    pub fn output(&self) -> (output: Option<u32>)
        ensures
            output == self@.output,
    {
        self.output
    }

    /// Whether it has keyboard focus.
    pub fn is_focused(&self) -> (focused: bool)
        ensures
            focused == (self@.focus == ToplevelFocus::Active),
    {
        self.focus == ToplevelFocus::Active
    }

    /// Whether this toplevel has the given state.
    pub fn has_state(&self, state: ToplevelState) -> (found: bool)
        ensures
            found == self@.states.contains(state),
    {
        let mut i: usize = 0;
        while i < self.states.len()
            invariant
                i <= self.states.len(),
                forall|j: int| 0 <= j < i ==> self.states[j] != state,
            decreases self.states.len() - i,
        {
            if self.states[i] == state {
                return true;
            }
            i = i + 1;
        }
        false
    }

    /// It appeared on an output.
    pub fn enter_output(&mut self, output: u32)
        ensures
            final(self)@ == (ToplevelView { output: Some(output), ..old(self)@ }),
    {
        self.output = Some(output);
    }

    /// It left its output.
    pub fn leave_output(&mut self)
        ensures
            final(self)@ == (ToplevelView { output: None, ..old(self)@ }),
    {
        self.output = None;
    }

    /// It gained or lost the focus.
    pub fn update_focus(&mut self, focus: ToplevelFocus)
        ensures
            final(self)@ == (ToplevelView { focus, ..old(self)@ }),
    {
        self.focus = focus;
    }

    /// Its states changed.
    pub fn update_states(&mut self, states: Vec<ToplevelState>)
        ensures
            final(self)@ == (ToplevelView { states: states@, ..old(self)@ }),
    {
        self.states = states;
    }

    /// Whether it has the focus and is on an output other than `new_output`.
    pub fn is_moving_to_different_output(&self, new_output: u32) -> (moving: bool)
        ensures
            moving == self@.moving_to(new_output),
    {
        self.is_focused() && match self.output {
            Some(output) => output != new_output,
            None => false,
        }
    }
}

/// The handles of some toplevels, in order.
pub open spec fn handles(tops: Seq<ToplevelView>) -> Seq<u32> {
    tops.map_values(|top: ToplevelView| top.handle)
}

/// What is known of a toplevel: nothing, where it is not tracked yet.
pub open spec fn lookup(tops: Seq<ToplevelView>, handle: u32) -> ToplevelView {
    if handles(tops).contains(handle) {
        tops[handles(tops).index_of(handle)]
    } else {
        ToplevelView::fresh(handle)
    }
}

/// The toplevels after what is known of one has changed.
pub open spec fn stored(tops: Seq<ToplevelView>, top: ToplevelView) -> Seq<ToplevelView> {
    if handles(tops).contains(top.handle) {
        tops.update(handles(tops).index_of(top.handle), top)
    } else {
        tops.push(top)
    }
}

/// An output and its name, where the compositor has told it.
#[derive(Debug)]
pub struct OutputInfo {
    pub id: u32,
    pub name: Option<String>,
}

/// What the compositor offers.
#[derive(Debug)]
pub struct Wayland {
    /// The outputs, in the order in which they came up.
    pub outputs: Vec<OutputInfo>,
    pub viewporter: bool,
    pub alpha_modifier: bool,
    pub gamma_manager: bool,
    pub toplevel_manager: bool,
}

/// The name of an output among some: that of the first entry with its key.
pub open spec fn name_of(outputs: Seq<OutputInfo>, id: u32) -> Option<Seq<char>> {
    match seqs::first(outputs, |output: OutputInfo| output.id == id) {
        Some(output) => names::opt_view(output.name),
        None => None,
    }
}

impl Wayland {
    /// Whether the compositor can scale buffers.
    pub fn has_viewporter(&self) -> (has: bool)
        ensures
            has == self.viewporter,
    {
        self.viewporter
    }

    /// The name of an output, where it is known.
    pub fn output_name(&self, id: u32) -> (name: Option<String>)
        ensures
            names::opt_view(name) == name_of(self.outputs@, id),
    {
        name_among(&self.outputs, id)
    }
}

/// The name of an output among some: that of the first entry with its key.
pub fn name_among(outputs: &Vec<OutputInfo>, id: u32) -> (name: Option<String>)
    ensures
        names::opt_view(name) == name_of(outputs@, id),
{
    let ghost wanted = |output: OutputInfo| output.id == id;
    let mut i: usize = 0;
    while i < outputs.len()
        invariant
            i <= outputs.len(),
            wanted == (|output: OutputInfo| output.id == id),
            forall|j: int| 0 <= j < i ==> !wanted(#[trigger] outputs@[j]),
        decreases outputs.len() - i,
    {
        if outputs[i].id == id {
            proof {
                seqs::lemma_first_at(outputs@, wanted, i as int);
            }
            return names::clone_opt_name(&outputs[i].name);
        }
        i = i + 1;
    }
    proof {
        seqs::lemma_none_fits(outputs@, wanted, i as int);
    }
    None
}

/// What the compositor tells of a toplevel.
#[derive(Debug)]
pub enum ToplevelEvent {
    /// It appeared on an output.
    OutputEnter { output: u32 },
    /// It left an output.
    OutputLeave { output: u32 },
    /// Its states, as an array of numbers.
    State { raw: Vec<u8> },
    /// All that was told since the last such event holds together.
    Done,
    /// Its window closed.
    Closed,
}

/// What the compositor tells of a gamma control.
#[derive(Debug, Clone, Copy, PartialEq, Eq, Structural)]
pub enum GammaEvent {
    /// The number of entries per channel.
    GammaSize { size: u32 },
    /// Another client has the control, or the output is gone.
    Failed,
}

/// A surface after an event of a gamma control. It concerns the surface that
/// holds that control, and no other.
pub open spec fn gamma_told(control: u32, event: GammaEvent) -> spec_fn(Surface) -> Surface {
    |surface: Surface|
        if surface.gamma.held() == Some(control) {
            Surface {
                gamma: match event {
                    GammaEvent::GammaSize { size } => surface.gamma.sized(size),
                    GammaEvent::Failed => GammaState::Unavailable,
                },
                ..surface
            }
        } else {
            surface
        }
}

/// Hand an event of a gamma control to the surface that holds it.
pub fn tell_gamma(surfaces: &mut Vec<Surface>, control: u32, event: GammaEvent)
    ensures
        final(surfaces)@ == old(surfaces)@.map_values(gamma_told(control, event)),
{
    let ghost before = surfaces@;
    let ghost told = gamma_told(control, event);
    let mut i: usize = 0;
    while i < surfaces.len()
        invariant
            i <= surfaces.len(),
            surfaces.len() == before.len(),
            told == gamma_told(control, event),
            forall|j: int| 0 <= j < i ==> #[trigger] surfaces@[j] == told(before[j]),
            forall|j: int| i <= j < before.len() ==> #[trigger] surfaces@[j] == before[j],
        decreases surfaces.len() - i,
    {
        if surfaces[i].gamma.control() == Some(control) {
            let mut gamma = surfaces[i].gamma;
            match event {
                GammaEvent::GammaSize { size } => gamma.receive_size(size),
                GammaEvent::Failed => gamma.fail(),
            }
            surfaces[i].gamma = gamma;
        }
        i = i + 1;
    }
    assert(surfaces@ =~= before.map_values(told));
}

impl App {
    /// Painting a surface that has just been told its size: nothing during the
    /// fade-in, whose frames paint both layers. After that, a backdrop is painted
    /// at the target opacity, and an overlay as the present state of its output
    /// says.
    pub open spec fn initial_draw(self, surface: Surface) -> Seq<Action> {
        if self.phase == AppPhase::FadingIn {
            Seq::empty()
        } else if surface.role == SurfaceRole::Backdrop {
            app::painting(
                render::painted(
                    surface,
                    self.config.color,
                    render::floor_alpha(self.config.target_opacity@) as u8,
                    self.wl.viewporter,
                ),
            )
        } else {
            match names::opt_view(surface.output_name) {
                Some(name) => if self.dim@.states.dom().contains(name) {
                    self.overlay_actions(self.dim@.update(name))
                } else {
                    Seq::empty()
                },
                None => Seq::empty(),
            }
        }
    }

    /// The compositor told the size of a surface.
    pub fn configure(&mut self, key: SurfaceKey, width: u32, height: u32) -> (actions: Vec<Action>)
        requires
            old(self).wf(),
        ensures
            final(self).wf(),
            match app::keys(old(self).surfaces@).index_of_first(key) {
                Some(i) => {
                    let sized = Surface {
                        config: SurfaceConfig::Ready { width, height },
                        ..old(self).surfaces@[i]
                    };
                    final(self).surfaces@ == old(self).surfaces@.update(i, sized) && actions@
                        == final(self).initial_draw(sized)
                },
                None => *final(self) == *old(self) && actions@ == Seq::<Action>::empty(),
            },
            *final(self) == (App { surfaces: final(self).surfaces, ..*old(self) }),
    {
        if let Some(i) = app::find_surface(&self.surfaces, key) {
            self.surfaces[i].config = SurfaceConfig::Ready { width, height };
            if self.phase == AppPhase::FadingIn {
                return Vec::new();
            }
            if self.surfaces[i].is_backdrop() {
                let mut actions: Vec<Action> = Vec::new();
                if let Some(paint) = self.surfaces[i].draw(
                    self.config.color,
                    self.config.target_opacity,
                    self.wl.has_viewporter(),
                ) {
                    actions.push(Action::Paint(paint));
                }
                return actions;
            }
            let name = names::clone_opt_name(&self.surfaces[i].output_name);
            if let Some(known) = &name {
                if let Some(update) = self.dim.current_update(known.as_str()) {
                    return self.apply_output_update(
                        known.as_str(),
                        update.opacity,
                        update.brightness,
                    );
                }
            }
        }
        Vec::new()
    }

    /// The compositor told something of a gamma control.
    pub fn gamma_event(&mut self, control: u32, event: GammaEvent)
        ensures
            final(self).surfaces@ == old(self).surfaces@.map_values(gamma_told(control, event)),
            *final(self) == (App { surfaces: final(self).surfaces, ..*old(self) }),
    {
        tell_gamma(&mut self.surfaces, control, event);
    }

    /// The compositor stopped telling of toplevels.
    pub fn toplevel_manager_finished(&mut self)
        ensures
            *final(self) == (App {
                wl: Wayland { toplevel_manager: false, ..old(self).wl },
                ..*old(self)
            }),
    {
        self.wl.toplevel_manager = false;
    }

    /// The dimming state once a focused window has started to move: all outputs
    /// are dimmed, and nothing fades.
    pub open spec fn moving_dim(self, moving: bool) -> dim::DimView {
        if moving {
            dim::DimView { transition: None, ..self.dim@.all_dimmed() }
        } else {
            self.dim@
        }
    }

    /// Painting all overlays when a focused window has started to move.
    pub open spec fn moving_actions(self, moving: bool) -> Seq<Action> {
        if moving {
            self.overlays_actions(self.dim@.all_dimmed().all_updates())
        } else {
            Seq::empty()
        }
    }

    /// Snap all overlays opaque where a focused window has started to move.
    fn snap_if_moving(&mut self, moving: bool) -> (actions: Vec<Action>)
        requires
            old(self).wf(),
        ensures
            final(self).wf(),
            final(self).dim@ == old(self).moving_dim(moving),
            actions@ == old(self).moving_actions(moving),
            *final(self) == (App { dim: final(self).dim, ..*old(self) }),
    {
        if moving {
            let actions = self.dim_all_outputs();
            self.dim.cancel_transition();
            actions
        } else {
            Vec::new()
        }
    }

    /// A toplevel appeared on an output.
    pub fn toplevel_entered(&mut self, handle: u32, output: u32) -> (actions: Vec<Action>)
        requires
            old(self).wf(),
        ensures
            final(self).wf(),
            final(self).dim@ == old(self).moving_dim(
                lookup(old(self).tops(), handle).moving_to(output),
            ),
            final(self).tops() == stored(
                old(self).tops(),
                ToplevelView { output: Some(output), ..lookup(old(self).tops(), handle) },
            ),
            actions@ == old(self).moving_actions(
                lookup(old(self).tops(), handle).moving_to(output),
            ),
            *final(self) == (App {
                dim: final(self).dim,
                toplevels: final(self).toplevels,
                ..*old(self)
            }),
    {
        let moving = match self.find_toplevel(handle) {
            Some(toplevel) => toplevel.is_moving_to_different_output(output),
            None => false,
        };
        let actions = self.snap_if_moving(moving);
        self.find_or_insert_toplevel(handle).enter_output(output);
        actions
    }

    /// A toplevel left its output.
    pub fn toplevel_left(&mut self, handle: u32) -> (actions: Vec<Action>)
        requires
            old(self).wf(),
        ensures
            final(self).wf(),
            final(self).dim@ == old(self).moving_dim(
                lookup(old(self).tops(), handle).focus == ToplevelFocus::Active,
            ),
            final(self).tops() == stored(
                old(self).tops(),
                ToplevelView { output: None, ..lookup(old(self).tops(), handle) },
            ),
            actions@ == old(self).moving_actions(
                lookup(old(self).tops(), handle).focus == ToplevelFocus::Active,
            ),
            *final(self) == (App {
                dim: final(self).dim,
                toplevels: final(self).toplevels,
                ..*old(self)
            }),
    {
        let moving = match self.find_toplevel(handle) {
            Some(toplevel) => toplevel.is_focused(),
            None => false,
        };
        let actions = self.snap_if_moving(moving);
        self.find_or_insert_toplevel(handle).leave_output();
        actions
    }

    /// Whether a toplevel is on an output other than `output`.
    fn is_tracked_elsewhere(&self, handle: u32, output: u32) -> (elsewhere: bool)
        requires
            self.wf(),
        ensures
            elsewhere == (lookup(self.tops(), handle).output matches Some(current) && current
                != output),
            elsewhere ==> handles(self.tops()).contains(handle),
    {
        match self.find_toplevel(handle) {
            Some(toplevel) => match toplevel.output() {
                Some(current) => current != output,
                None => false,
            },
            None => false,
        }
    }

    /// A toplevel left an output, and is on another one by now.
    fn toplevel_left_behind(&mut self, handle: u32) -> (actions: Vec<Action>)
        requires
            old(self).wf(),
            handles(old(self).tops()).contains(handle),
        ensures
            final(self).wf(),
            final(self).dim@ == old(self).moving_dim(
                lookup(old(self).tops(), handle).focus == ToplevelFocus::Active,
            ),
            final(self).tops() == stored(old(self).tops(), lookup(old(self).tops(), handle)),
            actions@ == old(self).moving_actions(
                lookup(old(self).tops(), handle).focus == ToplevelFocus::Active,
            ),
            *final(self) == (App { dim: final(self).dim, ..*old(self) }),
    {
        let moving = match self.find_toplevel(handle) {
            Some(toplevel) => toplevel.is_focused(),
            None => false,
        };
        proof {
            let tops = self.tops();
            let i = handles(tops).index_of(handle);
            assert(handles(tops)[i] == handle);
            assert(stored(tops, lookup(tops, handle)) =~= tops);
        }
        self.snap_if_moving(moving)
    }

    /// The states of a toplevel changed: with them, whether it has the focus.
    pub fn toplevel_changed(&mut self, handle: u32, states: Vec<ToplevelState>)
        requires
            old(self).wf(),
        ensures
            final(self).wf(),
            final(self).tops() == stored(
                old(self).tops(),
                lookup(old(self).tops(), handle).with_states(states@),
            ),
            *final(self) == (App { toplevels: final(self).toplevels, ..*old(self) }),
    {
        let toplevel = self.find_or_insert_toplevel(handle);
        toplevel.update_states(states);
        let focus = if toplevel.has_state(ToplevelState::Activated) {
            ToplevelFocus::Active
        } else {
            ToplevelFocus::Inactive
        };
        toplevel.update_focus(focus);
    }

    /// Whether the focus is followed: not while a choreographed launch is
    /// still fading in all outputs.
    pub open spec fn follows_focus(self) -> bool {
        !(self.config.spawn_mode == SpawnMode::SpawnWith && self.phase == AppPhase::FadingIn)
    }

    /// What was told of a toplevel holds together: look for the launched window,
    /// or see whether the focus has moved.
    pub fn toplevel_done(&mut self, now: Span) -> (actions: Vec<Action>)
        requires
            old(self).wf(),
        ensures
            final(self).wf(),
            old(self).phase == AppPhase::WaitingForReveal ==> {
                &&& final(self).dim@ == old(self).after_reveal(old(self).launch_place(), now@)
                &&& final(self).phase == if old(self).launch_place() is Some {
                    AppPhase::Running
                } else {
                    AppPhase::WaitingForReveal
                }
                &&& actions@ == Seq::<Action>::empty()
            },
            old(self).phase != AppPhase::WaitingForReveal ==> {
                &&& final(self).phase == old(self).phase
                &&& final(self).dim@ == if old(self).follows_focus() {
                    old(self).dim@.focused(old(self).focused_name(), now@)
                } else {
                    old(self).dim@
                }
                &&& actions@ == if old(self).follows_focus() {
                    old(self).overlays_actions(
                        old(self).dim@.focus_updates(old(self).focused_name()),
                    )
                } else {
                    Seq::empty()
                }
            },
            *final(self) == (App {
                dim: final(self).dim,
                phase: final(self).phase,
                ..*old(self)
            }),
    {
        if self.phase == AppPhase::WaitingForReveal {
            self.check_reveal(now);
            Vec::new()
        } else if self.config.spawn_mode == SpawnMode::SpawnWith && self.phase
            == AppPhase::FadingIn {
            Vec::new()
        } else {
            self.refresh_active_output(now)
        }
    }
}

impl App {
    /// The toplevels after an event.
    pub open spec fn event_tops(
        self,
        handle: u32,
        event: ToplevelEvent,
        order: ByteOrder,
    ) -> Seq<ToplevelView> {
        let top = lookup(self.tops(), handle);
        match event {
            ToplevelEvent::OutputEnter { output } => stored(
                self.tops(),
                ToplevelView { output: Some(output), ..top },
            ),
            ToplevelEvent::OutputLeave { output } => stored(self.tops(), top.having_left(output)),
            ToplevelEvent::State { raw } => stored(
                self.tops(),
                top.with_states(known_states(words(raw@, order))),
            ),
            ToplevelEvent::Done => self.tops(),
            ToplevelEvent::Closed => self.tops().filter(|t: ToplevelView| t.handle != handle),
        }
    }

    /// The dimming state after an event.
    pub open spec fn event_dim(
        self,
        handle: u32,
        event: ToplevelEvent,
        now: nat,
    ) -> dim::DimView {
        let top = lookup(self.tops(), handle);
        match event {
            ToplevelEvent::OutputEnter { output } => self.moving_dim(top.moving_to(output)),
            ToplevelEvent::OutputLeave { output: _ } => self.moving_dim(
                top.focus == ToplevelFocus::Active,
            ),
            ToplevelEvent::Done => if self.phase == AppPhase::WaitingForReveal {
                self.after_reveal(self.launch_place(), now)
            } else if self.follows_focus() {
                self.dim@.focused(self.focused_name(), now)
            } else {
                self.dim@
            },
            _ => self.dim@,
        }
    }

    /// The phase after an event.
    pub open spec fn event_phase(self, event: ToplevelEvent) -> AppPhase {
        if event is Done && self.phase == AppPhase::WaitingForReveal && self.launch_place()
            is Some {
            AppPhase::Running
        } else {
            self.phase
        }
    }

    /// What an event calls for.
    pub open spec fn event_actions(self, handle: u32, event: ToplevelEvent) -> Seq<Action> {
        let top = lookup(self.tops(), handle);
        match event {
            ToplevelEvent::OutputEnter { output } => self.moving_actions(top.moving_to(output)),
            ToplevelEvent::OutputLeave { output: _ } => self.moving_actions(
                top.focus == ToplevelFocus::Active,
            ),
            ToplevelEvent::Done => if self.phase != AppPhase::WaitingForReveal
                && self.follows_focus() {
                self.overlays_actions(self.dim@.focus_updates(self.focused_name()))
            } else {
                Seq::empty()
            },
            _ => Seq::empty(),
        }
    }

    /// The compositor told something of a toplevel.
    pub fn event(
        &mut self,
        handle: u32,
        event: ToplevelEvent,
        now: Span,
        order: ByteOrder,
    ) -> (actions: Vec<Action>)
        requires
            old(self).wf(),
        ensures
            final(self).wf(),
            final(self).tops() == old(self).event_tops(handle, event, order),
            final(self).dim@ == old(self).event_dim(handle, event, now@),
            final(self).phase == old(self).event_phase(event),
            actions@ == old(self).event_actions(handle, event),
            *final(self) == (App {
                toplevels: final(self).toplevels,
                dim: final(self).dim,
                phase: final(self).phase,
                ..*old(self)
            }),
    {
        match event {
            ToplevelEvent::OutputEnter { output } => self.toplevel_entered(handle, output),
            ToplevelEvent::OutputLeave { output } => {
                if self.is_tracked_elsewhere(handle, output) {
                    self.toplevel_left_behind(handle)
                } else {
                    self.toplevel_left(handle)
                }
            },
            ToplevelEvent::State { raw } => {
                let states = decode_states(&raw, order);
                self.toplevel_changed(handle, states);
                Vec::new()
            },
            ToplevelEvent::Done => self.toplevel_done(now),
            ToplevelEvent::Closed => {
                self.remove_toplevel(handle);
                Vec::new()
            },
        }
    }
}

/// Whether the active output changed, and if so from which to which.
pub fn detect_output_change(
    old_active: Option<&str>,
    new_active: Option<&str>,
) -> (change: Option<(Option<String>, Option<String>)>)
    ensures
        match change {
            Some((before, after)) => names::opt_str_view(old_active) != names::opt_str_view(
                new_active,
            ) && names::opt_view(before) == names::opt_str_view(old_active) && names::opt_view(
                after,
            ) == names::opt_str_view(new_active),
            None => names::opt_str_view(old_active) == names::opt_str_view(new_active),
        },
{
    let before = match old_active {
        Some(name) => Some(name.to_owned()),
        None => None,
    };
    let after = match new_active {
        Some(name) => Some(name.to_owned()),
        None => None,
    };
    if names::same_opt_name(&before, &after) {
        None
    } else {
        Some((before, after))
    }
}

} // verus!
