//! Application coordinator.
//!
//! [`App`] is the bridge between protocol events and dimming. It owns what the
//! compositor offers ([`Wayland`]), the dimming state ([`DimController`]), the
//! surfaces of all outputs and the tracked toplevels.
//!
//! # Lifecycle
//!
//! [`AppPhase`] tracks the event loop:
//!
//! - **`FadingIn`**: initial animation. Backdrops and overlays go from
//!   transparent to target together.
//! - **`WaitingForReveal`**: everything is dimmed until a launched window shows.
//! - **`Running`**: steady state. Only overlays take part in focus transitions;
//!   backdrops stay at the target opacity as a safety net.
//! - **`ShuttingDown`**: cleanup.
//!
//! # Update flow
//!
//! State changes go through [`DimController`], which returns [`DimUpdates`].
//! [`App::apply_updates`] (overlays only) and [`App::apply_updates_all_layers`]
//! (both layers, for the fade-in) turn them into actions.

use crate::dim;
use crate::dim::{DimController, DimUpdates};
use crate::names;
use crate::render;
use crate::render::{
    Action, Brightness, Color, GammaState, Opacity, Paint, Surface, SurfaceConfig, SurfaceKey,
    SurfaceRole,
};
use crate::seqs;
use crate::span::Span;
use crate::wayland;
use crate::wayland::{OutputInfo, TrackedToplevel, Wayland};
use crate::window::Config;
use vstd::prelude::*;

verus! {

/// Which phase of the event loop we're in.
#[derive(Debug, Clone, Copy, PartialEq, Eq, Structural)]
pub enum AppPhase {
    /// Initial fade-in animation.
    FadingIn,
    /// All dimmed, waiting for the window of a choreographed launch.
    WaitingForReveal,
    /// Steady state: overlays are up, handling focus transitions.
    Running,
    /// Shutting down.
    ShuttingDown,
}

/// The main application state.
#[derive(Debug)]
pub struct App {
    /// What the compositor offers.
    pub wl: Wayland,
    /// Configuration.
    pub config: Config,
    /// Managed surfaces.
    pub surfaces: Vec<Surface>,
    /// Tracked toplevels for focus detection.
    pub toplevels: Vec<TrackedToplevel>,
    /// Current loop phase.
    pub phase: AppPhase,
    /// Dimming state machine.
    pub dim: DimController,
    /// Handles of the toplevels that were there before a launch.
    pub launched_over: Vec<u32>,
}

/// An action or none, as a sequence.
pub open spec fn optional(action: Option<Action>) -> Seq<Action> {
    match action {
        Some(a) => seq![a],
        None => Seq::empty(),
    }
}

/// Painting or not, as a sequence.
pub open spec fn painting(paint: Option<Paint>) -> Seq<Action> {
    match paint {
        Some(p) => seq![Action::Paint(p)],
        None => Seq::empty(),
    }
}

/// What brings a surface to an opacity and its output to a brightness.
pub open spec fn shown(
    surface: Surface,
    opacity: int,
    brightness: int,
    color: Color,
    has_viewporter: bool,
) -> Seq<Action> {
    painting(
        render::painted(surface, color, render::floor_alpha(opacity) as u8, has_viewporter),
    ) + optional(render::gamma_of(surface, Brightness::of(brightness)))
}

/// Whether a surface is on the output of that name.
pub open spec fn is_on(surface: Surface, name: Seq<char>) -> bool {
    names::opt_view(surface.output_name) == Some(name)
}

/// Whether a surface is the overlay of the output of that name.
pub open spec fn is_overlay_of(surface: Surface, name: Seq<char>) -> bool {
    is_on(surface, name) && surface.role == SurfaceRole::Overlay
}

/// Append what shows a surface.
fn show(
    actions: &mut Vec<Action>,
    surface: &Surface,
    opacity: Opacity,
    brightness: Brightness,
    color: Color,
    has_viewporter: bool,
)
    ensures
        final(actions)@ == old(actions)@ + shown(
            *surface,
            opacity@,
            brightness@,
            color,
            has_viewporter,
        ),
{
    proof {
        render::lemma_brightness_of(brightness, 0);
    }
    if let Some(paint) = surface.draw(color, opacity, has_viewporter) {
        actions.push(Action::Paint(paint));
    }
    if let Some(gamma) = render::update_gamma(surface, brightness) {
        actions.push(gamma);
    }
    assert(actions@ =~= old(actions)@ + shown(
        *surface,
        opacity@,
        brightness@,
        color,
        has_viewporter,
    ));
}

impl App {
    /// What applying an update to the overlay of its output takes.
    pub open spec fn overlay_actions(self, update: dim::UpdateView) -> Seq<Action> {
        match seqs::first(
            self.surfaces@,
            |surface: Surface| is_overlay_of(surface, update.name),
        ) {
            Some(surface) => shown(
                surface,
                update.opacity,
                update.brightness,
                self.config.color,
                self.wl.viewporter,
            ),
            None => Seq::empty(),
        }
    }

    /// What applying updates to overlays takes.
    pub open spec fn overlays_actions(self, updates: Seq<dim::UpdateView>) -> Seq<Action> {
        updates.flat_map(|update: dim::UpdateView| self.overlay_actions(update))
    }

    /// What applying an update to both layers of its output takes: nothing
    /// where the output is skipped.
    pub open spec fn layers_actions(self, update: dim::UpdateView) -> Seq<Action> {
        if self.dim@.states.dom().contains(update.name) && self.dim@.states[update.name].skipped {
            Seq::empty()
        } else {
            self.surfaces@.flat_map(
                |surface: Surface|
                    if is_on(surface, update.name) {
                        shown(
                            surface,
                            update.opacity,
                            update.brightness,
                            self.config.color,
                            self.wl.viewporter,
                        )
                    } else {
                        Seq::empty()
                    },
            )
        }
    }

    /// What applying updates to both layers takes.
    pub open spec fn all_layers_actions(self, updates: Seq<dim::UpdateView>) -> Seq<Action> {
        updates.flat_map(|update: dim::UpdateView| self.layers_actions(update))
    }

    /// What bringing all backdrops to the target opacity takes.
    pub open spec fn backdrop_actions(self) -> Seq<Action> {
        self.surfaces@.flat_map(
            |surface: Surface|
                if surface.role == SurfaceRole::Backdrop {
                    painting(
                        render::painted(
                            surface,
                            self.config.color,
                            render::floor_alpha(self.config.target_opacity@) as u8,
                            self.wl.viewporter,
                        ),
                    )
                } else {
                    Seq::empty()
                },
        )
    }

    /// Apply a single output update to its overlay surface.
    pub fn apply_output_update(
        &self,
        name: &str,
        opacity: Opacity,
        brightness: Brightness,
    ) -> (actions: Vec<Action>)
        ensures
            actions@ == self.overlay_actions(
                dim::UpdateView { name: name@, opacity: opacity@, brightness: brightness@ },
            ),
    {
        let mut actions: Vec<Action> = Vec::new();
        let ghost wanted = |surface: Surface| is_overlay_of(surface, name@);
        let mut i: usize = 0;
        while i < self.surfaces.len()
            invariant
                i <= self.surfaces.len(),
                actions@ == Seq::<Action>::empty(),
                wanted == (|surface: Surface| is_overlay_of(surface, name@)),
                forall|j: int| 0 <= j < i ==> !wanted(#[trigger] self.surfaces@[j]),
            decreases self.surfaces.len() - i,
        {
            let surface = &self.surfaces[i];
            if names::is_named(&surface.output_name, name) && !surface.is_backdrop() {
                proof {
                    seqs::lemma_first_at(self.surfaces@, wanted, i as int);
                }
                show(
                    &mut actions,
                    surface,
                    opacity,
                    brightness,
                    self.config.color,
                    self.wl.has_viewporter(),
                );
                assert(Seq::<Action>::empty() + actions@ =~= actions@);
                return actions;
            }
            i = i + 1;
        }
        proof {
            seqs::lemma_none_fits(self.surfaces@, wanted, i as int);
        }
        actions
    }

    /// Apply dimming updates to overlay surfaces only.
    pub fn apply_updates(&self, updates: &DimUpdates) -> (actions: Vec<Action>)
        ensures
            actions@ == self.overlays_actions(updates@),
    {
        let mut actions: Vec<Action> = Vec::new();
        let ghost f = |update: dim::UpdateView| self.overlay_actions(update);
        let mut i: usize = 0;
        assert(updates@.take(0).flat_map(f) =~= Seq::empty());
        while i < updates.0.len()
            invariant
                i <= updates.0.len(),
                f == (|update: dim::UpdateView| self.overlay_actions(update)),
                actions@ == updates@.take(i as int).flat_map(f),
            decreases updates.0.len() - i,
        {
            let update = &updates.0[i];
            let mut more = self.apply_output_update(
                update.name.as_str(),
                update.opacity,
                update.brightness,
            );
            actions.append(&mut more);
            proof {
                seqs::lemma_flat_step(updates@, f, i as int);
            }
            i = i + 1;
        }
        assert(updates@.take(i as int) =~= updates@);
        actions
    }

    /// Apply dimming updates to both backdrop and overlay, for the fade-in.
    ///
    /// Skipped outputs are left alone: both layers stay transparent, so the
    /// focused window is fully visible during the animation.
    pub fn apply_updates_all_layers(&self, updates: &DimUpdates) -> (actions: Vec<Action>)
        requires
            self.dim.wf(),
        ensures
            actions@ == self.all_layers_actions(updates@),
    {
        let mut actions: Vec<Action> = Vec::new();
        let ghost f = |update: dim::UpdateView| self.layers_actions(update);
        let mut i: usize = 0;
        assert(updates@.take(0).flat_map(f) =~= Seq::empty());
        while i < updates.0.len()
            invariant
                i <= updates.0.len(),
                self.dim.wf(),
                f == (|update: dim::UpdateView| self.layers_actions(update)),
                actions@ == updates@.take(i as int).flat_map(f),
            decreases updates.0.len() - i,
        {
            let update = &updates.0[i];
            let ghost before = actions@;
            if !self.dim.is_output_skipped(update.name.as_str()) {
                let ghost g = |surface: Surface|
                    if is_on(surface, update@.name) {
                        shown(
                            surface,
                            update@.opacity,
                            update@.brightness,
                            self.config.color,
                            self.wl.viewporter,
                        )
                    } else {
                        Seq::empty()
                    };
                let mut j: usize = 0;
                assert(self.surfaces@.take(0).flat_map(g) =~= Seq::empty());
                assert(before + Seq::<Action>::empty() =~= before);
                while j < self.surfaces.len()
                    invariant
                        j <= self.surfaces.len(),
                        g == (|surface: Surface|
                            if is_on(surface, update@.name) {
                                shown(
                                    surface,
                                    update@.opacity,
                                    update@.brightness,
                                    self.config.color,
                                    self.wl.viewporter,
                                )
                            } else {
                                Seq::empty()
                            }),
                        actions@ == before + self.surfaces@.take(j as int).flat_map(g),
                    decreases self.surfaces.len() - j,
                {
                    let surface = &self.surfaces[j];
                    proof {
                        seqs::lemma_flat_step(self.surfaces@, g, j as int);
                    }
                    let ghost sofar = self.surfaces@.take(j as int).flat_map(g);
                    if names::is_named(&surface.output_name, update.name.as_str()) {
                        show(
                            &mut actions,
                            surface,
                            update.opacity,
                            update.brightness,
                            self.config.color,
                            self.wl.has_viewporter(),
                        );
                    }
                    assert(actions@ =~= before + (sofar + g(*surface)));
                    j = j + 1;
                }
                assert(self.surfaces@.take(j as int) =~= self.surfaces@);
            }
            proof {
                seqs::lemma_flat_step(updates@, f, i as int);
                assert(updates@[i as int] == update@);
                assert(actions@ =~= before + f(update@));
            }
            i = i + 1;
        }
        assert(updates@.take(i as int) =~= updates@);
        actions
    }

    /// Snap all backdrops to the target opacity, called after the fade-in.
    pub fn snap_backdrops_to_target(&self) -> (actions: Vec<Action>)
        ensures
            actions@ == self.backdrop_actions(),
    {
        let mut actions: Vec<Action> = Vec::new();
        let ghost g = |surface: Surface|
            if surface.role == SurfaceRole::Backdrop {
                painting(
                    render::painted(
                        surface,
                        self.config.color,
                        render::floor_alpha(self.config.target_opacity@) as u8,
                        self.wl.viewporter,
                    ),
                )
            } else {
                Seq::empty()
            };
        let mut j: usize = 0;
        assert(self.surfaces@.take(0).flat_map(g) =~= Seq::empty());
        while j < self.surfaces.len()
            invariant
                j <= self.surfaces.len(),
                g == (|surface: Surface|
                    if surface.role == SurfaceRole::Backdrop {
                        painting(
                            render::painted(
                                surface,
                                self.config.color,
                                render::floor_alpha(self.config.target_opacity@) as u8,
                                self.wl.viewporter,
                            ),
                        )
                    } else {
                        Seq::empty()
                    }),
                actions@ == self.surfaces@.take(j as int).flat_map(g),
            decreases self.surfaces.len() - j,
        {
            let surface = &self.surfaces[j];
            proof {
                seqs::lemma_flat_step(self.surfaces@, g, j as int);
            }
            let ghost sofar = actions@;
            if surface.is_backdrop() {
                if let Some(paint) = surface.draw(
                    self.config.color,
                    self.config.target_opacity,
                    self.wl.has_viewporter(),
                ) {
                    actions.push(Action::Paint(paint));
                }
            }
            assert(actions@ =~= sofar + g(*surface));
            j = j + 1;
        }
        assert(self.surfaces@.take(j as int) =~= self.surfaces@);
        actions
    }
}

/// A surface to create on an output.
#[derive(Debug, Clone, Copy, PartialEq, Eq, Structural)]
pub struct NewSurface {
    pub key: SurfaceKey,
    /// Whether to give it a viewport.
    pub viewport: bool,
    /// Whether to give it an alpha modifier.
    pub alpha_modifier: bool,
    /// The multiplier that the alpha modifier starts with, if not the default.
    pub multiplier: Option<u32>,
    /// Whether to ask for gamma control of its output. The control then goes by
    /// the key of the output.
    pub gamma: bool,
}

/// The role of the surfaces of an output, in the order of their creation.
pub open spec fn role_at(k: int) -> SurfaceRole {
    if k % 2 == 0 {
        SurfaceRole::Backdrop
    } else {
        SurfaceRole::Overlay
    }
}

/// After outputs have been registered: the one that has the focus as active.
pub open spec fn registered(state: dim::DimView, outputs: Seq<OutputInfo>) -> dim::DimView
    decreases outputs.len(),
{
    if outputs.len() == 0 {
        state
    } else {
        let before = registered(state, outputs.drop_last());
        match names::opt_view(outputs.last().name) {
            Some(name) => before.added(name, before.active == Some(name)),
            None => before,
        }
    }
}

/// The toplevels as [`App::tops`] has them.
pub open spec fn tops_of(toplevels: Seq<TrackedToplevel>) -> Seq<wayland::ToplevelView> {
    toplevels.map_values(|toplevel: TrackedToplevel| toplevel@)
}

/// Replacing the entry of a toplevel stores it.
proof fn lemma_stored(toplevels: Seq<TrackedToplevel>, i: int)
    requires
        0 <= i < toplevels.len(),
        wayland::handles(tops_of(toplevels)).no_duplicates(),
    ensures
        forall|t: TrackedToplevel|
            #![trigger toplevels.update(i, t)]
            t.handle == toplevels[i].handle ==> tops_of(toplevels.update(i, t)) == wayland::stored(
                tops_of(toplevels),
                t@,
            ) && wayland::handles(tops_of(toplevels.update(i, t))).no_duplicates(),
{
    assert forall|t: TrackedToplevel|
        #![trigger toplevels.update(i, t)]
        t.handle == toplevels[i].handle implies tops_of(toplevels.update(i, t)) == wayland::stored(
        tops_of(toplevels),
        t@,
    ) && wayland::handles(tops_of(toplevels.update(i, t))).no_duplicates() by {
        let hs = wayland::handles(tops_of(toplevels));
        assert(hs[i] == t.handle);
        assert(tops_of(toplevels.update(i, t)) =~= tops_of(toplevels).update(i, t@));
        assert(wayland::handles(tops_of(toplevels.update(i, t))) =~= hs);
    }
}

/// Adding the entry of a toplevel stores it.
proof fn lemma_stored_new(toplevels: Seq<TrackedToplevel>, handle: u32)
    requires
        wayland::handles(tops_of(toplevels)).no_duplicates(),
        !wayland::handles(tops_of(toplevels)).contains(handle),
    ensures
        forall|first: TrackedToplevel, t: TrackedToplevel|
            #![trigger toplevels.push(first).update(toplevels.len() as int, t)]
            t.handle == handle ==> tops_of(
                toplevels.push(first).update(toplevels.len() as int, t),
            ) == wayland::stored(tops_of(toplevels), t@) && wayland::handles(
                tops_of(toplevels.push(first).update(toplevels.len() as int, t)),
            ).no_duplicates(),
{
    assert forall|first: TrackedToplevel, t: TrackedToplevel|
        #![trigger toplevels.push(first).update(toplevels.len() as int, t)]
        t.handle == handle implies tops_of(toplevels.push(first).update(toplevels.len() as int, t))
        == wayland::stored(tops_of(toplevels), t@) && wayland::handles(
        tops_of(toplevels.push(first).update(toplevels.len() as int, t)),
    ).no_duplicates() by {
        let after = toplevels.push(first).update(toplevels.len() as int, t);
        let hs = wayland::handles(tops_of(toplevels));
        assert(after =~= toplevels.push(t));
        assert(tops_of(after) =~= tops_of(toplevels).push(t@));
        assert(wayland::handles(tops_of(after)) =~= hs.push(handle));
    }
}

impl App {
    /// What holds of every state.
    pub open spec fn wf(self) -> bool {
        &&& self.dim.wf()
        &&& wayland::handles(self.tops()).no_duplicates()
    }

    /// The tracked toplevels.
    pub open spec fn tops(self) -> Seq<wayland::ToplevelView> {
        tops_of(self.toplevels@)
    }

    /// The outputs that get surfaces: those not skipped by name.
    pub open spec fn covered(self) -> Seq<OutputInfo> {
        self.wl.outputs@.filter(self.is_covered())
    }

    /// Which outputs get surfaces.
    pub open spec fn is_covered(self) -> spec_fn(OutputInfo) -> bool {
        |output: OutputInfo|
            match names::opt_view(output.name) {
                Some(name) => !self.config.skip_names@.contains(name),
                None => true,
            }
    }

    /// Whether a surface of that role takes gamma control: overlays do, where
    /// brightness is to be dimmed and the compositor lets us.
    pub open spec fn wants_gamma(self, role: SurfaceRole) -> bool {
        role == SurfaceRole::Overlay && self.config.target_brightness is Some
            && self.wl.gamma_manager
    }

    /// Whether a surface is a new one of that role on an output.
    pub open spec fn is_new(self, surface: Surface, output: OutputInfo, role: SurfaceRole) -> bool {
        &&& surface.output == output.id
        &&& names::opt_view(surface.output_name) == names::opt_view(output.name)
        &&& surface.role == role
        &&& surface.viewport == self.wl.viewporter
        &&& surface.alpha_modifier == (role == SurfaceRole::Overlay && self.wl.alpha_modifier)
        &&& surface.gamma == if self.wants_gamma(role) {
            GammaState::Pending(output.id)
        } else {
            GammaState::Unavailable
        }
        &&& surface.config == SurfaceConfig::Pending
    }

    /// The surface to create for that role on an output. An overlay that will
    /// fade in starts transparent.
    pub open spec fn new_surface(self, output: u32, role: SurfaceRole) -> NewSurface {
        let alpha_modifier = role == SurfaceRole::Overlay && self.wl.alpha_modifier;
        NewSurface {
            key: SurfaceKey { output, role },
            viewport: self.wl.viewporter,
            alpha_modifier,
            multiplier: if alpha_modifier && self.config.fade_duration is Some {
                Some(0u32)
            } else {
                None
            },
            gamma: self.wants_gamma(role),
        }
    }

    /// Create the surface of a role on an output.
    pub fn create_surface(
        &mut self,
        output: u32,
        output_name: Option<String>,
        role: SurfaceRole,
    ) -> (created: NewSurface)
        ensures
            final(self).surfaces@.len() == old(self).surfaces@.len() + 1,
            final(self).surfaces@.drop_last() == old(self).surfaces@,
            old(self).is_new(
                final(self).surfaces@.last(),
                OutputInfo { id: output, name: output_name },
                role,
            ),
            created == old(self).new_surface(output, role),
            *final(self) == (App { surfaces: final(self).surfaces, ..*old(self) }),
    {
        let viewport = self.wl.viewporter;
        // Only overlays need alpha modifiers and gamma control.
        let alpha_modifier = role == SurfaceRole::Overlay && self.wl.alpha_modifier;
        let multiplier = if alpha_modifier && self.config.fade_duration.is_some() {
            Some(0u32)
        } else {
            None
        };
        let gamma = role == SurfaceRole::Overlay && self.config.target_brightness.is_some()
            && self.wl.gamma_manager;
        self.surfaces.push(
            Surface {
                output,
                output_name,
                role,
                viewport,
                alpha_modifier,
                gamma: if gamma {
                    GammaState::Pending(output)
                } else {
                    GammaState::Unavailable
                },
                config: SurfaceConfig::Pending,
            },
        );
        assert(self.surfaces@.drop_last() =~= old(self).surfaces@);
        NewSurface { key: SurfaceKey { output, role }, viewport, alpha_modifier, multiplier, gamma }
    }

    /// Create surfaces for all outputs but those skipped by name: on each a
    /// backdrop (safety net) and an overlay (fade surface). Outputs with a name
    /// are registered for dimming.
    pub fn create_surfaces(&mut self) -> (created: Vec<NewSurface>)
        requires
            old(self).wf(),
        ensures
            final(self).wf(),
            final(self).surfaces@.len() == old(self).surfaces@.len() + 2 * old(
                self,
            ).covered().len(),
            final(self).surfaces@.take(old(self).surfaces@.len() as int) == old(self).surfaces@,
            forall|k: int|
                #![trigger final(self).surfaces@[old(self).surfaces@.len() + k]]
                0 <= k < 2 * old(self).covered().len() ==> old(self).is_new(
                    final(self).surfaces@[old(self).surfaces@.len() + k],
                    old(self).covered()[k / 2],
                    role_at(k),
                ),
            created@ == Seq::new(
                2 * old(self).covered().len(),
                |k: int| old(self).new_surface(old(self).covered()[k / 2].id, role_at(k)),
            ),
            final(self).dim@ == registered(old(self).dim@, old(self).covered()),
            *final(self) == (App {
                surfaces: final(self).surfaces,
                dim: final(self).dim,
                ..*old(self)
            }),
    {
        let mut created: Vec<NewSurface> = Vec::new();
        let ghost start = self.surfaces@.len();
        let ghost outputs = self.wl.outputs@;
        let ghost pred = self.is_covered();
        let mut i: usize = 0;
        proof {
            reveal(Seq::filter);
            assert(outputs.take(0).filter(pred) =~= Seq::empty());
            assert(self.surfaces@.take(start as int) =~= old(self).surfaces@);
        }
        while i < self.wl.outputs.len()
            invariant
                i <= self.wl.outputs.len(),
                start == old(self).surfaces@.len(),
                outputs == old(self).wl.outputs@,
                pred == old(self).is_covered(),
                self.wf(),
                *self == (App { surfaces: self.surfaces, dim: self.dim, ..*old(self) }),
                self.surfaces@.len() == start + 2 * outputs.take(i as int).filter(pred).len(),
                self.surfaces@.take(start as int) == old(self).surfaces@,
                forall|k: int|
                    #![trigger self.surfaces@[start + k]]
                    0 <= k < 2 * outputs.take(i as int).filter(pred).len() ==> old(self).is_new(
                        self.surfaces@[start + k],
                        outputs.take(i as int).filter(pred)[k / 2],
                        role_at(k),
                    ),
                created@.len() == 2 * outputs.take(i as int).filter(pred).len(),
                forall|k: int|
                    0 <= k < created@.len() ==> #[trigger] created@[k] == old(self).new_surface(
                        outputs.take(i as int).filter(pred)[k / 2].id,
                        role_at(k),
                    ),
                self.dim@ == registered(old(self).dim@, outputs.take(i as int).filter(pred)),
            decreases self.wl.outputs.len() - i,
        {
            let id: u32 = self.wl.outputs[i].id;
            let name = names::clone_opt_name(&self.wl.outputs[i].name);
            let ghost before = outputs.take(i as int).filter(pred);
            let ghost n = before.len();
            let ghost surfaces_before = self.surfaces@;
            proof {
                seqs::lemma_filter_step(outputs, pred, i as int);
            }
            let skip = match &name {
                Some(known) => self.config.skip_names.contains(known.as_str()),
                None => false,
            };
            assert(skip == !pred(outputs[i as int]));
            if !skip {
                let ghost after = outputs.take(i + 1).filter(pred);
                let backdrop = self.create_surface(
                    id,
                    names::clone_opt_name(&name),
                    SurfaceRole::Backdrop,
                );
                let ghost middle = self.surfaces@;
                let overlay = self.create_surface(
                    id,
                    names::clone_opt_name(&name),
                    SurfaceRole::Overlay,
                );
                created.push(backdrop);
                created.push(overlay);
                proof {
                    assert(after.drop_last() =~= before);
                    assert(middle =~= surfaces_before.push(middle.last()));
                    assert(self.surfaces@ =~= middle.push(self.surfaces@.last()));
                    assert(self.surfaces@.take(start as int) =~= surfaces_before.take(
                        start as int,
                    ));
                    assert forall|k: int|
                        #![trigger self.surfaces@[start + k]]
                        0 <= k < 2 * after.len() implies old(self).is_new(
                        self.surfaces@[start + k],
                        after[k / 2],
                        role_at(k),
                    ) by {
                        if k < 2 * n {
                            assert(self.surfaces@[start + k] == surfaces_before[start + k]);
                            assert(after[k / 2] == before[k / 2]);
                        } else {
                            assert(after[k / 2] == outputs[i as int]);
                        }
                    }
                    assert forall|k: int| 0 <= k < created@.len() implies #[trigger] created@[k]
                        == old(self).new_surface(after[k / 2].id, role_at(k)) by {
                        if k < 2 * n {
                            assert(after[k / 2] == before[k / 2]);
                        } else {
                            assert(after[k / 2] == outputs[i as int]);
                        }
                    }
                }
                if let Some(known) = &name {
                    let is_active = match self.dim.active_output() {
                        Some(active) => names::same_name(active, known.as_str()),
                        None => false,
                    };
                    self.dim.add_output(known.clone(), is_active);
                }
            }
            i = i + 1;
        }
        proof {
            assert(outputs.take(i as int) =~= outputs);
            assert(created@ =~= Seq::new(
                2 * old(self).covered().len(),
                |k: int| old(self).new_surface(old(self).covered()[k / 2].id, role_at(k)),
            ));
        }
        created
    }

    /// Check if all surfaces are configured.
    pub fn all_surfaces_configured(&self) -> (configured: bool)
        ensures
            configured == forall|i: int|
                0 <= i < self.surfaces@.len() ==> (#[trigger] self.surfaces@[i]).config
                    != SurfaceConfig::Pending,
    {
        let mut i: usize = 0;
        while i < self.surfaces.len()
            invariant
                i <= self.surfaces.len(),
                forall|j: int|
                    0 <= j < i ==> (#[trigger] self.surfaces@[j]).config != SurfaceConfig::Pending,
            decreases self.surfaces.len() - i,
        {
            match self.surfaces[i].config {
                SurfaceConfig::Pending => {
                    return false;
                },
                SurfaceConfig::Ready { width: _, height: _ } => {},
            }
            i = i + 1;
        }
        true
    }

    /// The place of a tracked toplevel in the list.
    fn position(&self, handle: u32) -> (index: Option<usize>)
        requires
            self.wf(),
        ensures
            match index {
                Some(i) => i < self.toplevels.len() && wayland::handles(self.tops()).contains(
                    handle,
                ) && wayland::handles(self.tops()).index_of(handle) == i
                    && self.toplevels[i as int].handle == handle,
                None => !wayland::handles(self.tops()).contains(handle),
            },
    {
        let mut i: usize = 0;
        while i < self.toplevels.len()
            invariant
                i <= self.toplevels.len(),
                self.wf(),
                forall|j: int| 0 <= j < i ==> (#[trigger] self.toplevels[j]).handle != handle,
            decreases self.toplevels.len() - i,
        {
            if self.toplevels[i].handle_id() == handle {
                assert(wayland::handles(self.tops())[i as int] == handle);
                return Some(i);
            }
            i = i + 1;
        }
        None
    }

    /// Look up a tracked toplevel by its handle.
    pub fn find_toplevel(&self, handle: u32) -> (toplevel: Option<&TrackedToplevel>)
        requires
            self.wf(),
        ensures
            match toplevel {
                Some(t) => wayland::handles(self.tops()).contains(handle) && t@ == wayland::lookup(
                    self.tops(),
                    handle,
                ),
                None => !wayland::handles(self.tops()).contains(handle),
            },
    {
        match self.position(handle) {
            Some(i) => Some(&self.toplevels[i]),
            None => None,
        }
    }

    /// Find or create the tracked entry of a handle.
    pub fn find_or_insert_toplevel(&mut self, handle: u32) -> (toplevel: &mut TrackedToplevel)
        requires
            old(self).wf(),
        ensures
            (*toplevel)@ == wayland::lookup(old(self).tops(), handle),
            (*final(toplevel))@.handle == handle ==> final(self).wf() && final(self).tops()
                == wayland::stored(old(self).tops(), (*final(toplevel))@),
            *final(self) == (App { toplevels: final(self).toplevels, ..*old(self) }),
    {
        match self.position(handle) {
            Some(i) => {
                proof {
                    lemma_stored(self.toplevels@, i as int);
                }
                &mut self.toplevels[i]
            },
            None => {
                let i: usize = self.toplevels.len();
                proof {
                    lemma_stored_new(self.toplevels@, handle);
                }
                self.toplevels.push(TrackedToplevel::new(handle));
                &mut self.toplevels[i]
            },
        }
    }

    /// Remove a tracked toplevel when its window closes.
    pub fn remove_toplevel(&mut self, handle: u32)
        requires
            old(self).wf(),
        ensures
            final(self).wf(),
            final(self).tops() == old(self).tops().filter(
                |top: wayland::ToplevelView| top.handle != handle,
            ),
            *final(self) == (App { toplevels: final(self).toplevels, ..*old(self) }),
    {
        let ghost others = |top: wayland::ToplevelView| top.handle != handle;
        let ghost hs = wayland::handles(self.tops());
        match self.position(handle) {
            Some(i) => {
                let _gone = self.toplevels.remove(i);
                proof {
                    let before = old(self).tops();
                    assert forall|j: int| 0 <= j < before.len() && j != i implies others(
                        #[trigger] before[j],
                    ) by {
                        assert(hs[j] == before[j].handle);
                        assert(hs[i as int] == handle);
                    }
                    seqs::lemma_one_misfit(before, others, i as int);
                    assert(self.tops() =~= before.remove(i as int));
                    assert(wayland::handles(self.tops()) =~= hs.remove(i as int));
                }
            },
            None => {
                proof {
                    let before = old(self).tops();
                    assert forall|j: int| 0 <= j < before.len() implies others(
                        #[trigger] before[j],
                    ) by {
                        assert(hs[j] == before[j].handle);
                    }
                    seqs::lemma_all_fit(before, others);
                }
            },
        }
    }

    /// The name of the output that has the focus.
    pub open spec fn focused_name(self) -> Option<Seq<char>> {
        match seqs::first(
            self.tops(),
            |top: wayland::ToplevelView| top.active_output() is Some,
        ) {
            Some(top) => wayland::name_of(self.wl.outputs@, top.active_output()->0),
            None => None,
        }
    }

    /// Get the name of the output that has the focus, from toplevel tracking.
    pub fn active_output_name(&self) -> (name: Option<String>)
        ensures
            names::opt_view(name) == self.focused_name(),
    {
        let ghost wanted = |top: wayland::ToplevelView| top.active_output() is Some;
        let mut i: usize = 0;
        while i < self.toplevels.len()
            invariant
                i <= self.toplevels.len(),
                wanted == (|top: wayland::ToplevelView| top.active_output() is Some),
                forall|j: int| 0 <= j < i ==> !wanted(#[trigger] self.tops()[j]),
            decreases self.toplevels.len() - i,
        {
            assert(self.tops()[i as int] == self.toplevels[i as int]@);
            if let Some(output) = self.toplevels[i].active_output() {
                proof {
                    seqs::lemma_first_at(self.tops(), wanted, i as int);
                }
                return self.wl.output_name(output);
            }
            i = i + 1;
        }
        proof {
            seqs::lemma_none_fits(self.tops(), wanted, i as int);
        }
        None
    }

    /// Handle a layer surface that the compositor closed.
    pub fn on_surface_closed(&mut self, key: SurfaceKey)
        requires
            old(self).wf(),
        ensures
            final(self).wf(),
            final(self).surfaces@ == old(self).surfaces@.filter(
                |surface: Surface| surface.key() != key,
            ),
            final(self).dim@ == match seqs::first(
                old(self).surfaces@,
                |surface: Surface| surface.key() == key,
            ) {
                Some(surface) => match names::opt_view(surface.output_name) {
                    Some(name) => old(self).dim@.removed(name),
                    None => old(self).dim@,
                },
                None => old(self).dim@,
            },
            *final(self) == (App {
                surfaces: final(self).surfaces,
                dim: final(self).dim,
                ..*old(self)
            }),
    {
        let name = match find_surface(&self.surfaces, key) {
            Some(i) => names::clone_opt_name(&self.surfaces[i].output_name),
            None => None,
        };
        retain_other_keys(&mut self.surfaces, key);
        if let Some(known) = &name {
            self.dim.remove_output(known.as_str());
        }
    }

    /// Handle an output that is gone: its surfaces and its dimming state go.
    pub fn on_output_destroyed(&mut self, output: u32)
        requires
            old(self).wf(),
        ensures
            final(self).wf(),
            match wayland::name_of(old(self).wl.outputs@, output) {
                Some(name) => final(self).surfaces@ == old(self).surfaces@.filter(
                    |surface: Surface| !is_on(surface, name),
                ) && final(self).dim@ == old(self).dim@.removed(name),
                None => *final(self) == *old(self),
            },
            *final(self) == (App {
                surfaces: final(self).surfaces,
                dim: final(self).dim,
                ..*old(self)
            }),
    {
        let name = self.wl.output_name(output);
        if let Some(known) = &name {
            retain_other_outputs(&mut self.surfaces, known.as_str());
            self.dim.remove_output(known.as_str());
        }
    }

    /// Refresh the active output and start a transition if it changed.
    pub fn refresh_active_output(&mut self, now: Span) -> (actions: Vec<Action>)
        requires
            old(self).wf(),
        ensures
            final(self).wf(),
            final(self).dim@ == old(self).dim@.focused(old(self).focused_name(), now@),
            actions@ == old(self).overlays_actions(
                old(self).dim@.focus_updates(old(self).focused_name()),
            ),
            *final(self) == (App { dim: final(self).dim, ..*old(self) }),
    {
        let new_active = self.active_output_name();
        let updates = self.dim.focus_changed(new_active, now);
        proof {
            lemma_overlays_frame(*old(self), *self, updates@);
        }
        self.apply_updates(&updates)
    }

    /// Check if currently animating.
    pub fn is_animating(&self) -> (animating: bool)
        ensures
            animating == self.dim@.transition is Some,
    {
        self.dim.is_animating()
    }

    /// Tick the transition animation.
    pub fn tick_transition(&mut self, now: Span) -> (actions: Vec<Action>)
        requires
            old(self).wf(),
        ensures
            final(self).wf(),
            final(self).dim@ == old(self).dim@.ticked(now@),
            actions@ == old(self).overlays_actions(old(self).dim@.tick_updates(now@)),
            *final(self) == (App { dim: final(self).dim, ..*old(self) }),
    {
        let updates = self.dim.tick(now);
        proof {
            lemma_overlays_frame(*old(self), *self, updates@);
        }
        self.apply_updates(&updates)
    }

    /// Immediately dim all outputs: snap all overlays opaque.
    pub fn dim_all_outputs(&mut self) -> (actions: Vec<Action>)
        requires
            old(self).wf(),
        ensures
            final(self).wf(),
            final(self).dim@ == old(self).dim@.all_dimmed(),
            actions@ == old(self).overlays_actions(old(self).dim@.all_dimmed().all_updates()),
            *final(self) == (App { dim: final(self).dim, ..*old(self) }),
    {
        let updates = self.dim.snap_all_to_dimmed();
        proof {
            lemma_overlays_frame(*old(self), *self, updates@);
        }
        self.apply_updates(&updates)
    }
}

/// What updates of overlays take depends on the surfaces, the color and the
/// viewporter alone.
pub proof fn lemma_overlays_frame(a: App, b: App, updates: Seq<dim::UpdateView>)
    requires
        a.surfaces == b.surfaces,
        a.config == b.config,
        a.wl == b.wl,
    ensures
        a.overlays_actions(updates) == b.overlays_actions(updates),
{
    assert((|update: dim::UpdateView| a.overlay_actions(update)) =~= (|update: dim::UpdateView|
        b.overlay_actions(update)));
}

/// The keys of some surfaces, in order.
pub open spec fn keys(surfaces: Seq<Surface>) -> Seq<SurfaceKey> {
    surfaces.map_values(|surface: Surface| surface.key())
}

/// The place of the first surface with a key.
pub fn find_surface(surfaces: &Vec<Surface>, key: SurfaceKey) -> (index: Option<usize>)
    ensures
        match index {
            Some(i) => i < surfaces.len() && keys(surfaces@).index_of_first(key) == Some(i as int)
                && surfaces@[i as int].key() == key && seqs::first(
                surfaces@,
                |surface: Surface| surface.key() == key,
            ) == Some(surfaces@[i as int]),
            None => keys(surfaces@).index_of_first(key) is None && seqs::first(
                surfaces@,
                |surface: Surface| surface.key() == key,
            ) is None,
        },
{
    let ghost wanted = |surface: Surface| surface.key() == key;
    proof {
        keys(surfaces@).index_of_first_ensures(key);
    }
    let mut i: usize = 0;
    while i < surfaces.len()
        invariant
            i <= surfaces.len(),
            wanted == (|surface: Surface| surface.key() == key),
            forall|j: int| 0 <= j < i ==> !wanted(#[trigger] surfaces@[j]),
        decreases surfaces.len() - i,
    {
        if surfaces[i].key() == key {
            proof {
                seqs::lemma_first_at(surfaces@, wanted, i as int);
                keys(surfaces@).index_of_first_ensures(key);
                assert(keys(surfaces@)[i as int] == key);
                let k = keys(surfaces@).index_of_first(key)->0;
                assert(keys(surfaces@)[k] == surfaces@[k].key());
            }
            return Some(i);
        }
        i = i + 1;
    }
    proof {
        seqs::lemma_none_fits(surfaces@, wanted, i as int);
    }
    None
}

/// Drop the surfaces with a key.
fn retain_other_keys(surfaces: &mut Vec<Surface>, key: SurfaceKey)
    ensures
        final(surfaces)@ == old(surfaces)@.filter(|surface: Surface| surface.key() != key),
{
    let ghost all = surfaces@;
    let ghost others = |surface: Surface| surface.key() != key;
    let ghost mut seen: int = 0;
    let mut i: usize = 0;
    proof {
        seqs::lemma_partly_filtered_ends(all, others);
    }
    while i < surfaces.len()
        invariant
            0 <= seen <= all.len(),
            others == (|surface: Surface| surface.key() != key),
            i == all.take(seen).filter(others).len(),
            surfaces@ == seqs::partly_filtered(all, others, seen),
        decreases surfaces.len() - i,
    {
        proof {
            seqs::lemma_partly_filtered_step(all, others, seen);
            seen = seen + 1;
        }
        if surfaces[i].key() == key {
            let _gone = surfaces.remove(i);
        } else {
            i = i + 1;
        }
    }
    proof {
        seqs::lemma_partly_filtered_ends(all, others);
    }
}

/// Drop the surfaces on an output.
fn retain_other_outputs(surfaces: &mut Vec<Surface>, name: &str)
    ensures
        final(surfaces)@ == old(surfaces)@.filter(|surface: Surface| !is_on(surface, name@)),
{
    let ghost all = surfaces@;
    let ghost others = |surface: Surface| !is_on(surface, name@);
    let ghost mut seen: int = 0;
    let mut i: usize = 0;
    proof {
        seqs::lemma_partly_filtered_ends(all, others);
    }
    while i < surfaces.len()
        invariant
            0 <= seen <= all.len(),
            others == (|surface: Surface| !is_on(surface, name@)),
            i == all.take(seen).filter(others).len(),
            surfaces@ == seqs::partly_filtered(all, others, seen),
        decreases surfaces.len() - i,
    {
        proof {
            seqs::lemma_partly_filtered_step(all, others, seen);
            seen = seen + 1;
        }
        if names::is_named(&surfaces[i].output_name, name) {
            let _gone = surfaces.remove(i);
        } else {
            i = i + 1;
        }
    }
    proof {
        seqs::lemma_partly_filtered_ends(all, others);
    }
}

impl App {
    /// Create a new `App`. Surfaces and toplevels start empty: they're filled
    /// in by events and [`App::create_surfaces`].
    pub fn new(wl: Wayland, config: Config, phase: AppPhase, dim: DimController) -> (app: App)
        requires
            dim.wf(),
        ensures
            app.wf(),
            app.wl == wl,
            app.config == config,
            app.phase == phase,
            app.dim == dim,
            app.surfaces@ == Seq::<Surface>::empty(),
            app.toplevels@ == Seq::<TrackedToplevel>::empty(),
            app.launched_over@ == Seq::<u32>::empty(),
    {
        App {
            wl,
            config,
            surfaces: Vec::new(),
            toplevels: Vec::new(),
            phase,
            dim,
            launched_over: Vec::new(),
        }
    }

    /// Configuration (read-only).
    pub fn config(&self) -> (config: &Config)
        ensures
            *config == self.config,
    {
        &self.config
    }

    /// Current loop phase.
    pub fn phase(&self) -> (phase: AppPhase)
        ensures
            phase == self.phase,
    {
        self.phase
    }

    /// Set the loop phase.
    pub fn set_phase(&mut self, phase: AppPhase)
        ensures
            *final(self) == (App { phase, ..*old(self) }),
    {
        self.phase = phase;
    }

    /// What the compositor offers (mutable).
    pub fn wl_mut(&mut self) -> (wl: &mut Wayland)
        ensures
            *wl == old(self).wl,
            *final(self) == (App { wl: *final(wl), ..*old(self) }),
    {
        &mut self.wl
    }

    /// Managed surfaces (read-only).
    pub fn surfaces(&self) -> (surfaces: &[Surface])
        ensures
            surfaces@ == self.surfaces@,
    {
        self.surfaces.as_slice()
    }

    /// Managed surfaces (mutable).
    pub fn surfaces_mut(&mut self) -> (surfaces: &mut Vec<Surface>)
        ensures
            *surfaces == old(self).surfaces,
            *final(self) == (App { surfaces: *final(surfaces), ..*old(self) }),
    {
        &mut self.surfaces
    }

    /// Dimming state machine (read-only).
    pub fn dim(&self) -> (dim: &DimController)
        ensures
            *dim == self.dim,
    {
        &self.dim
    }

    /// Dimming state machine (mutable).
    pub fn dim_mut(&mut self) -> (dim: &mut DimController)
        ensures
            *dim == old(self).dim,
            *final(self) == (App { dim: *final(dim), ..*old(self) }),
    {
        &mut self.dim
    }
}

/// The name of the output that a toplevel is on.
pub open spec fn place(outputs: Seq<OutputInfo>, top: wayland::ToplevelView) -> Option<Seq<char>> {
    match top.output {
        Some(output) => wayland::name_of(outputs, output),
        None => None,
    }
}

impl App {
    /// Whether a toplevel is the window of a launch: it was not there before,
    /// it is fullscreen, and the name of its output is known.
    pub open spec fn is_launched(self) -> spec_fn(wayland::ToplevelView) -> bool {
        |top: wayland::ToplevelView|
            !self.launched_over@.contains(top.handle) && top.states.contains(
                wayland::ToplevelState::Fullscreen,
            ) && place(self.wl.outputs@, top) is Some
    }

    /// The name of the output where the launched window has shown.
    pub open spec fn launch_place(self) -> Option<Seq<char>> {
        match seqs::first(self.tops(), self.is_launched()) {
            Some(top) => place(self.wl.outputs@, top),
            None => None,
        }
    }

    /// The toplevels that are there now are not the launched window. From here
    /// on, wait for that.
    pub fn begin_reveal(&mut self)
        requires
            old(self).wf(),
        ensures
            final(self).wf(),
            final(self).launched_over@ == wayland::handles(old(self).tops()),
            final(self).phase == AppPhase::WaitingForReveal,
            *final(self) == (App {
                launched_over: final(self).launched_over,
                phase: final(self).phase,
                ..*old(self)
            }),
    {
        let mut before: Vec<u32> = Vec::new();
        let mut i: usize = 0;
        while i < self.toplevels.len()
            invariant
                i <= self.toplevels.len(),
                before@ =~= wayland::handles(self.tops()).take(i as int),
            decreases self.toplevels.len() - i,
        {
            before.push(self.toplevels[i].handle_id());
            i = i + 1;
        }
        assert(before@ =~= wayland::handles(self.tops()));
        self.launched_over = before;
        self.phase = AppPhase::WaitingForReveal;
    }

    /// Whether a toplevel was there before the launch.
    fn was_there(&self, handle: u32) -> (there: bool)
        ensures
            there == self.launched_over@.contains(handle),
    {
        let mut i: usize = 0;
        while i < self.launched_over.len()
            invariant
                i <= self.launched_over.len(),
                forall|j: int| 0 <= j < i ==> self.launched_over@[j] != handle,
            decreases self.launched_over.len() - i,
        {
            if self.launched_over[i] == handle {
                return true;
            }
            i = i + 1;
        }
        false
    }

    /// The name of the output where the launched window has shown.
    fn launched_output(&self) -> (name: Option<String>)
        ensures
            names::opt_view(name) == self.launch_place(),
    {
        let mut i: usize = 0;
        while i < self.toplevels.len()
            invariant
                i <= self.toplevels.len(),
                forall|j: int| 0 <= j < i ==> !self.is_launched()(#[trigger] self.tops()[j]),
            decreases self.toplevels.len() - i,
        {
            let toplevel = &self.toplevels[i];
            assert(self.tops()[i as int] == toplevel@);
            if !self.was_there(toplevel.handle_id()) && toplevel.has_state(
                wayland::ToplevelState::Fullscreen,
            ) {
                if let Some(output) = toplevel.output() {
                    let name = self.wl.output_name(output);
                    if name.is_some() {
                        proof {
                            seqs::lemma_first_at(self.tops(), self.is_launched(), i as int);
                        }
                        return name;
                    }
                }
            }
            i = i + 1;
        }
        proof {
            seqs::lemma_none_fits(self.tops(), self.is_launched(), i as int);
        }
        None
    }

    /// Reveal an output, or none, and go over to the steady state.
    pub open spec fn after_reveal(self, name: Option<Seq<char>>, now: nat) -> dim::DimView {
        match name {
            Some(known) => self.dim@.revealed(known, now),
            None => self.dim@,
        }
    }

    /// Once the launched window has shown, reveal its output and go over to
    /// the steady state.
    pub fn check_reveal(&mut self, now: Span)
        requires
            old(self).wf(),
        ensures
            final(self).wf(),
            final(self).dim@ == old(self).after_reveal(old(self).launch_place(), now@),
            final(self).phase == if old(self).launch_place() is Some {
                AppPhase::Running
            } else {
                old(self).phase
            },
            *final(self) == (App {
                dim: final(self).dim,
                phase: final(self).phase,
                ..*old(self)
            }),
    {
        if let Some(name) = &self.launched_output() {
            self.dim.reveal_output(name.as_str(), now);
            self.phase = AppPhase::Running;
        }
    }

    /// The launched window has not shown in time: reveal the output that has
    /// the focus, if any, and go over to the steady state.
    pub fn reveal_active_output(&mut self, now: Span)
        requires
            old(self).wf(),
        ensures
            final(self).wf(),
            final(self).dim@ == old(self).after_reveal(old(self).focused_name(), now@),
            final(self).phase == AppPhase::Running,
            *final(self) == (App {
                dim: final(self).dim,
                phase: final(self).phase,
                ..*old(self)
            }),
    {
        if let Some(name) = &self.active_output_name() {
            self.dim.reveal_output(name.as_str(), now);
        }
        self.phase = AppPhase::Running;
    }
}

} // verus!
