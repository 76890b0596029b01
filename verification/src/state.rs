//! State of the direct engine: overlays are drawn straight from events, without
//! a dimming state per output.

use crate::fraction::WHOLE;
use crate::names;
use crate::names::NameSet;
use crate::render;
pub use crate::render::{GammaState, Surface as OverlaySurface, SurfaceConfig, SurfaceRole};
use crate::render::{Color, Opacity};
use crate::toplevel;
use crate::toplevel::TrackedToplevel;
use crate::transition::Transition;
use crate::wayland::OutputInfo;
use vstd::prelude::*;

verus! {

/// The alpha byte of an opacity, to the nearest one.
pub open spec fn nearest_alpha(parts: int) -> int {
    (render::clamped(parts) * 255 + WHOLE / 2) / WHOLE as int
}

/// Convert an opacity to a premultiplied alpha byte. What lies outside of zero
/// to one is clamped.
pub fn opacity_to_alpha(opacity: i64) -> (alpha: u8)
    ensures
        alpha == nearest_alpha(opacity as int),
{
    let parts: u64 = Opacity::new(opacity).parts();
    ((parts * 255 + WHOLE / 2) / WHOLE) as u8
}

/// Which phase of the event loop lifecycle we're in.
#[derive(Debug, Clone, Copy, PartialEq, Eq, Structural)]
pub enum LoopPhase {
    /// Initial fade-in animation is in progress.
    FadingIn,
    /// Steady state: overlays are up, handling focus transitions.
    Running,
    /// Shutting down: exit the event loop.
    ShuttingDown,
}

/// Central runtime state of the direct engine.
#[derive(Debug)]
pub struct ZenState {
    /// The outputs, in the order in which they came up.
    pub outputs: Vec<OutputInfo>,
    /// Whether the compositor can scale buffers.
    pub viewporter: bool,
    /// All overlay and backdrop surfaces, two per output.
    pub surfaces: Vec<OverlaySurface>,
    /// Current phase of the event loop lifecycle.
    pub phase: LoopPhase,
    /// Target opacity for dimmed overlays.
    pub target_opacity: Opacity,
    /// Overlay color.
    pub color: Color,
    /// Output names to always skip: never dim.
    pub skip_names: NameSet,
    /// Whether to skip the output with the focused window.
    pub skip_active: bool,
    /// Name of the currently focused output, if known.
    pub active_output: Option<String>,
    /// In-progress cross-fade transition, if any.
    pub transition: Option<Transition>,
    /// Whether the compositor tells of toplevels.
    pub toplevel_manager: bool,
    /// All tracked toplevel windows.
    pub toplevels: Vec<TrackedToplevel>,
}

/// When a surface is skipped. Backdrops never are; an overlay is when its
/// output is in `skip_names`, or when `skip_active` holds and its output is the
/// active one.
pub open spec fn skip_rule(
    role: SurfaceRole,
    output_name: Option<Seq<char>>,
    skip_names: Set<Seq<char>>,
    skip_active: bool,
    active_output: Option<Seq<char>>,
) -> bool {
    &&& role == SurfaceRole::Overlay
    &&& output_name matches Some(name)
    &&& skip_names.contains(name) || (skip_active && active_output == Some(name))
}

/// Whether a surface should be skipped: left transparent.
pub fn should_skip(
    role: SurfaceRole,
    output_name: Option<&str>,
    skip_names: &NameSet,
    skip_active: bool,
    active_output: Option<&str>,
) -> (skip: bool)
    ensures
        skip == skip_rule(
            role,
            names::opt_str_view(output_name),
            skip_names@,
            skip_active,
            names::opt_str_view(active_output),
        ),
{
    if role == SurfaceRole::Backdrop {
        return false;
    }
    if let Some(name) = output_name {
        if skip_names.contains(name) {
            return true;
        }
        if skip_active {
            if let Some(active) = active_output {
                return names::same_name(name, active);
            }
        }
    }
    false
}

/// Whether the size to draw on, if there is one, fits the coordinates of the
/// protocol.
pub open spec fn fits(config: SurfaceConfig) -> bool {
    match config.size() {
        Some((width, height)) => width <= i32::MAX && height <= i32::MAX,
        None => true,
    }
}

impl ZenState {
    /// What holds of every state: all sizes fit, and no toplevel is tracked
    /// twice.
    pub open spec fn wf(self) -> bool {
        &&& forall|i: int|
            0 <= i < self.surfaces@.len() ==> fits((#[trigger] self.surfaces@[i]).config)
        &&& toplevel::handles(self.toplevels@).no_duplicates()
    }

    /// Whether a surface is skipped.
    pub open spec fn skips(self, surface: OverlaySurface) -> bool {
        skip_rule(
            surface.role,
            names::opt_view(surface.output_name),
            self.skip_names@,
            self.skip_active,
            names::opt_view(self.active_output),
        )
    }

    /// Whether a surface should be skipped: left transparent.
    pub fn is_skipped(&self, idx: usize) -> (skipped: bool)
        requires
            idx < self.surfaces.len(),
        ensures
            skipped == self.skips(self.surfaces@[idx as int]),
    {
        let surface = &self.surfaces[idx];
        should_skip(
            surface.role,
            names::opt_as_str(&surface.output_name),
            &self.skip_names,
            self.skip_active,
            names::opt_as_str(&self.active_output),
        )
    }
}

} // verus!
