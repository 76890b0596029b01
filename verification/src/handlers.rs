//! Layer-shell events in the direct engine.

use crate::app;
use crate::render;
use crate::render::{Paint, SurfaceConfig, SurfaceKey};
use crate::state;
use crate::state::{LoopPhase, OverlaySurface, ZenState};
use vstd::prelude::*;

verus! {

impl ZenState {
    /// The alpha of a surface that has just been told its size: backdrops are
    /// at the target, overlays too unless they are to fade in or are skipped.
    pub open spec fn initial_alpha(self, surface: OverlaySurface) -> u8 {
        if surface.role == render::SurfaceRole::Backdrop || (self.phase != LoopPhase::FadingIn
            && !self.skips(surface)) {
            render::floor_alpha(self.target_opacity@) as u8
        } else {
            0
        }
    }

    /// The compositor told the size of a surface.
    pub fn configure(&mut self, key: SurfaceKey, width: u32, height: u32) -> (paint: Option<Paint>)
        requires
            old(self).wf(),
            state::fits(SurfaceConfig::Ready { width, height }),
        ensures
            final(self).wf(),
            match app::keys(old(self).surfaces@).index_of_first(key) {
                Some(i) => {
                    let sized = OverlaySurface {
                        config: SurfaceConfig::Ready { width, height },
                        ..old(self).surfaces@[i]
                    };
                    final(self).surfaces@ == old(self).surfaces@.update(i, sized) && paint
                        == final(self).fullsize_paint(sized, final(self).initial_alpha(sized))
                },
                None => *final(self) == *old(self) && paint is None,
            },
            *final(self) == (ZenState { surfaces: final(self).surfaces, ..*old(self) }),
    {
        if let Some(i) = app::find_surface(&self.surfaces, key) {
            self.surfaces[i].config = SurfaceConfig::Ready { width, height };
            let alpha: u8 = if self.surfaces[i].is_backdrop() {
                render::alpha_to_u8(self.target_opacity)
            } else if self.phase == LoopPhase::FadingIn || self.is_skipped(i) {
                0
            } else {
                render::alpha_to_u8(self.target_opacity)
            };
            self.draw_fullsize(i, alpha)
        } else {
            None
        }
    }
}

} // verus!
