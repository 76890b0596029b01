//! Drawing in the direct engine.

use crate::names;
use crate::render;
pub use crate::render::{premultiply_argb, premultiply_channel};
use crate::render::{draw_1x1_scaled, Paint, SurfaceKey, SurfaceRole};
use crate::state::{OverlaySurface, ZenState};
use vstd::prelude::*;

verus! {

/// Convert a surface dimension for the protocol, which counts in `i32`.
pub fn i32_dim(value: u32) -> (dim: i32)
    requires
        value <= i32::MAX,
    ensures
        dim == value,
{
    value as i32
}

/// Overlays on the output of that name: none where there is no name.
pub open spec fn overlay_named(name: Option<Seq<char>>) -> spec_fn(OverlaySurface) -> bool {
    |surface: OverlaySurface|
        surface.role == SurfaceRole::Overlay && surface.output_name is Some && names::opt_view(
            surface.output_name,
        ) == name
}

/// A buffer that is drawn once and attached to several surfaces.
#[derive(Debug, Clone, Copy, PartialEq, Eq, Structural)]
pub struct SharedBuffer {
    pub width: i32,
    pub height: i32,
    /// Bytes per row.
    pub stride: i64,
    /// The premultiplied ARGB value of every pixel.
    pub pixel: u32,
    /// The surface that keeps the buffer alive in place of its last one. The
    /// buffers of the other surfaces stay as they are.
    pub keeper: Option<SurfaceKey>,
}

/// Surfaces that are drawn together.
#[derive(Debug)]
pub struct Batch {
    pub paints: Vec<Paint>,
    /// The one buffer to attach to all of them, or none where each gets its own.
    pub shared: Option<SharedBuffer>,
}

impl ZenState {
    /// What draws a surface at an alpha: one pixel scaled up where the
    /// compositor can, else a full buffer. Nothing before it is configured.
    pub open spec fn alpha_paint(self, surface: OverlaySurface, alpha: u8) -> Option<Paint> {
        match surface.config.size() {
            Some(size) => if self.viewporter {
                Some(render::scaled_paint(surface, None, self.color, alpha, size))
            } else {
                Some(render::full_paint(surface, None, self.color, alpha, size))
            },
            None => None,
        }
    }

    /// What fills a full buffer of a surface. Nothing before it is configured.
    pub open spec fn fullsize_paint(self, surface: OverlaySurface, alpha: u8) -> Option<Paint> {
        match surface.config.size() {
            Some(size) => Some(render::full_paint(surface, None, self.color, alpha, size)),
            None => None,
        }
    }

    /// What draws a surface when all that are not skipped are dimmed. Backdrops
    /// never are skipped.
    pub open spec fn dimming_painter(self, alpha: u8) -> spec_fn(OverlaySurface) -> Option<Paint> {
        |surface: OverlaySurface|
            if self.skips(surface) {
                None
            } else {
                self.alpha_paint(surface, alpha)
            }
    }

    /// The buffer that all surfaces show when they are dimmed with a viewporter:
    /// one pixel, kept by the first surface.
    pub open spec fn shared_buffer(self, alpha: u8) -> SharedBuffer {
        SharedBuffer {
            width: 1,
            height: 1,
            stride: 4,
            pixel: render::argb(self.color.r, self.color.g, self.color.b, alpha) as u32,
            keeper: if self.surfaces@.len() > 0 {
                Some(self.surfaces@[0].key())
            } else {
                None
            },
        }
    }

    /// What draws a surface when the overlays of an output are drawn.
    pub open spec fn overlay_painter(
        self,
        name: Seq<char>,
        alpha: u8,
    ) -> spec_fn(OverlaySurface) -> Option<Paint> {
        |surface: OverlaySurface|
            if overlay_named(Some(name))(surface) {
                self.alpha_paint(surface, alpha)
            } else {
                None
            }
    }

    /// Draw a single surface at the given alpha (using viewporter if available).
    pub fn draw_surface_alpha(&self, idx: usize, alpha: u8) -> (paint: Option<Paint>)
        requires
            self.wf(),
            idx < self.surfaces.len(),
        ensures
            paint == self.alpha_paint(self.surfaces@[idx as int], alpha),
    {
        if self.viewporter {
            let surface = &self.surfaces[idx];
            match surface.config.dimensions() {
                Some((width, height)) => Some(
                    draw_1x1_scaled(surface, None, self.color, alpha, width, height),
                ),
                None => None,
            }
        } else {
            self.draw_fullsize(idx, alpha)
        }
    }

    /// Draw all surfaces that are not skipped at the given alpha, backdrops
    /// included. With a viewporter, a single buffer of one pixel serves them all.
    pub fn draw_dimmed(&self, alpha: u8) -> (batch: Batch)
        requires
            self.wf(),
        ensures
            batch.paints@ == self.surfaces@.filter_map(self.dimming_painter(alpha)),
            batch.shared == if self.viewporter {
                Some(self.shared_buffer(alpha))
            } else {
                None
            },
    {
        let mut paints: Vec<Paint> = Vec::new();
        let mut i: usize = 0;
        while i < self.surfaces.len()
            invariant
                i <= self.surfaces.len(),
                self.wf(),
                paints@ == self.surfaces@.take(i as int).filter_map(self.dimming_painter(alpha)),
            decreases self.surfaces.len() - i,
        {
            proof {
                self.surfaces@.lemma_filter_map_take_succ(self.dimming_painter(alpha), i as int);
            }
            if !self.is_skipped(i) {
                if let Some(paint) = self.draw_surface_alpha(i, alpha) {
                    paints.push(paint);
                }
            }
            i = i + 1;
        }
        assert(self.surfaces@.take(i as int) =~= self.surfaces@);
        let shared = if self.viewporter {
            let keeper = if self.surfaces.len() > 0 {
                Some(self.surfaces[0].key())
            } else {
                None
            };
            let pixel: u32 = premultiply_argb(self.color.r, self.color.g, self.color.b, alpha);
            Some(SharedBuffer { width: 1, height: 1, stride: 4, pixel, keeper })
        } else {
            None
        };
        Batch { paints, shared }
    }

    /// Draw a surface by filling a buffer as large as it is. This is the
    /// fallback path used when `wp_viewporter` is unavailable.
    pub fn draw_fullsize(&self, idx: usize, alpha: u8) -> (paint: Option<Paint>)
        requires
            self.wf(),
            idx < self.surfaces.len(),
        ensures
            paint == self.fullsize_paint(self.surfaces@[idx as int], alpha),
    {
        let surface = &self.surfaces[idx];
        match surface.config.dimensions() {
            Some((width, height)) => {
                let signed_w: i32 = i32_dim(width);
                let signed_h: i32 = i32_dim(height);
                Some(
                    Paint {
                        surface: surface.key(),
                        multiplier: None,
                        destination: None,
                        release: true,
                        width: signed_w,
                        height: signed_h,
                        stride: signed_w as i64 * 4,
                        pixel: premultiply_argb(self.color.r, self.color.g, self.color.b, alpha),
                    },
                )
            },
            None => None,
        }
    }

    /// Draw the overlays of an output at the given alpha.
    pub fn draw_overlays(&self, name: &str, alpha: u8) -> (paints: Vec<Paint>)
        requires
            self.wf(),
        ensures
            paints@ == self.surfaces@.filter_map(self.overlay_painter(name@, alpha)),
    {
        let mut paints: Vec<Paint> = Vec::new();
        let ghost painter = self.overlay_painter(name@, alpha);
        let mut i: usize = 0;
        while i < self.surfaces.len()
            invariant
                i <= self.surfaces.len(),
                self.wf(),
                painter == self.overlay_painter(name@, alpha),
                paints@ == self.surfaces@.take(i as int).filter_map(painter),
            decreases self.surfaces.len() - i,
        {
            proof {
                self.surfaces@.lemma_filter_map_take_succ(painter, i as int);
            }
            let surface = &self.surfaces[i];
            if !surface.is_backdrop() && names::is_named(&surface.output_name, name) {
                if let Some(paint) = self.draw_surface_alpha(i, alpha) {
                    paints.push(paint);
                }
            }
            i = i + 1;
        }
        assert(self.surfaces@.take(i as int) =~= self.surfaces@);
        paints
    }
}

} // verus!
