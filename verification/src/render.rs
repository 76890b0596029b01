//! Surface types and rendering operations.
//!
//! Each output carries two surfaces: a [`SurfaceRole::Backdrop`] that stays at
//! the target opacity, and a [`SurfaceRole::Overlay`] above it that fades when
//! the focus moves. Nothing here talks to a compositor: drawing yields the
//! [`Action`] to perform.
//!
//! [`draw_surface`] picks the cheapest path that the compositor offers:
//!
//! 1. Alpha modifier and viewporter: a 1x1 opaque buffer, blended by the
//!    compositor.
//! 2. Viewporter only: a 1x1 premultiplied buffer, scaled up.
//! 3. Neither: a buffer as large as the surface.

use crate::fraction;
use crate::fraction::WHOLE;
pub use crate::gamma::create_gamma_ramp;
use vstd::prelude::*;

verus! {

/// An RGB color.
#[derive(Debug, Clone, Copy, PartialEq, Eq, Structural)]
pub struct Color {
    pub r: u8,
    pub g: u8,
    pub b: u8,
}

impl Color {
    /// A color from its channels.
    pub fn new(r: u8, g: u8, b: u8) -> (color: Color)
        ensures
            color == (Color { r, g, b }),
    {
        Color { r, g, b }
    }

    /// Black.
    pub fn black() -> (color: Color)
        ensures
            color == (Color { r: 0, g: 0, b: 0 }),
    {
        Color { r: 0, g: 0, b: 0 }
    }
}

impl From<[u8; 3]> for Color {
    fn from(rgb: [u8; 3]) -> (color: Color) {
        Color { r: rgb[0], g: rgb[1], b: rgb[2] }
    }
}

impl vstd::std_specs::convert::FromSpecImpl<[u8; 3]> for Color {
    open spec fn obeys_from_spec() -> bool {
        true
    }

    open spec fn from_spec(rgb: [u8; 3]) -> Color {
        Color { r: rgb[0], g: rgb[1], b: rgb[2] }
    }
}

/// A number of parts held between zero and one.
pub open spec fn clamped(parts: int) -> int {
    if parts < 0 {
        0
    } else if parts > WHOLE {
        WHOLE as int
    } else {
        parts
    }
}

/// How opaque an overlay is: zero is transparent, [`WHOLE`] is fully opaque.
#[derive(Debug, Clone, Copy, PartialEq, Eq, Structural)]
pub struct Opacity {
    parts: u64,
}

impl View for Opacity {
    type V = int;

    closed spec fn view(&self) -> int {
        self.parts as int
    }
}

impl Opacity {
    #[verifier::type_invariant]
    spec fn in_range(self) -> bool {
        self.parts <= WHOLE
    }

    /// The opacity of a number of parts.
    pub closed spec fn of(parts: int) -> Opacity {
        Opacity { parts: parts as u64 }
    }

    /// An opacity in parts of [`WHOLE`], clamped to what is meaningful.
    pub fn new(parts: i64) -> (opacity: Opacity)
        ensures
            opacity == Opacity::of(clamped(parts as int)),
            opacity@ == clamped(parts as int),
    {
        if parts < 0 {
            Opacity { parts: 0 }
        } else if parts as u64 > WHOLE {
            Opacity { parts: WHOLE }
        } else {
            Opacity { parts: parts as u64 }
        }
    }

    /// Fully transparent.
    pub fn transparent() -> (opacity: Opacity)
        ensures
            opacity@ == 0,
    {
        Opacity { parts: 0 }
    }

    /// Fully opaque.
    pub fn opaque() -> (opacity: Opacity)
        ensures
            opacity@ == WHOLE,
    {
        Opacity { parts: WHOLE }
    }

    /// The opacity in parts of [`WHOLE`].
    pub fn parts(&self) -> (parts: u64)
        ensures
            parts == self@,
            parts <= WHOLE,
    {
        proof {
            use_type_invariant(self);
        }
        self.parts
    }

    /// This opacity, scaled by a fraction.
    pub fn scaled(&self, fraction: u64) -> (opacity: Opacity)
        requires
            fraction <= WHOLE,
        ensures
            opacity@ == fraction::product(self@, fraction as int),
            0 <= opacity@ <= self@,
    {
        proof {
            use_type_invariant(self);
        }
        Opacity { parts: fraction::multiply(self.parts, fraction) }
    }
}

/// How bright a monitor is: zero is dark, [`WHOLE`] is its normal brightness.
#[derive(Debug, Clone, Copy, PartialEq, Eq, Structural)]
pub struct Brightness {
    parts: u64,
}

impl View for Brightness {
    type V = int;

    closed spec fn view(&self) -> int {
        self.parts as int
    }
}

impl Brightness {
    #[verifier::type_invariant]
    spec fn in_range(self) -> bool {
        self.parts <= WHOLE
    }

    /// The brightness of a number of parts.
    pub closed spec fn of(parts: int) -> Brightness {
        Brightness { parts: parts as u64 }
    }

    /// A brightness in parts of [`WHOLE`], clamped to what is meaningful.
    pub fn new(parts: i64) -> (brightness: Brightness)
        ensures
            brightness == Brightness::of(clamped(parts as int)),
            brightness@ == clamped(parts as int),
    {
        if parts < 0 {
            Brightness { parts: 0 }
        } else if parts as u64 > WHOLE {
            Brightness { parts: WHOLE }
        } else {
            Brightness { parts: parts as u64 }
        }
    }

    /// Normal brightness.
    pub fn normal() -> (brightness: Brightness)
        ensures
            brightness@ == WHOLE,
    {
        Brightness { parts: WHOLE }
    }

    /// The brightness in parts of [`WHOLE`].
    pub fn parts(&self) -> (parts: u64)
        ensures
            parts == self@,
            parts <= WHOLE,
    {
        proof {
            use_type_invariant(self);
        }
        self.parts
    }

    /// The brightness on the way from normal down to this one, `fraction` of
    /// the way along.
    pub fn dimming(&self, fraction: u64) -> (brightness: Brightness)
        requires
            fraction <= WHOLE,
        ensures
            brightness@ == dimming_parts(self@, fraction as int),
            self@ <= brightness@ <= WHOLE,
    {
        proof {
            use_type_invariant(self);
        }
        Brightness { parts: WHOLE - fraction::multiply(WHOLE - self.parts, fraction) }
    }

    /// The brightness on the way from this one back up to normal, `fraction`
    /// of the way along.
    pub fn recovering(&self, fraction: u64) -> (brightness: Brightness)
        requires
            fraction <= WHOLE,
        ensures
            brightness@ == recovering_parts(self@, fraction as int),
            self@ <= brightness@ <= WHOLE,
    {
        proof {
            use_type_invariant(self);
        }
        Brightness { parts: self.parts + fraction::multiply(WHOLE - self.parts, fraction) }
    }
}

/// `1 - (1 - target) * fraction`.
pub open spec fn dimming_parts(target: int, fraction: int) -> int {
    WHOLE - fraction::product(WHOLE - target, fraction)
}

/// `target + (1 - target) * fraction`.
pub open spec fn recovering_parts(target: int, fraction: int) -> int {
    target + fraction::product(WHOLE - target, fraction)
}

/// A raw number of parts is clamped.
impl From<i64> for Opacity {
    fn from(parts: i64) -> (opacity: Opacity) {
        Opacity::new(parts)
    }
}

impl vstd::std_specs::convert::FromSpecImpl<i64> for Opacity {
    open spec fn obeys_from_spec() -> bool {
        true
    }

    open spec fn from_spec(parts: i64) -> Opacity {
        Opacity::of(clamped(parts as int))
    }
}

/// A raw number of parts is clamped.
impl From<i64> for Brightness {
    fn from(parts: i64) -> (brightness: Brightness) {
        Brightness::new(parts)
    }
}

impl vstd::std_specs::convert::FromSpecImpl<i64> for Brightness {
    open spec fn obeys_from_spec() -> bool {
        true
    }

    open spec fn from_spec(parts: i64) -> Brightness {
        Brightness::of(clamped(parts as int))
    }
}

/// An opacity is known by its parts.
pub proof fn lemma_opacity_of(opacity: Opacity, parts: int)
    requires
        0 <= parts <= WHOLE,
    ensures
        Opacity::of(opacity@) == opacity,
        Opacity::of(parts)@ == parts,
{
}

/// A brightness is known by its parts.
pub proof fn lemma_brightness_of(brightness: Brightness, parts: int)
    requires
        0 <= parts <= WHOLE,
    ensures
        Brightness::of(brightness@) == brightness,
        Brightness::of(parts)@ == parts,
{
}

/// Whether and how large the compositor has configured a surface.
#[derive(Debug, Clone, Copy, PartialEq, Eq, Structural)]
pub enum SurfaceConfig {
    /// Waiting for the first configure event.
    Pending,
    /// Configured with these dimensions.
    Ready { width: u32, height: u32 },
}

impl SurfaceConfig {
    /// The dimensions, where there are any to draw on.
    pub open spec fn size(self) -> Option<(u32, u32)> {
        match self {
            SurfaceConfig::Ready { width, height } => if width > 0 && height > 0 {
                Some((width, height))
            } else {
                None
            },
            SurfaceConfig::Pending => None,
        }
    }

    /// The dimensions if configured with a non-zero size, `None` otherwise.
    pub fn dimensions(&self) -> (dimensions: Option<(u32, u32)>)
        ensures
            dimensions == self.size(),
    {
        match *self {
            SurfaceConfig::Ready { width, height } => {
                if width > 0 && height > 0 {
                    Some((width, height))
                } else {
                    None
                }
            },
            SurfaceConfig::Pending => None,
        }
    }
}

/// Gamma control of one surface. A control is known by its key.
#[derive(Debug, Clone, Copy, PartialEq, Eq, Structural)]
pub enum GammaState {
    /// No gamma control: not asked for, not offered, or taken by another client.
    Unavailable,
    /// Bound, waiting for the size of its ramps.
    Pending(u32),
    /// Ready to set ramps of `size` entries per channel.
    Ready { control: u32, size: u32 },
}

impl GammaState {
    /// The key of the control, where there is one.
    pub open spec fn held(self) -> Option<u32> {
        match self {
            GammaState::Unavailable => None,
            GammaState::Pending(control) => Some(control),
            GammaState::Ready { control, size: _ } => Some(control),
        }
    }

    /// The key of the control, where there is one.
    pub fn control(&self) -> (control: Option<u32>)
        ensures
            control == self.held(),
    {
        match *self {
            GammaState::Unavailable => None,
            GammaState::Pending(control) => Some(control),
            GammaState::Ready { control, size: _ } => Some(control),
        }
    }

    /// The state after the compositor has told the size of the ramps.
    pub open spec fn sized(self, size: u32) -> GammaState {
        match self {
            GammaState::Unavailable => GammaState::Unavailable,
            GammaState::Pending(control) => GammaState::Ready { control, size },
            GammaState::Ready { control, size: _ } => GammaState::Ready { control, size },
        }
    }

    /// The compositor told the size of the ramps.
    pub fn receive_size(&mut self, size: u32)
        ensures
            *final(self) == old(self).sized(size),
    {
        *self = match *self {
            GammaState::Unavailable => GammaState::Unavailable,
            GammaState::Pending(control) => GammaState::Ready { control, size },
            GammaState::Ready { control, size: _ } => GammaState::Ready { control, size },
        };
    }

    /// The compositor refused the control, or took it back.
    pub fn fail(&mut self)
        ensures
            *final(self) == GammaState::Unavailable,
    {
        *self = GammaState::Unavailable;
    }
}

/// Role of a surface in the dual-layer architecture.
#[derive(Debug, Clone, Copy, PartialEq, Eq, Structural)]
pub enum SurfaceRole {
    /// Above the panels, below the overlay: a safety net during transitions.
    Backdrop,
    /// Above everything: handles the fades.
    Overlay,
}

/// Where in the stack of a layer shell a surface sits.
#[derive(Debug, Clone, Copy, PartialEq, Eq, Structural)]
pub enum Layer {
    /// Above windows and panels.
    Top,
    /// Above everything.
    Overlay,
}

/// Surfaces reach over the space that panels have reserved.
pub const EXCLUSIVE_ZONE: i32 = -1;

impl SurfaceRole {
    /// The layer of a surface in this role.
    pub fn layer(&self) -> (layer: Layer)
        ensures
            layer == match *self {
                SurfaceRole::Backdrop => Layer::Top,
                SurfaceRole::Overlay => Layer::Overlay,
            },
    {
        match *self {
            SurfaceRole::Backdrop => Layer::Top,
            SurfaceRole::Overlay => Layer::Overlay,
        }
    }
}

/// Which layer-shell surface: the one of a role on an output. Outputs are known
/// by the key that the event loop gave them.
#[derive(Debug, Clone, Copy, PartialEq, Eq, Structural)]
pub struct SurfaceKey {
    pub output: u32,
    pub role: SurfaceRole,
}

/// A managed surface.
#[derive(Debug)]
pub struct Surface {
    pub output: u32,
    pub output_name: Option<String>,
    pub role: SurfaceRole,
    /// Whether the surface has a viewport to scale a small buffer with.
    pub viewport: bool,
    /// Whether the surface has an alpha modifier.
    pub alpha_modifier: bool,
    pub gamma: GammaState,
    pub config: SurfaceConfig,
}

impl Surface {
    /// Which layer-shell surface this is.
    pub open spec fn spec_key(&self) -> SurfaceKey {
        SurfaceKey { output: self.output, role: self.role }
    }

    /// Which layer-shell surface this is.
    #[verifier::when_used_as_spec(spec_key)]
    pub fn key(&self) -> (key: SurfaceKey)
        ensures
            key == self.key(),
    {
        SurfaceKey { output: self.output, role: self.role }
    }

    /// Draw the surface at the given opacity.
    pub fn draw(&self, color: Color, opacity: Opacity, has_viewporter: bool) -> (paint: Option<
        Paint,
    >)
        ensures
            paint == painted(*self, color, floor_alpha(opacity@) as u8, has_viewporter),
    {
        draw_surface(self, color, alpha_to_u8(opacity), has_viewporter)
    }

    /// Whether this is a backdrop: it never takes part in transitions.
    pub fn is_backdrop(&self) -> (backdrop: bool)
        ensures
            backdrop == (self.role == SurfaceRole::Backdrop),
    {
        self.role == SurfaceRole::Backdrop
    }
}

/// A size in the coordinates of a surface.
#[derive(Debug, Clone, Copy, PartialEq, Eq, Structural)]
pub struct Extent {
    pub width: i32,
    pub height: i32,
}

/// A buffer to draw and attach.
#[derive(Debug, Clone, Copy, PartialEq, Eq, Structural)]
pub struct Paint {
    /// The surface to paint.
    pub surface: SurfaceKey,
    /// Alpha multiplier to set first, where the surface has an alpha modifier.
    pub multiplier: Option<u32>,
    /// Size to scale the buffer to, where the surface has a viewport.
    pub destination: Option<Extent>,
    /// Whether to let go of the surface's last buffer before allocating.
    pub release: bool,
    pub width: i32,
    pub height: i32,
    /// Bytes per row.
    pub stride: i64,
    /// The premultiplied ARGB value of every pixel.
    pub pixel: u32,
}

/// Something for the event loop to perform.
#[derive(Debug, Clone, Copy, PartialEq, Eq, Structural)]
pub enum Action {
    /// Draw a buffer, attach it, damage all of it and commit.
    Paint(Paint),
    /// Set the gamma ramps of a control, see [`create_gamma_ramp`].
    SetGamma { control: u32, size: u32, brightness: Brightness },
}

/// The alpha byte of an opacity, rounded down.
pub open spec fn floor_alpha(parts: int) -> int {
    parts * 255 / WHOLE as int
}

/// Convert an opacity to an alpha byte, rounding down.
pub fn alpha_to_u8(alpha: Opacity) -> (byte: u8)
    ensures
        byte == floor_alpha(alpha@),
{
    let parts: u64 = alpha.parts();
    (parts * 255 / WHOLE) as u8
}

/// A channel scaled by alpha, rounded to the nearest value.
pub open spec fn scaled_channel(channel: int, alpha: int) -> int {
    (channel * alpha + 127) / 255
}

/// A premultiplied ARGB pixel: alpha in the highest byte, then red, green and
/// blue.
pub open spec fn argb(r: u8, g: u8, b: u8, a: u8) -> int {
    a * 0x100_0000 + scaled_channel(r as int, a as int) * 0x1_0000 + scaled_channel(
        g as int,
        a as int,
    ) * 0x100 + scaled_channel(b as int, a as int)
}

/// A premultiplied channel is no larger than its alpha.
pub proof fn lemma_scaled_channel(channel: int, alpha: int)
    requires
        0 <= channel <= 255,
        0 <= alpha <= 255,
    ensures
        0 <= channel * alpha <= 65025,
        0 <= scaled_channel(channel, alpha) <= alpha,
{
    assert(0 <= channel * alpha <= 255 * alpha) by (nonlinear_arith)
        requires
            0 <= channel <= 255,
            0 <= alpha,
    ;
}

/// Scale a single channel by alpha using integer rounding:
/// `(channel * alpha + 127) / 255`.
pub fn premultiply_channel(channel: u8, alpha: u16) -> (scaled: u8)
    requires
        alpha <= 255,
    ensures
        scaled == scaled_channel(channel as int, alpha as int),
        scaled <= alpha,
{
    proof {
        lemma_scaled_channel(channel as int, alpha as int);
    }
    ((channel as u16 * alpha + 127) / 255) as u8
}

/// Premultiply RGB values by alpha for the ARGB8888 format.
pub fn premultiply_argb(r: u8, g: u8, b: u8, a: u8) -> (pixel: u32)
    ensures
        pixel == argb(r, g, b, a),
{
    let r_pre: u8 = premultiply_channel(r, a as u16);
    let g_pre: u8 = premultiply_channel(g, a as u16);
    let b_pre: u8 = premultiply_channel(b, a as u16);
    assert((a as u32) << 24u32 | (r_pre as u32) << 16u32 | (g_pre as u32) << 8u32 | (b_pre as u32)
        == a * 0x100_0000 + r_pre * 0x1_0000 + g_pre * 0x100 + b_pre) by (bit_vector);
    (a as u32) << 24u32 | (r_pre as u32) << 16u32 | (g_pre as u32) << 8u32 | (b_pre as u32)
}

/// The alpha multiplier of an alpha byte, `alpha / 255` of `u32::MAX`.
pub open spec fn multiplier_of(alpha: u8) -> u32 {
    (alpha * 0x0101_0101) as u32
}

/// A 1x1 buffer of one pixel, scaled up to the surface.
pub open spec fn scaled_paint(
    surface: Surface,
    multiplier: Option<u32>,
    color: Color,
    alpha: u8,
    size: (u32, u32),
) -> Paint {
    Paint {
        surface: surface.key(),
        multiplier,
        destination: if surface.viewport {
            Some(Extent { width: size.0 as i32, height: size.1 as i32 })
        } else {
            None
        },
        release: false,
        width: 1,
        height: 1,
        stride: 4,
        pixel: argb(color.r, color.g, color.b, alpha) as u32,
    }
}

/// A buffer as large as the surface.
pub open spec fn full_paint(
    surface: Surface,
    multiplier: Option<u32>,
    color: Color,
    alpha: u8,
    size: (u32, u32),
) -> Paint {
    Paint {
        surface: surface.key(),
        multiplier,
        destination: None,
        release: true,
        width: size.0 as i32,
        height: size.1 as i32,
        stride: ((size.0 as i32) * 4) as i64,
        pixel: argb(color.r, color.g, color.b, alpha) as u32,
    }
}

/// What draws `surface` in `color` at `alpha`: nothing before it is
/// configured. With an alpha modifier the buffer is opaque and the compositor
/// blends it; without one the alpha goes into the buffer.
pub open spec fn painted(
    surface: Surface,
    color: Color,
    alpha: u8,
    has_viewporter: bool,
) -> Option<Paint> {
    let multiplier = if surface.alpha_modifier {
        Some(multiplier_of(alpha))
    } else {
        None
    };
    let baked = if surface.alpha_modifier {
        255u8
    } else {
        alpha
    };
    match surface.config.size() {
        None => None,
        Some(size) => if has_viewporter {
            Some(scaled_paint(surface, multiplier, color, baked, size))
        } else {
            Some(full_paint(surface, multiplier, color, baked, size))
        },
    }
}

/// Draw a surface at the given alpha.
pub fn draw_surface(
    surface: &Surface,
    color: Color,
    alpha: u8,
    has_viewporter: bool,
) -> (paint: Option<Paint>)
    ensures
        paint == painted(*surface, color, alpha, has_viewporter),
{
    let (width, height) = match surface.config.dimensions() {
        Some(size) => size,
        None => {
            return None;
        },
    };
    if surface.alpha_modifier {
        let multiplier: u32 = alpha as u32 * 0x0101_0101;
        if has_viewporter {
            Some(draw_1x1_scaled(surface, Some(multiplier), color, 255, width, height))
        } else {
            Some(draw_fullsize(surface, Some(multiplier), color, 255, width, height))
        }
    } else if has_viewporter {
        Some(draw_1x1_scaled(surface, None, color, alpha, width, height))
    } else {
        Some(draw_fullsize(surface, None, color, alpha, width, height))
    }
}

/// Draw one pixel and have the compositor scale it to the surface.
pub fn draw_1x1_scaled(
    surface: &Surface,
    multiplier: Option<u32>,
    color: Color,
    alpha: u8,
    width: u32,
    height: u32,
) -> (paint: Paint)
    ensures
        paint == scaled_paint(*surface, multiplier, color, alpha, (width, height)),
{
    let destination = if surface.viewport {
        Some(Extent { width: width as i32, height: height as i32 })
    } else {
        None
    };
    Paint {
        surface: surface.key(),
        multiplier,
        destination,
        release: false,
        width: 1,
        height: 1,
        stride: 4,
        pixel: premultiply_argb(color.r, color.g, color.b, alpha),
    }
}

/// Fill a buffer as large as the surface.
pub fn draw_fullsize(
    surface: &Surface,
    multiplier: Option<u32>,
    color: Color,
    alpha: u8,
    width: u32,
    height: u32,
) -> (paint: Paint)
    ensures
        paint == full_paint(*surface, multiplier, color, alpha, (width, height)),
{
    let width_i32: i32 = width as i32;
    let height_i32: i32 = height as i32;
    Paint {
        surface: surface.key(),
        multiplier,
        destination: None,
        release: true,
        width: width_i32,
        height: height_i32,
        stride: width_i32 as i64 * 4,
        pixel: premultiply_argb(color.r, color.g, color.b, alpha),
    }
}

/// What sets the gamma of `surface` to `brightness`: nothing unless its
/// control is ready.
pub open spec fn gamma_of(surface: Surface, brightness: Brightness) -> Option<Action> {
    match surface.gamma {
        GammaState::Ready { control, size } => Some(
            Action::SetGamma { control, size, brightness },
        ),
        _ => None,
    }
}

/// Update the gamma of a surface.
pub fn update_gamma(surface: &Surface, brightness: Brightness) -> (action: Option<Action>)
    ensures
        action == gamma_of(*surface, brightness),
{
    match surface.gamma {
        GammaState::Ready { control, size } => Some(Action::SetGamma { control, size, brightness }),
        _ => None,
    }
}

} // verus!
