//! What a painted surface looks like, and what a gamma ramp holds.

use crate::fraction::WHOLE;
use crate::gamma;
use crate::gamma::ByteOrder;
use crate::laws::painting;
use crate::render;
use crate::render::{Action, Brightness, Color, Extent, GammaState, Paint, Surface, SurfaceConfig};
use crate::wayland;
use crate::wayland::GammaEvent;
use vstd::prelude::*;

verus! {

/// Whether a pixel shows a color at an alpha: alpha in the highest byte, then
/// red, green and blue, each scaled by alpha to the nearest value.
pub open spec fn is_pixel(pixel: u32, color: Color, alpha: int) -> bool {
    &&& pixel / 0x100_0000 == alpha
    &&& -127 <= color.r * alpha - 255 * (pixel / 0x1_0000 % 0x100) <= 127
    &&& -127 <= color.g * alpha - 255 * (pixel / 0x100 % 0x100) <= 127
    &&& -127 <= color.b * alpha - 255 * (pixel % 0x100) <= 127
}

/// Whether a paint covers all of a surface that has been configured, and shows a
/// color at an alpha there. With a viewporter one pixel is scaled to the size of
/// the surface; without one the buffer has that size. With a modifier the buffer
/// is opaque, and the compositor multiplies it by the alpha.
pub open spec fn looks(
    paint: Paint,
    surface: Surface,
    color: Color,
    alpha: int,
    has_viewporter: bool,
    modifier: bool,
) -> bool {
    &&& paint.surface.output == surface.output
    &&& paint.surface.role == surface.role
    &&& surface.config matches SurfaceConfig::Ready { width, height }
    &&& width > 0 && height > 0
    &&& has_viewporter ==> {
        &&& paint.width == 1 && paint.height == 1 && paint.stride == 4 && !paint.release
        &&& paint.destination == if surface.viewport {
            Some(Extent { width: width as i32, height: height as i32 })
        } else {
            None
        }
    }
    &&& !has_viewporter ==> {
        &&& paint.width == width as i32 && paint.height == height as i32
        &&& paint.stride == paint.width * 4 && paint.release && paint.destination is None
    }
    &&& modifier ==> is_pixel(paint.pixel, color, 255) && (paint.multiplier matches Some(m) && m
        * 255 == alpha * 0xFFFF_FFFF)
    &&& !modifier ==> is_pixel(paint.pixel, color, alpha) && paint.multiplier is None
}

/// A premultiplied pixel shows its color at its alpha.
pub proof fn law_pixels_show_their_color(color: Color, alpha: u8)
    ensures
        0 <= render::argb(color.r, color.g, color.b, alpha) <= u32::MAX,
        is_pixel(
            render::argb(color.r, color.g, color.b, alpha) as u32,
            color,
            alpha as int,
        ),
{
    painting::law_pixel_layout(color.r, color.g, color.b, alpha);
    render::lemma_scaled_channel(color.r as int, alpha as int);
    render::lemma_scaled_channel(color.g as int, alpha as int);
    render::lemma_scaled_channel(color.b as int, alpha as int);
    painting::law_channels_round_to_nearest(color.r as int, alpha as int);
    painting::law_channels_round_to_nearest(color.g as int, alpha as int);
    painting::law_channels_round_to_nearest(color.b as int, alpha as int);
}

/// A surface has a size to paint on exactly when it has been configured with one
/// that is not zero either way, and then that is its size.
pub proof fn law_size_is_the_configured_one(config: SurfaceConfig, width: u32, height: u32)
    ensures
        config.size() == Some((width, height)) <==> config == (SurfaceConfig::Ready {
            width,
            height,
        }) && width > 0 && height > 0,
{
}

/// A surface that has been configured is painted over its whole size, whatever
/// the compositor offers: where one pixel is scaled up, it is scaled to exactly
/// that size, and else the buffer has exactly that size.
pub proof fn law_painted_surface_is_covered(
    surface: Surface,
    color: Color,
    alpha: u8,
    has_viewporter: bool,
    width: u32,
    height: u32,
)
    requires
        surface.config == (SurfaceConfig::Ready { width, height }),
        0 < width <= i32::MAX,
        0 < height <= i32::MAX,
    ensures
        render::painted(surface, color, alpha, has_viewporter) matches Some(paint) && {
            &&& has_viewporter && surface.viewport ==> (paint.destination matches Some(extent)
                && extent.width == width && extent.height == height)
            &&& !has_viewporter ==> paint.width == width && paint.height == height && paint.stride
                == 4 * width
        },
{
}

/// What is painted is the color at the alpha, all over the surface; a surface
/// without a size is not painted.
pub proof fn law_painted_surface_looks_right(
    surface: Surface,
    color: Color,
    alpha: u8,
    has_viewporter: bool,
)
    ensures
        render::painted(surface, color, alpha, has_viewporter) matches Some(paint) ==> looks(
            paint,
            surface,
            color,
            alpha as int,
            has_viewporter,
            surface.alpha_modifier,
        ),
        render::painted(surface, color, alpha, has_viewporter) is None ==> !(surface.config matches SurfaceConfig::Ready {
            width,
            height,
        } && width > 0 && height > 0),
{
    law_pixels_show_their_color(color, alpha);
    law_pixels_show_their_color(color, 255);
}

/// One pixel that is scaled up reaches the size it is drawn for, with or without
/// an alpha multiplier; a full buffer has that size.
pub proof fn law_drawing_reaches_its_size(
    surface: Surface,
    multiplier: Option<u32>,
    color: Color,
    alpha: u8,
    size: (u32, u32),
)
    ensures
        ({
            let scaled = render::scaled_paint(surface, multiplier, color, alpha, size);
            let full = render::full_paint(surface, multiplier, color, alpha, size);
            &&& scaled.destination == if surface.viewport {
                Some(Extent { width: size.0 as i32, height: size.1 as i32 })
            } else {
                None
            }
            &&& scaled.width == 1 && scaled.height == 1 && scaled.stride == 4 && !scaled.release
            &&& full.destination is None
            &&& full.width == size.0 as i32 && full.height == size.1 as i32
            &&& full.stride == 4 * full.width && full.release
            &&& scaled.multiplier == multiplier && full.multiplier == multiplier
            &&& scaled.surface == full.surface
            &&& full.surface.output == surface.output && full.surface.role == surface.role
            &&& scaled.pixel == full.pixel
            &&& is_pixel(full.pixel, color, alpha as int)
        }),
{
    law_pixels_show_their_color(color, alpha);
}

/// Setting the gamma of a surface takes the ramp size that its control was told,
/// and the brightness as it is. Without a control that is ready, nothing is set.
pub proof fn law_gamma_is_set_where_the_control_is_ready(surface: Surface, brightness: Brightness)
    ensures
        surface.gamma matches GammaState::Ready { control, size } ==> render::gamma_of(
            surface,
            brightness,
        ) == Some(Action::SetGamma { control, size, brightness }),
        !(surface.gamma is Ready) ==> render::gamma_of(surface, brightness) is None,
{
}

/// A control that tells a ramp size is ready with that size, one that fails is
/// lost for good, and nothing else changes: neither the surface that holds it nor
/// any surface that does not.
pub proof fn law_gamma_event_changes_its_control(
    surfaces: Seq<Surface>,
    control: u32,
    event: GammaEvent,
    i: int,
)
    requires
        0 <= i < surfaces.len(),
    ensures
        ({
            let after = surfaces.map_values(wayland::gamma_told(control, event));
            let before = surfaces[i];
            let holds = match before.gamma {
                GammaState::Unavailable => false,
                GammaState::Pending(key) => key == control,
                GammaState::Ready { control: key, size: _ } => key == control,
            };
            &&& after.len() == surfaces.len()
            &&& after[i] == (Surface { gamma: after[i].gamma, ..before })
            &&& !holds ==> after[i].gamma == before.gamma
            &&& holds && event is Failed ==> after[i].gamma is Unavailable
            &&& event matches GammaEvent::GammaSize { size } ==> (holds ==> after[i].gamma == (
            GammaState::Ready { control, size }))
        }),
{
}

/// Every entry of a ramp is the exact linear value, rounded down.
pub proof fn law_ramp_entry_is_linear(size: nat, brightness: int, i: int)
    requires
        0 <= i < size,
        0 <= brightness <= WHOLE,
    ensures
        ({
            let top = if size >= 2 {
                size - 1
            } else {
                1
            };
            let entry = gamma::ramp_channel(size, brightness)[i];
            entry * (top * WHOLE) <= i * 65535 * brightness < (entry + 1) * (top * WHOLE)
        }),
{
    let top = if size >= 2 {
        size - 1
    } else {
        1
    };
    let d = top * WHOLE;
    let n = i * 65535 * brightness;
    assert(gamma::ramp_divisor(size) == top);
    assert(d > 0) by (nonlinear_arith)
        requires
            top >= 1,
            d == top * WHOLE,
    ;
    gamma::lemma_ramp_entry_bounds(i, size, brightness);
    let q = n / d;
    assert(gamma::ramp_channel(size, brightness)[i] == q);
    vstd::arithmetic::div_mod::lemma_fundamental_div_mod(n, d);
    assert(q * d <= n && n < (q + 1) * d) by (nonlinear_arith)
        requires
            n == d * q + n % d,
            0 <= n % d < d,
    ;
}

/// A ramp in memory holds the red, the green and the blue channel one after the
/// other, two bytes to an entry. Each entry of each channel is the exact linear
/// value `i / (size - 1) * 65535 * brightness`, rounded down.
pub proof fn law_ramp_in_memory_is_linear(
    size: nat,
    brightness: int,
    order: ByteOrder,
    channel: int,
    i: int,
)
    requires
        0 <= channel < 3,
        0 <= i < size,
        0 <= brightness <= WHOLE,
    ensures
        ({
            let bytes = gamma::values_bytes(gamma::ramp_values(size, brightness), order);
            let at = 2 * (channel * size + i);
            let entry = match order {
                ByteOrder::Little => bytes[at] + 0x100 * bytes[at + 1],
                ByteOrder::Big => 0x100 * bytes[at] + bytes[at + 1],
            };
            let top = if size >= 2 {
                size - 1
            } else {
                1
            };
            &&& bytes.len() == 6 * size
            &&& entry * (top * WHOLE) <= i * 65535 * brightness < (entry + 1) * (top * WHOLE)
        }),
{
    let values = gamma::ramp_values(size, brightness);
    let one = gamma::ramp_channel(size, brightness);
    let bytes = gamma::values_bytes(values, order);
    let k = channel * size + i;
    assert(channel == 0 || channel == 1 || channel == 2);
    assert(0 * size == 0 && 1 * size == size && 2 * size == size + size) by (nonlinear_arith);
    assert(0 <= k < values.len());
    assert(values[k] == one[i]);
    painting::law_values_read_back(values, order, k);
    let pair = bytes.subrange(2 * k, 2 * k + 2);
    assert(pair[0] == bytes[2 * k]);
    assert(pair[1] == bytes[2 * k + 1]);
    law_ramp_entry_is_linear(size, brightness, i);
}

/// A ramp takes six bytes for each entry of a channel.
pub proof fn law_ramp_length(size: nat, brightness: int, order: ByteOrder)
    ensures
        gamma::values_bytes(gamma::ramp_values(size, brightness), order).len() == 6 * size,
{
    let values = gamma::ramp_values(size, brightness);
    if size > 0 {
        painting::law_values_read_back(values, order, 0);
    } else {
        assert(values.len() == 0);
    }
}

} // verus!
