//! Pixels, buffers, gamma ramps, and which surfaces are touched.

use crate::app;
use crate::app::App;
use crate::dim;
use crate::fraction::WHOLE;
use crate::gamma;
use crate::gamma::ByteOrder;
use crate::render;
use crate::render::{Action, Brightness, Color, GammaState, Paint, Surface, SurfaceConfig, SurfaceRole};
use crate::seqs;
use crate::state::ZenState;
use crate::wayland;
use vstd::arithmetic::div_mod::lemma_fundamental_div_mod_converse;
use vstd::prelude::*;

verus! {

/// A pixel holds alpha, red, green and blue in its bytes, from the highest to
/// the lowest, and no color is larger than alpha.
pub proof fn law_pixel_layout(r: u8, g: u8, b: u8, a: u8)
    ensures
        0 <= render::argb(r, g, b, a) <= u32::MAX,
        render::argb(r, g, b, a) / 0x100_0000 == a,
        render::argb(r, g, b, a) / 0x1_0000 % 0x100 == render::scaled_channel(r as int, a as int),
        render::argb(r, g, b, a) / 0x100 % 0x100 == render::scaled_channel(g as int, a as int),
        render::argb(r, g, b, a) % 0x100 == render::scaled_channel(b as int, a as int),
        0 <= render::scaled_channel(r as int, a as int) <= a,
        0 <= render::scaled_channel(g as int, a as int) <= a,
        0 <= render::scaled_channel(b as int, a as int) <= a,
{
    render::lemma_scaled_channel(r as int, a as int);
    render::lemma_scaled_channel(g as int, a as int);
    render::lemma_scaled_channel(b as int, a as int);
    lemma_bytes(
        a as int,
        render::scaled_channel(r as int, a as int),
        render::scaled_channel(g as int, a as int),
        render::scaled_channel(b as int, a as int),
    );
}

/// Four bytes make up a word, from which they can be read.
proof fn lemma_bytes(b3: int, b2: int, b1: int, b0: int)
    requires
        0 <= b3 < 0x100,
        0 <= b2 < 0x100,
        0 <= b1 < 0x100,
        0 <= b0 < 0x100,
    ensures
        ({
            let word = b3 * 0x100_0000 + b2 * 0x1_0000 + b1 * 0x100 + b0;
            &&& 0 <= word <= u32::MAX
            &&& word / 0x100_0000 == b3
            &&& word / 0x1_0000 % 0x100 == b2
            &&& word / 0x100 % 0x100 == b1
            &&& word % 0x100 == b0
        }),
{
    let word = b3 * 0x100_0000 + b2 * 0x1_0000 + b1 * 0x100 + b0;
    let high = b3 * 0x100 + b2;
    let most = high * 0x100 + b1;
    lemma_fundamental_div_mod_converse(
        word,
        0x100_0000,
        b3,
        b2 * 0x1_0000 + b1 * 0x100 + b0,
    );
    lemma_fundamental_div_mod_converse(word, 0x1_0000, high, b1 * 0x100 + b0);
    lemma_fundamental_div_mod_converse(high, 0x100, b3, b2);
    lemma_fundamental_div_mod_converse(word, 0x100, most, b0);
    lemma_fundamental_div_mod_converse(most, 0x100, high, b1);
}

/// At full alpha the colors pass through; at zero alpha nothing is left of them.
pub proof fn law_opaque_and_transparent_pixels(r: u8, g: u8, b: u8)
    ensures
        render::argb(r, g, b, 255) == 0xFF00_0000 + r * 0x1_0000 + g * 0x100 + b,
        render::argb(r, g, b, 0) == 0,
{
}

/// The alpha multiplier goes from zero to its maximum in equal steps.
pub proof fn law_multiplier_of_alpha(alpha: u8)
    ensures
        render::multiplier_of(alpha) as int * 255 == alpha as int * u32::MAX,
        render::multiplier_of(0) == 0,
        render::multiplier_of(255) == u32::MAX,
{
}

/// A surface is painted exactly when it has been configured with a size.
pub proof fn law_only_configured_surfaces_are_painted(
    surface: Surface,
    color: Color,
    alpha: u8,
    has_viewporter: bool,
)
    ensures
        render::painted(surface, color, alpha, has_viewporter) is Some
            <==> surface.config.size() is Some,
        surface.config == SurfaceConfig::Pending ==> render::painted(
            surface,
            color,
            alpha,
            has_viewporter,
        ) is None,
{
}

/// Missing protocols change how a surface is painted, never what it looks like:
/// with an alpha modifier the buffer is opaque and the compositor blends it,
/// without one the alpha is in the buffer; with a viewporter one pixel is scaled
/// up, without one the buffer is as large as the surface.
pub proof fn law_painting_degrades_gracefully(
    surface: Surface,
    color: Color,
    alpha: u8,
    has_viewporter: bool,
)
    requires
        surface.config.size() is Some,
    ensures
        render::painted(surface, color, alpha, has_viewporter) matches Some(paint) && {
            &&& paint.surface == surface.key()
            &&& surface.alpha_modifier ==> paint.multiplier == Some(render::multiplier_of(alpha))
                && paint.pixel == render::argb(color.r, color.g, color.b, 255)
            &&& !surface.alpha_modifier ==> paint.multiplier is None && paint.pixel
                == render::argb(color.r, color.g, color.b, alpha)
            &&& has_viewporter ==> paint.width == 1 && paint.height == 1 && paint.stride == 4
                && paint.destination is Some == surface.viewport
            &&& !has_viewporter ==> paint.destination is None && paint.stride == paint.width * 4
        },
{
    law_pixel_layout(color.r, color.g, color.b, 255);
    law_pixel_layout(color.r, color.g, color.b, alpha);
}

/// Without gamma control the brightness is left alone.
pub proof fn law_no_control_no_gamma(surface: Surface, brightness: Brightness)
    requires
        !(surface.gamma is Ready),
    ensures
        render::gamma_of(surface, brightness) is None,
{
}

/// Once a control has failed, no later size brings it back.
pub proof fn law_failed_gamma_stays_off(size: u32)
    ensures
        GammaState::Unavailable.sized(size) == GammaState::Unavailable,
{
}

/// Gamma control is asked for only where brightness is to be dimmed and the
/// compositor offers it, and then for overlays alone. A surface that did not
/// ask starts without control.
pub proof fn law_gamma_is_asked_for_sparingly(
    app: App,
    surface: Surface,
    output: crate::wayland::OutputInfo,
    role: SurfaceRole,
)
    requires
        app.is_new(surface, output, role),
        !app.wl.gamma_manager || app.config.target_brightness is None || role
            == SurfaceRole::Backdrop,
    ensures
        surface.gamma == GammaState::Unavailable,
{
}

/// The three channels of a ramp are the same.
pub proof fn law_ramp_channels_are_identical(size: nat, brightness: int, i: int)
    requires
        0 <= i < size,
    ensures
        gamma::ramp_values(size, brightness).len() == 3 * size,
        gamma::ramp_values(size, brightness)[i] == gamma::ramp_channel(size, brightness)[i],
        gamma::ramp_values(size, brightness)[size + i] == gamma::ramp_channel(size, brightness)[i],
        gamma::ramp_values(size, brightness)[2 * size + i] == gamma::ramp_channel(
            size,
            brightness,
        )[i],
{
}

/// A channel rises with its index and with the brightness.
pub proof fn law_ramp_rises(size: nat, i: int, j: int, dark: int, bright: int)
    requires
        0 <= i <= j < size,
        0 <= dark <= bright <= WHOLE,
    ensures
        0 <= gamma::ramp_entry(i, size, dark) <= gamma::ramp_entry(j, size, bright) <= 65535,
        gamma::ramp_channel(size, dark)[i] <= gamma::ramp_channel(size, bright)[j],
{
    gamma::lemma_ramp_entry_bounds(i, size, dark);
    gamma::lemma_ramp_entry_bounds(j, size, bright);
    let d = gamma::ramp_divisor(size) * WHOLE;
    assert(d > 0) by (nonlinear_arith)
        requires
            gamma::ramp_divisor(size) >= 1,
            d == gamma::ramp_divisor(size) * WHOLE,
    ;
    let (m, n) = (i * 65535 * dark, j * 65535 * bright);
    assert(m <= n) by (nonlinear_arith)
        requires
            0 <= i <= j,
            0 <= dark <= bright,
            m == i * 65535 * dark,
            n == j * 65535 * bright,
    ;
    vstd::arithmetic::div_mod::lemma_div_is_ordered(m, n, d);
}

/// At zero brightness every entry is zero. At normal brightness a channel of
/// two entries or more goes from zero to its maximum.
pub proof fn law_ramp_ends(size: nat, i: int)
    requires
        0 <= i < size,
    ensures
        gamma::ramp_channel(size, 0)[i] == 0,
        gamma::ramp_channel(size, WHOLE as int)[0] == 0,
        size >= 2 ==> gamma::ramp_channel(size, WHOLE as int)[size - 1] == 65535,
{
    let w = WHOLE as int;
    let d = gamma::ramp_divisor(size) * w;
    assert(d > 0) by (nonlinear_arith)
        requires
            gamma::ramp_divisor(size) >= 1,
            w > 0,
            d == gamma::ramp_divisor(size) * w,
    ;
    vstd::arithmetic::div_mod::lemma_div_basics(d);
    assert(i * 65535 * 0 == 0) by (nonlinear_arith);
    if size >= 2 {
        assert((size - 1) * 65535 * w == d * 65535) by (nonlinear_arith)
            requires
                d == (size - 1) * w,
        ;
        vstd::arithmetic::div_mod::lemma_div_multiples_vanish(65535, d);
    }
}

/// A value can be read back from where it was laid out in memory.
pub proof fn law_values_read_back(values: Seq<u16>, order: ByteOrder, i: int)
    requires
        0 <= i < values.len(),
    ensures
        gamma::values_bytes(values, order).len() == 2 * values.len(),
        gamma::values_bytes(values, order).subrange(2 * i, 2 * i + 2) == gamma::u16_bytes(
            values[i],
            order,
        ),
    decreases values.len(),
{
    let rest = values.drop_last();
    let bytes = gamma::values_bytes(values, order);
    if rest.len() > 0 {
        law_values_read_back(rest, order, 0);
    } else {
        assert(gamma::values_bytes(rest, order) =~= Seq::empty());
    }
    if i < rest.len() {
        law_values_read_back(rest, order, i);
        assert(bytes.subrange(2 * i, 2 * i + 2) =~= gamma::values_bytes(rest, order).subrange(
            2 * i,
            2 * i + 2,
        ));
    } else {
        assert(bytes.subrange(2 * i, 2 * i + 2) =~= gamma::u16_bytes(values[i], order));
    }
}

/// Whether an action paints nothing but surfaces of that role.
pub open spec fn paints_only(role: SurfaceRole) -> spec_fn(Action) -> bool {
    |action: Action| action matches Action::Paint(paint) ==> paint.surface.role == role
}

/// Showing a surface paints that surface.
proof fn lemma_shown(
    surface: Surface,
    opacity: int,
    brightness: int,
    color: Color,
    has_viewporter: bool,
)
    ensures
        forall|k: int|
            0 <= k < app::shown(surface, opacity, brightness, color, has_viewporter).len() ==> ((
            #[trigger] app::shown(surface, opacity, brightness, color, has_viewporter)[k])
                matches Action::Paint(paint) ==> paint.surface == surface.key()),
{
}

/// Dimming updates never touch a backdrop: only overlays take part in focus
/// transitions.
pub proof fn law_updates_leave_backdrops_alone(app: App, updates: Seq<dim::UpdateView>)
    ensures
        forall|k: int|
            0 <= k < app.overlays_actions(updates).len() ==> paints_only(SurfaceRole::Overlay)(
                #[trigger] app.overlays_actions(updates)[k],
            ),
{
    let f = |update: dim::UpdateView| app.overlay_actions(update);
    let holds = paints_only(SurfaceRole::Overlay);
    assert forall|i: int, k: int|
        0 <= i < updates.len() && 0 <= k < f(updates[i]).len() implies holds(
        #[trigger] f(updates[i])[k],
    ) by {
        let name = updates[i].name;
        let wanted = |surface: Surface| app::is_overlay_of(surface, name);
        seqs::lemma_first_fits(app.surfaces@, wanted);
        if let Some(surface) = seqs::first(app.surfaces@, wanted) {
            lemma_shown(
                surface,
                updates[i].opacity,
                updates[i].brightness,
                app.config.color,
                app.wl.viewporter,
            );
        }
    }
    seqs::lemma_flat_all(updates, f, holds);
}

/// Bringing the backdrops to the target paints backdrops alone, and sets no
/// gamma.
pub proof fn law_snapping_backdrops_leaves_overlays_alone(app: App)
    ensures
        forall|k: int|
            0 <= k < app.backdrop_actions().len() ==> ((#[trigger] app.backdrop_actions()[k])
                matches Action::Paint(paint) && paint.surface.role == SurfaceRole::Backdrop),
{
    let f = |surface: Surface|
        if surface.role == SurfaceRole::Backdrop {
            app::painting(
                render::painted(
                    surface,
                    app.config.color,
                    render::floor_alpha(app.config.target_opacity@) as u8,
                    app.wl.viewporter,
                ),
            )
        } else {
            Seq::empty()
        };
    let holds = |action: Action|
        action matches Action::Paint(paint) && paint.surface.role == SurfaceRole::Backdrop;
    seqs::lemma_flat_all(app.surfaces@, f, holds);
    assert forall|k: int| 0 <= k < app.backdrop_actions().len() implies ((
    #[trigger] app.backdrop_actions()[k]) matches Action::Paint(paint) && paint.surface.role
        == SurfaceRole::Backdrop) by {
        assert(holds(app.surfaces@.flat_map(f)[k]));
    }
}

/// Whether an action paints no surface but one on an output that is not skipped.
pub open spec fn spares_skipped(app: App) -> spec_fn(Action) -> bool {
    |action: Action|
        action matches Action::Paint(paint) ==> exists|surface: Surface|
            #![trigger app.surfaces@.contains(surface)]
            app.surfaces@.contains(surface) && surface.key() == paint.surface && !is_skipped(
                app,
                surface,
            )
}

/// Whether a surface is on a skipped output.
pub open spec fn is_skipped(app: App, surface: Surface) -> bool {
    crate::names::opt_view(surface.output_name) matches Some(name)
        && app.dim@.states.dom().contains(name) && app.dim@.states[name].skipped
}

/// The fade-in leaves both layers of skipped outputs alone: the focused window
/// stays fully visible.
pub proof fn law_fade_in_spares_skipped_outputs(app: App, updates: Seq<dim::UpdateView>)
    ensures
        forall|k: int|
            0 <= k < app.all_layers_actions(updates).len() ==> spares_skipped(app)(
                #[trigger] app.all_layers_actions(updates)[k],
            ),
{
    let f = |update: dim::UpdateView| app.layers_actions(update);
    let holds = spares_skipped(app);
    assert forall|i: int, k: int|
        0 <= i < updates.len() && 0 <= k < f(updates[i]).len() implies holds(
        #[trigger] f(updates[i])[k],
    ) by {
        let update = updates[i];
        let g = |surface: Surface|
            if app::is_on(surface, update.name) {
                app::shown(
                    surface,
                    update.opacity,
                    update.brightness,
                    app.config.color,
                    app.wl.viewporter,
                )
            } else {
                Seq::empty()
            };
        assert forall|j: int, m: int|
            0 <= j < app.surfaces@.len() && 0 <= m < g(app.surfaces@[j]).len() implies holds(
            #[trigger] g(app.surfaces@[j])[m],
        ) by {
            lemma_shown(
                app.surfaces@[j],
                update.opacity,
                update.brightness,
                app.config.color,
                app.wl.viewporter,
            );
            assert(app.surfaces@.contains(app.surfaces@[j]));
        }
        seqs::lemma_flat_all(app.surfaces@, g, holds);
    }
    seqs::lemma_flat_all(updates, f, holds);
}

/// Whether a paint is one of a surface that is not skipped.
pub open spec fn spares_skips(state: ZenState, paint: Paint) -> bool {
    exists|i: int|
        0 <= i < state.surfaces@.len() && (#[trigger] state.surfaces@[i]).key() == paint.surface
            && !state.skips(state.surfaces@[i])
}

/// In the direct engine, dimming all surfaces spares those that are skipped.
pub proof fn law_direct_dimming_spares_skipped_surfaces(state: ZenState, alpha: u8, k: int)
    requires
        0 <= k < state.surfaces@.filter_map(state.dimming_painter(alpha)).len(),
    ensures
        spares_skips(state, state.surfaces@.filter_map(state.dimming_painter(alpha))[k]),
{
    let painter = state.dimming_painter(alpha);
    let holds = |paint: Paint| spares_skips(state, paint);
    assert forall|i: int| 0 <= i < state.surfaces@.len() implies (#[trigger] painter(
        state.surfaces@[i],
    ) matches Some(paint) ==> holds(paint)) by {
        if let Some(paint) = painter(state.surfaces@[i]) {
            assert(state.surfaces@[i].key() == paint.surface);
        }
    }
    seqs::lemma_filter_map_all(state.surfaces@, painter, holds);
    assert(holds(state.surfaces@.filter_map(painter)[k]));
}

/// In the direct engine, dimming one output paints overlays alone.
pub proof fn law_direct_snap_paints_overlays_alone(state: ZenState, name: Option<Seq<char>>, k: int)
    requires
        0 <= k < state.snap_paints(name).len(),
    ensures
        state.snap_paints(name)[k].surface.role == SurfaceRole::Overlay,
{
    let known = name->0;
    let painter = state.overlay_painter(known, render::floor_alpha(state.target_opacity@) as u8);
    let holds = |paint: Paint| paint.surface.role == SurfaceRole::Overlay;
    seqs::lemma_filter_map_all(state.surfaces@, painter, holds);
    assert(holds(state.surfaces@.filter_map(painter)[k]));
}

/// A premultiplied channel is the nearest one to the exact product.
pub proof fn law_channels_round_to_nearest(channel: int, alpha: int)
    requires
        0 <= channel <= 255,
        0 <= alpha <= 255,
    ensures
        -127 <= channel * alpha - 255 * render::scaled_channel(channel, alpha) <= 127,
{
}

/// Once the backdrops are brought to the target, every one that has a size shows
/// it.
pub proof fn law_every_backdrop_shows_the_target(app: App, i: int)
    requires
        0 <= i < app.surfaces@.len(),
        app.surfaces@[i].role == SurfaceRole::Backdrop,
        app.surfaces@[i].config.size() is Some,
    ensures
        app.backdrop_actions().contains(
            Action::Paint(
                render::painted(
                    app.surfaces@[i],
                    app.config.color,
                    render::floor_alpha(app.config.target_opacity@) as u8,
                    app.wl.viewporter,
                )->0,
            ),
        ),
{
    let f = |surface: Surface|
        if surface.role == SurfaceRole::Backdrop {
            app::painting(
                render::painted(
                    surface,
                    app.config.color,
                    render::floor_alpha(app.config.target_opacity@) as u8,
                    app.wl.viewporter,
                ),
            )
        } else {
            Seq::empty()
        };
    let paint = render::painted(
        app.surfaces@[i],
        app.config.color,
        render::floor_alpha(app.config.target_opacity@) as u8,
        app.wl.viewporter,
    )->0;
    assert(f(app.surfaces@[i])[0] == Action::Paint(paint));
    seqs::lemma_flat_contains(app.surfaces@, f, i, Action::Paint(paint));
}

/// Every update reaches the overlay of its output, where that has a size.
pub proof fn law_updates_reach_their_overlays(
    app: App,
    updates: Seq<dim::UpdateView>,
    k: int,
    overlay: Surface,
)
    requires
        0 <= k < updates.len(),
        seqs::first(
            app.surfaces@,
            |surface: Surface| app::is_overlay_of(surface, updates[k].name),
        ) == Some(overlay),
        overlay.config.size() is Some,
    ensures
        app.overlays_actions(updates).contains(
            Action::Paint(
                render::painted(
                    overlay,
                    app.config.color,
                    render::floor_alpha(updates[k].opacity) as u8,
                    app.wl.viewporter,
                )->0,
            ),
        ),
{
    let f = |update: dim::UpdateView| app.overlay_actions(update);
    let paint = render::painted(
        overlay,
        app.config.color,
        render::floor_alpha(updates[k].opacity) as u8,
        app.wl.viewporter,
    )->0;
    assert(f(updates[k])[0] == Action::Paint(paint));
    seqs::lemma_flat_contains(updates, f, k, Action::Paint(paint));
}

/// In the direct engine, dimming all draws every surface that has a size and is
/// not skipped, backdrops included. A viewporter changes how they are drawn, not
/// which.
pub proof fn law_direct_dimming_draws_the_rest(state: ZenState, alpha: u8, i: int)
    requires
        0 <= i < state.surfaces@.len(),
        state.surfaces@[i].config.size() is Some,
        !state.skips(state.surfaces@[i]),
    ensures
        state.alpha_paint(state.surfaces@[i], alpha) matches Some(paint) && {
            &&& state.surfaces@.filter_map(state.dimming_painter(alpha)).contains(paint)
            &&& paint.surface == state.surfaces@[i].key()
            &&& paint.pixel == render::argb(state.color.r, state.color.g, state.color.b, alpha)
        },
{
    law_pixel_layout(state.color.r, state.color.g, state.color.b, alpha);
    seqs::lemma_filter_map_contains(state.surfaces@, state.dimming_painter(alpha), i);
}

/// A backdrop that is told its size is at the target from then on, unless the
/// fade-in is still to bring it there.
pub proof fn law_configured_backdrops_show_the_target(app: App, backdrop: Surface)
    requires
        backdrop.role == SurfaceRole::Backdrop,
        backdrop.config.size() is Some,
        app.phase != app::AppPhase::FadingIn,
    ensures
        app.initial_draw(backdrop) == seq![
            Action::Paint(
                render::painted(
                    backdrop,
                    app.config.color,
                    render::floor_alpha(app.config.target_opacity@) as u8,
                    app.wl.viewporter,
                )->0,
            ),
        ],
{
}

/// In the direct engine, a shared buffer is what each of the surfaces drawn with
/// it is to show.
pub proof fn law_shared_buffer_fits_every_surface(state: ZenState, alpha: u8, k: int)
    requires
        state.viewporter,
        0 <= k < state.surfaces@.filter_map(state.dimming_painter(alpha)).len(),
    ensures
        ({
            let paint = state.surfaces@.filter_map(state.dimming_painter(alpha))[k];
            let shared = state.shared_buffer(alpha);
            &&& paint.width == shared.width
            &&& paint.height == shared.height
            &&& paint.stride == shared.stride
            &&& paint.pixel == shared.pixel
            &&& !paint.release
        }),
{
    let painter = state.dimming_painter(alpha);
    let shared = state.shared_buffer(alpha);
    let holds = |paint: Paint|
        paint.width == shared.width && paint.height == shared.height && paint.stride
            == shared.stride && paint.pixel == shared.pixel && !paint.release;
    seqs::lemma_filter_map_all(state.surfaces@, painter, holds);
    assert(holds(state.surfaces@.filter_map(painter)[k]));
}

/// An event of a gamma control leaves the surfaces of other controls alone. Once
/// no surface holds a control, as after its output is gone, its events change
/// nothing.
pub proof fn law_gamma_events_stay_with_their_control(
    surfaces: Seq<Surface>,
    control: u32,
    event: wayland::GammaEvent,
    i: int,
)
    requires
        0 <= i < surfaces.len(),
    ensures
        surfaces[i].gamma.held() != Some(control) ==> surfaces.map_values(
            wayland::gamma_told(control, event),
        )[i] == surfaces[i],
        (forall|j: int|
            0 <= j < surfaces.len() ==> (#[trigger] surfaces[j]).gamma.held() != Some(control))
            ==> surfaces.map_values(wayland::gamma_told(control, event)) == surfaces,
{
    if forall|j: int|
        0 <= j < surfaces.len() ==> (#[trigger] surfaces[j]).gamma.held() != Some(control) {
        assert(surfaces.map_values(wayland::gamma_told(control, event)) =~= surfaces);
    }
}

} // verus!
