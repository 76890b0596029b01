//! Which surfaces are touched, and what they show from then on.

use crate::app;
use crate::app::{App, AppPhase};
use crate::dim::{DimView, UpdateView};
use crate::fraction::WHOLE;
use crate::laws::dimming;
use crate::laws::outputs;
use crate::laws::pixels;
use crate::laws::pixels::looks;
use crate::render;
use crate::render::{Action, Brightness, Color, GammaState, Paint, Surface, SurfaceConfig, SurfaceRole};
use crate::seqs;
use vstd::prelude::*;

verus! {

/// Whether a surface is on the output of a name.
pub open spec fn stands_on(surface: Surface, name: Seq<char>) -> bool {
    surface.output_name matches Some(own) && own@ == name
}

/// Whether an action brings a surface to an opacity, or its output to a
/// brightness.
pub open spec fn shows(
    action: Action,
    surface: Surface,
    color: Color,
    opacity: int,
    brightness: int,
    has_viewporter: bool,
) -> bool {
    match action {
        Action::Paint(paint) => looks(
            paint,
            surface,
            color,
            opacity * 255 / WHOLE as int,
            has_viewporter,
            surface.alpha_modifier,
        ),
        Action::SetGamma { control, size, brightness: set } => surface.gamma == (
        GammaState::Ready { control, size }) && set@ == brightness,
    }
}

/// Whether some actions paint a surface at an opacity, where it has a size.
pub open spec fn paints_at(
    actions: Seq<Action>,
    surface: Surface,
    color: Color,
    opacity: int,
    has_viewporter: bool,
) -> bool {
    surface.config matches SurfaceConfig::Ready { width, height } && width > 0 && height > 0
        ==> exists|paint: Paint|
        #![trigger actions.contains(Action::Paint(paint))]
        actions.contains(Action::Paint(paint)) && looks(
            paint,
            surface,
            color,
            opacity * 255 / WHOLE as int,
            has_viewporter,
            surface.alpha_modifier,
        )
}

/// Whether some actions set the gamma of a surface to a brightness, where its
/// control is ready.
pub open spec fn sets_gamma(actions: Seq<Action>, surface: Surface, brightness: int) -> bool {
    surface.gamma matches GammaState::Ready { control, size } ==> exists|set: Brightness|
        #![trigger actions.contains(Action::SetGamma { control, size, brightness: set })]
        set@ == brightness && actions.contains(
            Action::SetGamma { control, size, brightness: set },
        )
}

/// Whether updates hold fractions.
pub open spec fn in_range(updates: Seq<UpdateView>) -> bool {
    forall|k: int|
        0 <= k < updates.len() ==> 0 <= (#[trigger] updates[k]).opacity <= WHOLE && 0
            <= updates[k].brightness <= WHOLE
}

/// Whether an output is skipped.
pub open spec fn skipped(state: DimView, name: Seq<char>) -> bool {
    state.states.dom().contains(name) && state.states[name].skipped
}

/// What is painted at the alpha byte of an opacity looks like it.
proof fn lemma_painted(surface: Surface, color: Color, opacity: int, has_viewporter: bool)
    requires
        0 <= opacity <= WHOLE,
    ensures
        ({
            let paint = render::painted(
                surface,
                color,
                render::floor_alpha(opacity) as u8,
                has_viewporter,
            );
            &&& paint matches Some(p) ==> shows(
                Action::Paint(p),
                surface,
                color,
                opacity,
                0,
                has_viewporter,
            )
            &&& paint is None ==> !(surface.config matches SurfaceConfig::Ready {
                width,
                height,
            } && width > 0 && height > 0)
        }),
{
    pixels::law_painted_surface_looks_right(
        surface,
        color,
        render::floor_alpha(opacity) as u8,
        has_viewporter,
    );
}

/// Showing a surface shows that surface, and all of it.
proof fn lemma_shown(
    surface: Surface,
    opacity: int,
    brightness: int,
    color: Color,
    has_viewporter: bool,
)
    requires
        0 <= opacity <= WHOLE,
        0 <= brightness <= WHOLE,
    ensures
        ({
            let actions = app::shown(surface, opacity, brightness, color, has_viewporter);
            &&& forall|k: int|
                0 <= k < actions.len() ==> shows(
                    #[trigger] actions[k],
                    surface,
                    color,
                    opacity,
                    brightness,
                    has_viewporter,
                )
            &&& paints_at(actions, surface, color, opacity, has_viewporter)
            &&& sets_gamma(actions, surface, brightness)
        }),
{
    let set = Brightness::of(brightness);
    let actions = app::shown(surface, opacity, brightness, color, has_viewporter);
    render::lemma_brightness_of(set, brightness);
    lemma_painted(surface, color, opacity, has_viewporter);
    let paint = render::painted(
        surface,
        color,
        render::floor_alpha(opacity) as u8,
        has_viewporter,
    );
    if let Some(p) = paint {
        assert(actions[0] == Action::Paint(p));
        assert(actions.contains(Action::Paint(p)));
    }
    if let GammaState::Ready { control, size } = surface.gamma {
        assert(actions.last() == Action::SetGamma { control, size, brightness: set });
        assert(actions.contains(Action::SetGamma { control, size, brightness: set }));
    }
}

/// What a part of some actions reaches, all of them reach.
proof fn lemma_reached<A>(
    items: Seq<A>,
    f: spec_fn(A) -> Seq<Action>,
    i: int,
    surface: Surface,
    color: Color,
    opacity: int,
    brightness: int,
    has_viewporter: bool,
)
    requires
        0 <= i < items.len(),
    ensures
        paints_at(f(items[i]), surface, color, opacity, has_viewporter) ==> paints_at(
            items.flat_map(f),
            surface,
            color,
            opacity,
            has_viewporter,
        ),
        sets_gamma(f(items[i]), surface, brightness) ==> sets_gamma(
            items.flat_map(f),
            surface,
            brightness,
        ),
{
    let part = f(items[i]);
    let all = items.flat_map(f);
    if paints_at(part, surface, color, opacity, has_viewporter) && (surface.config matches SurfaceConfig::Ready {
        width,
        height,
    } && width > 0 && height > 0) {
        let paint = choose|paint: Paint|
            #![trigger part.contains(Action::Paint(paint))]
            part.contains(Action::Paint(paint)) && looks(
                paint,
                surface,
                color,
                opacity * 255 / WHOLE as int,
                has_viewporter,
                surface.alpha_modifier,
            );
        seqs::lemma_flat_contains(items, f, i, Action::Paint(paint));
        assert(all.contains(Action::Paint(paint)));
    }
    if let GammaState::Ready { control, size } = surface.gamma {
        if sets_gamma(part, surface, brightness) {
            let set = choose|set: Brightness|
                #![trigger part.contains(Action::SetGamma { control, size, brightness: set })]
                set@ == brightness && part.contains(
                    Action::SetGamma { control, size, brightness: set },
                );
            seqs::lemma_flat_contains(
                items,
                f,
                i,
                Action::SetGamma { control, size, brightness: set },
            );
            assert(all.contains(Action::SetGamma { control, size, brightness: set }));
        }
    }
}

/// A frame of the fade-in reaches both layers of every output that is not
/// skipped: each surface that has a size is painted at the opacity of the update,
/// and where a gamma control is ready it is set to the brightness of the update.
pub proof fn law_fade_in_reaches_both_layers(app: App, updates: Seq<UpdateView>, k: int, i: int)
    requires
        in_range(updates),
        0 <= k < updates.len(),
        0 <= i < app.surfaces@.len(),
        stands_on(app.surfaces@[i], updates[k].name),
        !skipped(app.dim@, updates[k].name),
    ensures
        paints_at(
            app.all_layers_actions(updates),
            app.surfaces@[i],
            app.config.color,
            updates[k].opacity,
            app.wl.viewporter,
        ),
        sets_gamma(app.all_layers_actions(updates), app.surfaces@[i], updates[k].brightness),
{
    let update = updates[k];
    let surface = app.surfaces@[i];
    let f = |update: UpdateView| app.layers_actions(update);
    let g = |surface: Surface|
        if app::is_on(surface, update.name) {
            app::shown(
                surface,
                update.opacity,
                update.brightness,
                app.config.color,
                app.wl.viewporter,
            )
        } else {
            Seq::empty()
        };
    let (color, viewporter) = (app.config.color, app.wl.viewporter);
    lemma_shown(surface, update.opacity, update.brightness, color, viewporter);
    lemma_reached(
        app.surfaces@,
        g,
        i,
        surface,
        color,
        update.opacity,
        update.brightness,
        viewporter,
    );
    assert(f(updates[k]) == app.surfaces@.flat_map(g));
    lemma_reached(
        updates,
        f,
        k,
        surface,
        color,
        update.opacity,
        update.brightness,
        viewporter,
    );
}

/// Whether an action shows some surface as some update says, where that is of an
/// output that the surface is on and that is not skipped.
pub open spec fn shows_a_layer(app: App, updates: Seq<UpdateView>, action: Action) -> bool {
    exists|k: int, i: int|
        #![trigger updates[k], app.surfaces@[i]]
        0 <= k < updates.len() && 0 <= i < app.surfaces@.len() && stands_on(
            app.surfaces@[i],
            updates[k].name,
        ) && !skipped(app.dim@, updates[k].name) && shows(
            action,
            app.surfaces@[i],
            app.config.color,
            updates[k].opacity,
            updates[k].brightness,
            app.wl.viewporter,
        )
}

/// A frame of the fade-in shows nothing but surfaces as their updates say, and
/// none on a skipped output.
pub proof fn law_fade_in_shows_nothing_else(app: App, updates: Seq<UpdateView>, n: int)
    requires
        in_range(updates),
        0 <= n < app.all_layers_actions(updates).len(),
    ensures
        shows_a_layer(app, updates, app.all_layers_actions(updates)[n]),
{
    let f = |update: UpdateView| app.layers_actions(update);
    let holds = |action: Action| shows_a_layer(app, updates, action);
    assert forall|k: int, m: int|
        0 <= k < updates.len() && 0 <= m < f(updates[k]).len() implies holds(
        #[trigger] f(updates[k])[m],
    ) by {
        let update = updates[k];
        let g = |surface: Surface|
            if app::is_on(surface, update.name) {
                app::shown(
                    surface,
                    update.opacity,
                    update.brightness,
                    app.config.color,
                    app.wl.viewporter,
                )
            } else {
                Seq::empty()
            };
        if !skipped(app.dim@, update.name) {
            assert forall|i: int, j: int|
                0 <= i < app.surfaces@.len() && 0 <= j < g(app.surfaces@[i]).len() implies holds(
                #[trigger] g(app.surfaces@[i])[j],
            ) by {
                lemma_shown(
                    app.surfaces@[i],
                    update.opacity,
                    update.brightness,
                    app.config.color,
                    app.wl.viewporter,
                );
                assert(updates[k] == update);
            }
            seqs::lemma_flat_all(app.surfaces@, g, holds);
            assert(f(updates[k]) == app.surfaces@.flat_map(g));
        }
    }
    seqs::lemma_flat_all(updates, f, holds);
    assert(holds(app.all_layers_actions(updates)[n]));
}

/// The last frame of the fade-in brings both layers of every known output
/// without the focus to the target opacity, and its monitor to the target
/// brightness.
pub proof fn law_fade_in_ends_at_the_targets(
    app: App,
    before: DimView,
    elapsed: nat,
    duration: nat,
    i: int,
    name: Seq<char>,
)
    requires
        before.wf(),
        app.dim@ == before.faded_in(elapsed, duration),
        elapsed >= duration,
        0 <= i < app.surfaces@.len(),
        stands_on(app.surfaces@[i], name),
        before.states.dom().contains(name),
        !before.states[name].skipped,
    ensures
        paints_at(
            app.all_layers_actions(app.dim@.all_updates()),
            app.surfaces@[i],
            app.config.color,
            before.target_opacity,
            app.wl.viewporter,
        ),
        sets_gamma(
            app.all_layers_actions(app.dim@.all_updates()),
            app.surfaces@[i],
            before.target_brightness,
        ),
{
    let updates = app.dim@.all_updates();
    dimming::law_fade_in_frame_ends_snapped(before, elapsed, duration);
    assert(before.names.to_set().contains(name));
    let k = before.names.index_of(name);
    assert(before.names[k] == name);
    assert forall|j: int| 0 <= j < updates.len() implies 0 <= (
    #[trigger] updates[j]).opacity <= WHOLE && 0 <= updates[j].brightness <= WHOLE by {
        assert(before.names.to_set().contains(before.names[j]));
        outputs::law_updates_tell_of_every_output(app.dim@, j);
        outputs::law_snapping_reaches_the_targets(before, before.names[j]);
    }
    outputs::law_updates_tell_of_every_output(app.dim@, k);
    outputs::law_snapping_reaches_the_targets(before, name);
    law_fade_in_reaches_both_layers(app, updates, k, i);
}

/// Whether the surface at `i` is the first overlay on the output of a name.
pub open spec fn first_overlay(surfaces: Seq<Surface>, i: int, name: Seq<char>) -> bool {
    &&& 0 <= i < surfaces.len()
    &&& surfaces[i].role == SurfaceRole::Overlay
    &&& stands_on(surfaces[i], name)
    &&& forall|j: int|
        0 <= j < i ==> !((#[trigger] surfaces[j]).role == SurfaceRole::Overlay && stands_on(
            surfaces[j],
            name,
        ))
}

/// What one update takes on the overlay of its output.
proof fn lemma_overlay(app: App, update: UpdateView, i: int)
    requires
        0 <= update.opacity <= WHOLE,
        0 <= update.brightness <= WHOLE,
        first_overlay(app.surfaces@, i, update.name),
    ensures
        app.overlay_actions(update) == app::shown(
            app.surfaces@[i],
            update.opacity,
            update.brightness,
            app.config.color,
            app.wl.viewporter,
        ),
        paints_at(
            app.overlay_actions(update),
            app.surfaces@[i],
            app.config.color,
            update.opacity,
            app.wl.viewporter,
        ),
        sets_gamma(app.overlay_actions(update), app.surfaces@[i], update.brightness),
{
    let wanted = |surface: Surface| app::is_overlay_of(surface, update.name);
    seqs::lemma_first_at(app.surfaces@, wanted, i);
    lemma_shown(
        app.surfaces@[i],
        update.opacity,
        update.brightness,
        app.config.color,
        app.wl.viewporter,
    );
}

/// Outside of the fade-in, every update reaches the overlay of its output: it is
/// painted at the opacity of the update, and the gamma is set to its brightness.
pub proof fn law_updates_reach_the_overlay(app: App, updates: Seq<UpdateView>, k: int, i: int)
    requires
        in_range(updates),
        0 <= k < updates.len(),
        first_overlay(app.surfaces@, i, updates[k].name),
    ensures
        paints_at(
            app.overlays_actions(updates),
            app.surfaces@[i],
            app.config.color,
            updates[k].opacity,
            app.wl.viewporter,
        ),
        sets_gamma(app.overlays_actions(updates), app.surfaces@[i], updates[k].brightness),
{
    let f = |update: UpdateView| app.overlay_actions(update);
    lemma_overlay(app, updates[k], i);
    lemma_reached(
        updates,
        f,
        k,
        app.surfaces@[i],
        app.config.color,
        updates[k].opacity,
        updates[k].brightness,
        app.wl.viewporter,
    );
}

/// Whether an action shows the overlay of an output as an update of that output
/// says.
pub open spec fn shows_an_overlay(app: App, updates: Seq<UpdateView>, action: Action) -> bool {
    exists|k: int, i: int|
        #![trigger updates[k], app.surfaces@[i]]
        0 <= k < updates.len() && first_overlay(app.surfaces@, i, updates[k].name) && shows(
            action,
            app.surfaces@[i],
            app.config.color,
            updates[k].opacity,
            updates[k].brightness,
            app.wl.viewporter,
        )
}

/// Where the first overlay on an output is among the first `n` surfaces, or `n`
/// where there is none.
proof fn lemma_find_overlay(app: App, name: Seq<char>, n: int) -> (i: int)
    requires
        0 <= n <= app.surfaces@.len(),
    ensures
        i < n ==> first_overlay(app.surfaces@, i, name),
        i >= n ==> forall|j: int|
            0 <= j < n ==> !app::is_overlay_of(#[trigger] app.surfaces@[j], name),
    decreases n,
{
    if n == 0 {
        0
    } else {
        let i = lemma_find_overlay(app, name, n - 1);
        if i < n - 1 {
            i
        } else if app::is_overlay_of(app.surfaces@[n - 1], name) {
            n - 1
        } else {
            n
        }
    }
}

/// Outside of the fade-in, updates show nothing but the overlays of their
/// outputs, each as its update says.
pub proof fn law_updates_show_nothing_else(app: App, updates: Seq<UpdateView>, n: int)
    requires
        in_range(updates),
        0 <= n < app.overlays_actions(updates).len(),
    ensures
        shows_an_overlay(app, updates, app.overlays_actions(updates)[n]),
{
    let f = |update: UpdateView| app.overlay_actions(update);
    let holds = |action: Action| shows_an_overlay(app, updates, action);
    assert forall|k: int, m: int|
        0 <= k < updates.len() && 0 <= m < f(updates[k]).len() implies holds(
        #[trigger] f(updates[k])[m],
    ) by {
        let update = updates[k];
        let len = app.surfaces@.len() as int;
        let i = lemma_find_overlay(app, update.name, len);
        if i < len {
            lemma_overlay(app, update, i);
            lemma_shown(
                app.surfaces@[i],
                update.opacity,
                update.brightness,
                app.config.color,
                app.wl.viewporter,
            );
            assert(updates[k] == update);
        } else {
            seqs::lemma_none_fits(
                app.surfaces@,
                |surface: Surface| app::is_overlay_of(surface, update.name),
                len,
            );
        }
    }
    seqs::lemma_flat_all(updates, f, holds);
    assert(holds(app.overlays_actions(updates)[n]));
}

/// Bringing the backdrops to the target paints every one that has a size, at the
/// target opacity, and does nothing else.
pub proof fn law_backdrops_go_to_the_target(app: App, i: int, n: int)
    requires
        0 <= app.config.target_opacity@ <= WHOLE,
    ensures
        0 <= i < app.surfaces@.len() && app.surfaces@[i].role == SurfaceRole::Backdrop
            ==> paints_at(
            app.backdrop_actions(),
            app.surfaces@[i],
            app.config.color,
            app.config.target_opacity@,
            app.wl.viewporter,
        ),
        0 <= n < app.backdrop_actions().len() ==> shows_a_backdrop(
            app,
            app.backdrop_actions()[n],
        ),
{
    let goal = app.config.target_opacity@;
    let (color, viewporter) = (app.config.color, app.wl.viewporter);
    let f = |surface: Surface|
        if surface.role == SurfaceRole::Backdrop {
            app::painting(
                render::painted(surface, color, render::floor_alpha(goal) as u8, viewporter),
            )
        } else {
            Seq::empty()
        };
    let holds = |action: Action| shows_a_backdrop(app, action);
    assert(app.backdrop_actions() == app.surfaces@.flat_map(f)) by {
        assert(f =~= (|surface: Surface|
            if surface.role == SurfaceRole::Backdrop {
                app::painting(
                    render::painted(
                        surface,
                        app.config.color,
                        render::floor_alpha(app.config.target_opacity@) as u8,
                        app.wl.viewporter,
                    ),
                )
            } else {
                Seq::empty()
            }));
    }
    if 0 <= i < app.surfaces@.len() && app.surfaces@[i].role == SurfaceRole::Backdrop {
        let surface = app.surfaces@[i];
        lemma_painted(surface, color, goal, viewporter);
        let paint = render::painted(
            surface,
            color,
            render::floor_alpha(goal) as u8,
            viewporter,
        );
        if let Some(p) = paint {
            assert(f(surface)[0] == Action::Paint(p));
            assert(f(surface).contains(Action::Paint(p)));
        }
        lemma_reached(app.surfaces@, f, i, surface, color, goal, 0, viewporter);
    }
    assert forall|j: int, m: int|
        0 <= j < app.surfaces@.len() && 0 <= m < f(app.surfaces@[j]).len() implies holds(
        #[trigger] f(app.surfaces@[j])[m],
    ) by {
        lemma_painted(app.surfaces@[j], color, goal, viewporter);
    }
    seqs::lemma_flat_all(app.surfaces@, f, holds);
    if 0 <= n < app.backdrop_actions().len() {
        assert(holds(app.surfaces@.flat_map(f)[n]));
    }
}

/// Whether an action paints a backdrop at the target opacity.
pub open spec fn shows_a_backdrop(app: App, action: Action) -> bool {
    action is Paint && exists|i: int|
        #![trigger app.surfaces@[i]]
        0 <= i < app.surfaces@.len() && app.surfaces@[i].role == SurfaceRole::Backdrop && shows(
            action,
            app.surfaces@[i],
            app.config.color,
            app.config.target_opacity@,
            0,
            app.wl.viewporter,
        )
}

/// A surface that is told its size while the fade-in runs is left to its frames.
/// After that a backdrop is painted at the target opacity at once, and nothing
/// else is done.
pub proof fn law_configured_backdrop_is_painted(app: App, backdrop: Surface)
    requires
        backdrop.role == SurfaceRole::Backdrop,
        0 <= app.config.target_opacity@ <= WHOLE,
    ensures
        app.phase == AppPhase::FadingIn ==> app.initial_draw(backdrop).len() == 0,
        app.phase != AppPhase::FadingIn ==> {
            let actions = app.initial_draw(backdrop);
            &&& paints_at(
                actions,
                backdrop,
                app.config.color,
                app.config.target_opacity@,
                app.wl.viewporter,
            )
            &&& actions.len() <= 1
            &&& actions.len() == 1 ==> actions[0] is Paint && shows(
                actions[0],
                backdrop,
                app.config.color,
                app.config.target_opacity@,
                0,
                app.wl.viewporter,
            )
        },
{
    let goal = app.config.target_opacity@;
    lemma_painted(backdrop, app.config.color, goal, app.wl.viewporter);
    if app.phase != AppPhase::FadingIn {
        let actions = app.initial_draw(backdrop);
        if actions.len() > 0 {
            assert(actions.contains(actions[0]));
        }
    }
}

/// After the fade-in, an overlay that is told its size shows what its output
/// looks like at that moment, brightness included. One whose output is not known
/// is left alone, and so is every one while the fade-in runs.
pub proof fn law_configured_overlay_shows_its_output(app: App, i: int, name: Seq<char>)
    requires
        first_overlay(app.surfaces@, i, name),
        app.dim@.states.dom().contains(name) ==> 0 <= app.dim@.states[name].alpha <= WHOLE && 0
            <= app.dim@.states[name].brightness <= WHOLE,
    ensures
        ({
            let surface = app.surfaces@[i];
            let shade = app.dim@.states[name];
            let actions = app.initial_draw(surface);
            &&& app.phase == AppPhase::FadingIn || !app.dim@.states.dom().contains(name)
                ==> actions.len() == 0
            &&& app.phase != AppPhase::FadingIn && app.dim@.states.dom().contains(name) ==> {
                &&& paints_at(
                    actions,
                    surface,
                    app.config.color,
                    shade.alpha,
                    app.wl.viewporter,
                )
                &&& sets_gamma(actions, surface, shade.brightness)
                &&& forall|k: int|
                    0 <= k < actions.len() ==> shows(
                        #[trigger] actions[k],
                        surface,
                        app.config.color,
                        shade.alpha,
                        shade.brightness,
                        app.wl.viewporter,
                    )
            }
        }),
{
    if app.phase != AppPhase::FadingIn && app.dim@.states.dom().contains(name) {
        lemma_overlay(app, app.dim@.update(name), i);
        lemma_shown(
            app.surfaces@[i],
            app.dim@.states[name].alpha,
            app.dim@.states[name].brightness,
            app.config.color,
            app.wl.viewporter,
        );
    }
}

/// An overlay whose output has no name is not drawn when it is told its size.
pub proof fn law_configured_unnamed_overlay_is_left_alone(app: App, overlay: Surface)
    requires
        overlay.role == SurfaceRole::Overlay,
        overlay.output_name is None,
    ensures
        app.initial_draw(overlay).len() == 0,
{
}

/// When a focused window starts to move, the overlay of every known output is
/// painted at the target opacity, and its monitor goes to the target brightness.
/// Where none moves, nothing is done.
pub proof fn law_moving_window_covers_every_output(app: App, i: int, name: Seq<char>)
    requires
        app.dim@.wf(),
        app.dim@.states.dom().contains(name),
        first_overlay(app.surfaces@, i, name),
    ensures
        paints_at(
            app.moving_actions(true),
            app.surfaces@[i],
            app.config.color,
            app.dim@.target_opacity,
            app.wl.viewporter,
        ),
        sets_gamma(app.moving_actions(true), app.surfaces@[i], app.dim@.target_brightness),
        app.moving_actions(false).len() == 0,
{
    let dimmed = app.dim@.all_dimmed();
    let updates = dimmed.all_updates();
    assert(app.dim@.names.to_set().contains(name));
    let k = app.dim@.names.index_of(name);
    assert(app.dim@.names[k] == name);
    assert forall|j: int| 0 <= j < updates.len() implies 0 <= (
    #[trigger] updates[j]).opacity <= WHOLE && 0 <= updates[j].brightness <= WHOLE by {
        assert(app.dim@.names.to_set().contains(app.dim@.names[j]));
        outputs::law_snapping_reaches_the_targets(app.dim@, app.dim@.names[j]);
    }
    outputs::law_snapping_reaches_the_targets(app.dim@, name);
    law_updates_reach_the_overlay(app, updates, k, i);
}

/// While a focused window moves, the dimming state has every known output at the
/// targets, none skipped and nothing fading; which has the focus stays. Where
/// none moves, it stays as it is.
pub proof fn law_moving_window_dims_every_output(app: App, name: Seq<char>)
    requires
        app.dim@.states.dom().contains(name),
    ensures
        ({
            let after = app.moving_dim(true);
            &&& after.transition is None
            &&& after.active == app.dim@.active
            &&& after.names == app.dim@.names
            &&& after.states.dom() == app.dim@.states.dom()
            &&& after.states[name].alpha == app.dim@.target_opacity
            &&& after.states[name].brightness == app.dim@.target_brightness
            &&& !after.states[name].skipped
            &&& after.target_opacity == app.dim@.target_opacity
            &&& after.target_brightness == app.dim@.target_brightness
            &&& app.moving_dim(false) == app.dim@
        }),
{
    assert(app.moving_dim(true).states.dom() =~= app.dim@.states.dom());
}

/// The keys of some surfaces tell the output and the role of each, in order.
pub proof fn law_keys_tell_output_and_role(surfaces: Seq<Surface>, i: int)
    requires
        0 <= i < surfaces.len(),
    ensures
        app::keys(surfaces).len() == surfaces.len(),
        app::keys(surfaces)[i].output == surfaces[i].output,
        app::keys(surfaces)[i].role == surfaces[i].role,
{
}

/// When the focus moves, to another output or to none, the overlay of the output
/// that loses it is painted at the target opacity at once, and its monitor goes
/// to the target brightness. Every other surface is left as it is.
pub proof fn law_focus_change_covers_the_output_that_loses_it(
    app: App,
    new_active: Option<Seq<char>>,
    i: int,
    name: Seq<char>,
    n: int,
)
    requires
        app.dim@.wf(),
        app.dim@.active == Some(name),
        new_active != Some(name),
        app.dim@.states.dom().contains(name),
        first_overlay(app.surfaces@, i, name),
    ensures
        ({
            let actions = app.overlays_actions(app.dim@.focus_updates(new_active));
            &&& paints_at(
                actions,
                app.surfaces@[i],
                app.config.color,
                app.dim@.target_opacity,
                app.wl.viewporter,
            )
            &&& sets_gamma(actions, app.surfaces@[i], app.dim@.target_brightness)
            &&& 0 <= n < actions.len() ==> exists|j: int|
                #![trigger app.surfaces@[j]]
                first_overlay(app.surfaces@, j, name) && shows(
                    actions[n],
                    app.surfaces@[j],
                    app.config.color,
                    app.dim@.target_opacity,
                    app.dim@.target_brightness,
                    app.wl.viewporter,
                )
        }),
{
    let updates = app.dim@.focus_updates(new_active);
    outputs::law_focus_change_shows_the_output_that_loses_it(app.dim@, new_active);
    assert(updates[0].name == name);
    law_updates_reach_the_overlay(app, updates, 0, i);
    if 0 <= n < app.overlays_actions(updates).len() {
        law_updates_show_nothing_else(app, updates, n);
    }
}

/// A frame of a reveal brings the overlay of the output being revealed to the
/// opacity that it has come to, and its monitor to that brightness.
pub proof fn law_reveal_frame_reaches_the_overlay(app: App, now: nat, i: int)
    requires
        app.dim@.wf(),
        app.dim@.transition matches Some(t) && t.start + t.delay <= now
            && app.dim@.states.dom().contains(t.revealing) && first_overlay(
            app.surfaces@,
            i,
            t.revealing,
        ),
    ensures
        ({
            let shade = app.dim@.ticked(now).states[app.dim@.transition->0.revealing];
            let actions = app.overlays_actions(app.dim@.tick_updates(now));
            &&& paints_at(
                actions,
                app.surfaces@[i],
                app.config.color,
                shade.alpha,
                app.wl.viewporter,
            )
            &&& sets_gamma(actions, app.surfaces@[i], shade.brightness)
        }),
{
    let t = app.dim@.transition->0;
    let updates = app.dim@.tick_updates(now);
    outputs::law_tick_by_the_clock(app.dim@, now, t.revealing);
    dimming::law_reveal_is_monotone(app.dim@, now, now);
    law_updates_reach_the_overlay(app, updates, 0, i);
}

/// Where nothing fades in, the overlay of every known output is brought to its
/// final look at once: transparent and at normal brightness where it has the
/// focus, at the targets elsewhere.
pub proof fn law_showing_at_once_reaches_every_overlay(
    app: App,
    before: DimView,
    i: int,
    name: Seq<char>,
)
    requires
        before.wf(),
        app.dim@ == before.snapped(),
        before.states.dom().contains(name),
        first_overlay(app.surfaces@, i, name),
    ensures
        ({
            let actions = app.overlays_actions(app.dim@.all_updates());
            let clear = before.states[name].skipped;
            &&& paints_at(
                actions,
                app.surfaces@[i],
                app.config.color,
                if clear {
                    0
                } else {
                    before.target_opacity
                },
                app.wl.viewporter,
            )
            &&& sets_gamma(
                actions,
                app.surfaces@[i],
                if clear {
                    WHOLE as int
                } else {
                    before.target_brightness
                },
            )
        }),
{
    let updates = app.dim@.all_updates();
    assert(before.names.to_set().contains(name));
    let k = before.names.index_of(name);
    assert(before.names[k] == name);
    assert forall|j: int| 0 <= j < updates.len() implies 0 <= (
    #[trigger] updates[j]).opacity <= WHOLE && 0 <= updates[j].brightness <= WHOLE by {
        assert(before.names.to_set().contains(before.names[j]));
        outputs::law_updates_tell_of_every_output(app.dim@, j);
        outputs::law_snapping_reaches_the_targets(before, before.names[j]);
    }
    outputs::law_updates_tell_of_every_output(app.dim@, k);
    outputs::law_snapping_reaches_the_targets(before, name);
    law_updates_reach_the_overlay(app, updates, k, i);
}

} // verus!
