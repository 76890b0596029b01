//! What is known of windows and outputs, and what follows from it.

use crate::app;
use crate::app::{App, AppPhase, NewSurface};
use crate::dim::DimView;
use crate::fraction::WHOLE;
use crate::gamma::ByteOrder;
use crate::laws::tracking;
use crate::render::{GammaState, Surface, SurfaceConfig, SurfaceRole};
use crate::seqs;
use crate::wayland;
use crate::wayland::{OutputInfo, ToplevelEvent, ToplevelFocus, ToplevelState, ToplevelView};
use crate::window::SpawnMode;
use vstd::prelude::*;

verus! {

/// Whether the compositor has told that name of an output: it is the one that
/// the first entry of the output holds.
pub open spec fn is_called(outputs: Seq<OutputInfo>, id: u32, name: Seq<char>) -> bool {
    exists|k: int|
        #![trigger outputs[k]]
        0 <= k < outputs.len() && outputs[k].id == id && (outputs[k].name matches Some(own) && own@
            == name) && forall|j: int| 0 <= j < k ==> (#[trigger] outputs[j]).id != id
}

/// The name of an output is the one that the compositor has told, if any.
pub proof fn law_outputs_go_by_their_names(outputs: Seq<OutputInfo>, id: u32, name: Seq<char>)
    ensures
        wayland::name_of(outputs, id) == Some(name) <==> is_called(outputs, id, name),
{
    let wanted = |output: OutputInfo| output.id == id;
    let k = lemma_find_output(outputs, id, outputs.len() as int);
    if k < outputs.len() {
        seqs::lemma_first_at(outputs, wanted, k);
        if is_called(outputs, id, name) {
            let m = choose|m: int|
                #![trigger outputs[m]]
                0 <= m < outputs.len() && outputs[m].id == id && (outputs[m].name matches Some(own)
                    && own@ == name) && forall|j: int|
                    0 <= j < m ==> (#[trigger] outputs[j]).id != id;
            assert(m == k) by {
                if m < k {
                    assert(outputs[m].id != id);
                } else if k < m {
                    assert(outputs[k].id != id);
                }
            }
        }
        if wayland::name_of(outputs, id) == Some(name) {
            assert(outputs[k].name matches Some(own) && own@ == name);
        }
    } else {
        seqs::lemma_none_fits(outputs, wanted, outputs.len() as int);
    }
}

/// Where the first entry of an output is among the first `n`, or `n` where there
/// is none.
proof fn lemma_find_output(outputs: Seq<OutputInfo>, id: u32, n: int) -> (k: int)
    requires
        0 <= n <= outputs.len(),
    ensures
        0 <= k <= n,
        k < n ==> outputs[k].id == id,
        forall|j: int| 0 <= j < k ==> (#[trigger] outputs[j]).id != id,
    decreases n,
{
    if n == 0 {
        0
    } else {
        let k = lemma_find_output(outputs, id, n - 1);
        if k < n - 1 || outputs[n - 1].id == id {
            k
        } else {
            n
        }
    }
}

/// An array of bytes holds a number for every four bytes, lowest or highest byte
/// first as the machine has it.
pub proof fn law_numbers_take_four_bytes(raw: Seq<u8>, order: ByteOrder, i: int)
    requires
        0 <= i < raw.len() / 4,
    ensures
        wayland::words(raw, order).len() == raw.len() / 4,
        order is Little ==> wayland::words(raw, order)[i] == raw[4 * i] + 0x100 * raw[4 * i + 1]
            + 0x1_0000 * raw[4 * i + 2] + 0x100_0000 * raw[4 * i + 3],
        order is Big ==> wayland::words(raw, order)[i] == raw[4 * i + 3] + 0x100 * raw[4 * i + 2]
            + 0x1_0000 * raw[4 * i + 1] + 0x100_0000 * raw[4 * i],
{
}

/// Mapping keeps exactly what some item is mapped to.
proof fn lemma_known(numbers: Seq<u32>, state: ToplevelState)
    ensures
        wayland::known_states(numbers).contains(state) <==> exists|i: int|
            0 <= i < numbers.len() && wayland::wire_state(#[trigger] numbers[i]) == Some(state),
{
    let f = |number: u32| wayland::wire_state(number);
    let known = wayland::known_states(numbers);
    if exists|i: int|
        0 <= i < numbers.len() && wayland::wire_state(#[trigger] numbers[i]) == Some(state) {
        let i = choose|i: int|
            0 <= i < numbers.len() && wayland::wire_state(#[trigger] numbers[i]) == Some(state);
        seqs::lemma_filter_map_contains(numbers, f, i);
    } else {
        let holds = |kept: ToplevelState| kept != state;
        assert forall|i: int| 0 <= i < numbers.len() implies (#[trigger] f(
            numbers[i],
        ) matches Some(kept) ==> holds(kept)) by {
            assert(wayland::wire_state(numbers[i]) != Some(state));
        }
        seqs::lemma_filter_map_all(numbers, f, holds);
        if known.contains(state) {
            let k = known.index_of(state);
            assert(holds(known[k]));
        }
    }
}

/// A state event tells of a state exactly when the number of that state is among
/// its numbers. Numbers that stand for nothing known change nothing.
pub proof fn law_states_go_by_their_numbers(numbers: Seq<u32>)
    ensures
        wayland::known_states(numbers).contains(ToplevelState::Maximized) <==> numbers.contains(0),
        wayland::known_states(numbers).contains(ToplevelState::Minimized) <==> numbers.contains(1),
        wayland::known_states(numbers).contains(ToplevelState::Activated) <==> numbers.contains(2),
        wayland::known_states(numbers).contains(ToplevelState::Fullscreen) <==> numbers.contains(
            3,
        ),
{
    lemma_known(numbers, ToplevelState::Maximized);
    lemma_known(numbers, ToplevelState::Minimized);
    lemma_known(numbers, ToplevelState::Activated);
    lemma_known(numbers, ToplevelState::Fullscreen);
    assert forall|number: u32| #[trigger] numbers.contains(number) implies exists|i: int|
        0 <= i < numbers.len() && #[trigger] numbers[i] == number by {}
    assert forall|i: int| 0 <= i < numbers.len() implies numbers.contains(
        #[trigger] numbers[i],
    ) by {}
    if numbers.contains(0) {
        let i = numbers.index_of(0);
        assert(wayland::wire_state(numbers[i]) == Some(ToplevelState::Maximized));
    }
    if numbers.contains(1) {
        let i = numbers.index_of(1);
        assert(wayland::wire_state(numbers[i]) == Some(ToplevelState::Minimized));
    }
    if numbers.contains(2) {
        let i = numbers.index_of(2);
        assert(wayland::wire_state(numbers[i]) == Some(ToplevelState::Activated));
    }
    if numbers.contains(3) {
        let i = numbers.index_of(3);
        assert(wayland::wire_state(numbers[i]) == Some(ToplevelState::Fullscreen));
    }
}

/// What is known of a toplevel is its entry. Of one without an entry nothing is
/// known: it is on no output, has no focus and is in no state.
pub proof fn law_toplevels_go_by_their_handles(tops: Seq<ToplevelView>, handle: u32)
    requires
        forall|i: int, j: int|
            0 <= i < j < tops.len() ==> (#[trigger] tops[i]).handle != (#[trigger] tops[j]).handle,
    ensures
        forall|i: int|
            0 <= i < tops.len() && (#[trigger] tops[i]).handle == handle ==> wayland::lookup(
                tops,
                handle,
            ) == tops[i],
        (forall|i: int| 0 <= i < tops.len() ==> (#[trigger] tops[i]).handle != handle) ==> {
            let top = wayland::lookup(tops, handle);
            &&& top.handle == handle
            &&& top.output is None
            &&& top.focus == ToplevelFocus::Inactive
            &&& top.states.len() == 0
        },
{
    let hs = wayland::handles(tops);
    assert forall|i: int|
        0 <= i < tops.len() && (#[trigger] tops[i]).handle == handle implies wayland::lookup(
        tops,
        handle,
    ) == tops[i] by {
        assert(hs[i] == handle);
        let k = hs.index_of(handle);
        assert(hs[k] == tops[k].handle);
        if k < i {
            assert(tops[k].handle != tops[i].handle);
        } else if i < k {
            assert(tops[i].handle != tops[k].handle);
        }
    }
}

/// What an event tells of a toplevel is what is known of it from then on, and
/// all else that was known of it stays. A closed one is not known any more.
pub proof fn law_events_tell_of_their_toplevel(
    app: App,
    handle: u32,
    event: ToplevelEvent,
    order: ByteOrder,
)
    requires
        app.wf(),
    ensures
        ({
            let before = wayland::lookup(app.tops(), handle);
            let after = wayland::lookup(app.event_tops(handle, event, order), handle);
            &&& after.handle == handle
            &&& event matches ToplevelEvent::OutputEnter { output } ==> after.output == Some(
                output,
            ) && after.focus == before.focus && after.states == before.states
            &&& event matches ToplevelEvent::OutputLeave { output } ==> {
                &&& after.output == if before.output == Some(output) {
                    None
                } else {
                    before.output
                }
                &&& after.focus == before.focus
                &&& after.states == before.states
            }
            &&& event matches ToplevelEvent::State { raw } ==> {
                let numbers = wayland::words(raw@, order);
                &&& after.output == before.output
                &&& after.focus == ToplevelFocus::Active <==> numbers.contains(2)
                &&& after.states.contains(ToplevelState::Fullscreen) <==> numbers.contains(3)
                &&& after.states.contains(ToplevelState::Activated) <==> numbers.contains(2)
            }
            &&& event is Done ==> after == before && app.event_tops(handle, event, order)
                == app.tops()
            &&& event is Closed ==> after.output is None && after.focus == ToplevelFocus::Inactive
                && after.states.len() == 0
        }),
{
    let tops = app.tops();
    let top = wayland::lookup(tops, handle);
    let hs = wayland::handles(tops);
    if hs.contains(handle) {
        assert(hs[hs.index_of(handle)] == handle);
    }
    assert(top.handle == handle);
    let other: u32 = if handle == 0 {
        1
    } else {
        0
    };
    match event {
        ToplevelEvent::OutputEnter { output } => {
            tracking::law_lookup_finds_what_was_stored(
                tops,
                ToplevelView { output: Some(output), ..top },
                other,
            );
        },
        ToplevelEvent::OutputLeave { output } => {
            tracking::law_lookup_finds_what_was_stored(tops, top.having_left(output), other);
        },
        ToplevelEvent::State { raw } => {
            let numbers = wayland::words(raw@, order);
            law_states_go_by_their_numbers(numbers);
            tracking::law_lookup_finds_what_was_stored(
                tops,
                top.with_states(wayland::known_states(numbers)),
                other,
            );
        },
        ToplevelEvent::Done => {},
        ToplevelEvent::Closed => {
            tracking::law_removed_toplevel_is_unknown(tops, handle, other);
        },
    }
}

/// The focus is on the output of the first toplevel that has the focus and is on
/// an output, if the name of that output is known. Without such a toplevel it is
/// on none.
pub proof fn law_focus_is_on_the_output_of_the_focused_toplevel(
    app: App,
    i: int,
    output: u32,
    name: Seq<char>,
)
    requires
        0 <= i < app.tops().len(),
        app.tops()[i].focus == ToplevelFocus::Active,
        app.tops()[i].output == Some(output),
        forall|j: int|
            0 <= j < i ==> (#[trigger] app.tops()[j]).focus == ToplevelFocus::Inactive
                || app.tops()[j].output is None,
    ensures
        app.focused_name() == Some(name) <==> is_called(app.wl.outputs@, output, name),
{
    let wanted = |top: ToplevelView| top.active_output() is Some;
    seqs::lemma_first_at(app.tops(), wanted, i);
    law_outputs_go_by_their_names(app.wl.outputs@, output, name);
}

/// Without a toplevel that has the focus and is on an output, the focus is on
/// none.
pub proof fn law_no_focused_toplevel_no_focus(app: App)
    requires
        forall|j: int|
            0 <= j < app.tops().len() ==> (#[trigger] app.tops()[j]).focus
                == ToplevelFocus::Inactive || app.tops()[j].output is None,
    ensures
        app.focused_name() is None,
{
    let wanted = |top: ToplevelView| top.active_output() is Some;
    seqs::lemma_none_fits(app.tops(), wanted, app.tops().len() as int);
}

/// Whether a toplevel is the window of a launch, on the output of a name: it was
/// not there before, and it is fullscreen, whatever else it is.
pub open spec fn is_the_launched_window(app: App, top: ToplevelView, name: Seq<char>) -> bool {
    &&& forall|j: int|
        0 <= j < app.launched_over@.len() ==> #[trigger] app.launched_over@[j] != top.handle
    &&& exists|j: int|
        0 <= j < top.states.len() && #[trigger] top.states[j] == ToplevelState::Fullscreen
    &&& top.output matches Some(output) && is_called(app.wl.outputs@, output, name)
}

/// Once a new fullscreen window is on an output whose name is known, a launch
/// has its place: the output of the first such window.
pub proof fn law_new_fullscreen_window_is_found(app: App, i: int, name: Seq<char>)
    requires
        0 <= i < app.tops().len(),
        is_the_launched_window(app, app.tops()[i], name),
    ensures
        app.launch_place() is Some,
        (forall|j: int, other: Seq<char>|
            0 <= j < i ==> !(#[trigger] is_the_launched_window(app, app.tops()[j], other)))
            ==> app.launch_place() == Some(name),
{
    let top = app.tops()[i];
    lemma_launched(app, top, name);
    seqs::lemma_first_fits(app.tops(), app.is_launched());
    assert(app.is_launched()(top));
    if forall|j: int, other: Seq<char>|
        0 <= j < i ==> !(#[trigger] is_the_launched_window(app, app.tops()[j], other)) {
        assert forall|j: int| 0 <= j < i implies !app.is_launched()(#[trigger] app.tops()[j]) by {
            if app.is_launched()(app.tops()[j]) {
                let other = app::place(app.wl.outputs@, app.tops()[j])->0;
                lemma_launched(app, app.tops()[j], other);
                assert(is_the_launched_window(app, app.tops()[j], other));
            }
        }
        seqs::lemma_first_at(app.tops(), app.is_launched(), i);
    }
}

/// Which windows count as launched, in terms of what is known of them.
proof fn lemma_launched(app: App, top: ToplevelView, name: Seq<char>)
    ensures
        is_the_launched_window(app, top, name) <==> app.is_launched()(top) && app::place(
            app.wl.outputs@,
            top,
        ) == Some(name),
{
    if let Some(output) = top.output {
        law_outputs_go_by_their_names(app.wl.outputs@, output, name);
    }
    if top.states.contains(ToplevelState::Fullscreen) {
        let j = top.states.index_of(ToplevelState::Fullscreen);
        assert(top.states[j] == ToplevelState::Fullscreen);
    }
    if app.launched_over@.contains(top.handle) {
        let j = app.launched_over@.index_of(top.handle);
        assert(app.launched_over@[j] == top.handle);
    }
    if !app.launched_over@.contains(top.handle) {
        assert forall|j: int|
            0 <= j < app.launched_over@.len() implies #[trigger] app.launched_over@[j]
            != top.handle by {}
    }
}

/// Without a new fullscreen window on an output whose name is known, a launch
/// has no place yet.
pub proof fn law_no_new_fullscreen_window_no_place(app: App)
    requires
        forall|j: int, name: Seq<char>|
            0 <= j < app.tops().len() ==> !(#[trigger] is_the_launched_window(
                app,
                app.tops()[j],
                name,
            )),
    ensures
        app.launch_place() is None,
{
    assert forall|j: int| 0 <= j < app.tops().len() implies !app.is_launched()(
        #[trigger] app.tops()[j],
    ) by {
        if app.is_launched()(app.tops()[j]) {
            let name = app::place(app.wl.outputs@, app.tops()[j])->0;
            lemma_launched(app, app.tops()[j], name);
            assert(is_the_launched_window(app, app.tops()[j], name));
        }
    }
    seqs::lemma_none_fits(app.tops(), app.is_launched(), app.tops().len() as int);
}

/// While a launch waits, the event that completes a new fullscreen window ends
/// the wait: some output becomes the one with the focus, its reveal starts, and
/// the loop goes over to the steady state. Nothing is painted yet.
pub proof fn law_new_fullscreen_window_ends_the_wait(
    app: App,
    handle: u32,
    now: nat,
    i: int,
    name: Seq<char>,
)
    requires
        app.phase == AppPhase::WaitingForReveal,
        0 <= i < app.tops().len(),
        is_the_launched_window(app, app.tops()[i], name),
    ensures
        ({
            let after = app.event_dim(handle, ToplevelEvent::Done, now);
            &&& app.event_phase(ToplevelEvent::Done) == AppPhase::Running
            &&& after.active is Some
            &&& after.transition matches Some(t) && t.start == now && t.delay == 50_000_000
                && t.duration == 200_000_000 && after.active == Some(t.revealing)
            &&& app.dim@.states.dom().contains(after.active->0)
                ==> after.states[after.active->0].skipped
            &&& app.event_actions(handle, ToplevelEvent::Done).len() == 0
            &&& (forall|j: int, other: Seq<char>|
                0 <= j < i ==> !(#[trigger] is_the_launched_window(app, app.tops()[j], other)))
                ==> after.active == Some(name)
        }),
{
    law_new_fullscreen_window_is_found(app, i, name);
}

/// While a launch waits, nothing but the completion of a new fullscreen window
/// ends the wait.
pub proof fn law_nothing_else_ends_the_wait(
    app: App,
    handle: u32,
    event: ToplevelEvent,
    now: nat,
)
    requires
        app.phase == AppPhase::WaitingForReveal,
        event is Done ==> forall|j: int, name: Seq<char>|
            0 <= j < app.tops().len() ==> !(#[trigger] is_the_launched_window(
                app,
                app.tops()[j],
                name,
            )),
    ensures
        app.event_phase(event) == AppPhase::WaitingForReveal,
        event is Done || event is State || event is Closed ==> app.event_dim(handle, event, now)
            == app.dim@ && app.event_actions(handle, event).len() == 0,
{
    if event is Done {
        law_no_new_fullscreen_window_no_place(app);
    }
}

/// In the steady state, and while a fade-in that is no launch runs, an event that
/// completes what was told of a toplevel moves the focus to where the focused
/// toplevel is: the output that loses it is at the targets, and the one that
/// gains it is revealed after a delay.
pub proof fn law_completed_event_follows_the_focus(
    app: App,
    handle: u32,
    now: nat,
    i: int,
    output: u32,
    name: Seq<char>,
    other: Seq<char>,
)
    requires
        app.phase != AppPhase::WaitingForReveal,
        app.phase != AppPhase::FadingIn || app.config.spawn_mode == SpawnMode::Standard,
        0 <= i < app.tops().len(),
        app.tops()[i].focus == ToplevelFocus::Active,
        app.tops()[i].output == Some(output),
        forall|j: int|
            0 <= j < i ==> (#[trigger] app.tops()[j]).focus == ToplevelFocus::Inactive
                || app.tops()[j].output is None,
        is_called(app.wl.outputs@, output, name),
    ensures
        ({
            let after = app.event_dim(handle, ToplevelEvent::Done, now);
            &&& after.active == Some(name)
            &&& app.dim@.active == Some(name) ==> after == app.dim@
            &&& app.dim@.active != Some(name) ==> (after.transition matches Some(t) && t.start
                == now && t.delay == 325_000_000 && t.duration == 150_000_000 && t.revealing
                == name)
            &&& app.dim@.active == Some(other) && other != name
                && app.dim@.states.dom().contains(other) ==> after.states[other].alpha
                == app.dim@.target_opacity && after.states[other].brightness
                == app.dim@.target_brightness && !after.states[other].skipped
            &&& app.event_phase(ToplevelEvent::Done) == app.phase
        }),
{
    law_focus_is_on_the_output_of_the_focused_toplevel(app, i, output, name);
}

/// In the steady state, once no toplevel has the focus, the output that had it
/// is dimmed to the targets at the next completed event.
pub proof fn law_completed_event_without_focus_dims(
    app: App,
    handle: u32,
    now: nat,
    name: Seq<char>,
)
    requires
        app.phase == AppPhase::Running,
        app.dim@.active == Some(name),
        app.dim@.states.dom().contains(name),
        forall|j: int|
            0 <= j < app.tops().len() ==> (#[trigger] app.tops()[j]).focus
                == ToplevelFocus::Inactive || app.tops()[j].output is None,
    ensures
        ({
            let after = app.event_dim(handle, ToplevelEvent::Done, now);
            &&& after.active is None
            &&& after.states[name].alpha == app.dim@.target_opacity
            &&& after.states[name].brightness == app.dim@.target_brightness
            &&& !after.states[name].skipped
            &&& after.transition == app.dim@.transition
        }),
{
    law_no_focused_toplevel_no_focus(app);
}

/// A completed event shows what the focus change shows, a window that moves
/// shows all outputs dimmed, and no other event shows or dims anything. A
/// toplevel moves when it has the focus and enters another output than its own,
/// or leaves one.
pub proof fn law_events_show_what_they_change(app: App, handle: u32, event: ToplevelEvent, now: nat)
    ensures
        ({
            let top = wayland::lookup(app.tops(), handle);
            let focused = top.focus == ToplevelFocus::Active;
            let moves = match event {
                ToplevelEvent::OutputEnter { output } => focused && top.output is Some && top.output
                    != Some(output),
                ToplevelEvent::OutputLeave { output: _ } => focused,
                _ => false,
            };
            &&& !(event is Done) ==> app.event_dim(handle, event, now) == app.moving_dim(moves)
                && app.event_actions(handle, event) == app.moving_actions(moves)
            &&& event is Done && app.phase != AppPhase::WaitingForReveal && (app.phase
                != AppPhase::FadingIn || app.config.spawn_mode == SpawnMode::Standard)
                ==> app.event_dim(handle, event, now) == app.dim@.focused(app.focused_name(), now)
                && app.event_actions(handle, event) == app.overlays_actions(
                app.dim@.focus_updates(app.focused_name()),
            )
            &&& event is Done && app.phase == AppPhase::FadingIn && app.config.spawn_mode
                == SpawnMode::SpawnWith ==> app.event_dim(handle, event, now) == app.dim@
                && app.event_actions(handle, event).len() == 0
            &&& !(event is Done) ==> app.event_phase(event) == app.phase
        }),
{
}

/// An output gets surfaces unless its name is one of those to skip. No other
/// output gets any.
pub proof fn law_outputs_get_surfaces_unless_listed(app: App, i: int)
    requires
        0 <= i < app.wl.outputs@.len(),
    ensures
        !(app.wl.outputs@[i].name matches Some(name) && app.config.skip_names@.contains(name@))
            ==> app.covered().contains(app.wl.outputs@[i]),
        forall|k: int|
            0 <= k < app.covered().len() ==> app.wl.outputs@.contains(
                #[trigger] app.covered()[k],
            ) && !(app.covered()[k].name matches Some(name) && app.config.skip_names@.contains(
                name@,
            )),
{
    broadcast use vstd::seq_lib::group_filter_ensures;

    seqs::lemma_filtered_fits(app.wl.outputs@, app.is_covered());
    if app.is_covered()(app.wl.outputs@[i]) {
        assert(app.covered().contains(app.wl.outputs@[i]));
    }
}

/// A new surface is on its output and waits for its size. It has what the
/// compositor offers; alpha modifiers and gamma control are for overlays, and
/// gamma control only where brightness is to be dimmed. An overlay that is to
/// fade in starts transparent.
pub proof fn law_new_surfaces_have_what_is_offered(
    app: App,
    surface: Surface,
    output: OutputInfo,
    role: SurfaceRole,
    created: NewSurface,
)
    requires
        app.is_new(surface, output, role),
        created == app.new_surface(output.id, role),
    ensures
        ({
            let overlay = role == SurfaceRole::Overlay;
            let gamma = overlay && app.config.target_brightness is Some && app.wl.gamma_manager;
            &&& surface.output == output.id
            &&& output.name matches Some(name) ==> (surface.output_name matches Some(own) && own@
                == name@)
            &&& output.name is None ==> surface.output_name is None
            &&& surface.role == role
            &&& surface.config == SurfaceConfig::Pending
            &&& surface.viewport == app.wl.viewporter
            &&& surface.alpha_modifier == (overlay && app.wl.alpha_modifier)
            &&& gamma ==> surface.gamma == GammaState::Pending(output.id)
            &&& !gamma ==> surface.gamma == GammaState::Unavailable
            &&& created.key.output == output.id
            &&& created.key.role == role
            &&& created.viewport == surface.viewport
            &&& created.alpha_modifier == surface.alpha_modifier
            &&& created.gamma == gamma
            &&& created.multiplier == if surface.alpha_modifier && app.config.fade_duration
                is Some {
                Some(0u32)
            } else {
                None
            }
        }),
{
}

/// The surfaces of an output come in pairs: first the backdrop, then the overlay.
pub proof fn law_surfaces_come_in_pairs(pair: int)
    ensures
        app::role_at(2 * pair) == SurfaceRole::Backdrop,
        app::role_at(2 * pair + 1) == SurfaceRole::Overlay,
{
}

/// Registering outputs gives no output the focus that did not have it: the one
/// that has it is skipped, and no other. What fades goes on fading.
pub proof fn law_registering_keeps_the_focus(before: DimView, outputs: Seq<OutputInfo>, i: int)
    requires
        0 <= i < outputs.len(),
    ensures
        ({
            let after = app::registered(before, outputs);
            &&& after.active == before.active
            &&& after.transition == before.transition
            &&& after.target_opacity == before.target_opacity
            &&& after.target_brightness == before.target_brightness
            &&& outputs[i].name matches Some(name) ==> {
                &&& after.states.dom().contains(name@)
                &&& after.states[name@].alpha == 0
                &&& after.states[name@].brightness == WHOLE
                &&& after.states[name@].skipped == (before.active == Some(name@))
            }
        }),
    decreases outputs.len(),
{
    let rest = outputs.drop_last();
    if rest.len() > 0 {
        let j = if i < rest.len() {
            i
        } else {
            0
        };
        law_registering_keeps_the_focus(before, rest, j);
        assert(rest[j] == outputs[j]);
    } else {
        assert(app::registered(before, rest) == before);
    }
}

/// Registering outputs leaves those alone that are not among them.
pub proof fn law_registering_leaves_others_alone(
    before: DimView,
    outputs: Seq<OutputInfo>,
    other: Seq<char>,
)
    requires
        forall|i: int|
            0 <= i < outputs.len() ==> !((#[trigger] outputs[i]).name matches Some(name) && name@
                == other),
    ensures
        app::registered(before, outputs).states.dom().contains(other)
            == before.states.dom().contains(other),
        app::registered(before, outputs).states[other] == before.states[other],
    decreases outputs.len(),
{
    if outputs.len() > 0 {
        let rest = outputs.drop_last();
        assert forall|i: int| 0 <= i < rest.len() implies !((#[trigger] rest[i]).name matches Some(
            name,
        ) && name@ == other) by {
            assert(rest[i] == outputs[i]);
        }
        law_registering_leaves_others_alone(before, rest, other);
        assert(outputs[outputs.len() - 1] == outputs.last());
    }
}

} // verus!
