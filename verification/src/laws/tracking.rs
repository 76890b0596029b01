//! Toplevels, the focus, and which surfaces are skipped.

use crate::app;
use crate::app::App;
use crate::dim;
use crate::laws::dimming;
use crate::names;
use crate::render::{Surface, SurfaceRole};
use crate::seqs;
use crate::state;
use crate::toplevel;
use crate::wayland;
use crate::wayland::{OutputInfo, ToplevelFocus, ToplevelState, ToplevelView};
use vstd::prelude::*;

verus! {

/// What has been stored of a toplevel is what is looked up, and storing one
/// changes nothing of another. No toplevel is tracked twice.
pub proof fn law_lookup_finds_what_was_stored(
    tops: Seq<ToplevelView>,
    top: ToplevelView,
    other: u32,
)
    requires
        wayland::handles(tops).no_duplicates(),
        other != top.handle,
    ensures
        wayland::handles(wayland::stored(tops, top)).no_duplicates(),
        wayland::lookup(wayland::stored(tops, top), top.handle) == top,
        wayland::lookup(wayland::stored(tops, top), other) == wayland::lookup(tops, other),
{
    let hs = wayland::handles(tops);
    let after = wayland::stored(tops, top);
    let hs2 = wayland::handles(after);
    if hs.contains(top.handle) {
        assert(hs2 =~= hs);
    } else {
        assert(hs2 =~= hs.push(top.handle));
        assert(hs2[hs.len() as int] == top.handle);
        if hs.contains(other) {
            assert(hs2[hs.index_of(other)] == other);
        }
        if hs2.contains(other) {
            assert(hs[hs2.index_of(other)] == other);
        }
    }
}

/// Nothing is known any more of a toplevel that has been removed, and removing
/// one changes nothing of another.
pub proof fn law_removed_toplevel_is_unknown(tops: Seq<ToplevelView>, handle: u32, other: u32)
    requires
        wayland::handles(tops).no_duplicates(),
        other != handle,
    ensures
        ({
            let after = tops.filter(|top: ToplevelView| top.handle != handle);
            &&& wayland::handles(after).no_duplicates()
            &&& wayland::lookup(after, handle) == ToplevelView::fresh(handle)
            &&& wayland::lookup(after, other) == wayland::lookup(tops, other)
        }),
{
    let others = |top: ToplevelView| top.handle != handle;
    let hs = wayland::handles(tops);
    let after = tops.filter(others);
    let hs2 = wayland::handles(after);
    if hs.contains(handle) {
        let i = hs.index_of(handle);
        assert forall|j: int| 0 <= j < tops.len() && j != i implies others(#[trigger] tops[j]) by {
            assert(hs[j] == tops[j].handle);
        }
        seqs::lemma_one_misfit(tops, others, i);
        assert(hs2 =~= hs.remove(i));
        assert(!hs2.contains(handle)) by {
            if hs2.contains(handle) {
                let k = hs2.index_of(handle);
                assert(hs2[k] == hs[if k < i {
                    k
                } else {
                    k + 1
                }]);
            }
        }
        if hs.contains(other) {
            let k = hs.index_of(other);
            assert(hs2[if k < i {
                k
            } else {
                k - 1
            }] == other);
        }
        if hs2.contains(other) {
            let k = hs2.index_of(other);
            assert(hs[if k < i {
                k
            } else {
                k + 1
            }] == other);
        }
    } else {
        assert forall|j: int| 0 <= j < tops.len() implies others(#[trigger] tops[j]) by {
            assert(hs[j] == tops[j].handle);
        }
        seqs::lemma_all_fit(tops, others);
    }
}

/// A toplevel has the focus exactly when the last state event held the activated
/// state, and its output is the active one exactly then.
pub proof fn law_focus_follows_the_activated_state(top: ToplevelView, states: Seq<ToplevelState>)
    ensures
        top.with_states(states).focus == ToplevelFocus::Active <==> states.contains(
            ToplevelState::Activated,
        ),
        top.with_states(states).active_output() == if states.contains(ToplevelState::Activated) {
            top.output
        } else {
            None
        },
        top.with_states(states).output == top.output,
{
}

/// The states of an array hold the activated one exactly when its number is
/// among those of the array: both engines see the same focus.
pub proof fn law_both_engines_see_the_same_focus(numbers: Seq<u32>)
    ensures
        wayland::known_states(numbers).contains(ToplevelState::Activated)
            <==> toplevel::has_activated(numbers),
    decreases numbers.len(),
{
    let f = |number: u32| wayland::wire_state(number);
    if numbers.len() == 0 {
        assert(numbers =~= Seq::empty());
        assert(numbers.filter_map(f).len() == 0);
    } else {
        let n = numbers.len() - 1;
        let rest = numbers.take(n);
        law_both_engines_see_the_same_focus(rest);
        numbers.lemma_filter_map_take_succ(f, n);
        assert(numbers.take(n + 1) =~= numbers);
        let before = rest.filter_map(f);
        let after = numbers.filter_map(f);
        if before.contains(ToplevelState::Activated) {
            let k = before.index_of(ToplevelState::Activated);
            assert(after[k] == ToplevelState::Activated);
        }
        if after.contains(ToplevelState::Activated) {
            let k = after.index_of(ToplevelState::Activated);
            if k < before.len() {
                assert(before[k] == ToplevelState::Activated);
            }
        }
        if rest.contains(toplevel::ACTIVATED) {
            let k = rest.index_of(toplevel::ACTIVATED);
            assert(numbers[k] == toplevel::ACTIVATED);
        }
        if numbers.contains(toplevel::ACTIVATED) {
            let k = numbers.index_of(toplevel::ACTIVATED);
            if k < n {
                assert(rest[k] == toplevel::ACTIVATED);
            }
        }
        if numbers[n] == toplevel::ACTIVATED {
            assert(after.last() == ToplevelState::Activated);
        }
    }
}

/// Backdrops are never skipped, nor is a surface whose output has no name.
pub proof fn law_backdrops_and_unnamed_are_never_skipped(
    role: SurfaceRole,
    output_name: Option<Seq<char>>,
    skip_names: Set<Seq<char>>,
    skip_active: bool,
    active_output: Option<Seq<char>>,
)
    requires
        role == SurfaceRole::Backdrop || output_name is None,
    ensures
        !state::skip_rule(role, output_name, skip_names, skip_active, active_output),
{
}

/// An overlay on a listed output is skipped whatever has the focus.
pub proof fn law_listed_outputs_are_always_skipped(
    name: Seq<char>,
    skip_names: Set<Seq<char>>,
    skip_active: bool,
    active_output: Option<Seq<char>>,
)
    requires
        skip_names.contains(name),
    ensures
        state::skip_rule(SurfaceRole::Overlay, Some(name), skip_names, skip_active, active_output),
{
}

/// An overlay on an output that is not listed is skipped exactly when the focus
/// is followed and is there.
pub proof fn law_unlisted_outputs_are_skipped_with_focus(
    name: Seq<char>,
    skip_names: Set<Seq<char>>,
    skip_active: bool,
    active_output: Option<Seq<char>>,
)
    requires
        !skip_names.contains(name),
    ensures
        state::skip_rule(SurfaceRole::Overlay, Some(name), skip_names, skip_active, active_output)
            <==> skip_active && active_output == Some(name),
{
}

/// Without focused toplevels no output has the focus: all are dimmed.
pub proof fn law_no_focus_without_focused_toplevels(app: App)
    requires
        forall|i: int|
            0 <= i < app.tops().len() ==> (#[trigger] app.tops()[i]).active_output() is None,
    ensures
        app.focused_name() is None,
{
    let wanted = |top: ToplevelView| top.active_output() is Some;
    seqs::lemma_none_fits(app.tops(), wanted, app.tops().len() as int);
}

/// An output with the focus is one that a focused toplevel is on.
pub proof fn law_focus_is_where_a_focused_toplevel_is(app: App)
    requires
        app.focused_name() is Some,
    ensures
        exists|top: ToplevelView|
            #![trigger app.tops().contains(top)]
            app.tops().contains(top) && top.focus == ToplevelFocus::Active && app::place(
                app.wl.outputs@,
                top,
            ) == app.focused_name(),
{
    let wanted = |top: ToplevelView| top.active_output() is Some;
    seqs::lemma_first_fits(app.tops(), wanted);
    let top = seqs::first(app.tops(), wanted)->0;
    assert(app.tops().contains(top));
}

/// No output that is skipped by name gets a surface or a dimming state of its
/// own.
pub proof fn law_listed_outputs_get_no_surfaces(app: App, i: int)
    requires
        0 <= i < app.covered().len(),
    ensures
        app.wl.outputs@.contains(app.covered()[i]),
        names::opt_view(app.covered()[i].name) matches Some(name)
            ==> !app.config.skip_names@.contains(name),
{
    seqs::lemma_filtered_fits(app.wl.outputs@, app.is_covered());
}

/// Every output that gets surfaces and has a name is registered for dimming,
/// transparent and at normal brightness.
pub proof fn law_covered_outputs_are_registered(
    before: dim::DimView,
    outputs: Seq<OutputInfo>,
    i: int,
)
    requires
        before.wf(),
        0 <= i < outputs.len(),
        outputs[i].name is Some,
    ensures
        app::registered(before, outputs).wf(),
        app::registered(before, outputs).states.dom().contains(outputs[i].name->0@),
        ({
            let shade = app::registered(before, outputs).states[outputs[i].name->0@];
            shade.alpha == 0 && shade.brightness == crate::fraction::WHOLE
        }),
    decreases outputs.len(),
{
    let rest = outputs.drop_last();
    lemma_registered_wf(before, rest);
    let middle = app::registered(before, rest);
    let name = outputs[i].name->0@;
    if i < rest.len() {
        law_covered_outputs_are_registered(before, rest, i);
        assert(rest[i] == outputs[i]);
    }
    if let Some(last) = names::opt_view(outputs.last().name) {
        dimming::law_added_output_is_there(middle, last, middle.active == Some(last));
        assert(app::registered(before, outputs) == middle.added(last, middle.active == Some(last)));
        assert(middle.added(last, middle.active == Some(last)).states.dom().contains(name));
    }
}

/// Registering keeps what holds of every state.
proof fn lemma_registered_wf(before: dim::DimView, outputs: Seq<OutputInfo>)
    requires
        before.wf(),
    ensures
        app::registered(before, outputs).wf(),
    decreases outputs.len(),
{
    if outputs.len() > 0 {
        let rest = outputs.drop_last();
        lemma_registered_wf(before, rest);
        let middle = app::registered(before, rest);
        if let Some(last) = names::opt_view(outputs.last().name) {
            dimming::law_added_output_is_there(middle, last, middle.active == Some(last));
        }
    }
}

/// After an output is gone, no surface is left on it and nothing of the dimming
/// state refers to it.
pub proof fn law_destroyed_output_leaves_nothing(
    surfaces: Seq<Surface>,
    before: dim::DimView,
    name: Seq<char>,
    k: int,
)
    requires
        before.wf(),
        0 <= k < surfaces.filter(|surface: Surface| !app::is_on(surface, name)).len(),
    ensures
        !app::is_on(surfaces.filter(|surface: Surface| !app::is_on(surface, name))[k], name),
        !before.removed(name).states.dom().contains(name),
        before.removed(name).active != Some(name),
        before.removed(name).transition matches Some(t) ==> t.revealing != name,
{
    seqs::lemma_filtered_fits(surfaces, |surface: Surface| !app::is_on(surface, name));
    dimming::law_removed_output_is_gone(before, name);
}

/// What has been stored of a toplevel in the direct engine is what is looked up,
/// and storing one changes nothing of another.
pub proof fn law_direct_lookup_finds_what_was_stored(
    tops: Seq<toplevel::TrackedToplevel>,
    top: toplevel::TrackedToplevel,
    other: u32,
)
    requires
        toplevel::handles(tops).no_duplicates(),
        other != top.handle,
    ensures
        toplevel::handles(toplevel::stored(tops, top)).no_duplicates(),
        toplevel::lookup(toplevel::stored(tops, top), top.handle) == top,
        toplevel::lookup(toplevel::stored(tops, top), other) == toplevel::lookup(tops, other),
{
    let hs = toplevel::handles(tops);
    let after = toplevel::stored(tops, top);
    let hs2 = toplevel::handles(after);
    if hs.contains(top.handle) {
        assert(hs2 =~= hs);
    } else {
        assert(hs2 =~= hs.push(top.handle));
        assert(hs2[hs.len() as int] == top.handle);
        if hs.contains(other) {
            assert(hs2[hs.index_of(other)] == other);
        }
        if hs2.contains(other) {
            assert(hs[hs2.index_of(other)] == other);
        }
    }
}

/// In the direct engine, dimming an output drops a transition exactly when that
/// reveals it.
pub proof fn law_direct_snap_drops_only_its_own_transition(
    engine: state::ZenState,
    snapped: Option<Seq<char>>,
)
    requires
        engine.transition is Some,
    ensures
        engine.surviving(snapped) is None <==> snapped is Some && names::opt_view(
            engine.transition->0.revealing,
        ) == snapped,
        engine.surviving(snapped) is Some ==> engine.surviving(snapped) == engine.transition,
{
}

} // verus!
