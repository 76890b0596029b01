//! The dimming state of all outputs.

use crate::dim;
use crate::dim::{DimView, ShadeView, UpdateView};
use crate::fraction;
use crate::fraction::WHOLE;
use crate::laws::fading;
use crate::span;
use vstd::prelude::*;

verus! {

/// Every update holds the opacity and the brightness that the state has after
/// the change: the two never drift apart.
pub proof fn law_updates_match_the_state(
    state: DimView,
    new_active: Option<Seq<char>>,
    now: nat,
)
    ensures
        forall|i: int|
            0 <= i < state.focus_updates(new_active).len() ==> #[trigger] state.focus_updates(
                new_active,
            )[i] == state.focused(new_active, now).update(state.focus_updates(new_active)[i].name),
        forall|i: int|
            0 <= i < state.tick_updates(now).len() ==> #[trigger] state.tick_updates(now)[i]
                == state.ticked(now).update(state.tick_updates(now)[i].name),
{
}

/// The focus going where it already is changes nothing.
pub proof fn law_same_focus_is_quiet(state: DimView, now: nat)
    ensures
        state.focused(state.active, now) == state,
        state.focus_updates(state.active) == Seq::<UpdateView>::empty(),
{
}

/// When the focus moves between two known outputs, the old one is dimmed at
/// once and the new one is marked as skipped, but looks as it did. All others
/// stay as they were. The new one is revealed after a delay.
pub proof fn law_focus_moves(state: DimView, old_name: Seq<char>, new_name: Seq<char>, now: nat)
    requires
        state.active == Some(old_name),
        old_name != new_name,
        state.states.dom().contains(old_name),
        state.states.dom().contains(new_name),
    ensures
        ({
            let after = state.focused(Some(new_name), now);
            &&& after.active == Some(new_name)
            &&& after.states[old_name] == state.dimmed()
            &&& after.states[new_name] == (ShadeView { skipped: true, ..state.states[new_name] })
            &&& forall|name: Seq<char>|
                name != old_name && name != new_name && state.states.dom().contains(name)
                    ==> #[trigger] after.states[name] == state.states[name]
            &&& after.states.dom() == state.states.dom()
            &&& after.transition == Some(
                dim::fresh_transition(
                    now,
                    dim::FOCUS_DELAY_MILLIS,
                    dim::FOCUS_FADE_MILLIS,
                    new_name,
                ),
            )
            &&& state.focus_updates(Some(new_name)) == seq![
                UpdateView {
                    name: old_name,
                    opacity: state.target_opacity,
                    brightness: state.target_brightness,
                },
            ]
        }),
{
    let after = state.focused(Some(new_name), now);
    assert(after.states.dom() =~= state.states.dom());
}

/// Until the delay has passed, a tick changes nothing and shows nothing.
pub proof fn law_nothing_moves_before_the_delay(state: DimView, now: nat)
    requires
        state.transition matches Some(t) && t.waiting(now),
    ensures
        state.ticked(now) == state,
        state.tick_updates(now) == Seq::<UpdateView>::empty(),
{
}

/// Without a transition, a tick changes nothing and shows nothing.
pub proof fn law_idle_tick_is_quiet(state: DimView, now: nat)
    requires
        state.transition is None,
    ensures
        state.ticked(now) == state,
        state.tick_updates(now) == Seq::<UpdateView>::empty(),
{
}

/// A tick touches no output but the one being revealed.
pub proof fn law_tick_leaves_others_alone(state: DimView, now: nat, name: Seq<char>)
    requires
        state.states.dom().contains(name),
        state.transition matches Some(t) ==> t.revealing != name,
    ensures
        state.ticked(now).states.dom().contains(name),
        state.ticked(now).states[name] == state.states[name],
        forall|i: int|
            0 <= i < state.tick_updates(now).len() ==> (#[trigger] state.tick_updates(
                now,
            )[i]).name != name,
{
}

/// While an output is revealed, its opacity never rises and its brightness never
/// falls; both stay between dimmed and undimmed.
pub proof fn law_reveal_is_monotone(state: DimView, earlier: nat, later: nat)
    requires
        state.wf(),
        state.transition matches Some(t) && !t.waiting(earlier) && state.states.dom().contains(
            t.revealing,
        ),
        earlier <= later,
    ensures
        ({
            let name = state.transition->0.revealing;
            let before = state.ticked(earlier).states[name];
            let after = state.ticked(later).states[name];
            &&& 0 <= after.alpha <= before.alpha <= state.target_opacity
            &&& state.target_brightness <= before.brightness <= after.brightness <= WHOLE
        }),
{
    let t = state.transition->0;
    let e1 = (dim::elapsed_since(earlier, t.start) - t.delay) as nat;
    let e2 = (dim::elapsed_since(later, t.start) - t.delay) as nat;
    let (p1, p2) = (
        fraction::progress_parts(e1, t.duration),
        fraction::progress_parts(e2, t.duration),
    );
    fraction::lemma_progress_bounds(e1, t.duration);
    fraction::lemma_progress_bounds(e2, t.duration);
    fraction::lemma_progress_monotone(e1, e2, t.duration);
    fraction::lemma_eased_bounds(p1);
    fraction::lemma_eased_bounds(p2);
    fraction::lemma_eased_monotone(p1, p2);
    let (a, b) = (fraction::eased(p1), fraction::eased(p2));
    fraction::lemma_product_monotone(
        state.target_opacity,
        WHOLE - b,
        state.target_opacity,
        WHOLE - a,
    );
    fraction::lemma_product_bounds(state.target_opacity, WHOLE - a);
    fraction::lemma_product_bounds(state.target_opacity, WHOLE - b);
    let gap = WHOLE - state.target_brightness;
    fraction::lemma_product_monotone(gap, a, gap, b);
    fraction::lemma_product_bounds(gap, a);
    fraction::lemma_product_bounds(gap, b);
}

/// The moment the delay has passed, the output being revealed is shown fully
/// dimmed: the fade starts from there.
pub proof fn law_reveal_starts_dimmed(state: DimView, now: nat)
    requires
        state.wf(),
        state.transition matches Some(t) && dim::elapsed_since(now, t.start) == t.delay
            && t.duration > 0 && state.states.dom().contains(t.revealing),
    ensures
        ({
            let name = state.transition->0.revealing;
            let after = state.ticked(now);
            &&& after.states[name].alpha == state.target_opacity
            &&& after.states[name].brightness == state.target_brightness
            &&& after.transition == state.transition
        }),
{
    let t = state.transition->0;
    fraction::lemma_progress_bounds(0, t.duration);
    fraction::lemma_eased_bounds(0);
    fraction::lemma_product_units(state.target_opacity);
    fraction::lemma_product_units(WHOLE - state.target_brightness);
}

/// Once delay and fade have passed, the revealed output is transparent and at
/// normal brightness, and the transition is over.
pub proof fn law_reveal_ends_clear(state: DimView, now: nat)
    requires
        state.wf(),
        state.transition matches Some(t) && t.finished(now),
    ensures
        ({
            let name = state.transition->0.revealing;
            let after = state.ticked(now);
            &&& after.transition is None
            &&& state.states.dom().contains(name) ==> after.states[name].alpha == 0
                && after.states[name].brightness == WHOLE && after.states[name].skipped
                == state.states[name].skipped
        }),
{
    let t = state.transition->0;
    let e = (dim::elapsed_since(now, t.start) - t.delay) as nat;
    fraction::lemma_progress_bounds(e, t.duration);
    fraction::lemma_eased_bounds(0);
    fraction::lemma_product_units(state.target_opacity);
    fraction::lemma_product_units(WHOLE - state.target_brightness);
}

/// A focus change clears the output that gains the focus: nothing moves for 325
/// milliseconds, and after 150 more the output is undimmed and nothing is left
/// to animate.
pub proof fn law_focus_clears_the_new_output(
    state: DimView,
    new_name: Seq<char>,
    start: nat,
    now: nat,
)
    requires
        state.wf(),
        state.active != Some(new_name),
        state.states.dom().contains(new_name),
        start <= now,
    ensures
        ({
            let focused = state.focused(Some(new_name), start);
            let waited = now - start;
            &&& waited < dim::FOCUS_DELAY_MILLIS * span::NANOS_PER_MILLI ==> focused.ticked(now)
                == focused
            &&& waited >= (dim::FOCUS_DELAY_MILLIS + dim::FOCUS_FADE_MILLIS)
                * span::NANOS_PER_MILLI ==> focused.ticked(now).states[new_name] == dim::undimmed()
                && focused.ticked(now).transition is None
        }),
{
    let focused = state.focused(Some(new_name), start);
    law_operations_keep_wf(state, Some(new_name), start, start, 0, 0, new_name, false);
    assert(focused.states.dom().contains(new_name));
    if focused.transition->0.finished(now) {
        law_reveal_ends_clear(focused, now);
    }
}

/// All operations keep what holds of every state.
pub proof fn law_operations_keep_wf(
    state: DimView,
    new_active: Option<Seq<char>>,
    start: nat,
    now: nat,
    elapsed: nat,
    duration: nat,
    name: Seq<char>,
    is_active: bool,
)
    requires
        state.wf(),
    ensures
        state.focused(new_active, start).wf(),
        state.ticked(now).wf(),
        state.faded_in(elapsed, duration).wf(),
        state.snapped().wf(),
        state.all_dimmed().wf(),
        state.revealed(name, start).wf(),
        state.added(name, is_active).wf(),
        state.removed(name).wf(),
{
    let dom = state.states.dom();
    assert(state.focused(new_active, start).states.dom() =~= dom);
    assert(state.ticked(now).states.dom() =~= dom);
    assert(state.faded_in(elapsed, duration).states.dom() =~= dom);
    assert(state.snapped().states.dom() =~= dom);
    assert(state.all_dimmed().states.dom() =~= dom);
    assert(state.revealed(name, start).states.dom() =~= dom);
    law_added_output_is_there(state, name, is_active);
    law_removed_output_is_gone(state, name);
}

/// An output that has just been added is there once, transparent and at normal
/// brightness; the others are as they were.
pub proof fn law_added_output_is_there(state: DimView, name: Seq<char>, is_active: bool)
    requires
        state.wf(),
    ensures
        state.added(name, is_active).wf(),
        state.added(name, is_active).names.contains(name),
        state.added(name, is_active).states[name] == (ShadeView {
            alpha: 0,
            brightness: WHOLE as int,
            skipped: is_active,
        }),
        forall|other: Seq<char>|
            other != name ==> (#[trigger] state.added(name, is_active).states.dom().contains(other)
                == state.states.dom().contains(other)) && state.added(
                name,
                is_active,
            ).states[other] == state.states[other],
{
    let after = state.added(name, is_active);
    if state.names.contains(name) {
        assert(state.states.dom().contains(name));
        assert(after.states.dom() =~= state.states.dom());
    } else {
        assert(after.names[after.names.len() - 1] == name);
        assert forall|other: Seq<char>|
            after.names.to_set().contains(other) == state.names.to_set().insert(
                name,
            ).contains(other) by {
            if state.names.contains(other) {
                let k = state.names.index_of(other);
                assert(after.names[k] == other);
            }
            if after.names.contains(other) && other != name {
                let k = after.names.index_of(other);
                assert(after.names[k] == other);
                assert(state.names[k] == other);
            }
        }
        assert(after.states.dom() =~= after.names.to_set());
    }
}

/// After an output has been removed, nothing refers to it any more: it is not
/// listed, has no state, is not active and is not being revealed. The others
/// are as they were.
pub proof fn law_removed_output_is_gone(state: DimView, name: Seq<char>)
    requires
        state.wf(),
    ensures
        state.removed(name).wf(),
        !state.removed(name).names.contains(name),
        !state.removed(name).states.dom().contains(name),
        state.removed(name).active != Some(name),
        state.removed(name).transition matches Some(t) ==> t.revealing != name,
        forall|other: Seq<char>|
            other != name ==> (#[trigger] state.removed(name).states.dom().contains(other)
                == state.states.dom().contains(other)) && state.removed(name).states[other]
                == state.states[other],
{
    let after = state.removed(name);
    assert forall|other: Seq<char>|
        after.names.to_set().contains(other) == state.names.to_set().remove(name).contains(
            other,
        ) by {
        if state.names.contains(name) {
            let i = state.names.index_of(name);
            if state.names.contains(other) && other != name {
                let k = state.names.index_of(other);
                assert(state.names[k] == other);
                assert(after.names[if k < i {
                    k
                } else {
                    k - 1
                }] == other);
            }
            if after.names.contains(other) {
                let k = after.names.index_of(other);
                assert(after.names[k] == other);
                assert(state.names[if k < i {
                    k
                } else {
                    k + 1
                }] == other);
            }
        }
    }
    assert(!after.names.to_set().contains(name));
    assert(after.states.dom() =~= after.names.to_set());
    assert forall|i: int, j: int|
        0 <= i < after.names.len() && 0 <= j < after.names.len() && i != j implies after.names[i]
        != after.names[j] by {
        if state.names.contains(name) {
            let k = state.names.index_of(name);
            assert(after.names[i] == state.names[if i < k {
                i
            } else {
                i + 1
            }]);
            assert(after.names[j] == state.names[if j < k {
                j
            } else {
                j + 1
            }]);
        }
    }
}

/// Removing an output that has just been added gives back the state from before,
/// where that did not know of it.
pub proof fn law_remove_undoes_add(state: DimView, name: Seq<char>)
    requires
        state.wf(),
        !state.names.contains(name),
        state.active != Some(name),
        state.transition matches Some(t) ==> t.revealing != name,
    ensures
        state.added(name, false).removed(name) == state,
{
    let added = state.added(name, false);
    law_added_output_is_there(state, name, false);
    assert(added.names[state.names.len() as int] == name);
    assert(added.names.index_of(name) == state.names.len());
    assert(added.names.remove(state.names.len() as int) =~= state.names);
    assert(!state.states.dom().contains(name));
    assert(added.states.remove(name) =~= state.states);
    assert(added.removed(name) =~= state);
}

/// Only the output that has the focus is skipped.
pub open spec fn only_active_skipped(state: DimView) -> bool {
    forall|name: Seq<char>|
        state.states.dom().contains(name) && (#[trigger] state.states[name]).skipped
            ==> state.active == Some(name)
}

/// That only the output with the focus is skipped is kept by every operation. A
/// reveal keeps it unless another output is active.
pub proof fn law_only_the_active_output_is_skipped(
    state: DimView,
    new_active: Option<Seq<char>>,
    now: nat,
    elapsed: nat,
    duration: nat,
    name: Seq<char>,
)
    requires
        state.wf(),
        only_active_skipped(state),
    ensures
        only_active_skipped(state.focused(new_active, now)),
        only_active_skipped(state.ticked(now)),
        only_active_skipped(state.faded_in(elapsed, duration)),
        only_active_skipped(state.snapped()),
        only_active_skipped(state.all_dimmed()),
        only_active_skipped(state.removed(name)),
        only_active_skipped(state.added(name, false)),
        state.active is None || state.active == Some(name) ==> only_active_skipped(
            state.revealed(name, now),
        ) && only_active_skipped(state.added(name, true)),
{
    assert forall|n: Seq<char>|
        state.faded_in(elapsed, duration).states.dom().contains(n) && (
        #[trigger] state.faded_in(elapsed, duration).states[n]).skipped implies state.active
        == Some(n) by {
        assert(state.states[n].skipped);
    }
    assert forall|n: Seq<char>|
        state.snapped().states.dom().contains(n) && (#[trigger] state.snapped().states[n]).skipped implies state.active
        == Some(n) by {
        assert(state.states[n].skipped);
    }
    assert forall|n: Seq<char>|
        state.focused(new_active, now).states.dom().contains(n) && (#[trigger] state.focused(
            new_active,
            now,
        ).states[n]).skipped implies state.focused(new_active, now).active == Some(n) by {
        if state.active != new_active {
            assert(state.states.dom().contains(n));
            if new_active != Some(n) {
                assert(state.active != Some(n) ==> !state.states[n].skipped);
            }
        }
    }
    assert forall|n: Seq<char>|
        state.ticked(now).states.dom().contains(n) && (#[trigger] state.ticked(
            now,
        ).states[n]).skipped implies state.active == Some(n) by {
        assert(state.states.dom().contains(n));
        assert(state.states[n].skipped);
    }
    assert forall|n: Seq<char>|
        state.removed(name).states.dom().contains(n) && (#[trigger] state.removed(
            name,
        ).states[n]).skipped implies state.removed(name).active == Some(n) by {
        assert(state.states[n].skipped);
    }
    assert forall|n: Seq<char>|
        state.added(name, false).states.dom().contains(n) && (#[trigger] state.added(
            name,
            false,
        ).states[n]).skipped implies state.active == Some(n) by {
        assert(state.states[n].skipped);
    }
    if state.active is None || state.active == Some(name) {
        assert forall|n: Seq<char>|
            state.revealed(name, now).states.dom().contains(n) && (#[trigger] state.revealed(
                name,
                now,
            ).states[n]).skipped implies Some(name) == Some(n) by {
            if n != name {
                assert(state.states[n].skipped);
            }
        }
        assert forall|n: Seq<char>|
            state.added(name, true).states.dom().contains(n) && (#[trigger] state.added(
                name,
                true,
            ).states[n]).skipped implies Some(name) == Some(n) by {
            if n != name {
                assert(state.states[n].skipped);
            }
        }
    }
}

/// No operation but adding and removing changes which outputs there are, and
/// none changes the targets.
pub proof fn law_outputs_and_targets_stay(
    state: DimView,
    new_active: Option<Seq<char>>,
    now: nat,
    elapsed: nat,
    duration: nat,
    name: Seq<char>,
)
    ensures
        forall|after: DimView|
            #![trigger after.names]
            (after == state.focused(new_active, now) || after == state.ticked(now) || after
                == state.faded_in(elapsed, duration) || after == state.snapped() || after
                == state.all_dimmed() || after == state.revealed(name, now)) ==> after.names
                == state.names && after.target_opacity == state.target_opacity
                && after.target_brightness == state.target_brightness,
{
}

/// At its start, the fade-in shows all outputs undimmed.
pub proof fn law_fade_in_frame_starts_clear(state: DimView, duration: nat, name: Seq<char>)
    requires
        state.wf(),
        duration > 0,
        state.states.dom().contains(name),
    ensures
        state.faded_in(0, duration).states[name].alpha == 0,
        state.faded_in(0, duration).states[name].brightness == WHOLE,
{
    fraction::lemma_progress_bounds(0, duration);
    fraction::lemma_eased_bounds(0);
    fraction::lemma_product_units(state.target_opacity);
    fraction::lemma_product_units(WHOLE - state.target_brightness);
}

/// At its end, the fade-in shows what snapping to the targets shows.
pub proof fn law_fade_in_frame_ends_snapped(state: DimView, elapsed: nat, duration: nat)
    requires
        state.wf(),
        elapsed >= duration,
    ensures
        state.faded_in(elapsed, duration) == state.snapped(),
{
    fraction::lemma_progress_bounds(elapsed, duration);
    fraction::lemma_eased_bounds(0);
    fraction::lemma_product_units(state.target_opacity);
    fraction::lemma_product_units(WHOLE - state.target_brightness);
    assert(state.faded_in(elapsed, duration).states =~= state.snapped().states);
}

/// During the fade-in an output without focus never gets lighter, and stays
/// between undimmed and dimmed. The output with the focus stays undimmed.
pub proof fn law_fade_in_frames_only_darken(
    state: DimView,
    earlier: nat,
    later: nat,
    duration: nat,
    name: Seq<char>,
)
    requires
        state.wf(),
        earlier <= later,
        state.states.dom().contains(name),
    ensures
        state.states[name].skipped ==> state.faded_in(later, duration).states[name]
            == dim::undimmed(),
        !state.states[name].skipped ==> {
            let before = state.faded_in(earlier, duration).states[name];
            let after = state.faded_in(later, duration).states[name];
            &&& 0 <= before.alpha <= after.alpha <= state.target_opacity
            &&& state.target_brightness <= after.brightness <= before.brightness <= WHOLE
            &&& !after.skipped
        },
{
    fading::law_fade_in_is_monotone(
        earlier,
        later,
        duration,
        state.target_opacity,
        state.target_brightness,
    );
    let a = fading::fade_eased(earlier, duration);
    let b = fading::fade_eased(later, duration);
    assert(fraction::product(a, state.target_opacity) == fraction::product(
        state.target_opacity,
        a,
    )) by {
        vstd::arithmetic::mul::lemma_mul_is_commutative(a, state.target_opacity);
    }
    assert(fraction::product(b, state.target_opacity) == fraction::product(
        state.target_opacity,
        b,
    )) by {
        vstd::arithmetic::mul::lemma_mul_is_commutative(b, state.target_opacity);
    }
}

/// Jumping to the final look twice is jumping once, and so is dimming all.
pub proof fn law_snapping_is_idempotent(state: DimView)
    ensures
        state.snapped().snapped() == state.snapped(),
        state.all_dimmed().all_dimmed() == state.all_dimmed(),
{
    assert(state.snapped().snapped().states =~= state.snapped().states);
    assert(state.all_dimmed().all_dimmed().states =~= state.all_dimmed().states);
}

/// While a focused window moves, every output is dimmed and none is skipped.
pub proof fn law_all_dimmed_covers_everything(state: DimView, name: Seq<char>)
    requires
        state.states.dom().contains(name),
    ensures
        state.all_dimmed().states.dom().contains(name),
        state.all_dimmed().states[name] == state.dimmed(),
        !state.all_dimmed().states[name].skipped,
{
}

/// After a reveal the focus tracking takes over: the focus being on the revealed
/// output is nothing new, and the reveal ends with that output undimmed.
pub proof fn law_reveal_hands_over(state: DimView, name: Seq<char>, start: nat, now: nat)
    requires
        state.wf(),
        state.states.dom().contains(name),
    ensures
        state.revealed(name, start).focused(Some(name), now) == state.revealed(name, start),
        now - start >= (dim::LAUNCH_DELAY_MILLIS + dim::LAUNCH_FADE_MILLIS)
            * span::NANOS_PER_MILLI ==> state.revealed(name, start).ticked(now).states[name]
            == dim::undimmed() && state.revealed(name, start).ticked(now).transition is None,
{
    let revealed = state.revealed(name, start);
    assert(revealed.states.dom() =~= state.states.dom());
    if revealed.transition->0.finished(now) {
        law_reveal_ends_clear(revealed, now);
    }
}

/// Where no output has the focus, all of them are dimmed alike.
pub proof fn law_without_focus_all_outputs_are_dimmed(state: DimView)
    requires
        forall|name: Seq<char>|
            state.states.dom().contains(name) ==> !(#[trigger] state.states[name]).skipped,
    ensures
        state.snapped() == state.all_dimmed(),
{
    assert(state.snapped().states =~= state.all_dimmed().states);
}

} // verus!
