//! What each dimming operation does to each output.

use crate::dim::DimView;
use crate::fraction;
use crate::fraction::WHOLE;
use crate::laws::easing;
use vstd::prelude::*;

verus! {

/// A focus change, to another output or to none, dims the output that loses the
/// focus to exactly the targets and skips it no longer. No other output changes
/// its look. The one that gains the focus is skipped from then on.
pub proof fn law_focus_change_dims_the_output_that_loses_it(
    state: DimView,
    new_active: Option<Seq<char>>,
    now: nat,
    name: Seq<char>,
)
    requires
        state.active != new_active,
        state.states.dom().contains(name),
    ensures
        ({
            let after = state.focused(new_active, now).states;
            &&& after.dom() == state.states.dom()
            &&& state.active == Some(name) ==> after[name].alpha == state.target_opacity
                && after[name].brightness == state.target_brightness && !after[name].skipped
            &&& state.active != Some(name) ==> after[name].alpha == state.states[name].alpha
                && after[name].brightness == state.states[name].brightness
            &&& new_active == Some(name) ==> after[name].skipped
            &&& state.active != Some(name) && new_active != Some(name) ==> after[name].skipped
                == state.states[name].skipped
        }),
{
    assert(state.focused(new_active, now).states.dom() =~= state.states.dom());
}

/// A focus change shows one thing: the output that loses the focus, at the
/// targets. Where that is not known, it shows nothing.
pub proof fn law_focus_change_shows_the_output_that_loses_it(
    state: DimView,
    new_active: Option<Seq<char>>,
)
    ensures
        ({
            let updates = state.focus_updates(new_active);
            &&& updates.len() == 1 <==> state.active != new_active && state.active is Some
                && state.states.dom().contains(state.active->0)
            &&& updates.len() <= 1
            &&& updates.len() == 1 ==> state.active == Some(updates[0].name) && updates[0].opacity
                == state.target_opacity && updates[0].brightness == state.target_brightness
        }),
{
}

/// A focus change moves the focus and starts the reveal of the output that gains
/// it: 325 milliseconds of delay, then 150 of fading. Where no output gains it,
/// what fades goes on fading.
pub proof fn law_focus_change_reveals_the_output_that_gains_it(
    state: DimView,
    new_active: Option<Seq<char>>,
    now: nat,
)
    requires
        state.active != new_active,
    ensures
        ({
            let after = state.focused(new_active, now);
            &&& after.active == new_active
            &&& new_active is None ==> after.transition == state.transition
            &&& new_active matches Some(name) ==> (after.transition matches Some(t) && t.start
                == now && t.delay == 325_000_000 && t.duration == 150_000_000 && t.revealing
                == name)
            &&& after.names == state.names
            &&& after.target_opacity == state.target_opacity
            &&& after.target_brightness == state.target_brightness
        }),
{
}

/// A reveal after a launch marks its output as the one with the focus and starts
/// to fade it: 50 milliseconds of delay, then 200 of fading. No output changes
/// its look at once, and no other is touched.
pub proof fn law_launch_reveal_starts_a_fade(
    state: DimView,
    name: Seq<char>,
    now: nat,
    other: Seq<char>,
)
    ensures
        ({
            let after = state.revealed(name, now);
            &&& after.active == Some(name)
            &&& after.transition matches Some(t) && t.start == now && t.delay == 50_000_000
                && t.duration == 200_000_000 && t.revealing == name
            &&& after.states.dom() == state.states.dom()
            &&& after.names == state.names
            &&& after.target_opacity == state.target_opacity
            &&& after.target_brightness == state.target_brightness
            &&& state.states.dom().contains(other) ==> after.states[other].alpha
                == state.states[other].alpha && after.states[other].brightness
                == state.states[other].brightness && after.states[other].skipped == (other == name
                || state.states[other].skipped)
        }),
{
    assert(state.revealed(name, now).states.dom() =~= state.states.dom());
}

/// A tick touches nothing but the output being revealed, and that not before
/// the delay has passed. The fade is over exactly when delay and duration have
/// passed. What is shown is what the output looks like from then on.
pub proof fn law_tick_by_the_clock(state: DimView, now: nat, name: Seq<char>)
    requires
        state.transition matches Some(t) && t.start <= now,
        state.states.dom().contains(name),
    ensures
        ({
            let t = state.transition->0;
            let after = state.ticked(now);
            let updates = state.tick_updates(now);
            let fades = now >= t.start + t.delay && state.states.dom().contains(t.revealing);
            &&& after.active == state.active
            &&& after.names == state.names
            &&& after.target_opacity == state.target_opacity
            &&& after.target_brightness == state.target_brightness
            &&& after.transition == if now >= t.start + t.delay + t.duration {
                None
            } else {
                state.transition
            }
            &&& after.states.dom() == state.states.dom()
            &&& after.states[name].skipped == state.states[name].skipped
            &&& name != t.revealing || now < t.start + t.delay ==> after.states[name]
                == state.states[name]
            &&& updates.len() == if fades {
                1nat
            } else {
                0nat
            }
            &&& fades ==> updates[0].name == t.revealing && updates[0].opacity
                == after.states[t.revealing].alpha && updates[0].brightness
                == after.states[t.revealing].brightness
        }),
{
    assert(state.ticked(now).states.dom() =~= state.states.dom());
}

/// A clock that stands before the start of a transition counts as its start.
pub proof fn law_tick_before_the_start(state: DimView, now: nat)
    requires
        state.transition matches Some(t) && now <= t.start,
    ensures
        state.ticked(now) == state.ticked(state.transition->0.start),
        state.tick_updates(now) == state.tick_updates(state.transition->0.start),
{
}

/// While an output is being revealed, its opacity and what its brightness lacks
/// are the targets' times the square of the share of time that is left, up to a
/// few parts of rounding: it starts fast and decelerates.
pub proof fn law_reveal_follows_the_curve(state: DimView, now: nat)
    requires
        state.wf(),
        state.transition matches Some(t) && t.start + t.delay <= now < t.start + t.delay
            + t.duration && state.states.dom().contains(t.revealing),
    ensures
        ({
            let t = state.transition->0;
            let rest = t.start + t.delay + t.duration - now;
            let dd = (t.duration * t.duration) as int;
            let shade = state.ticked(now).states[t.revealing];
            &&& -4 * dd <= shade.alpha * dd - state.target_opacity * (rest * rest) <= 4 * dd
            &&& -4 * dd <= (WHOLE - shade.brightness) * dd - (WHOLE - state.target_brightness) * (
            rest * rest) <= 4 * dd
        }),
{
    let t = state.transition->0;
    let e = (now - t.start - t.delay) as nat;
    let d = t.duration as int;
    let p = fraction::progress_parts(e, t.duration);
    let left = WHOLE - fraction::eased(p);
    let rest = d - e;
    easing::law_fade_leaves_the_square_of_the_time_left(e, t.duration);
    fraction::lemma_progress_bounds(e, t.duration);
    fraction::lemma_eased_bounds(p);
    let shade = state.ticked(now).states[t.revealing];
    easing::law_product_rounds_half_up(state.target_opacity, left);
    easing::lemma_share_of_a_fade(state.target_opacity, shade.alpha, left, rest, d);
    let lack = WHOLE - state.target_brightness;
    easing::law_brightness_between_normal_and_target(
        state.target_brightness,
        fraction::eased(p),
    );
    assert(lack * (WHOLE - left) == lack * WHOLE - lack * left) by (nonlinear_arith);
    assert((WHOLE - shade.brightness) * WHOLE == lack * WHOLE - (shade.brightness
        - state.target_brightness) * WHOLE) by (nonlinear_arith)
        requires
            lack == WHOLE - state.target_brightness,
    ;
    easing::lemma_share_of_a_fade(lack, WHOLE - shade.brightness, left, rest, d);
}

/// When a reveal is over, its output is transparent and at normal brightness.
pub proof fn law_reveal_is_complete_in_time(state: DimView, now: nat)
    requires
        state.wf(),
        state.transition matches Some(t) && t.start + t.delay + t.duration <= now
            && state.states.dom().contains(t.revealing),
    ensures
        state.ticked(now).states[state.transition->0.revealing].alpha == 0,
        state.ticked(now).states[state.transition->0.revealing].brightness
            == 1_000_000_000_000_000,
        state.ticked(now).transition is None,
{
    crate::laws::dimming::law_reveal_ends_clear(state, now);
}

/// A frame of the fade-in shows outputs that are skipped undimmed. On all others
/// what the opacity and the brightness still lack to their targets is the square
/// of the share of time that is left; from the end on, nothing.
pub proof fn law_fade_in_follows_the_curve(
    state: DimView,
    elapsed: nat,
    duration: nat,
    name: Seq<char>,
)
    requires
        state.wf(),
        state.states.dom().contains(name),
    ensures
        ({
            let shade = state.faded_in(elapsed, duration).states[name];
            let rest = duration - elapsed;
            let dd = (duration * duration) as int;
            &&& shade.skipped == state.states[name].skipped
            &&& shade.skipped ==> shade.alpha == 0 && shade.brightness == 1_000_000_000_000_000
            &&& !shade.skipped && elapsed >= duration ==> shade.alpha == state.target_opacity
                && shade.brightness == state.target_brightness
            &&& !shade.skipped && elapsed < duration ==> {
                &&& -4 * dd <= (state.target_opacity - shade.alpha) * dd - state.target_opacity * (
                rest * rest) <= 4 * dd
                &&& -4 * dd <= (shade.brightness - state.target_brightness) * dd - (WHOLE
                    - state.target_brightness) * (rest * rest) <= 4 * dd
            }
        }),
{
    let d = duration as int;
    let p = fraction::progress_parts(elapsed, duration);
    fraction::lemma_progress_bounds(elapsed, duration);
    fraction::lemma_eased_bounds(p);
    let eased = fraction::eased(p);
    let left = WHOLE - eased;
    let rest = duration - elapsed;
    let shade = state.faded_in(elapsed, duration).states[name];
    let goal = state.target_opacity;
    let lack = WHOLE - state.target_brightness;
    if elapsed >= duration {
        crate::laws::dimming::law_fade_in_frame_ends_snapped(state, elapsed, duration);
    } else if !state.states[name].skipped {
        easing::law_fade_leaves_the_square_of_the_time_left(elapsed, duration);
        easing::law_product_rounds_half_up(goal, eased);
        assert(goal * eased == goal * WHOLE - goal * left) by (nonlinear_arith)
            requires
                left == WHOLE - eased,
        ;
        assert((goal - shade.alpha) * WHOLE == goal * WHOLE - shade.alpha * WHOLE)
            by (nonlinear_arith);
        easing::lemma_share_of_a_fade(goal, goal - shade.alpha, left, rest, d);
        easing::law_brightness_between_normal_and_target(state.target_brightness, eased);
        assert(lack * eased == lack * WHOLE - lack * left) by (nonlinear_arith)
            requires
                left == WHOLE - eased,
        ;
        assert((shade.brightness - state.target_brightness) * WHOLE == lack * WHOLE - (WHOLE
            - shade.brightness) * WHOLE) by (nonlinear_arith)
            requires
                lack == WHOLE - state.target_brightness,
        ;
        easing::lemma_share_of_a_fade(
            lack,
            shade.brightness - state.target_brightness,
            left,
            rest,
            d,
        );
    }
}

/// Jumping to the final look leaves the skipped outputs undimmed and brings all
/// others to exactly the targets. Dimming all brings every output there, and
/// skips none.
pub proof fn law_snapping_reaches_the_targets(state: DimView, name: Seq<char>)
    requires
        state.states.dom().contains(name),
    ensures
        ({
            let snapped = state.snapped().states[name];
            let dimmed = state.all_dimmed().states[name];
            &&& snapped.skipped == state.states[name].skipped
            &&& snapped.skipped ==> snapped.alpha == 0 && snapped.brightness
                == 1_000_000_000_000_000
            &&& !snapped.skipped ==> snapped.alpha == state.target_opacity && snapped.brightness
                == state.target_brightness
            &&& !dimmed.skipped
            &&& dimmed.alpha == state.target_opacity
            &&& dimmed.brightness == state.target_brightness
        }),
{
}

/// Operations on all outputs at once leave alone which there are, which has the
/// focus and what is being revealed.
pub proof fn law_changes_to_all_outputs_change_only_their_look(
    state: DimView,
    elapsed: nat,
    duration: nat,
    after: DimView,
)
    requires
        after == state.faded_in(elapsed, duration) || after == state.snapped() || after
            == state.all_dimmed(),
    ensures
        after.names == state.names,
        after.states.dom() == state.states.dom(),
        after.active == state.active,
        after.transition == state.transition,
        after.target_opacity == state.target_opacity,
        after.target_brightness == state.target_brightness,
{
    assert(after.states.dom() =~= state.states.dom());
}

/// The updates of all outputs tell of each one once, in order, and tell what it
/// looks like.
pub proof fn law_updates_tell_of_every_output(state: DimView, i: int)
    requires
        0 <= i < state.names.len(),
    ensures
        ({
            let updates = state.all_updates();
            &&& updates.len() == state.names.len()
            &&& updates[i].name == state.names[i]
            &&& updates[i].opacity == state.states[state.names[i]].alpha
            &&& updates[i].brightness == state.states[state.names[i]].brightness
        }),
{
}

/// An output that is added comes last, or stays where it is. It becomes the one
/// with the focus where it is said to be; nothing else changes.
pub proof fn law_added_output_comes_last(state: DimView, name: Seq<char>, is_active: bool)
    requires
        state.wf(),
    ensures
        ({
            let after = state.added(name, is_active);
            &&& after.names == if state.states.dom().contains(name) {
                state.names
            } else {
                state.names.push(name)
            }
            &&& after.states[name].alpha == 0
            &&& after.states[name].brightness == 1_000_000_000_000_000
            &&& after.states[name].skipped == is_active
            &&& after.states.remove(name) == state.states.remove(name)
            &&& after.active == if is_active {
                Some(name)
            } else {
                state.active
            }
            &&& after.transition == state.transition
            &&& after.target_opacity == state.target_opacity
            &&& after.target_brightness == state.target_brightness
        }),
{
    let after = state.added(name, is_active);
    assert(after.states.remove(name) =~= state.states.remove(name));
    if state.names.contains(name) {
        assert(state.names.to_set().contains(name));
    }
}

/// Removing an output takes it out of the list and leaves the others in order.
/// A focus or a reveal elsewhere goes on.
pub proof fn law_removed_output_leaves_the_others(state: DimView, name: Seq<char>)
    requires
        state.wf(),
    ensures
        ({
            let after = state.removed(name);
            &&& after.states == state.states.remove(name)
            &&& !state.states.dom().contains(name) ==> after.names == state.names
            &&& forall|i: int|
                0 <= i < state.names.len() && #[trigger] state.names[i] == name ==> after.names
                    == state.names.remove(i)
            &&& state.active != Some(name) ==> after.active == state.active
            &&& state.active == Some(name) ==> after.active is None
            &&& state.transition matches Some(t) ==> after.transition == if t.revealing == name {
                None
            } else {
                Some(t)
            }
            &&& state.transition is None ==> after.transition is None
            &&& after.target_opacity == state.target_opacity
            &&& after.target_brightness == state.target_brightness
        }),
{
    let after = state.removed(name);
    if state.names.contains(name) {
        assert(state.names.to_set().contains(name));
    }
    assert forall|i: int|
        0 <= i < state.names.len() && #[trigger] state.names[i] == name implies after.names
        == state.names.remove(i) by {
        assert(state.names.contains(name));
        assert(state.names.index_of(name) == i);
    }
}

} // verus!
