//! Focus tracking in the direct engine.
//!
//! A window that moves between outputs is reacted to at the first event that
//! tells of it, before its new output is known.

use crate::dim;
use crate::gamma::ByteOrder;
use crate::names;
use crate::render;
use crate::render::Paint;
use crate::seqs;
use crate::span;
use crate::span::Span;
use crate::state::ZenState;
use crate::transition::Transition;
use crate::wayland;
use crate::wayland::ToplevelEvent;
use vstd::prelude::*;

verus! {

/// A toplevel window as the direct engine tracks it.
#[derive(Debug, Clone, Copy, PartialEq, Eq, Structural)]
pub struct TrackedToplevel {
    /// The key of its handle.
    pub handle: u32,
    /// Whether it has keyboard focus.
    pub activated: bool,
    /// The output it is on.
    pub output: Option<u32>,
}

/// The number of the activated state on the wire.
pub const ACTIVATED: u32 = 2;

/// The handles of some toplevels, in order.
pub open spec fn handles(tops: Seq<TrackedToplevel>) -> Seq<u32> {
    tops.map_values(|top: TrackedToplevel| top.handle)
}

/// What is known of a toplevel: nothing, where it is not tracked yet.
pub open spec fn lookup(tops: Seq<TrackedToplevel>, handle: u32) -> TrackedToplevel {
    if handles(tops).contains(handle) {
        tops[handles(tops).index_of(handle)]
    } else {
        TrackedToplevel { handle, activated: false, output: None }
    }
}

/// The toplevels after what is known of one has changed.
pub open spec fn stored(tops: Seq<TrackedToplevel>, top: TrackedToplevel) -> Seq<TrackedToplevel> {
    if handles(tops).contains(top.handle) {
        tops.update(handles(tops).index_of(top.handle), top)
    } else {
        tops.push(top)
    }
}

/// Storing keeps the handles apart.
proof fn lemma_stored(tops: Seq<TrackedToplevel>, i: int)
    requires
        0 <= i < tops.len(),
        handles(tops).no_duplicates(),
    ensures
        handles(tops).contains(tops[i].handle),
        handles(tops).index_of(tops[i].handle) == i,
        forall|top: TrackedToplevel|
            #![trigger tops.update(i, top)]
            top.handle == tops[i].handle ==> tops.update(i, top) == stored(tops, top) && handles(
                tops.update(i, top),
            ).no_duplicates(),
{
    assert(handles(tops)[i] == tops[i].handle);
    assert forall|top: TrackedToplevel|
        #![trigger tops.update(i, top)]
        top.handle == tops[i].handle implies tops.update(i, top) == stored(tops, top) && handles(
        tops.update(i, top),
    ).no_duplicates() by {
        assert(handles(tops.update(i, top)) =~= handles(tops));
    }
}

/// Adding keeps the handles apart.
proof fn lemma_stored_new(tops: Seq<TrackedToplevel>, handle: u32)
    requires
        handles(tops).no_duplicates(),
        !handles(tops).contains(handle),
    ensures
        forall|first: TrackedToplevel, top: TrackedToplevel|
            #![trigger tops.push(first).update(tops.len() as int, top)]
            top.handle == handle ==> tops.push(first).update(tops.len() as int, top) == stored(
                tops,
                top,
            ) && handles(tops.push(first).update(tops.len() as int, top)).no_duplicates(),
{
    assert forall|first: TrackedToplevel, top: TrackedToplevel|
        #![trigger tops.push(first).update(tops.len() as int, top)]
        top.handle == handle implies tops.push(first).update(tops.len() as int, top) == stored(
        tops,
        top,
    ) && handles(tops.push(first).update(tops.len() as int, top)).no_duplicates() by {
        let after = tops.push(first).update(tops.len() as int, top);
        assert(after =~= tops.push(top));
        assert(handles(after) =~= handles(tops).push(handle));
    }
}

/// The place of a toplevel in the list.
fn position(toplevels: &Vec<TrackedToplevel>, handle: u32) -> (index: Option<usize>)
    requires
        handles(toplevels@).no_duplicates(),
    ensures
        match index {
            Some(i) => i < toplevels.len() && toplevels@[i as int].handle == handle && handles(
                toplevels@,
            ).contains(handle) && handles(toplevels@).index_of(handle) == i,
            None => !handles(toplevels@).contains(handle),
        },
{
    let mut i: usize = 0;
    while i < toplevels.len()
        invariant
            i <= toplevels.len(),
            handles(toplevels@).no_duplicates(),
            forall|j: int| 0 <= j < i ==> (#[trigger] toplevels@[j]).handle != handle,
        decreases toplevels.len() - i,
    {
        if toplevels[i].handle == handle {
            proof {
                lemma_stored(toplevels@, i as int);
            }
            return Some(i);
        }
        i = i + 1;
    }
    None
}

/// Find or create the tracked entry of a handle.
pub fn find_toplevel(toplevels: &mut Vec<TrackedToplevel>, handle: u32) -> (toplevel:
    &mut TrackedToplevel)
    requires
        handles(old(toplevels)@).no_duplicates(),
    ensures
        *toplevel == lookup(old(toplevels)@, handle),
        (*final(toplevel)).handle == handle ==> final(toplevels)@ == stored(
            old(toplevels)@,
            *final(toplevel),
        ) && handles(final(toplevels)@).no_duplicates(),
{
    match position(toplevels, handle) {
        Some(i) => {
            proof {
                lemma_stored(toplevels@, i as int);
            }
            &mut toplevels[i]
        },
        None => {
            let i: usize = toplevels.len();
            proof {
                lemma_stored_new(toplevels@, handle);
            }
            toplevels.push(TrackedToplevel { handle, activated: false, output: None });
            &mut toplevels[i]
        },
    }
}

/// Whether some numbers hold that of the activated state.
pub open spec fn has_activated(numbers: Seq<u32>) -> bool {
    numbers.contains(ACTIVATED)
}

/// Whether the array of a state event holds the activated state.
pub fn is_activated(raw: &Vec<u8>, order: ByteOrder) -> (activated: bool)
    ensures
        activated == has_activated(wayland::words(raw@, order)),
{
    let numbers = wayland::decode_words(raw, order);
    let mut i: usize = 0;
    while i < numbers.len()
        invariant
            i <= numbers.len(),
            numbers@ == wayland::words(raw@, order),
            forall|j: int| 0 <= j < i ==> numbers@[j] != ACTIVATED,
        decreases numbers.len() - i,
    {
        if numbers[i] == ACTIVATED {
            return true;
        }
        i = i + 1;
    }
    false
}

impl ZenState {
    /// The name of the output with the focused window: that of the first
    /// activated toplevel.
    pub open spec fn focused_name(self) -> Option<Seq<char>> {
        match seqs::first(self.toplevels@, |top: TrackedToplevel| top.activated) {
            Some(top) => self.place(top),
            None => None,
        }
    }

    /// The name of the output that a toplevel is on.
    pub open spec fn place(self, top: TrackedToplevel) -> Option<Seq<char>> {
        match top.output {
            Some(output) => wayland::name_of(self.outputs@, output),
            None => None,
        }
    }

    /// What dims the overlays of an output.
    pub open spec fn snap_paints(self, name: Option<Seq<char>>) -> Seq<Paint> {
        match name {
            Some(known) => self.surfaces@.filter_map(
                self.overlay_painter(known, render::floor_alpha(self.target_opacity@) as u8),
            ),
            None => Seq::empty(),
        }
    }

    /// The output being revealed.
    pub open spec fn revealing(self) -> Option<Seq<char>> {
        match self.transition {
            Some(t) => names::opt_view(t.revealing),
            None => None,
        }
    }

    /// Whether the active output has changed, and is followed.
    pub open spec fn focus_moved(self) -> bool {
        self.skip_active && self.focused_name() != names::opt_view(self.active_output)
    }

    /// The output whose overlays a toplevel event dims: the one that an
    /// activated window was on when it enters another, or the one that a window
    /// leaves, if it is active or being revealed.
    pub open spec fn snapped_output(self, handle: u32, event: ToplevelEvent) -> Option<Seq<char>> {
        match event {
            ToplevelEvent::OutputEnter { output: _ } => {
                let top = lookup(self.toplevels@, handle);
                if top.activated {
                    self.place(top)
                } else {
                    None
                }
            },
            ToplevelEvent::OutputLeave { output } => {
                let name = wayland::name_of(self.outputs@, output);
                if name == names::opt_view(self.active_output) || name == self.revealing() {
                    name
                } else {
                    None
                }
            },
            _ => None,
        }
    }

    /// Get the name of the output with the focused window.
    pub fn active_output_name(&self) -> (name: Option<String>)
        ensures
            names::opt_view(name) == self.focused_name(),
    {
        let ghost wanted = |top: TrackedToplevel| top.activated;
        let mut i: usize = 0;
        while i < self.toplevels.len()
            invariant
                i <= self.toplevels.len(),
                wanted == (|top: TrackedToplevel| top.activated),
                forall|j: int| 0 <= j < i ==> !wanted(#[trigger] self.toplevels@[j]),
            decreases self.toplevels.len() - i,
        {
            if self.toplevels[i].activated {
                proof {
                    seqs::lemma_first_at(self.toplevels@, wanted, i as int);
                }
                return match self.toplevels[i].output {
                    Some(output) => wayland::name_among(&self.outputs, output),
                    None => None,
                };
            }
            i = i + 1;
        }
        proof {
            seqs::lemma_none_fits(self.toplevels@, wanted, i as int);
        }
        None
    }

    /// Dim the overlays of an output at once.
    fn snap(&self, name: &Option<String>) -> (paints: Vec<Paint>)
        requires
            self.wf(),
        ensures
            paints@ == self.snap_paints(names::opt_view(*name)),
    {
        match name {
            Some(known) => self.draw_overlays(
                known.as_str(),
                render::alpha_to_u8(self.target_opacity),
            ),
            None => Vec::new(),
        }
    }

    /// Check if the active output changed, and if so, start a cross-fade.
    pub fn refresh_active_output(&mut self, now: Span) -> (paints: Vec<Paint>)
        requires
            old(self).wf(),
        ensures
            final(self).wf(),
            !old(self).focus_moved() ==> *final(self) == *old(self) && paints@
                == Seq::<Paint>::empty(),
            old(self).focus_moved() ==> {
                &&& paints@ == old(self).snap_paints(names::opt_view(old(self).active_output))
                &&& names::opt_view(final(self).active_output) == old(self).focused_name()
                &&& final(self).transition matches Some(t) && t.start == now && t.delay@
                    == dim::FOCUS_DELAY_MILLIS * span::NANOS_PER_MILLI && t.duration@
                    == dim::FOCUS_FADE_MILLIS * span::NANOS_PER_MILLI && names::opt_view(
                    t.revealing,
                ) == old(self).focused_name()
                &&& *final(self) == (ZenState {
                    active_output: final(self).active_output,
                    transition: final(self).transition,
                    ..*old(self)
                })
            },
    {
        if !self.skip_active {
            return Vec::new();
        }
        let new_active = self.active_output_name();
        if names::same_opt_name(&new_active, &self.active_output) {
            return Vec::new();
        }
        let paints = self.snap(&self.active_output);
        self.active_output = names::clone_opt_name(&new_active);
        self.transition = Some(
            Transition {
                start: now,
                delay: Span::from_millis(dim::FOCUS_DELAY_MILLIS),
                duration: Span::from_millis(dim::FOCUS_FADE_MILLIS),
                revealing: new_active,
            },
        );
        paints
    }

    /// The transition once the overlays of an output have been dimmed: one that
    /// reveals that output is dropped.
    pub open spec fn surviving(self, snapped: Option<Seq<char>>) -> Option<Transition> {
        if snapped is Some && snapped == self.revealing() {
            None
        } else {
            self.transition
        }
    }

    /// Dim the overlays of an output, and drop a transition that reveals it.
    fn interrupt(&mut self, name: &Option<String>) -> (paints: Vec<Paint>)
        requires
            old(self).wf(),
        ensures
            final(self).wf(),
            paints@ == old(self).snap_paints(names::opt_view(*name)),
            final(self).transition == old(self).surviving(names::opt_view(*name)),
            *final(self) == (ZenState { transition: final(self).transition, ..*old(self) }),
    {
        let paints = self.snap(name);
        if name.is_some() && self.is_revealing(name) {
            self.transition = None;
        }
        paints
    }

    /// Whether the output of that name is being revealed.
    fn is_revealing(&self, name: &Option<String>) -> (revealing: bool)
        ensures
            name is Some ==> revealing == (self.revealing() == names::opt_view(*name)),
    {
        match &self.transition {
            Some(transition) => names::same_opt_name(&transition.revealing, name),
            None => false,
        }
    }

    /// The toplevels after an event.
    pub open spec fn event_tops(
        self,
        handle: u32,
        event: ToplevelEvent,
        order: ByteOrder,
    ) -> Seq<TrackedToplevel> {
        let top = lookup(self.toplevels@, handle);
        match event {
            ToplevelEvent::OutputEnter { output } => stored(
                self.toplevels@,
                TrackedToplevel { output: Some(output), ..top },
            ),
            ToplevelEvent::OutputLeave { output: _ } => stored(
                self.toplevels@,
                TrackedToplevel { output: None, ..top },
            ),
            ToplevelEvent::State { raw } => stored(
                self.toplevels@,
                TrackedToplevel { activated: has_activated(wayland::words(raw@, order)), ..top },
            ),
            ToplevelEvent::Done => self.toplevels@,
            ToplevelEvent::Closed => self.toplevels@.filter(
                |t: TrackedToplevel| t.handle != handle,
            ),
        }
    }

    /// The output that a window leaving it dims.
    fn left_behind(&self, output: u32) -> (name: Option<String>)
        ensures
            ({
                let left = wayland::name_of(self.outputs@, output);
                names::opt_view(name) == if left == names::opt_view(self.active_output) || left
                    == self.revealing() {
                    left
                } else {
                    None
                }
            }),
    {
        let name = wayland::name_among(&self.outputs, output);
        if name.is_some() && (names::same_opt_name(&name, &self.active_output)
            || self.is_revealing(&name)) {
            name
        } else {
            None
        }
    }

    /// The output that an activated window was on.
    fn was_on(&self, handle: u32) -> (name: Option<String>)
        requires
            self.wf(),
        ensures
            ({
                let top = lookup(self.toplevels@, handle);
                names::opt_view(name) == if top.activated {
                    self.place(top)
                } else {
                    None
                }
            }),
    {
        match position(&self.toplevels, handle) {
            Some(i) => {
                if self.toplevels[i].activated {
                    match self.toplevels[i].output {
                        Some(output) => wayland::name_among(&self.outputs, output),
                        None => None,
                    }
                } else {
                    None
                }
            },
            None => None,
        }
    }

    /// Stop tracking a toplevel.
    fn forget(&mut self, handle: u32)
        requires
            old(self).wf(),
        ensures
            final(self).wf(),
            final(self).toplevels@ == old(self).toplevels@.filter(
                |t: TrackedToplevel| t.handle != handle,
            ),
            *final(self) == (ZenState { toplevels: final(self).toplevels, ..*old(self) }),
    {
        let ghost others = |t: TrackedToplevel| t.handle != handle;
        let ghost tops = self.toplevels@;
        match position(&self.toplevels, handle) {
            Some(i) => {
                let _gone = self.toplevels.remove(i);
                proof {
                    assert forall|j: int| 0 <= j < tops.len() && j != i implies others(
                        #[trigger] tops[j],
                    ) by {
                        assert(handles(tops)[j] == tops[j].handle);
                        assert(handles(tops)[i as int] == handle);
                    }
                    seqs::lemma_one_misfit(tops, others, i as int);
                    assert(handles(self.toplevels@) =~= handles(tops).remove(i as int));
                }
            },
            None => {
                proof {
                    assert forall|j: int| 0 <= j < tops.len() implies others(
                        #[trigger] tops[j],
                    ) by {
                        assert(handles(tops)[j] == tops[j].handle);
                    }
                    seqs::lemma_all_fit(tops, others);
                }
            },
        }
    }

    /// The compositor stopped telling of toplevels.
    pub fn toplevel_manager_finished(&mut self)
        ensures
            *final(self) == (ZenState { toplevel_manager: false, ..*old(self) }),
    {
        self.toplevel_manager = false;
    }

    /// The compositor told something of a toplevel.
    pub fn event(
        &mut self,
        handle: u32,
        event: ToplevelEvent,
        now: Span,
        order: ByteOrder,
    ) -> (paints: Vec<Paint>)
        requires
            old(self).wf(),
        ensures
            final(self).wf(),
            final(self).toplevels@ == old(self).event_tops(handle, event, order),
            event is Done && old(self).focus_moved() ==> {
                &&& paints@ == old(self).snap_paints(names::opt_view(old(self).active_output))
                &&& names::opt_view(final(self).active_output) == old(self).focused_name()
                &&& final(self).transition matches Some(t) && t.start == now && t.delay@
                    == dim::FOCUS_DELAY_MILLIS * span::NANOS_PER_MILLI && t.duration@
                    == dim::FOCUS_FADE_MILLIS * span::NANOS_PER_MILLI && names::opt_view(
                    t.revealing,
                ) == old(self).focused_name()
            },
            !(event is Done && old(self).focus_moved()) ==> {
                &&& paints@ == old(self).snap_paints(old(self).snapped_output(handle, event))
                &&& final(self).transition == old(self).surviving(
                    old(self).snapped_output(handle, event),
                )
                &&& final(self).active_output == old(self).active_output
            },
            *final(self) == (ZenState {
                toplevels: final(self).toplevels,
                active_output: final(self).active_output,
                transition: final(self).transition,
                ..*old(self)
            }),
    {
        match event {
            ToplevelEvent::OutputEnter { output } => {
                let before = self.was_on(handle);
                let paints = self.interrupt(&before);
                let toplevel = find_toplevel(&mut self.toplevels, handle);
                toplevel.output = Some(output);
                paints
            },
            ToplevelEvent::OutputLeave { output } => {
                let left = self.left_behind(output);
                let paints = self.interrupt(&left);
                let toplevel = find_toplevel(&mut self.toplevels, handle);
                toplevel.output = None;
                paints
            },
            ToplevelEvent::State { raw } => {
                let activated = is_activated(&raw, order);
                let toplevel = find_toplevel(&mut self.toplevels, handle);
                toplevel.activated = activated;
                Vec::new()
            },
            ToplevelEvent::Done => self.refresh_active_output(now),
            ToplevelEvent::Closed => {
                self.forget(handle);
                Vec::new()
            },
        }
    }
}

} // verus!
