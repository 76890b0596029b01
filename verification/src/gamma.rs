//! Gamma ramps for brightness dimming.

use crate::fraction::WHOLE;
use crate::render::Brightness;
use crate::render;
use crate::render::Action;
use crate::state::{OverlaySurface, ZenState};
use crate::wayland;
use crate::wayland::GammaEvent;
use vstd::prelude::*;

verus! {

/// The order in which the machine stores the bytes of an integer.
#[derive(Debug, Clone, Copy, PartialEq, Eq, Structural)]
pub enum ByteOrder {
    /// Lowest byte first.
    Little,
    /// Highest byte first.
    Big,
}

/// The two bytes of a value in memory.
pub open spec fn u16_bytes(value: u16, order: ByteOrder) -> Seq<u8> {
    let low = (value % 256) as u8;
    let high = (value / 256) as u8;
    match order {
        ByteOrder::Little => seq![low, high],
        ByteOrder::Big => seq![high, low],
    }
}

/// The highest index of a channel of `size` entries, and one where that would
/// be zero.
pub open spec fn ramp_divisor(size: nat) -> int {
    if size <= 2 {
        1
    } else {
        size - 1
    }
}

/// Entry `i` of a channel of `size` entries: `i / divisor * 65535 * brightness`,
/// rounded down.
pub open spec fn ramp_entry(i: int, size: nat, brightness: int) -> int {
    i * 65535 * brightness / (ramp_divisor(size) * WHOLE)
}

/// One channel of a ramp.
pub open spec fn ramp_channel(size: nat, brightness: int) -> Seq<u16> {
    Seq::new(size, |i: int| ramp_entry(i, size, brightness) as u16)
}

/// A whole ramp: the same channel for red, green and blue.
pub open spec fn ramp_values(size: nat, brightness: int) -> Seq<u16> {
    let channel = ramp_channel(size, brightness);
    channel + channel + channel
}

/// Values laid out in memory, one after the other.
pub open spec fn values_bytes(values: Seq<u16>, order: ByteOrder) -> Seq<u8>
    decreases values.len(),
{
    if values.len() == 0 {
        Seq::empty()
    } else {
        values_bytes(values.drop_last(), order) + u16_bytes(values.last(), order)
    }
}

/// An entry of a ramp never overflows its 16 bits.
pub proof fn lemma_ramp_entry_bounds(i: int, size: nat, brightness: int)
    requires
        0 <= i < size,
        0 <= brightness <= WHOLE,
    ensures
        0 <= i <= ramp_divisor(size),
        0 <= i * 65535 * brightness <= ramp_divisor(size) * 65535 * WHOLE,
        0 <= ramp_entry(i, size, brightness) <= 65535,
{
    let d = ramp_divisor(size);
    let w = WHOLE as int;
    let n = i * 65535 * brightness;
    assert(0 <= n <= 65535 * (d * w)) by (nonlinear_arith)
        requires
            0 <= i <= d,
            0 <= brightness <= w,
            n == i * 65535 * brightness,
    ;
    assert(d * 65535 * w == 65535 * (d * w)) by (nonlinear_arith);
    let q = n / (d * w);
    assert(0 < d * w) by (nonlinear_arith)
        requires
            d > 0,
            w > 0,
    ;
    vstd::arithmetic::div_mod::lemma_div_is_ordered(0, n, d * w);
    vstd::arithmetic::div_mod::lemma_div_is_ordered(n, 65535 * (d * w), d * w);
    vstd::arithmetic::div_mod::lemma_div_multiples_vanish(65535, d * w);
    assert(65535 * (d * w) == (d * w) * 65535) by (nonlinear_arith);
}

/// Appending one value appends its bytes.
proof fn lemma_values_bytes_push(values: Seq<u16>, value: u16, order: ByteOrder)
    ensures
        values_bytes(values.push(value), order) == values_bytes(values, order) + u16_bytes(
            value,
            order,
        ),
{
    assert(values.push(value).drop_last() =~= values);
}

/// Append one value in the byte order of the machine.
fn push_u16(bytes: &mut Vec<u8>, value: u16, order: ByteOrder)
    ensures
        final(bytes)@ == old(bytes)@ + u16_bytes(value, order),
{
    let low: u8 = (value % 256) as u8;
    let high: u8 = (value / 256) as u8;
    match order {
        ByteOrder::Little => {
            bytes.push(low);
            bytes.push(high);
        },
        ByteOrder::Big => {
            bytes.push(high);
            bytes.push(low);
        },
    }
    assert(bytes@ =~= old(bytes)@ + u16_bytes(value, order));
}

/// The contents of a gamma ramp for the given size and brightness: the red,
/// green and blue channels as 16-bit values in the byte order of the machine.
pub fn create_gamma_ramp(size: u32, brightness: Brightness, order: ByteOrder) -> (bytes: Vec<u8>)
    ensures
        bytes@ == values_bytes(ramp_values(size as nat, brightness@), order),
{
    let parts: u64 = brightness.parts();
    let divisor: u128 = if size <= 2 {
        1
    } else {
        (size - 1) as u128
    };
    let mut bytes: Vec<u8> = Vec::new();
    let mut channel: u32 = 0;
    let ghost one = ramp_channel(size as nat, brightness@);
    let ghost mut values: Seq<u16> = Seq::empty();
    while channel < 3
        invariant
            channel <= 3,
            parts == brightness@,
            parts <= WHOLE,
            divisor == ramp_divisor(size as nat),
            one == ramp_channel(size as nat, brightness@),
            values == repeated(one, channel as nat),
            bytes@ == values_bytes(values, order),
        decreases 3 - channel,
    {
        let mut i: u32 = 0;
        let ghost start = values;
        while i < size
            invariant
                i <= size,
                parts == brightness@,
                parts <= WHOLE,
                divisor == ramp_divisor(size as nat),
                one == ramp_channel(size as nat, brightness@),
                values =~= start + one.take(i as int),
                bytes@ == values_bytes(values, order),
            decreases size - i,
        {
            proof {
                lemma_ramp_entry_bounds(i as int, size as nat, brightness@);
                assert(divisor * 65535 * WHOLE <= 0xFFFF_FFFF * 65535 * WHOLE);
                assert(i * 65535 * parts == i as int * 65535 * brightness@);
            }
            let value: u16 = (i as u128 * 65535 * parts as u128 / (divisor * WHOLE as u128)) as u16;
            push_u16(&mut bytes, value, order);
            proof {
                lemma_values_bytes_push(values, value, order);
                values = values.push(value);
                assert(one[i as int] == value);
                assert(one.take(i + 1) =~= one.take(i as int).push(value));
            }
            i = i + 1;
        }
        proof {
            assert(one.take(size as int) =~= one);
            assert(values == start + one);
        }
        channel = channel + 1;
    }
    proof {
        reveal_with_fuel(repeated, 4);
        assert(values =~= ramp_values(size as nat, brightness@));
    }
    bytes
}

/// A sequence several times over.
spec fn repeated(values: Seq<u16>, times: nat) -> Seq<u16>
    decreases times,
{
    if times == 0 {
        Seq::empty()
    } else {
        repeated(values, (times - 1) as nat) + values
    }
}

impl ZenState {
    /// What sets the gamma of a surface unless it is skipped.
    pub open spec fn gamma_setter(
        self,
        brightness: Brightness,
    ) -> spec_fn(OverlaySurface) -> Option<Action> {
        |surface: OverlaySurface|
            if self.skips(surface) {
                None
            } else {
                render::gamma_of(surface, brightness)
            }
    }

    /// Set the gamma of all surfaces that are not skipped and have control.
    pub fn set_gamma_dimmed(&self, brightness: Brightness) -> (actions: Vec<Action>)
        ensures
            actions@ == self.surfaces@.filter_map(self.gamma_setter(brightness)),
    {
        let mut actions: Vec<Action> = Vec::new();
        let ghost setter = self.gamma_setter(brightness);
        let mut i: usize = 0;
        while i < self.surfaces.len()
            invariant
                i <= self.surfaces.len(),
                setter == self.gamma_setter(brightness),
                actions@ == self.surfaces@.take(i as int).filter_map(setter),
            decreases self.surfaces.len() - i,
        {
            proof {
                self.surfaces@.lemma_filter_map_take_succ(setter, i as int);
            }
            if !self.is_skipped(i) {
                if let Some(action) = render::update_gamma(&self.surfaces[i], brightness) {
                    actions.push(action);
                }
            }
            i = i + 1;
        }
        assert(self.surfaces@.take(i as int) =~= self.surfaces@);
        actions
    }

    /// The compositor told something of a gamma control.
    pub fn gamma_event(&mut self, control: u32, event: GammaEvent)
        requires
            old(self).wf(),
        ensures
            final(self).wf(),
            final(self).surfaces@ == old(self).surfaces@.map_values(
                wayland::gamma_told(control, event),
            ),
            *final(self) == (ZenState { surfaces: final(self).surfaces, ..*old(self) }),
    {
        wayland::tell_gamma(&mut self.surfaces, control, event);
    }
}

} // verus!
