//! Escape-to-RGB colorization with phase-shifted sine channels.
//!
//! Each channel is `saturate(coef * sine(i * freq + phase) + offset)`, with
//! the sine evaluated by a rational approximation on the fixed-point plane
//! and the result clamped (never wrapped) into `[0, 255]`.  An interior
//! point (`None` escape) is always painted black.

use crate::fixed::{clipped, mul_fp, Fx, FX_MAX_MAG, FX_ONE};
use crate::polycomplex::Escape;
use vstd::arithmetic::div_mod::{
    lemma_div_is_ordered, lemma_div_multiples_vanish, lemma_div_pos_is_pos, lemma_mod_bound,
};
use vstd::prelude::*;

verus! {

/// Raw magnitude of the sine period constant `pi`.
pub const PI_MAG: u64 = 13493037704;

/// Raw magnitude of one full sine period, `2 * pi`.
pub const TWO_PI_MAG: u64 = 26986075408;

/// Raw magnitude of `5 * pi * pi`, the constant term of the rational sine
/// approximation's denominator.
pub const FIVE_PI_SQ_MAG: u64 = 211948140619;

/// The half-wave rational sine approximation on `t` in `[0, pi)`:
/// `16 t (pi - t) / (5 pi^2 - 4 t (pi - t))`, with a degenerate
/// denominator guarded to one.
pub open spec fn half_sine_v(t: int) -> int {
    let u = clipped(mul_fp(t, PI_MAG as int - t));
    let den = if 4 * u >= FIVE_PI_SQ_MAG as int {
        1int
    } else {
        FIVE_PI_SQ_MAG as int - 4 * u
    };
    clipped((16 * u * FX_ONE as int) / den)
}

/// The full sine wave for a non-negative raw angle: period reduction, then
/// the half-wave approximation with its sign.
pub open spec fn sine_pos_v(x: int) -> int {
    let t = x % (TWO_PI_MAG as int);
    if t >= PI_MAG as int {
        -half_sine_v(t - PI_MAG as int)
    } else {
        half_sine_v(t)
    }
}

/// The full sine wave on any raw angle: an odd function.
pub open spec fn sine_v(x: int) -> int {
    if x < 0 {
        -sine_pos_v(-x)
    } else {
        sine_pos_v(x)
    }
}

/// An approximate sine on the fixed-point plane; mirrors [`sine_v`].
pub fn sine(x: Fx) -> (r: Fx)
    requires
        x.wf(),
    ensures
        r.v() == sine_v(x.v()),
        r.wf(),
{
    let negated = x.is_neg();
    let m = x.mag();
    proof {
        lemma_mod_bound(m as int, TWO_PI_MAG as int);
    }
    let t0: u64 = m % TWO_PI_MAG;
    let flip = t0 >= PI_MAG;
    let t: u64 = if flip {
        t0 - PI_MAG
    } else {
        t0
    };
    let tf = Fx::from_parts(false, t);
    let pt = Fx::from_parts(false, PI_MAG - t);
    let u = tf.mul(pt);
    let umag = u.mag();
    proof {
        assert(u.v() >= 0);
        assert(umag as int == clipped(mul_fp(t as int, PI_MAG as int - t as int)));
    }
    let den: u128 = if 4 * (umag as u128) >= FIVE_PI_SQ_MAG as u128 {
        1
    } else {
        FIVE_PI_SQ_MAG as u128 - 4 * (umag as u128)
    };
    let num: u128 = 16 * (umag as u128) * (FX_ONE as u128);
    let q: u128 = num / den;
    let mag: u64 = if q > FX_MAX_MAG as u128 {
        FX_MAX_MAG
    } else {
        q as u64
    };
    Fx::from_parts(negated != flip, mag)
}

/// Clamp a raw channel value into `[0, 255]` and truncate to the integer
/// grid; never wraps.
pub open spec fn saturate_v(x: int) -> int {
    if x < 0 {
        0
    } else if x > 255 * FX_ONE as int {
        255
    } else {
        x / FX_ONE as int
    }
}

/// Clamp a fixed-point channel value to an 8-bit channel; mirrors
/// [`saturate_v`].
fn saturate_channel(i: Fx) -> (r: u8)
    requires
        i.wf(),
    ensures
        r as int == saturate_v(i.v()),
{
    if i.is_neg() {
        0
    } else {
        let m = i.mag();
        if m > 255 * FX_ONE {
            255
        } else {
            proof {
                lemma_div_is_ordered(m as int, 255 * FX_ONE as int, FX_ONE as int);
                lemma_div_multiples_vanish(255, FX_ONE as int);
                lemma_div_pos_is_pos(m as int, FX_ONE as int);
            }
            (m / FX_ONE) as u8
        }
    }
}

/// A single color channel: a phase-shifted, scaled sine of the escape
/// count.
#[derive(Copy, Clone, Debug, PartialEq, Eq, Structural)]
pub struct SineChannel {
    pub coef: Fx,
    pub freq: Fx,
    pub phase: Fx,
    pub offset: Fx,
}

/// The raw value a channel computes for escape count `i`, before the
/// 8-bit clamp: `coef * sine(i * freq + phase) + offset`.
pub open spec fn channel_v(ch: SineChannel, i: int) -> int {
    let arg = clipped(clipped(mul_fp(i, ch.freq.v())) + ch.phase.v());
    clipped(clipped(mul_fp(ch.coef.v(), sine_v(arg))) + ch.offset.v())
}

impl SineChannel {
    /// Well-formed: all four parameters canonical.
    pub open spec fn wf(self) -> bool {
        self.coef.wf() && self.freq.wf() && self.phase.wf() && self.offset.wf()
    }

    /// The clamped 8-bit channel value for escape count `i`.
    pub fn compute(&self, i: Fx) -> (r: u8)
        requires
            self.wf(),
            i.wf(),
        ensures
            r as int == saturate_v(channel_v(*self, i.v())),
    {
        let input = self.coef.mul(sine(i.mul(self.freq).add(self.phase))).add(self.offset);
        saturate_channel(input)
    }

    /// The sunset preset: three channels with phases spaced 60 degrees
    /// apart (`pi * 9/6`, `pi * 10/6`, `pi * 11/6`), a deliberate
    /// deviation from true 120-degree RGB spacing.
    pub fn sunset() -> (r: (SineChannel, SineChannel, SineChannel))
        ensures
            r.0.coef.v() == 601295421440 && r.0.freq.v() == 429496729 && r.0.offset.v()
                == 481036337152 && r.0.phase.v() == 20239556556,
            r.1.coef.v() == 601295421440 && r.1.freq.v() == 429496729 && r.1.offset.v()
                == 481036337152 && r.1.phase.v() == 22488396173,
            r.2.coef.v() == 601295421440 && r.2.freq.v() == 429496729 && r.2.offset.v()
                == 481036337152 && r.2.phase.v() == 24737235790,
            r.0.wf() && r.1.wf() && r.2.wf(),
    {
        (
            SineChannel {
                coef: Fx::from_parts(false, 601295421440),
                freq: Fx::from_parts(false, 429496729),
                phase: Fx::from_parts(false, 20239556556),
                offset: Fx::from_parts(false, 481036337152),
            },
            SineChannel {
                coef: Fx::from_parts(false, 601295421440),
                freq: Fx::from_parts(false, 429496729),
                phase: Fx::from_parts(false, 22488396173),
                offset: Fx::from_parts(false, 481036337152),
            },
            SineChannel {
                coef: Fx::from_parts(false, 601295421440),
                freq: Fx::from_parts(false, 429496729),
                phase: Fx::from_parts(false, 24737235790),
                offset: Fx::from_parts(false, 481036337152),
            },
        )
    }
}

/// A three-channel colorer mapping escape values to RGB triples.
#[derive(Copy, Clone, Debug)]
pub struct SineRGB {
    channels: (SineChannel, SineChannel, SineChannel),
}

/// The RGB triple a colorer computes: black for an interior point, the
/// three clamped channels of the smoothed count otherwise.
pub open spec fn rgb_v(s: SineRGB, e: Escape) -> (int, int, int) {
    match e {
        Option::None => (0int, 0int, 0int),
        Option::Some(f) => (
            saturate_v(channel_v(s.channel_triple().0, f.v())),
            saturate_v(channel_v(s.channel_triple().1, f.v())),
            saturate_v(channel_v(s.channel_triple().2, f.v())),
        ),
    }
}

impl SineRGB {
    /// The channel configuration.
    pub closed spec fn channel_triple(self) -> (SineChannel, SineChannel, SineChannel) {
        self.channels
    }

    /// Well-formed: all three channels canonical.
    pub open spec fn wf(self) -> bool {
        self.channel_triple().0.wf() && self.channel_triple().1.wf()
            && self.channel_triple().2.wf()
    }

    /// A colorer from three explicit channels.
    pub fn new(channels: (SineChannel, SineChannel, SineChannel)) -> (r: SineRGB)
        ensures
            r.channel_triple() == channels,
    {
        SineRGB { channels }
    }

    /// The three channels, in order.
    pub fn channels(&self) -> (r: (SineChannel, SineChannel, SineChannel))
        ensures
            r == self.channel_triple(),
    {
        self.channels
    }

    /// Convert an escape value to an RGB triple.
    ///
    /// Interior points are black; escaping points get three independently
    /// clamped phase-shifted sine channels of their smoothed count.
    pub fn rgb(&self, escape: Escape) -> (r: (u8, u8, u8))
        requires
            self.wf(),
            escape is Some ==> escape->0.wf(),
        ensures
            (r.0 as int, r.1 as int, r.2 as int) == rgb_v(*self, escape),
    {
        match escape {
            Option::None => (0, 0, 0),
            Option::Some(i) => (
                self.channels.0.compute(i),
                self.channels.1.compute(i),
                self.channels.2.compute(i),
            ),
        }
    }
}

impl Default for SineRGB {
    /// The sunset-preset colorer.
    fn default() -> (r: SineRGB)
        ensures
            r.wf(),
            r.channel_triple().0.phase.v() == 20239556556,
            r.channel_triple().1.phase.v() == 22488396173,
            r.channel_triple().2.phase.v() == 24737235790,
    {
        SineRGB { channels: SineChannel::sunset() }
    }
}

/// Law: every channel value a colorer reports is already clamped: the
/// saturation function lands in `[0, 255]` on every input, so no escape
/// value can produce an out-of-range or wrapped channel.
pub proof fn law_channel_clamped(x: int)
    ensures
        0 <= saturate_v(x) <= 255,
{
    if 0 <= x <= 255 * FX_ONE as int {
        lemma_div_is_ordered(x, 255 * FX_ONE as int, FX_ONE as int);
        lemma_div_multiples_vanish(255, FX_ONE as int);
        lemma_div_pos_is_pos(x, FX_ONE as int);
    }
}

/// Law: an interior point (no escape) is painted exactly black, and every
/// finite escape value yields a triple whose channels all lie in
/// `[0, 255]`.
pub proof fn law_colorer_output(s: SineRGB, e: Escape)
    ensures
        e is None ==> rgb_v(s, e) == (0int, 0int, 0int),
        0 <= rgb_v(s, e).0 <= 255,
        0 <= rgb_v(s, e).1 <= 255,
        0 <= rgb_v(s, e).2 <= 255,
{
    if let Some(f) = e {
        law_channel_clamped(channel_v(s.channel_triple().0, f.v()));
        law_channel_clamped(channel_v(s.channel_triple().1, f.v()));
        law_channel_clamped(channel_v(s.channel_triple().2, f.v()));
    }
}

} // verus!
