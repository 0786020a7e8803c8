use vstd::prelude::*;

use crate::kind::FilterKind;

verus! {

/// Number of bands in the cascade.
pub const BANDS: usize = 10;

/// Number of audio channels the cascade filters.
pub const CHANNELS: usize = 2;

/// Whether band `index` of `count` sits at either end of the cascade; such a
/// band defaults to the broad Q of 0.5, the others to 2.0.
pub open spec fn spec_is_edge_band(index: nat, count: nat) -> bool {
    index == 0 || index + 1 == count
}

/// The kind that band `index` of `count` starts with: a low shelf first, a
/// high shelf last, peaks in between.
pub open spec fn spec_default_kind(index: nat, count: nat) -> FilterKind {
    if index == 0 {
        FilterKind::LowShelf
    } else if index + 1 == count {
        FilterKind::HighShelf
    } else {
        FilterKind::Peak
    }
}

/// Whether band `index` of `count` sits at either end of the cascade.
pub fn is_edge_band(index: u32, count: u32) -> (r: bool)
    requires
        index < count,
    ensures
        r == spec_is_edge_band(index as nat, count as nat),
{
    index == 0 || index == count - 1
}

/// The kind that band `index` of `count` starts with.
pub fn default_kind(index: u32, count: u32) -> (r: FilterKind)
    requires
        index < count,
    ensures
        r == spec_default_kind(index as nat, count as nat),
{
    if index == 0 {
        FilterKind::LowShelf
    } else if index == count - 1 {
        FilterKind::HighShelf
    } else {
        FilterKind::Peak
    }
}

/// The user-facing settings of one band: frequency, gain and Q (of the
/// caller's sample type), the response kind, and whether the band is on.
#[derive(Clone, Copy, Debug)]
pub struct Filter<T> {
    pub freq: T,
    pub gain: T,
    pub q: T,
    pub kind: FilterKind,
    pub enabled: bool,
}

impl<T: Copy> Filter<T> {
    /// The kind-dependent part of the band's invariant: a kind that ignores
    /// gain carries a gain of `zero`.
    pub open spec fn gain_fits_kind(self, zero: T) -> bool {
        !self.kind.spec_uses_gain() ==> self.gain == zero
    }

    /// Settings for band `index` of `count`: the given frequency, a gain of
    /// `zero`, Q `edge_q` for the first and last band and `inner_q` otherwise,
    /// the band's default kind, enabled.
    pub fn new(index: u32, count: u32, freq: T, zero: T, edge_q: T, inner_q: T) -> (r: Self)
        requires
            index < count,
        ensures
            r.freq == freq,
            r.gain == zero,
            r.q == (if spec_is_edge_band(index as nat, count as nat) {
                edge_q
            } else {
                inner_q
            }),
            r.kind == spec_default_kind(index as nat, count as nat),
            r.enabled,
            r.gain_fits_kind(zero),
    {
        let q = if is_edge_band(index, count) {
            edge_q
        } else {
            inner_q
        };
        Filter { freq, gain: zero, q, kind: default_kind(index, count), enabled: true }
    }

    /// Switches the band to `kind`, clearing the gain to `zero` when the new
    /// kind does not use it.
    pub fn set_kind(&mut self, kind: FilterKind, zero: T)
        ensures
            final(self).kind == kind,
            final(self).gain == (if kind.spec_uses_gain() {
                old(self).gain
            } else {
                zero
            }),
            final(self).freq == old(self).freq,
            final(self).q == old(self).q,
            final(self).enabled == old(self).enabled,
            final(self).gain_fits_kind(zero),
    {
        self.kind = kind;
        if !kind.uses_gain() {
            self.gain = zero;
        }
    }

    /// Steps the band to the next kind in the cyclic order.
    pub fn next_kind(&mut self, zero: T)
        ensures
            *final(self) == (Filter {
                kind: old(self).kind.spec_next(),
                gain: if old(self).kind.spec_next().spec_uses_gain() {
                    old(self).gain
                } else {
                    zero
                },
                ..*old(self)
            }),
    {
        let kind = self.kind.next();
        self.set_kind(kind, zero);
    }

    /// Steps the band to the previous kind in the cyclic order.
    pub fn prev_kind(&mut self, zero: T)
        ensures
            *final(self) == (Filter {
                kind: old(self).kind.spec_prev(),
                gain: if old(self).kind.spec_prev().spec_uses_gain() {
                    old(self).gain
                } else {
                    zero
                },
                ..*old(self)
            }),
    {
        let kind = self.kind.prev();
        self.set_kind(kind, zero);
    }
}

/// Normalised biquad coefficients (`a0` divided out, so it is 1).
#[derive(Clone, Copy, Debug)]
pub struct Coefficients<T> {
    pub b0: T,
    pub b1: T,
    pub b2: T,
    pub a1: T,
    pub a2: T,
}

/// One biquad section in direct form I: its coefficients and its delay line
/// (the last two inputs `z1`, `z2` and the last two outputs `y1`, `y2`).
#[derive(Clone, Copy, Debug)]
pub struct FilterState<T> {
    pub b0: T,
    pub b1: T,
    pub b2: T,
    pub a1: T,
    pub a2: T,
    pub z1: T,
    pub z2: T,
    pub y1: T,
    pub y2: T,
}

impl<T: Copy> FilterState<T> {
    /// The section after it took `input` and produced `output`: each delay
    /// pair shifts by one, the coefficients stay.
    pub open spec fn advanced(self, input: T, output: T) -> FilterState<T> {
        FilterState { z2: self.z1, z1: input, y2: self.y1, y1: output, ..self }
    }

    /// The section with new coefficients and the delay line unchanged.
    pub open spec fn with_coefficients(self, c: Coefficients<T>) -> FilterState<T> {
        FilterState { b0: c.b0, b1: c.b1, b2: c.b2, a1: c.a1, a2: c.a2, ..self }
    }

    /// The current coefficients.
    pub open spec fn spec_coefficients(self) -> Coefficients<T> {
        Coefficients { b0: self.b0, b1: self.b1, b2: self.b2, a1: self.a1, a2: self.a2 }
    }

    /// A section whose coefficients and delay line all hold `zero`.
    pub open spec fn new_spec(zero: T) -> FilterState<T> {
        FilterState {
            b0: zero,
            b1: zero,
            b2: zero,
            a1: zero,
            a2: zero,
            z1: zero,
            z2: zero,
            y1: zero,
            y2: zero,
        }
    }

    /// A section whose coefficients and delay line all hold `zero`.
    pub fn new(zero: T) -> (r: Self)
        ensures
            r == Self::new_spec(zero),
    {
        FilterState {
            b0: zero,
            b1: zero,
            b2: zero,
            a1: zero,
            a2: zero,
            z1: zero,
            z2: zero,
            y1: zero,
            y2: zero,
        }
    }

    /// The current coefficients.
    pub fn coefficients(&self) -> (r: Coefficients<T>)
        ensures
            r == self.spec_coefficients(),
    {
        Coefficients { b0: self.b0, b1: self.b1, b2: self.b2, a1: self.a1, a2: self.a2 }
    }

    /// Installs new coefficients; the delay line is kept, so that a parameter
    /// change does not reset the filter's memory.
    pub fn set_coefficients(&mut self, c: Coefficients<T>)
        ensures
            *final(self) == old(self).with_coefficients(c),
    {
        self.b0 = c.b0;
        self.b1 = c.b1;
        self.b2 = c.b2;
        self.a1 = c.a1;
        self.a2 = c.a2;
    }

    /// Filters one sample: `tap` computes the output from the section as it
    /// stands and the input, then the delay line shifts the input and output in.
    pub fn process_with<F: Fn(FilterState<T>, T) -> T>(&mut self, sample: T, tap: &F) -> (r: T)
        requires
            tap.requires((*old(self), sample)),
        ensures
            tap.ensures((*old(self), sample), r),
            *final(self) == old(self).advanced(sample, r),
    {
        let out = tap(*self, sample);
        self.z2 = self.z1;
        self.z1 = sample;
        self.y2 = self.y1;
        self.y1 = out;
        out
    }
}

} // verus!
