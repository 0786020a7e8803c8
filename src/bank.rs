use vstd::prelude::*;

use crate::filter::{BANDS, CHANNELS, Coefficients, Filter, FilterState};

verus! {

/// Index of the section of band `band` for channel `channel`.
pub open spec fn slot(channel: nat, band: nat) -> nat {
    channel * (BANDS as nat) + band
}

/// The sample that enters band `band` of a channel whose sections, after the
/// sample went through, are `states` (from `slot(channel, 0)` on): the channel
/// input for the first band, else the output of the nearest enabled band
/// before it, or the channel input if there is none.
pub open spec fn stage_input<T>(
    states: Seq<FilterState<T>>,
    enabled: Seq<bool>,
    channel: nat,
    input: T,
    band: nat,
) -> T
    decreases band,
{
    if band == 0 {
        input
    } else if enabled[band - 1] {
        states[slot(channel, (band - 1) as nat) as int].y1
    } else {
        stage_input(states, enabled, channel, input, (band - 1) as nat)
    }
}

/// One sample `input` of channel `channel` going through the cascade with
/// output `output`, taking the sections from `before` to `after`: the other
/// channels and every disabled band stay as they were, and each enabled band
/// computes its output with `tap` from its previous section and the sample
/// that reaches it, then shifts both into its delay line.
pub open spec fn cascade_step<T: Copy, F: Fn(FilterState<T>, T) -> T>(
    tap: F,
    before: Seq<FilterState<T>>,
    after: Seq<FilterState<T>>,
    enabled: Seq<bool>,
    channel: nat,
    input: T,
    output: T,
) -> bool {
    &&& after.len() == before.len()
    &&& forall|i: int|
        0 <= i < before.len() && !(slot(channel, 0) <= i < slot(channel, BANDS as nat))
            ==> #[trigger] after[i] == before[i]
    &&& forall|b: nat|
        b < BANDS && !enabled[b as int] ==> #[trigger] after[slot(channel, b) as int]
            == before[slot(channel, b) as int]
    &&& forall|b: nat|
        b < BANDS && enabled[b as int] ==> {
            let old_state = before[slot(channel, b) as int];
            let new_state = #[trigger] after[slot(channel, b) as int];
            let x = stage_input(after, enabled, channel, input, b);
            &&& tap.ensures((old_state, x), new_state.y1)
            &&& new_state == old_state.advanced(x, new_state.y1)
        }
    &&& output == stage_input(after, enabled, channel, input, BANDS as nat)
}

/// A band that one cascade step skips keeps its section, and when a later
/// step runs it again it starts from that frozen section: its output comes
/// from `tap` on the frozen section, and its delay line shifts from the
/// frozen values, not from a reset one.
pub proof fn lemma_resume_from_frozen<T: Copy, F: Fn(FilterState<T>, T) -> T>(
    tap: F,
    s0: Seq<FilterState<T>>,
    s1: Seq<FilterState<T>>,
    s2: Seq<FilterState<T>>,
    off: Seq<bool>,
    on: Seq<bool>,
    channel: nat,
    band: nat,
    x1: T,
    y1: T,
    x2: T,
    y2: T,
)
    requires
        band < BANDS,
        !off[band as int],
        on[band as int],
        cascade_step(tap, s0, s1, off, channel, x1, y1),
        cascade_step(tap, s1, s2, on, channel, x2, y2),
    ensures
        ({
            let frozen = s0[slot(channel, band) as int];
            let resumed = s2[slot(channel, band) as int];
            let x = stage_input(s2, on, channel, x2, band);
            &&& s1[slot(channel, band) as int] == frozen
            &&& tap.ensures((frozen, x), resumed.y1)
            &&& resumed == frozen.advanced(x, resumed.y1)
        }),
{
    assert(s1[slot(channel, band) as int] == s0[slot(channel, band) as int]);
    assert(s2[slot(channel, band) as int] == s2[slot(channel, band) as int]);
}

proof fn lemma_stage_input_prefix<T>(
    s1: Seq<FilterState<T>>,
    s2: Seq<FilterState<T>>,
    enabled: Seq<bool>,
    channel: nat,
    input: T,
    band: nat,
)
    requires
        forall|b: nat| b < band ==> s1[slot(channel, b) as int] == s2[slot(channel, b) as int],
    ensures
        stage_input(s1, enabled, channel, input, band) == stage_input(
            s2,
            enabled,
            channel,
            input,
            band,
        ),
    decreases band,
{
    if band > 0 {
        assert(s1[slot(channel, (band - 1) as nat) as int] == s2[slot(
            channel,
            (band - 1) as nat,
        ) as int]);
        lemma_stage_input_prefix(s1, s2, enabled, channel, input, (band - 1) as nat);
    }
}

/// The cascade: `BANDS` biquad sections in series for each of `CHANNELS`
/// channels. The bands share their coefficients across channels; each
/// channel keeps its own delay lines.
pub struct FilterBank<T> {
    states: Vec<FilterState<T>>,
}

impl<T: Copy> FilterBank<T> {
    /// All sections, channel by channel, band by band (see `slot`).
    pub closed spec fn spec_states(&self) -> Seq<FilterState<T>> {
        self.states@
    }

    /// Holds one section per band and channel.
    pub open spec fn wf(&self) -> bool {
        self.spec_states().len() == CHANNELS * BANDS
    }

    /// A bank whose sections all hold `zero` in every coefficient and delay.
    pub fn new(zero: T) -> (r: Self)
        ensures
            r.wf(),
            forall|i: int|
                0 <= i < CHANNELS * BANDS ==> #[trigger] r.spec_states()[i] == FilterState::new_spec(zero),
    {
        let mut states: Vec<FilterState<T>> = Vec::new();
        let mut i: usize = 0;
        while i < CHANNELS * BANDS
            invariant
                i <= CHANNELS * BANDS,
                states@.len() == i,
                forall|j: int| 0 <= j < i ==> #[trigger] states@[j] == FilterState::new_spec(zero),
            decreases CHANNELS * BANDS - i,
        {
            states.push(FilterState::new(zero));
            i = i + 1;
        }
        FilterBank { states }
    }

    /// The section of band `band` for channel `channel`.
    pub fn state(&self, channel: usize, band: usize) -> (r: FilterState<T>)
        requires
            self.wf(),
            channel < CHANNELS,
            band < BANDS,
        ensures
            r == self.spec_states()[slot(channel as nat, band as nat) as int],
    {
        self.states[channel * BANDS + band]
    }

    /// Installs the coefficients of band `band` in every channel; all delay
    /// lines are kept.
    pub fn set_coefficients(&mut self, band: usize, c: Coefficients<T>)
        requires
            old(self).wf(),
            band < BANDS,
        ensures
            final(self).wf(),
            forall|i: int|
                0 <= i < CHANNELS * BANDS ==> #[trigger] final(self).spec_states()[i] == if i
                    % (BANDS as int) == band {
                    old(self).spec_states()[i].with_coefficients(c)
                } else {
                    old(self).spec_states()[i]
                },
    {
        let mut channel: usize = 0;
        while channel < CHANNELS
            invariant
                channel <= CHANNELS,
                band < BANDS,
                self.states@.len() == CHANNELS * BANDS,
                forall|i: int|
                    0 <= i < CHANNELS * BANDS ==> #[trigger] self.states@[i] == if i % (
                    BANDS as int) == band && i < channel * BANDS {
                        old(self).spec_states()[i].with_coefficients(c)
                    } else {
                        old(self).spec_states()[i]
                    },
            decreases CHANNELS - channel,
        {
            let k = channel * BANDS + band;
            let mut s = self.states[k];
            s.set_coefficients(c);
            self.states.set(k, s);
            channel = channel + 1;
        }
    }

    /// Recomputes the coefficients of every band from its settings with
    /// `design` (once per band, shared by the channels); all delay lines are
    /// kept.
    #[verifier::spinoff_prover]
    #[verifier::rlimit(30)]
    pub fn configure<F: Fn(Filter<T>) -> Coefficients<T>>(
        &mut self,
        filters: &Vec<Filter<T>>,
        design: &F,
    )
        requires
            old(self).wf(),
            filters@.len() == BANDS,
            forall|f: Filter<T>| design.requires((f,)),
        ensures
            final(self).wf(),
            forall|i: int|
                0 <= i < CHANNELS * BANDS ==> {
                    let c = (#[trigger] final(self).spec_states()[i]).spec_coefficients();
                    &&& final(self).spec_states()[i] == old(self).spec_states()[i].with_coefficients(c)
                    &&& design.ensures((filters@[i % (BANDS as int)],), c)
                    &&& c == final(self).spec_states()[i % (BANDS as int)].spec_coefficients()
                },
    {
        let mut band: usize = 0;
        while band < BANDS
            invariant
                band <= BANDS,
                filters@.len() == BANDS,
                forall|f: Filter<T>| design.requires((f,)),
                self.wf(),
                forall|i: int|
                    0 <= i < CHANNELS * BANDS && i % (BANDS as int) >= band ==> #[trigger] self.spec_states()[i]
                        == old(self).spec_states()[i],
                forall|i: int|
                    0 <= i < CHANNELS * BANDS && i % (BANDS as int) < band ==> {
                        let c = (#[trigger] self.spec_states()[i]).spec_coefficients();
                        &&& self.spec_states()[i] == old(self).spec_states()[i].with_coefficients(c)
                        &&& design.ensures((filters@[i % (BANDS as int)],), c)
                        &&& c == self.spec_states()[i % (BANDS as int)].spec_coefficients()
                    },
            decreases BANDS - band,
        {
            let c = design(filters[band]);
            self.set_coefficients(band, c);
            band = band + 1;
        }
    }

    /// Runs one sample of channel `channel` through bands 0 to `BANDS - 1` in
    /// order, each enabled band feeding its output to the next. A disabled band
    /// passes the sample on unchanged and its delay line stays as it was, so
    /// that enabling it again resumes from that frozen state.
    pub fn process<F: Fn(FilterState<T>, T) -> T>(
        &mut self,
        channel: usize,
        enabled: &Vec<bool>,
        sample: T,
        tap: &F,
    ) -> (r: T)
        requires
            old(self).wf(),
            channel < CHANNELS,
            enabled@.len() == BANDS,
            forall|s: FilterState<T>, x: T| tap.requires((s, x)),
        ensures
            final(self).wf(),
            forall|i: int|
                0 <= i < CHANNELS * BANDS && !(slot(channel as nat, 0) <= i < slot(
                    channel as nat,
                    BANDS as nat,
                )) ==> #[trigger] final(self).spec_states()[i] == old(self).spec_states()[i],
            forall|b: nat|
                b < BANDS && !enabled@[b as int] ==> #[trigger] final(self).spec_states()[slot(
                    channel as nat,
                    b,
                ) as int] == old(self).spec_states()[slot(channel as nat, b) as int],
            forall|b: nat|
                b < BANDS && enabled@[b as int] ==> {
                    let before = old(self).spec_states()[slot(channel as nat, b) as int];
                    let after = #[trigger] final(self).spec_states()[slot(channel as nat, b) as int];
                    let x = stage_input(final(self).spec_states(), enabled@, channel as nat, sample, b);
                    &&& tap.ensures((before, x), after.y1)
                    &&& after == before.advanced(x, after.y1)
                },
            r == stage_input(final(self).spec_states(), enabled@, channel as nat, sample, BANDS as nat),
            cascade_step(
                *tap,
                old(self).spec_states(),
                final(self).spec_states(),
                enabled@,
                channel as nat,
                sample,
                r,
            ),
    {
        let ghost start = self.states@;
        let base = channel * BANDS;
        let mut x = sample;
        let mut band: usize = 0;
        while band < BANDS
            invariant
                band <= BANDS,
                channel < CHANNELS,
                base == channel * BANDS,
                enabled@.len() == BANDS,
                forall|s: FilterState<T>, v: T| tap.requires((s, v)),
                start == old(self).spec_states(),
                self.states@.len() == CHANNELS * BANDS,
                x == stage_input(self.states@, enabled@, channel as nat, sample, band as nat),
                forall|i: int|
                    0 <= i < CHANNELS * BANDS && !(base <= i < base + band) ==> #[trigger] self.states@[i]
                        == start[i],
                forall|b: nat|
                    b < band && !enabled@[b as int] ==> #[trigger] self.states@[slot(
                        channel as nat,
                        b,
                    ) as int] == start[slot(channel as nat, b) as int],
                forall|b: nat|
                    b < band && enabled@[b as int] ==> {
                        let before = start[slot(channel as nat, b) as int];
                        let after = #[trigger] self.states@[slot(channel as nat, b) as int];
                        let v = stage_input(self.states@, enabled@, channel as nat, sample, b);
                        &&& tap.ensures((before, v), after.y1)
                        &&& after == before.advanced(v, after.y1)
                    },
            decreases BANDS - band,
        {
            let ghost prev = self.states@;
            if enabled[band] {
                let mut s = self.states[base + band];
                x = s.process_with(x, tap);
                self.states.set(base + band, s);
            }
            proof {
                let cur = self.states@;
                assert forall|b: nat| b <= band implies #[trigger] stage_input(cur, enabled@, channel as nat, sample, b)
                    == stage_input(prev, enabled@, channel as nat, sample, b) by {
                    lemma_stage_input_prefix(cur, prev, enabled@, channel as nat, sample, b);
                }
                assert(stage_input(cur, enabled@, channel as nat, sample, (band + 1) as nat) == x);
            }
            band = band + 1;
        }
        x
    }

    /// Runs a block of channel `channel` through the cascade in place, sample
    /// by sample, each sample replaced by the cascade's output. The bank goes
    /// through one `cascade_step` per sample; a band disabled for the block
    /// keeps its delay line exactly as it was, and so does the other channel.
    pub fn process_block<F: Fn(FilterState<T>, T) -> T>(
        &mut self,
        channel: usize,
        enabled: &Vec<bool>,
        block: &mut Vec<T>,
        tap: &F,
    )
        requires
            old(self).wf(),
            channel < CHANNELS,
            enabled@.len() == BANDS,
            forall|s: FilterState<T>, x: T| tap.requires((s, x)),
        ensures
            final(self).wf(),
            final(block)@.len() == old(block)@.len(),
            exists|runs: Seq<Seq<FilterState<T>>>|
                #[trigger] runs.len() == old(block)@.len() + 1 && runs[0] == old(self).spec_states()
                    && runs.last() == final(self).spec_states() && forall|n: int|
                    0 <= n < old(block)@.len() ==> cascade_step(
                        *tap,
                        #[trigger] runs[n],
                        runs[n + 1],
                        enabled@,
                        channel as nat,
                        old(block)@[n],
                        final(block)@[n],
                    ),
            forall|i: int|
                0 <= i < CHANNELS * BANDS && !(slot(channel as nat, 0) <= i < slot(
                    channel as nat,
                    BANDS as nat,
                )) ==> #[trigger] final(self).spec_states()[i] == old(self).spec_states()[i],
            forall|b: nat|
                b < BANDS && !enabled@[b as int] ==> #[trigger] final(self).spec_states()[slot(
                    channel as nat,
                    b,
                ) as int] == old(self).spec_states()[slot(channel as nat, b) as int],
    {
        let ghost start = self.states@;
        let ghost input = block@;
        let ghost mut runs: Seq<Seq<FilterState<T>>> = seq![self.states@];
        let mut n: usize = 0;
        while n < block.len()
            invariant
                channel < CHANNELS,
                enabled@.len() == BANDS,
                forall|s: FilterState<T>, x: T| tap.requires((s, x)),
                self.wf(),
                start == old(self).spec_states(),
                input == old(block)@,
                block@.len() == input.len(),
                n <= block@.len(),
                forall|j: int| n <= j < input.len() ==> #[trigger] block@[j] == input[j],
                runs.len() == n + 1,
                runs[0] == start,
                runs.last() == self.spec_states(),
                forall|j: int|
                    0 <= j < n ==> cascade_step(
                        *tap,
                        #[trigger] runs[j],
                        runs[j + 1],
                        enabled@,
                        channel as nat,
                        input[j],
                        block@[j],
                    ),
                forall|i: int|
                    0 <= i < CHANNELS * BANDS && !(slot(channel as nat, 0) <= i < slot(
                        channel as nat,
                        BANDS as nat,
                    )) ==> #[trigger] self.spec_states()[i] == start[i],
                forall|b: nat|
                    b < BANDS && !enabled@[b as int] ==> #[trigger] self.spec_states()[slot(
                        channel as nat,
                        b,
                    ) as int] == start[slot(channel as nat, b) as int],
            decreases block@.len() - n,
        {
            let ghost prev_runs = runs;
            let ghost prev_block = block@;
            let out = self.process(channel, enabled, block[n], tap);
            block.set(n, out);
            proof {
                runs = prev_runs.push(self.spec_states());
                assert forall|j: int| 0 <= j < n + 1 implies cascade_step(
                    *tap,
                    #[trigger] runs[j],
                    runs[j + 1],
                    enabled@,
                    channel as nat,
                    input[j],
                    block@[j],
                ) by {
                    if j < n {
                        assert(runs[j] == prev_runs[j]);
                        assert(runs[j + 1] == prev_runs[j + 1]);
                        assert(block@[j] == prev_block[j]);
                    }
                }
            }
            n = n + 1;
        }
        assert(runs.len() == input.len() + 1);
    }
}

} // verus!
