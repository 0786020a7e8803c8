use vstd::prelude::*;

verus! {

/// Length of each analysis window, and of the FFT run on it.
pub const FFT_SIZE: usize = 4096;

/// Number of frequency bins that a real FFT of `FFT_SIZE` samples yields.
pub const BIN_COUNT: usize = 2049;

/// The window, if any, that a new sample completes.
#[derive(Clone, Copy, Debug, PartialEq, Eq, Structural)]
pub enum Completed {
    Nothing,
    WindowA,
    WindowB,
}

/// What a sample written at cursor `c` completes: window A when the cursor
/// wraps to 0, window B when it reaches the half-way point.
pub open spec fn completed_at(c: nat) -> Completed {
    if (c + 1) % (FFT_SIZE as nat) == 0 {
        Completed::WindowA
    } else if (c + 1) % (FFT_SIZE as nat) == (FFT_SIZE / 2) as nat {
        Completed::WindowB
    } else {
        Completed::Nothing
    }
}

/// Where in window B the sample written at cursor `c` goes: half a window
/// ahead of window A.
pub open spec fn offset_index(c: nat) -> nat {
    (c + (FFT_SIZE / 2) as nat) % (FFT_SIZE as nat)
}

/// Over one full cycle of `FFT_SIZE` samples, from any cursor, exactly two
/// samples complete a window: window A when the cursor wraps to 0 and window
/// B when it reaches `FFT_SIZE / 2`.
pub proof fn lemma_two_completions_per_cycle(start: nat)
    requires
        start < FFT_SIZE,
    ensures
        ({
            let n = FFT_SIZE as int;
            let fired = Set::new(
                |k: int| 0 <= k < n && completed_at(((start + k) % n) as nat) != Completed::Nothing,
            );
            let at_a = (n - 1 - start) as int;
            let at_b = (n + n / 2 - 1 - start) % n;
            &&& fired == set![at_a, at_b]
            &&& fired.len() == 2
            &&& completed_at(((start + at_a) % n) as nat) == Completed::WindowA
            &&& (start + at_a + 1) % n == 0
            &&& completed_at(((start + at_b) % n) as nat) == Completed::WindowB
            &&& (start + at_b + 1) % n == n / 2
        }),
{
    let n = FFT_SIZE as int;
    let fired = Set::new(
        |k: int| 0 <= k < n && completed_at(((start + k) % n) as nat) != Completed::Nothing,
    );
    let at_a = (n - 1 - start) as int;
    let at_b = (n + n / 2 - 1 - start) % n;
    assert forall|k: int| #[trigger] fired.contains(k) <==> (k == at_a || k == at_b) by {
        if 0 <= k < n {
            let c = (start + k) % n;
            if start + k < n {
                assert(c == start + k);
            } else {
                assert(c == start + k - n);
            }
        }
    }
    assert(fired =~= set![at_a, at_b]);
    assert(at_a != at_b);
    assert(set![at_a, at_b].len() == 2) by {
        assert(set![at_a, at_b] == set![at_a].insert(at_b));
    }
}

/// Two sample windows of `FFT_SIZE` entries filled in lockstep, B half a
/// window out of phase with A, so that every `FFT_SIZE / 2` samples one of
/// them holds a full, contiguous window of the most recent samples.
pub struct OverlapWindows<T> {
    buffer_a: Vec<T>,
    buffer_b: Vec<T>,
    current: usize,
    history: Ghost<Seq<T>>,
}

impl<T: Copy> OverlapWindows<T> {
    /// Contents of window A.
    pub closed spec fn spec_a(&self) -> Seq<T> {
        self.buffer_a@
    }

    /// Contents of window B.
    pub closed spec fn spec_b(&self) -> Seq<T> {
        self.buffer_b@
    }

    /// Write position of the next sample in window A.
    pub closed spec fn spec_cursor(&self) -> nat {
        self.current as nat
    }

    /// Every sample pushed so far, oldest first.
    pub closed spec fn spec_history(&self) -> Seq<T> {
        self.history@
    }

    /// Both windows have `FFT_SIZE` entries, the cursor is the number of
    /// samples pushed modulo `FFT_SIZE`, and each of the last `FFT_SIZE`
    /// samples sits where it was written: sample `k` at `k % FFT_SIZE` in
    /// window A and half a window further on in window B.
    pub open spec fn wf(&self) -> bool {
        let h = self.spec_history();
        let n = FFT_SIZE as int;
        &&& self.spec_a().len() == FFT_SIZE
        &&& self.spec_b().len() == FFT_SIZE
        &&& self.spec_cursor() < FFT_SIZE
        &&& self.spec_cursor() == h.len() % (FFT_SIZE as nat)
        &&& forall|k: int|
            0 <= k < h.len() && h.len() - n <= k ==> {
                &&& self.spec_a()[k % n] == #[trigger] h[k]
                &&& self.spec_b()[offset_index(k as nat) as int] == h[k]
            }
    }

    /// Two windows with every entry set to `fill`, the cursor at 0.
    pub fn new(fill: T) -> (r: Self)
        ensures
            r.wf(),
            r.spec_cursor() == 0,
            r.spec_history() == Seq::<T>::empty(),
            r.spec_a() == Seq::new(FFT_SIZE as nat, |i: int| fill),
            r.spec_b() == Seq::new(FFT_SIZE as nat, |i: int| fill),
    {
        let mut buffer_a: Vec<T> = Vec::new();
        let mut buffer_b: Vec<T> = Vec::new();
        let mut i: usize = 0;
        while i < FFT_SIZE
            invariant
                i <= FFT_SIZE,
                buffer_a@ == Seq::new(i as nat, |j: int| fill),
                buffer_b@ == Seq::new(i as nat, |j: int| fill),
            decreases FFT_SIZE - i,
        {
            buffer_a.push(fill);
            buffer_b.push(fill);
            i = i + 1;
            assert(buffer_a@ =~= Seq::new(i as nat, |j: int| fill));
            assert(buffer_b@ =~= Seq::new(i as nat, |j: int| fill));
        }
        OverlapWindows { buffer_a, buffer_b, current: 0, history: Ghost(Seq::empty()) }
    }

    /// Write position of the next sample in window A.
    pub fn cursor(&self) -> (r: usize)
        ensures
            r == self.spec_cursor(),
    {
        self.current
    }

    /// Records one sample in both windows (at the cursor in A, half a window
    /// further on in B), advances the cursor, and reports which window, if
    /// any, has just been filled.
    pub fn push(&mut self, sample: T) -> (r: Completed)
        requires
            old(self).wf(),
        ensures
            final(self).wf(),
            final(self).spec_a() == old(self).spec_a().update(
                old(self).spec_cursor() as int,
                sample,
            ),
            final(self).spec_b() == old(self).spec_b().update(
                offset_index(old(self).spec_cursor()) as int,
                sample,
            ),
            final(self).spec_cursor() == (old(self).spec_cursor() + 1) % (FFT_SIZE as nat),
            final(self).spec_history() == old(self).spec_history().push(sample),
            r == completed_at(old(self).spec_cursor()),
            r == Completed::WindowA && final(self).spec_history().len() >= FFT_SIZE
                ==> final(self).spec_a() == final(self).spec_history().subrange(
                final(self).spec_history().len() - FFT_SIZE,
                final(self).spec_history().len() as int,
            ),
            r == Completed::WindowB && final(self).spec_history().len() >= FFT_SIZE
                ==> final(self).spec_b() == final(self).spec_history().subrange(
                final(self).spec_history().len() - FFT_SIZE,
                final(self).spec_history().len() as int,
            ),
    {
        let ghost h0 = self.history@;
        let ghost n = FFT_SIZE as int;
        let i_a = self.current;
        let i_b = (self.current + FFT_SIZE / 2) % FFT_SIZE;
        self.buffer_a.set(i_a, sample);
        self.buffer_b.set(i_b, sample);
        self.current = (self.current + 1) % FFT_SIZE;
        self.history = Ghost(h0.push(sample));
        proof {
            let h = self.history@;
            assert(i_b == offset_index(h0.len()));
            assert forall|k: int| 0 <= k < h.len() && h.len() - n <= k implies {
                &&& self.spec_a()[k % n] == #[trigger] h[k]
                &&& self.spec_b()[offset_index(k as nat) as int] == h[k]
            } by {
                if k < h0.len() {
                    assert(k % n != i_a);
                    assert(offset_index(k as nat) != i_b);
                    assert(h[k] == h0[k]);
                }
            }
            if h.len() >= n && self.current == 0 {
                assert forall|p: int| 0 <= p < n implies self.spec_a()[p] == h.subrange(h.len() - n, h.len() as int)[p] by {
                    let k = h.len() - n + p;
                    assert(k % n == p);
                    assert(h[k] == h.subrange(h.len() - n, h.len() as int)[p]);
                }
                assert(self.spec_a() =~= h.subrange(h.len() - n, h.len() as int));
            }
            if h.len() >= n && self.current == FFT_SIZE / 2 {
                assert forall|p: int| 0 <= p < n implies self.spec_b()[p] == h.subrange(h.len() - n, h.len() as int)[p] by {
                    let k = h.len() - n + p;
                    assert(offset_index(k as nat) == p);
                    assert(h[k] == h.subrange(h.len() - n, h.len() as int)[p]);
                }
                assert(self.spec_b() =~= h.subrange(h.len() - n, h.len() as int));
            }
        }
        if self.current == 0 {
            Completed::WindowA
        } else if self.current == FFT_SIZE / 2 {
            Completed::WindowB
        } else {
            Completed::Nothing
        }
    }

    /// The samples of window B when `is_b` holds, else of window A.
    pub fn window(&self, is_b: bool) -> (r: &Vec<T>)
        ensures
            r@ == (if is_b {
                self.spec_b()
            } else {
                self.spec_a()
            }),
    {
        if is_b {
            &self.buffer_b
        } else {
            &self.buffer_a
        }
    }
}

} // verus!
