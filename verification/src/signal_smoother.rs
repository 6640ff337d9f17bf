//! Consensus filter that turns a chattering raw level into a stable one.

use vstd::prelude::*;

verus! {

/// What a smoother holds, as mathematics: the window of the most recent raw
/// samples, oldest first, and the stable level it currently reports.
pub struct SmootherState {
    pub window: Seq<bool>,
    pub level: bool,
}

impl SmootherState {
    /// Every sample of `window` disagrees with `level`.
    pub open spec fn all_disagree(window: Seq<bool>, level: bool) -> bool {
        forall|i: int| 0 <= i < window.len() ==> window[i] != level
    }

    /// The state after one more raw sample: the oldest sample leaves, the new
    /// one enters, and the level flips exactly when the whole new window
    /// disagrees with it.
    pub open spec fn step(self, sig: bool) -> SmootherState {
        let window = self.window.drop_first().push(sig);
        SmootherState {
            window,
            level: if Self::all_disagree(window, self.level) {
                !self.level
            } else {
                self.level
            },
        }
    }

    /// The state after a sequence of raw samples, taken in order.
    pub open spec fn run(self, samples: Seq<bool>) -> SmootherState
        decreases samples.len(),
    {
        if samples.len() == 0 {
            self
        } else {
            self.run(samples.drop_last()).step(samples.last())
        }
    }
}

/// Debounce filter over the last `X` raw samples.
///
/// The reported level changes only when all `X` samples in the window agree
/// on the opposite level.
pub struct SignalSmoother<const X: usize> {
    buf: [bool; X],
    last_val: bool,
}

impl<const X: usize> View for SignalSmoother<X> {
    type V = SmootherState;

    closed spec fn view(&self) -> SmootherState {
        SmootherState { window: self.buf@, level: self.last_val }
    }
}

impl<const X: usize> SignalSmoother<X> {
    /// The window of every smoother holds exactly `X` samples.
    pub proof fn lemma_window_holds_x_samples(&self)
        ensures
            self@.window.len() == X,
    {
    }

    /// A smoother whose window is filled with high samples and whose level is
    /// high, the idle level of the line.
    pub fn new() -> (s: Self)
        ensures
            s@.window == Seq::new(X as nat, |i: int| true),
            s@.window.len() == X,
            s@.level == true,
    {
        let s = Self { buf: [true; X], last_val: true };
        assert(s@.window =~= Seq::new(X as nat, |i: int| true));
        s
    }

    /// The stable level currently reported.
    pub fn level(&self) -> (level: bool)
        ensures
            level == self@.level,
            self@.window.len() == X,
    {
        self.last_val
    }

    /// Pushes one raw sample and returns the stable level afterwards.
    pub fn add_signal(&mut self, sig: bool) -> (level: bool)
        requires
            X > 0,
        ensures
            final(self)@ == old(self)@.step(sig),
            final(self)@.window.len() == X,
            level == final(self)@.level,
    {
        let mut i: usize = 0;
        while i + 1 < X
            invariant
                X > 0,
                i < X,
                self.last_val == old(self).last_val,
                forall|k: int| 0 <= k < i ==> self.buf@[k] == old(self).buf@[k + 1],
                forall|k: int| i <= k < X ==> self.buf@[k] == old(self).buf@[k],
            decreases X - i,
        {
            self.buf[i] = self.buf[i + 1];
            i += 1;
        }
        self.buf[X - 1] = sig;
        assert(self.buf@ =~= old(self).buf@.drop_first().push(sig));

        let mut disagree: bool = true;
        let mut j: usize = 0;
        while j < X
            invariant
                j <= X,
                disagree == SmootherState::all_disagree(self.buf@.take(j as int), self.last_val),
            decreases X - j,
        {
            if self.buf[j] == self.last_val {
                disagree = false;
            }
            assert(self.buf@.take(j + 1).drop_last() =~= self.buf@.take(j as int));
            assert(self.buf@.take(j + 1).last() == self.buf@[j as int]);
            j += 1;
        }
        assert(self.buf@.take(X as int) =~= self.buf@);
        if disagree {
            self.last_val = !self.last_val;
        }
        self.last_val
    }
}

/// While a sample that agrees with the stable level is still inside the
/// window, the level does not change, whatever samples arrive.
///
/// `i` is the position of such a sample; `samples` are at most `i` further
/// raw samples, so that the agreeing sample has not yet left the window.
pub proof fn lemma_level_held_while_agreeing_sample_remains(
    s: SmootherState,
    samples: Seq<bool>,
    i: int,
)
    requires
        0 <= i < s.window.len(),
        s.window[i] == s.level,
        samples.len() <= i,
    ensures
        s.run(samples).level == s.level,
        s.run(samples).window.len() == s.window.len(),
        s.run(samples).window[i - samples.len()] == s.level,
    decreases samples.len(),
{
    if samples.len() > 0 {
        let before = s.run(samples.drop_last());
        lemma_level_held_while_agreeing_sample_remains(s, samples.drop_last(), i);
        let window = before.window.drop_first().push(samples.last());
        assert(window[i - samples.len()] == before.window[i - samples.len() + 1]);
        assert(!SmootherState::all_disagree(window, before.level));
    }
}

/// A glitch shorter than the window never flips the stable level: when the
/// newest sample agrees with the level, fewer samples than the window holds
/// leave the level as it was, whatever those samples are.
pub proof fn lemma_glitch_shorter_than_window_ignored(s: SmootherState, glitch: Seq<bool>)
    requires
        s.window.len() > 0,
        s.window.last() == s.level,
        glitch.len() < s.window.len(),
    ensures
        s.run(glitch).level == s.level,
{
    lemma_level_held_while_agreeing_sample_remains(s, glitch, s.window.len() - 1);
}

/// A sample that agrees with the stable level never flips it.
pub proof fn lemma_agreeing_sample_keeps_level(s: SmootherState, sig: bool)
    requires
        s.window.len() > 0,
        sig == s.level,
    ensures
        s.step(sig).level == s.level,
{
    let window = s.window.drop_first().push(sig);
    assert(window[window.len() - 1] == sig);
}

/// After `samples`, all equal to `v`, the newest `min(samples.len(), n)`
/// entries of the window are `v`, and once the window is full of them the
/// level is `v`.
proof fn lemma_constant_run(s: SmootherState, samples: Seq<bool>, v: bool)
    requires
        s.window.len() > 0,
        forall|k: int| 0 <= k < samples.len() ==> samples[k] == v,
    ensures
        s.run(samples).window.len() == s.window.len(),
        forall|j: int|
            s.window.len() - samples.len() <= j && 0 <= j < s.window.len() ==> s.run(
                samples,
            ).window[j] == v,
        samples.len() >= s.window.len() ==> s.run(samples).level == v,
    decreases samples.len(),
{
    if samples.len() > 0 {
        let before = s.run(samples.drop_last());
        lemma_constant_run(s, samples.drop_last(), v);
        let window = before.window.drop_first().push(v);
        let n = s.window.len() as int;
        assert(samples.last() == v);
        assert forall|j: int| n - samples.len() <= j && 0 <= j < n implies window[j] == v by {
            if j < n - 1 {
                assert(window[j] == before.window[j + 1]);
            }
        }
        if samples.len() >= n {
            if before.level == v {
                assert(window[0] == v);
                assert(!SmootherState::all_disagree(window, before.level));
            } else {
                assert(SmootherState::all_disagree(window, before.level));
            }
        }
    }
}

/// A sustained change is always adopted: after at least as many equal
/// samples as the window holds, the stable level is that sample value.
pub proof fn lemma_sustained_change_adopted(s: SmootherState, samples: Seq<bool>, v: bool)
    requires
        s.window.len() > 0,
        samples.len() >= s.window.len(),
        forall|k: int| 0 <= k < samples.len() ==> samples[k] == v,
    ensures
        s.run(samples).level == v,
{
    lemma_constant_run(s, samples, v);
}

/// The level changes at most once per window length: after a sample that
/// flipped the level, fewer further samples than the window holds cannot
/// flip it again.
pub proof fn lemma_at_most_one_flip_per_window(s: SmootherState, sig: bool, more: Seq<bool>)
    requires
        s.window.len() > 0,
        s.step(sig).level != s.level,
        more.len() < s.window.len(),
    ensures
        s.step(sig).run(more).level == s.step(sig).level,
{
    let flipped = s.step(sig);
    assert(SmootherState::all_disagree(flipped.window, s.level));
    assert(flipped.window[flipped.window.len() - 1] != s.level);
    lemma_level_held_while_agreeing_sample_remains(flipped, more, flipped.window.len() - 1);
}

} // verus!
