//! The adaptive demixing engine.
//!
//! A `Separator` owns a square fixed-point demixing matrix `W`, a bounded
//! history window of recent sample vectors, and the adaptation parameters.
//! Per block it ingests the block's sample vectors into the window, runs the
//! configured number of natural-gradient passes over the window, and
//! synthesizes the demixed output through the updated matrix.

use vstd::prelude::*;
use crate::fixed::{SCALE, fx_mul, fx_mul_spec, lemma_fx_mul_one, lemma_fx_mul_zero, sat_add_spec,
    sat_sub_spec};
use crate::linalg::{blend, blend_spec, copy_mat, dot, ident_spec, identity, is_zero, is_zero_spec,
    mat_mul, mat_mul_spec, mat_vec, mat_vec_spec, mview, phi_vec, phi_vec_spec, update_factor,
    update_factor_spec, wf_mat};
use crate::score::Density;
use crate::window::{HistoryWindow, win_push};

verus! {

/// Fixed output gain applied at synthesis: 3.0 in fixed-point units.
pub const GAIN: i64 = 3_000_000;

/// Smallest supported channel count.
pub const MIN_CHANNELS: usize = 1;

/// Largest supported channel count.
pub const MAX_CHANNELS: usize = 6;

/// The one construction failure: a channel count outside the supported set.
#[derive(Clone, Copy, Debug, PartialEq, Eq, Structural)]
pub enum EngineError {
    UnsupportedChannelCount,
}

/// The sample vector observed at time `t` of a channel-major block: one
/// sample per channel.
pub open spec fn sample_at(input: Seq<Seq<i64>>, t: int) -> Seq<i64> {
    Seq::new(input.len(), |c: int| input[c][t])
}

/// One adaptation step of the demixing matrix for one held vector `x`:
/// `y = W x`; if `y` has zero magnitude the step leaves `W` unchanged,
/// otherwise `W <- (1 - mu) W + mu (I + phi(y) y^T) W`.
pub open spec fn adapt_step_spec(w: Seq<Seq<i64>>, x: Seq<i64>, d: Density, mu: i64) -> Seq<
    Seq<i64>,
> {
    let y = mat_vec_spec(w, x);
    if is_zero_spec(y) {
        w
    } else {
        blend_spec(mu, w, mat_mul_spec(update_factor_spec(phi_vec_spec(d, y), y), w))
    }
}

/// The matrix after adapting over the first `n` window entries, oldest first.
pub open spec fn adapt_pass_prefix(
    w: Seq<Seq<i64>>,
    win: Seq<Seq<i64>>,
    n: int,
    d: Density,
    mu: i64,
) -> Seq<Seq<i64>>
    decreases n,
{
    if n <= 0 {
        w
    } else {
        adapt_step_spec(adapt_pass_prefix(w, win, n - 1, d, mu), win[n - 1], d, mu)
    }
}

/// One full adaptation pass over the window.
pub open spec fn adapt_pass_spec(w: Seq<Seq<i64>>, win: Seq<Seq<i64>>, d: Density, mu: i64) -> Seq<
    Seq<i64>,
> {
    adapt_pass_prefix(w, win, win.len() as int, d, mu)
}

/// The matrix after the given number of full passes over the window.
pub open spec fn adapt_epochs_spec(
    w: Seq<Seq<i64>>,
    win: Seq<Seq<i64>>,
    d: Density,
    mu: i64,
    iters: nat,
) -> Seq<Seq<i64>>
    decreases iters,
{
    if iters == 0 {
        w
    } else {
        adapt_pass_spec(adapt_epochs_spec(w, win, d, mu, (iters - 1) as nat), win, d, mu)
    }
}

/// The window contents after ingesting the first `t` sample vectors of a
/// channel-major block, in block order.
pub open spec fn ingest_prefix(s: Seq<Seq<i64>>, cap: nat, input: Seq<Seq<i64>>, t: int) -> Seq<
    Seq<i64>,
>
    decreases t,
{
    if t <= 0 {
        s
    } else {
        win_push(ingest_prefix(s, cap, input, t - 1), cap, sample_at(input, t - 1))
    }
}

/// The synthesized block: channel-major, `GAIN * (W x_t)` per channel and time.
pub open spec fn synth_spec(w: Seq<Seq<i64>>, input: Seq<Seq<i64>>, frame: nat) -> Seq<Seq<i64>> {
    Seq::new(
        input.len(),
        |c: int| Seq::new(frame, |t: int| fx_mul_spec(GAIN, mat_vec_spec(w, sample_at(input, t))[c])),
    )
}

/// The full per-block state transition while enabled: the block is ingested
/// into the window, then the matrix adapts over the new window contents.
/// Returns the new matrix and the new window contents.
pub open spec fn block_step_spec(
    w: Seq<Seq<i64>>,
    win: Seq<Seq<i64>>,
    cap: nat,
    d: Density,
    mu: i64,
    iters: nat,
    input: Seq<Seq<i64>>,
) -> (Seq<Seq<i64>>, Seq<Seq<i64>>) {
    let win2 = ingest_prefix(win, cap, input, input[0].len() as int);
    (adapt_epochs_spec(w, win2, d, mu, iters), win2)
}

/// The online blind-source-separation engine.
pub struct Separator {
    enabled: bool,
    density: Density,
    mu: i64,
    training_iterations: u16,
    channels: usize,
    w: Vec<Vec<i64>>,
    window: HistoryWindow,
}

impl Separator {
    /// Whether adaptation and synthesis run; control operations work either way.
    pub closed spec fn enabled_spec(self) -> bool {
        self.enabled
    }

    /// The selected score function.
    pub closed spec fn density_spec(self) -> Density {
        self.density
    }

    /// The learning rate, fixed at construction.
    pub closed spec fn mu_spec(self) -> i64 {
        self.mu
    }

    /// Number of full passes over the window per block.
    pub closed spec fn iters_spec(self) -> u16 {
        self.training_iterations
    }

    /// The channel count, fixed at construction.
    pub closed spec fn channels_spec(self) -> nat {
        self.channels as nat
    }

    /// The demixing matrix.
    pub closed spec fn w_spec(self) -> Seq<Seq<i64>> {
        mview(self.w@)
    }

    /// The held history vectors, oldest first.
    pub closed spec fn window_contents(self) -> Seq<Seq<i64>> {
        self.window.contents()
    }

    /// The history window's fixed capacity.
    pub closed spec fn window_cap(self) -> nat {
        self.window.cap()
    }

    /// Well-formedness: the channel count is supported, the matrix is square
    /// of that dimension, and every held history vector has that length.
    pub closed spec fn wf(self) -> bool {
        &&& MIN_CHANNELS <= self.channels <= MAX_CHANNELS
        &&& wf_mat(mview(self.w@), self.channels as nat)
        &&& self.window.wf()
        &&& self.window.width_spec() == self.channels
        &&& forall|i: int|
            0 <= i < self.window.contents().len() ==> (#[trigger] self.window.contents()[i]).len()
                == self.channels
    }

    /// Builds an engine with the identity demixing matrix and an empty
    /// window.  Fails exactly when the channel count is unsupported; it is
    /// never clamped.  The capacity bound is a machine limit of the window's
    /// ring arithmetic.
    pub fn new(
        channels: usize,
        density: Density,
        mu: i64,
        training_iterations: u16,
        capacity: usize,
    ) -> (r: Result<Separator, EngineError>)
        requires
            capacity <= usize::MAX / 2,
        ensures
            match r {
                Ok(s) => {
                    &&& MIN_CHANNELS <= channels <= MAX_CHANNELS
                    &&& s.wf()
                    &&& s.enabled_spec()
                    &&& s.density_spec() == density
                    &&& s.mu_spec() == mu
                    &&& s.iters_spec() == training_iterations
                    &&& s.channels_spec() == channels
                    &&& s.w_spec() == ident_spec(channels as nat)
                    &&& s.window_contents() == Seq::<Seq<i64>>::empty()
                    &&& s.window_cap() == capacity
                },
                Err(e) => {
                    &&& e == EngineError::UnsupportedChannelCount
                    &&& !(MIN_CHANNELS <= channels <= MAX_CHANNELS)
                },
            },
    {
        if channels < MIN_CHANNELS || channels > MAX_CHANNELS {
            return Err(EngineError::UnsupportedChannelCount);
        }
        let w = identity(channels);
        let window = HistoryWindow::new(capacity, channels);
        let s = Separator { enabled: true, density, mu, training_iterations, channels, w, window };
        proof {
            assert forall|i: int| 0 <= i < s.channels implies (#[trigger] mview(s.w@)[i]).len()
                == s.channels by {
                assert(mview(s.w@)[i] == ident_spec(channels as nat)[i]);
            }
        }
        Ok(s)
    }

    /// Enables or disables adaptation and synthesis.
    pub fn set_enabled(&mut self, enabled: bool)
        requires
            old(self).wf(),
        ensures
            final(self).wf(),
            final(self).enabled_spec() == enabled,
            final(self).density_spec() == old(self).density_spec(),
            final(self).mu_spec() == old(self).mu_spec(),
            final(self).iters_spec() == old(self).iters_spec(),
            final(self).channels_spec() == old(self).channels_spec(),
            final(self).w_spec() == old(self).w_spec(),
            final(self).window_contents() == old(self).window_contents(),
            final(self).window_cap() == old(self).window_cap(),
    {
        self.enabled = enabled;
    }

    /// Whether adaptation and synthesis run.
    pub fn is_enabled(&self) -> (b: bool)
        ensures
            b == self.enabled_spec(),
    {
        self.enabled
    }

    /// Selects the score function.
    pub fn set_density(&mut self, density: Density)
        requires
            old(self).wf(),
        ensures
            final(self).wf(),
            final(self).density_spec() == density,
            final(self).enabled_spec() == old(self).enabled_spec(),
            final(self).mu_spec() == old(self).mu_spec(),
            final(self).iters_spec() == old(self).iters_spec(),
            final(self).channels_spec() == old(self).channels_spec(),
            final(self).w_spec() == old(self).w_spec(),
            final(self).window_contents() == old(self).window_contents(),
            final(self).window_cap() == old(self).window_cap(),
    {
        self.density = density;
    }

    /// The selected score function.
    pub fn get_density(&self) -> (d: Density)
        ensures
            d == self.density_spec(),
    {
        self.density
    }

    /// Sets the number of full passes over the window per block.
    pub fn set_training_iters(&mut self, iters: u16)
        requires
            old(self).wf(),
        ensures
            final(self).wf(),
            final(self).iters_spec() == iters,
            final(self).enabled_spec() == old(self).enabled_spec(),
            final(self).density_spec() == old(self).density_spec(),
            final(self).mu_spec() == old(self).mu_spec(),
            final(self).channels_spec() == old(self).channels_spec(),
            final(self).w_spec() == old(self).w_spec(),
            final(self).window_contents() == old(self).window_contents(),
            final(self).window_cap() == old(self).window_cap(),
    {
        self.training_iterations = iters;
    }

    /// The number of full passes over the window per block.
    pub fn get_training_iters(&self) -> (n: u16)
        ensures
            n == self.iters_spec(),
    {
        self.training_iterations
    }

    /// The channel count.
    pub fn get_num_channels(&self) -> (c: i32)
        requires
            self.wf(),
        ensures
            c == self.channels_spec() as i32,
    {
        self.channels as i32
    }

    /// A copy of the demixing matrix.
    pub fn demixing_matrix(&self) -> (m: Vec<Vec<i64>>)
        ensures
            mview(m@) == self.w_spec(),
    {
        copy_mat(&self.w)
    }

    /// Step 1, ingest: pushes every sample vector of the block into the
    /// history window, in block order.
    fn ingest_block(&mut self, input: &Vec<Vec<i64>>)
        requires
            old(self).wf(),
            input@.len() == old(self).channels_spec(),
            forall|c: int|
                0 <= c < input@.len() ==> (#[trigger] input@[c])@.len() == input@[0]@.len(),
        ensures
            final(self).wf(),
            final(self).enabled == old(self).enabled,
            final(self).density == old(self).density,
            final(self).mu == old(self).mu,
            final(self).training_iterations == old(self).training_iterations,
            final(self).channels == old(self).channels,
            final(self).w == old(self).w,
            final(self).window.cap() == old(self).window.cap(),
            final(self).window.contents() == ingest_prefix(
                old(self).window.contents(),
                old(self).window.cap(),
                mview(input@),
                input@[0]@.len() as int,
            ),
    {
        let frame = input[0].len();
        let channels = self.channels;
        let mut t: usize = 0;
        while t < frame
            invariant
                self.wf(),
                self.enabled == old(self).enabled,
                self.density == old(self).density,
                self.mu == old(self).mu,
                self.training_iterations == old(self).training_iterations,
                self.channels == old(self).channels,
                self.w == old(self).w,
                self.window.cap() == old(self).window.cap(),
                channels == self.channels,
                input@.len() == self.channels,
                forall|c: int|
                    0 <= c < input@.len() ==> (#[trigger] input@[c])@.len() == input@[0]@.len(),
                frame == input@[0]@.len(),
                t <= frame,
                self.window.contents() == ingest_prefix(
                    old(self).window.contents(),
                    old(self).window.cap(),
                    mview(input@),
                    t as int,
                ),
            decreases frame - t,
        {
            let mut x: Vec<i64> = Vec::new();
            let mut c: usize = 0;
            while c < channels
                invariant
                    channels == input@.len(),
                    forall|k: int|
                        0 <= k < input@.len() ==> (#[trigger] input@[k])@.len() == input@[0]@.len(),
                    t < input@[0]@.len(),
                    c <= channels,
                    x@.len() == c,
                    forall|k: int| 0 <= k < c ==> x@[k] == input@[k]@[t as int],
                decreases channels - c,
            {
                x.push(input[c][t]);
                c = c + 1;
            }
            proof {
                assert(x@ =~= sample_at(mview(input@), t as int));
            }
            self.window.push(x);
            t = t + 1;
        }
    }

    /// Step 2, adapt: runs the configured number of full natural-gradient
    /// passes over the history window, oldest vector first.
    fn adapt(&mut self)
        requires
            old(self).wf(),
        ensures
            final(self).wf(),
            final(self).enabled == old(self).enabled,
            final(self).density == old(self).density,
            final(self).mu == old(self).mu,
            final(self).training_iterations == old(self).training_iterations,
            final(self).channels == old(self).channels,
            final(self).window == old(self).window,
            mview(final(self).w@) == adapt_epochs_spec(
                mview(old(self).w@),
                old(self).window.contents(),
                old(self).density,
                old(self).mu,
                old(self).training_iterations as nat,
            ),
    {
        let iters = self.training_iterations;
        let mut it: u16 = 0;
        while it < iters
            invariant
                self.wf(),
                self.enabled == old(self).enabled,
                self.density == old(self).density,
                self.mu == old(self).mu,
                self.training_iterations == old(self).training_iterations,
                self.channels == old(self).channels,
                self.window == old(self).window,
                iters == self.training_iterations,
                it <= iters,
                mview(self.w@) == adapt_epochs_spec(
                    mview(old(self).w@),
                    old(self).window.contents(),
                    old(self).density,
                    old(self).mu,
                    it as nat,
                ),
            decreases iters - it,
        {
            let ghost w_epoch = mview(self.w@);
            let n = self.window.len();
            let mut k: usize = 0;
            while k < n
                invariant
                    self.wf(),
                    self.enabled == old(self).enabled,
                    self.density == old(self).density,
                    self.mu == old(self).mu,
                    self.training_iterations == old(self).training_iterations,
                    self.channels == old(self).channels,
                    self.window == old(self).window,
                    n == self.window.contents().len(),
                    k <= n,
                    mview(self.w@) == adapt_pass_prefix(
                        w_epoch,
                        self.window.contents(),
                        k as int,
                        self.density,
                        self.mu,
                    ),
                decreases n - k,
            {
                let x = crate::linalg::copy_vec(self.window.get(k));
                proof {
                    assert forall|i: int| 0 <= i < self.w@.len() implies (#[trigger] self.w@[i])@.len()
                        == x@.len() by {
                        assert(mview(self.w@)[i] == self.w@[i]@);
                    }
                }
                let y = mat_vec(&self.w, &x);
                if !is_zero(&y) {
                    let g = phi_vec(self.density, &y);
                    let u = update_factor(&g, &y);
                    proof {
                        assert(y@.len() == self.w@.len());
                        assert(g@.len() == y@.len());
                        assert(mview(u@).len() == u@.len());
                        assert(u@.len() == g@.len());
                        assert forall|i: int| 0 <= i < u@.len() implies (#[trigger] u@[i])@.len()
                            == u@.len() by {
                            assert(mview(u@)[i] == u@[i]@);
                            assert(update_factor_spec(g@, y@)[i].len() == y@.len());
                        }
                        assert forall|i: int| 0 <= i < self.w@.len() implies (
                        #[trigger] self.w@[i])@.len() == self.w@.len() by {
                            assert(mview(self.w@)[i] == self.w@[i]@);
                            assert(mview(self.w@)[i].len() == self.channels);
                        }
                    }
                    let uw = mat_mul(&u, &self.w);
                    proof {
                        assert(mview(uw@).len() == uw@.len());
                        assert(uw@.len() == u@.len());
                        assert forall|i: int| 0 <= i < self.w@.len() implies (#[trigger] uw@[i])@.len()
                            == (#[trigger] self.w@[i])@.len() by {
                            assert(mview(uw@)[i] == uw@[i]@);
                            assert(mat_mul_spec(mview(u@), mview(self.w@))[i].len() == u@.len());
                            assert(mview(self.w@)[i] == self.w@[i]@);
                            assert(mview(self.w@)[i].len() == self.channels);
                        }
                    }
                    let wnew = blend(self.mu, &self.w, &uw);
                    proof {
                        assert(mview(wnew@) == adapt_step_spec(
                            mview(self.w@),
                            x@,
                            self.density,
                            self.mu,
                        ));
                    }
                    self.w = wnew;
                } else {
                    proof {
                        assert(mview(self.w@) == adapt_step_spec(
                            mview(self.w@),
                            x@,
                            self.density,
                            self.mu,
                        ));
                    }
                }
                proof {
                    assert forall|i: int| 0 <= i < self.channels implies (
                    #[trigger] mview(self.w@)[i]).len() == self.channels by {
                        assert(mview(self.w@)[i] == self.w@[i]@);
                    }
                }
                k = k + 1;
            }
            it = it + 1;
        }
    }

    /// Step 3, synthesize: the demixed output for the block through the
    /// current matrix, with the fixed output gain applied.
    fn synthesize(&self, input: &Vec<Vec<i64>>) -> (out: Vec<Vec<i64>>)
        requires
            self.wf(),
            input@.len() == self.channels_spec(),
            forall|c: int|
                0 <= c < input@.len() ==> (#[trigger] input@[c])@.len() == input@[0]@.len(),
        ensures
            mview(out@) == synth_spec(mview(self.w@), mview(input@), input@[0]@.len() as nat),
    {
        let frame = input[0].len();
        let channels = self.channels;
        let mut out: Vec<Vec<i64>> = Vec::new();
        let mut c: usize = 0;
        while c < channels
            invariant
                self.wf(),
                channels == self.channels,
                input@.len() == self.channels,
                forall|k: int|
                    0 <= k < input@.len() ==> (#[trigger] input@[k])@.len() == input@[0]@.len(),
                frame == input@[0]@.len(),
                c <= channels,
                out@.len() == c,
                forall|k: int| 0 <= k < c ==> (#[trigger] out@[k])@ == Seq::new(
                    frame as nat,
                    |t: int| fx_mul_spec(
                        GAIN,
                        mat_vec_spec(mview(self.w@), sample_at(mview(input@), t))[k],
                    ),
                ),
            decreases channels - c,
        {
            let mut row: Vec<i64> = Vec::new();
            let mut t: usize = 0;
            while t < frame
                invariant
                    self.wf(),
                    channels == self.channels,
                    input@.len() == self.channels,
                    forall|k: int|
                        0 <= k < input@.len() ==> (#[trigger] input@[k])@.len() == input@[0]@.len(),
                    frame == input@[0]@.len(),
                    c < channels,
                    t <= frame,
                    row@.len() == t,
                    forall|q: int| 0 <= q < t ==> row@[q] == fx_mul_spec(
                        GAIN,
                        mat_vec_spec(mview(self.w@), sample_at(mview(input@), q))[c as int],
                    ),
                decreases frame - t,
            {
                let mut x: Vec<i64> = Vec::new();
                let mut k: usize = 0;
                while k < channels
                    invariant
                        channels == input@.len(),
                        forall|q: int|
                            0 <= q < input@.len() ==> (#[trigger] input@[q])@.len()
                                == input@[0]@.len(),
                        t < input@[0]@.len(),
                        k <= channels,
                        x@.len() == k,
                        forall|q: int| 0 <= q < k ==> x@[q] == input@[q]@[t as int],
                    decreases channels - k,
                {
                    x.push(input[k][t]);
                    k = k + 1;
                }
                proof {
                    assert(x@ =~= sample_at(mview(input@), t as int));
                    assert(mview(self.w@)[c as int] == self.w@[c as int]@);
                }
                let s = dot(&self.w[c], &x);
                proof {
                    assert(s == mat_vec_spec(mview(self.w@), sample_at(mview(input@), t as int))[c as int]);
                }
                row.push(fx_mul(GAIN, s));
                t = t + 1;
            }
            proof {
                assert(row@ =~= Seq::new(
                    frame as nat,
                    |t: int| fx_mul_spec(
                        GAIN,
                        mat_vec_spec(mview(self.w@), sample_at(mview(input@), t))[c as int],
                    ),
                ));
            }
            out.push(row);
            c = c + 1;
        }
        proof {
            assert(mview(out@) =~= synth_spec(mview(self.w@), mview(input@), input@[0]@.len() as nat));
        }
        out
    }

    /// Processes one block: while enabled, ingests the block into the
    /// history window, adapts the matrix over the window, and returns the
    /// demixed output; while disabled, passes the block through unchanged
    /// and leaves the whole engine state untouched.  The engine never asks
    /// the caller to stop: every block completes.
    pub fn process_block(&mut self, input: &Vec<Vec<i64>>) -> (output: Vec<Vec<i64>>)
        requires
            old(self).wf(),
            input@.len() == old(self).channels_spec(),
            forall|c: int|
                0 <= c < input@.len() ==> (#[trigger] input@[c])@.len() == input@[0]@.len(),
        ensures
            final(self).wf(),
            final(self).enabled_spec() == old(self).enabled_spec(),
            final(self).density_spec() == old(self).density_spec(),
            final(self).mu_spec() == old(self).mu_spec(),
            final(self).iters_spec() == old(self).iters_spec(),
            final(self).channels_spec() == old(self).channels_spec(),
            final(self).window_cap() == old(self).window_cap(),
            !old(self).enabled_spec() ==> *final(self) == *old(self) && mview(output@) == mview(
                input@,
            ),
            old(self).enabled_spec() ==> (final(self).w_spec(), final(self).window_contents())
                == block_step_spec(
                old(self).w_spec(),
                old(self).window_contents(),
                old(self).window_cap(),
                old(self).density_spec(),
                old(self).mu_spec(),
                old(self).iters_spec() as nat,
                mview(input@),
            ),
            old(self).enabled_spec() ==> mview(output@) == synth_spec(
                final(self).w_spec(),
                mview(input@),
                input@[0]@.len() as nat,
            ),
    {
        if !self.enabled {
            return copy_mat(input);
        }
        self.ingest_block(input);
        self.adapt();
        self.synthesize(input)
    }
}

/// The identity matrix is square of its dimension.
proof fn lemma_ident_wf(dim: nat)
    ensures
        wf_mat(ident_spec(dim), dim),
{
    assert forall|i: int| 0 <= i < dim implies (#[trigger] ident_spec(dim)[i]).len() == dim by {
        assert(ident_spec(dim)[i] == Seq::new(dim, |j: int| crate::linalg::ident_entry(i, j)));
    }
}

/// One adaptation step keeps the matrix square of its dimension.
proof fn lemma_step_dims(w: Seq<Seq<i64>>, x: Seq<i64>, d: Density, mu: i64, dim: nat)
    requires
        wf_mat(w, dim),
    ensures
        wf_mat(adapt_step_spec(w, x, d, mu), dim),
{
    let y = mat_vec_spec(w, x);
    if !is_zero_spec(y) {
        let uw = mat_mul_spec(update_factor_spec(phi_vec_spec(d, y), y), w);
        let r = blend_spec(mu, w, uw);
        assert forall|i: int| 0 <= i < dim implies (#[trigger] r[i]).len() == dim by {
            assert(w[i].len() == dim);
        }
    }
}

/// A partial pass keeps the matrix square of its dimension.
proof fn lemma_pass_prefix_dims(w: Seq<Seq<i64>>, win: Seq<Seq<i64>>, n: int, d: Density, mu: i64, dim: nat)
    requires
        wf_mat(w, dim),
    ensures
        wf_mat(adapt_pass_prefix(w, win, n, d, mu), dim),
    decreases n,
{
    if n > 0 {
        lemma_pass_prefix_dims(w, win, n - 1, d, mu, dim);
        lemma_step_dims(adapt_pass_prefix(w, win, n - 1, d, mu), win[n - 1], d, mu, dim);
    }
}

/// Any number of passes keeps the matrix square of its dimension.
proof fn lemma_epochs_dims(w: Seq<Seq<i64>>, win: Seq<Seq<i64>>, d: Density, mu: i64, iters: nat, dim: nat)
    requires
        wf_mat(w, dim),
    ensures
        wf_mat(adapt_epochs_spec(w, win, d, mu, iters), dim),
    decreases iters,
{
    if iters > 0 {
        lemma_epochs_dims(w, win, d, mu, (iters - 1) as nat, dim);
        lemma_pass_prefix_dims(
            adapt_epochs_spec(w, win, d, mu, (iters - 1) as nat),
            win,
            win.len() as int,
            d,
            mu,
            dim,
        );
    }
}

/// At zero learning rate one step returns the matrix unchanged.
proof fn lemma_step_mu_zero(w: Seq<Seq<i64>>, x: Seq<i64>, d: Density, dim: nat)
    requires
        wf_mat(w, dim),
    ensures
        adapt_step_spec(w, x, d, 0) == w,
{
    let y = mat_vec_spec(w, x);
    if !is_zero_spec(y) {
        let uw = mat_mul_spec(update_factor_spec(phi_vec_spec(d, y), y), w);
        let r = blend_spec(0, w, uw);
        assert forall|i: int| 0 <= i < w.len() implies r[i] == w[i] by {
            assert(w[i].len() == dim);
            assert forall|j: int| 0 <= j < w[i].len() implies r[i][j] == w[i][j] by {
                lemma_fx_mul_one(w[i][j]);
                lemma_fx_mul_zero(uw[i][j]);
                assert(sat_sub_spec(SCALE, 0) == SCALE);
                assert(sat_add_spec(w[i][j], 0) == w[i][j]);
            }
            assert(r[i] =~= w[i]);
        }
        assert(r =~= w);
    }
}

/// At zero learning rate a partial pass returns the matrix unchanged.
proof fn lemma_pass_prefix_mu_zero(w: Seq<Seq<i64>>, win: Seq<Seq<i64>>, n: int, d: Density, dim: nat)
    requires
        wf_mat(w, dim),
    ensures
        adapt_pass_prefix(w, win, n, d, 0) == w,
    decreases n,
{
    if n > 0 {
        lemma_pass_prefix_mu_zero(w, win, n - 1, d, dim);
        lemma_step_mu_zero(w, win[n - 1], d, dim);
    }
}

/// At zero learning rate any number of passes returns the matrix unchanged.
proof fn lemma_epochs_mu_zero(w: Seq<Seq<i64>>, win: Seq<Seq<i64>>, d: Density, iters: nat, dim: nat)
    requires
        wf_mat(w, dim),
    ensures
        adapt_epochs_spec(w, win, d, 0, iters) == w,
    decreases iters,
{
    if iters > 0 {
        lemma_epochs_mu_zero(w, win, d, (iters - 1) as nat, dim);
        lemma_pass_prefix_mu_zero(w, win, win.len() as int, d, dim);
    }
}

/// The state after a run of enabled blocks, fed one after the other.
pub open spec fn run_blocks_spec(
    w: Seq<Seq<i64>>,
    win: Seq<Seq<i64>>,
    cap: nat,
    d: Density,
    mu: i64,
    iters: nat,
    blocks: Seq<Seq<Seq<i64>>>,
    n: int,
) -> (Seq<Seq<i64>>, Seq<Seq<i64>>)
    decreases n,
{
    if n <= 0 {
        (w, win)
    } else {
        let prev = run_blocks_spec(w, win, cap, d, mu, iters, blocks, n - 1);
        block_step_spec(prev.0, prev.1, cap, d, mu, iters, blocks[n - 1])
    }
}

/// Every vector a block ingests has the channel count's length.
proof fn lemma_ingest_dims(s: Seq<Seq<i64>>, cap: nat, input: Seq<Seq<i64>>, t: int, dim: nat)
    requires
        forall|i: int| 0 <= i < s.len() ==> (#[trigger] s[i]).len() == dim,
        input.len() == dim,
    ensures
        forall|i: int|
            0 <= i < ingest_prefix(s, cap, input, t).len() ==> (#[trigger] ingest_prefix(
                s,
                cap,
                input,
                t,
            )[i]).len() == dim,
    decreases t,
{
    if t > 0 {
        lemma_ingest_dims(s, cap, input, t - 1, dim);
        let prev = ingest_prefix(s, cap, input, t - 1);
        let cur = win_push(prev, cap, sample_at(input, t - 1));
        assert(sample_at(input, t - 1).len() == dim);
        assert forall|i: int| 0 <= i < cur.len() implies (#[trigger] cur[i]).len() == dim by {
            if cap != 0 && prev.len() >= cap {
                if i < cur.len() - 1 {
                    assert(cur[i] == prev[i + 1]);
                }
            }
        }
    }
}

/// Identity at zero learning rate: starting from the identity demixing
/// matrix, feeding any run of enabled blocks with `mu = 0` leaves the
/// matrix equal to the identity, whatever the window held and whatever
/// the blocks contain.
pub proof fn lemma_identity_at_mu_zero(
    win: Seq<Seq<i64>>,
    cap: nat,
    d: Density,
    iters: nat,
    blocks: Seq<Seq<Seq<i64>>>,
    n: int,
    dim: nat,
)
    requires
        0 <= n <= blocks.len(),
        forall|i: int| 0 <= i < win.len() ==> (#[trigger] win[i]).len() == dim,
        forall|b: int| 0 <= b < blocks.len() ==> (#[trigger] blocks[b]).len() == dim,
    ensures
        run_blocks_spec(ident_spec(dim), win, cap, d, 0, iters, blocks, n).0 == ident_spec(dim),
        forall|i: int|
            0 <= i < run_blocks_spec(ident_spec(dim), win, cap, d, 0, iters, blocks, n).1.len()
                ==> (#[trigger] run_blocks_spec(
                ident_spec(dim),
                win,
                cap,
                d,
                0,
                iters,
                blocks,
                n,
            ).1[i]).len() == dim,
    decreases n,
{
    lemma_ident_wf(dim);
    if n > 0 {
        lemma_identity_at_mu_zero(win, cap, d, iters, blocks, n - 1, dim);
        let prev = run_blocks_spec(ident_spec(dim), win, cap, d, 0, iters, blocks, n - 1);
        let input = blocks[n - 1];
        let win2 = ingest_prefix(prev.1, cap, input, input[0].len() as int);
        lemma_ingest_dims(prev.1, cap, input, input[0].len() as int, dim);
        lemma_epochs_mu_zero(ident_spec(dim), win2, d, iters, dim);
    }
}

/// Full replacement at the unit learning rate: one adaptation pass over a
/// window holding exactly one vector `x` with nonzero `W x` replaces the
/// matrix by exactly `U W`, where `U = I + phi(y) y^T` and `y = W x`.
pub proof fn lemma_full_replacement_at_mu_one(w: Seq<Seq<i64>>, x: Seq<i64>, d: Density, dim: nat)
    requires
        wf_mat(w, dim),
        !is_zero_spec(mat_vec_spec(w, x)),
    ensures
        adapt_pass_spec(w, seq![x], d, SCALE) == mat_mul_spec(
            update_factor_spec(
                phi_vec_spec(d, mat_vec_spec(w, x)),
                mat_vec_spec(w, x),
            ),
            w,
        ),
{
    let win = seq![x];
    assert(adapt_pass_prefix(w, win, 0, d, SCALE) == w);
    assert(win[0] == x);
    let y = mat_vec_spec(w, x);
    let uw = mat_mul_spec(update_factor_spec(phi_vec_spec(d, y), y), w);
    let r = blend_spec(SCALE, w, uw);
    assert(uw.len() == w.len());
    assert forall|i: int| 0 <= i < w.len() implies r[i] == uw[i] by {
        assert(w[i].len() == dim);
        assert(uw[i].len() == dim);
        assert forall|j: int| 0 <= j < dim implies r[i][j] == uw[i][j] by {
            lemma_fx_mul_zero(w[i][j]);
            lemma_fx_mul_one(uw[i][j]);
            assert(sat_sub_spec(SCALE, SCALE) == 0);
            assert(sat_add_spec(0, uw[i][j]) == uw[i][j]);
        }
        assert(r[i] =~= uw[i]);
    }
    assert(r =~= uw);
}

/// Zero-vector skip: a held vector whose candidate estimate `W x` has zero
/// magnitude contributes nothing; the step leaves the matrix unchanged.
pub proof fn lemma_zero_vector_skip(w: Seq<Seq<i64>>, x: Seq<i64>, d: Density, mu: i64)
    requires
        is_zero_spec(mat_vec_spec(w, x)),
    ensures
        adapt_step_spec(w, x, d, mu) == w,
{
}

} // verus!
