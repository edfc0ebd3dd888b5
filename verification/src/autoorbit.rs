//! Discrete parts of the orbit predictor: horizons, layer activations selected by name, and
//! the window arithmetic of adaptive temporal pooling.

use vstd::prelude::*;
use crate::text::{ascii_lower, eq_ignore_ascii_case, text_eq_ignore_ascii_case};

verus! {

/// Target prediction horizon evaluated by the predictor.
#[derive(Debug, Clone, Copy, PartialEq, Eq, Structural)]
pub enum PredictionHorizon {
    /// 30-minute prediction (1800 seconds).
    HalfHour,
    /// 1-hour prediction (3600 seconds).
    OneHour,
    /// 4-hour prediction (14400 seconds).
    FourHours,
    /// 8-hour prediction (28800 seconds).
    EightHours,
    /// 12-hour prediction (43200 seconds).
    TwelveHours,
    /// 24-hour prediction (86400 seconds).
    TwentyFourHours,
}

impl PredictionHorizon {
    /// The duration of the horizon in seconds.
    pub open spec fn seconds_spec(self) -> u32 {
        match self {
            PredictionHorizon::HalfHour => 1800,
            PredictionHorizon::OneHour => 3600,
            PredictionHorizon::FourHours => 14400,
            PredictionHorizon::EightHours => 28800,
            PredictionHorizon::TwelveHours => 43200,
            PredictionHorizon::TwentyFourHours => 86400,
        }
    }

    /// Returns the duration in whole seconds.
    pub fn seconds(&self) -> (s: u32)
        ensures
            s == self.seconds_spec(),
    {
        match self {
            PredictionHorizon::HalfHour => 1800,
            PredictionHorizon::OneHour => 3600,
            PredictionHorizon::FourHours => 14400,
            PredictionHorizon::EightHours => 28800,
            PredictionHorizon::TwelveHours => 43200,
            PredictionHorizon::TwentyFourHours => 86400,
        }
    }
}

/// Activation function used across the Fourier operator layers.
#[derive(Debug, Clone, Copy, PartialEq, Eq, Structural)]
pub enum Activation {
    /// Rectified linear unit.
    ReLU,
    /// Gaussian error linear unit (tanh approximation).
    GELU,
    /// Identity (pass-through).
    Identity,
}

impl Activation {
    /// The activation a serialized layer names: `relu` in any ASCII case selects ReLU,
    /// every other name (and a missing one, read as `GELU`) selects GELU.
    pub open spec fn named(name: Option<Seq<char>>) -> Activation {
        match name {
            Some(n) => if eq_ignore_ascii_case(n, "relu"@) {
                Activation::ReLU
            } else {
                Activation::GELU
            },
            None => Activation::GELU,
        }
    }

    /// Selects the activation of a serialized layer from its optional name.
    pub fn from_layer_name(name: Option<&str>) -> (a: Activation)
        ensures
            a == Self::named(
                match name {
                    Some(n) => Some(n@),
                    None => None,
                },
            ),
    {
        match name {
            Some(n) => if text_eq_ignore_ascii_case(n, "relu") {
                Activation::ReLU
            } else {
                Activation::GELU
            },
            None => Activation::GELU,
        }
    }
}

/// Slot of the complex weight `(mode, in_c, out_c)` in a spectral weight tensor stored
/// flattened as `mode * in_ch * out_ch + in_c * out_ch + out_c`.
pub open spec fn spectral_slot(in_ch: int, out_ch: int, mode: int, in_c: int, out_c: int) -> int {
    mode * in_ch * out_ch + in_c * out_ch + out_c
}

/// Slot of the weight `(in_c, out_c)` in a linear weight matrix stored flattened as
/// `in_c * out_ch + out_c`.
pub open spec fn linear_slot(out_ch: int, in_c: int, out_c: int) -> int {
    in_c * out_ch + out_c
}

/// Index of the complex weight `(mode, in_c, out_c)` in a flattened spectral tensor.
pub fn spectral_index(
    in_channels: usize,
    out_channels: usize,
    mode: usize,
    in_c: usize,
    out_c: usize,
) -> (k: usize)
    requires
        mode * in_channels <= usize::MAX,
        spectral_slot(in_channels as int, out_channels as int, mode as int, in_c as int, out_c as int)
            <= usize::MAX,
    ensures
        k as int == spectral_slot(
            in_channels as int,
            out_channels as int,
            mode as int,
            in_c as int,
            out_c as int,
        ),
{
    assert(0 <= mode * in_channels * out_channels && 0 <= in_c * out_channels) by (nonlinear_arith);
    let a = mode * in_channels;
    let b = a * out_channels;
    let c = in_c * out_channels;
    b + c + out_c
}

/// Index of the weight `(in_c, out_c)` in a flattened linear weight matrix.
pub fn linear_index(out_channels: usize, in_c: usize, out_c: usize) -> (k: usize)
    requires
        linear_slot(out_channels as int, in_c as int, out_c as int) <= usize::MAX,
    ensures
        k as int == linear_slot(out_channels as int, in_c as int, out_c as int),
{
    assert(0 <= in_c * out_channels) by (nonlinear_arith);
    in_c * out_channels + out_c
}

/// The flattened spectral layout gives every weight of an `n_modes x in_ch x out_ch` tensor
/// its own slot inside the tensor: slots are below `n_modes * in_ch * out_ch` and distinct
/// weights never share one.
pub proof fn lemma_spectral_layout(
    n_modes: int,
    in_ch: int,
    out_ch: int,
    m1: int,
    i1: int,
    o1: int,
    m2: int,
    i2: int,
    o2: int,
)
    requires
        0 <= m1 < n_modes,
        0 <= i1 < in_ch,
        0 <= o1 < out_ch,
        0 <= m2 < n_modes,
        0 <= i2 < in_ch,
        0 <= o2 < out_ch,
    ensures
        0 <= spectral_slot(in_ch, out_ch, m1, i1, o1) < n_modes * in_ch * out_ch,
        spectral_slot(in_ch, out_ch, m1, i1, o1) == spectral_slot(in_ch, out_ch, m2, i2, o2) ==> (
        m1 == m2 && i1 == i2 && o1 == o2),
{
    lemma_linear_layout(in_ch, out_ch, i1, o1, i2, o2);
    lemma_linear_layout(in_ch, out_ch, i2, o2, i1, o1);
    let inner = in_ch * out_ch;
    let r1 = linear_slot(out_ch, i1, o1);
    let r2 = linear_slot(out_ch, i2, o2);
    assert(spectral_slot(in_ch, out_ch, m1, i1, o1) == m1 * inner + r1) by (nonlinear_arith)
        requires
            inner == in_ch * out_ch,
            r1 == i1 * out_ch + o1,
    ;
    assert(spectral_slot(in_ch, out_ch, m2, i2, o2) == m2 * inner + r2) by (nonlinear_arith)
        requires
            inner == in_ch * out_ch,
            r2 == i2 * out_ch + o2,
    ;
    assert(0 <= m1 * inner + r1 < n_modes * inner) by (nonlinear_arith)
        requires
            0 <= m1 < n_modes,
            0 <= r1 < inner,
    ;
    assert(n_modes * inner == n_modes * in_ch * out_ch) by (nonlinear_arith)
        requires
            inner == in_ch * out_ch,
    ;
    assert(m1 * inner + r1 == m2 * inner + r2 ==> m1 == m2) by (nonlinear_arith)
        requires
            0 <= r1 < inner,
            0 <= r2 < inner,
            0 <= m1,
            0 <= m2,
    ;
}

/// The flattened linear layout gives every weight of an `in_ch x out_ch` matrix its own slot
/// inside the matrix.
pub proof fn lemma_linear_layout(in_ch: int, out_ch: int, i1: int, o1: int, i2: int, o2: int)
    requires
        0 <= i1 < in_ch,
        0 <= o1 < out_ch,
        0 <= i2 < in_ch,
        0 <= o2 < out_ch,
    ensures
        0 <= linear_slot(out_ch, i1, o1) < in_ch * out_ch,
        linear_slot(out_ch, i1, o1) == linear_slot(out_ch, i2, o2) ==> (i1 == i2 && o1 == o2),
{
    assert(0 <= i1 * out_ch + o1 < in_ch * out_ch) by (nonlinear_arith)
        requires
            0 <= i1 < in_ch,
            0 <= o1 < out_ch,
    ;
    assert(i1 * out_ch + o1 == i2 * out_ch + o2 ==> i1 == i2) by (nonlinear_arith)
        requires
            0 <= o1 < out_ch,
            0 <= o2 < out_ch,
            0 <= i1,
            0 <= i2,
    ;
}

/// First input step averaged into output step `j` when `n` steps are pooled into `t`:
/// `floor(j * n / t)`.
pub open spec fn pool_start(j: int, n: int, t: int) -> int {
    (j * n) / t
}

/// End (exclusive) of the input steps averaged into output step `j` when `n` steps are pooled
/// into `t`: `ceil((j + 1) * n / t)`.
pub open spec fn pool_end(j: int, n: int, t: int) -> int {
    ((j + 1) * n + t - 1) / t
}

/// The input windows `[start, end)` that adaptive average pooling (as PyTorch's
/// `AdaptiveAvgPool1d` defines it) averages into each of the `target_len` output steps:
/// window `j` is `[floor(j*n/t), ceil((j+1)*n/t))`, so neighbouring windows may overlap.
/// No windows are produced for an empty input or an empty target.
pub fn adaptive_pool_windows(in_len: usize, target_len: usize) -> (w: Vec<(usize, usize)>)
    requires
        target_len * in_len + target_len - 1 <= usize::MAX,
    ensures
        in_len == 0 || target_len == 0 ==> w@.len() == 0,
        in_len > 0 && target_len > 0 ==> w@.len() == target_len,
        forall|j: int|
            0 <= j < w@.len() ==> #[trigger] w@[j] == (
                pool_start(j, in_len as int, target_len as int) as usize,
                pool_end(j, in_len as int, target_len as int) as usize,
            ),
{
    let mut w: Vec<(usize, usize)> = Vec::new();
    if in_len == 0 || target_len == 0 {
        return w;
    }
    let mut j: usize = 0;
    while j < target_len
        invariant
            0 < target_len,
            0 < in_len,
            target_len * in_len + target_len - 1 <= usize::MAX,
            j <= target_len,
            w@.len() == j,
            forall|k: int|
                0 <= k < j ==> #[trigger] w@[k] == (
                    pool_start(k, in_len as int, target_len as int) as usize,
                    pool_end(k, in_len as int, target_len as int) as usize,
                ),
        decreases target_len - j,
    {
        assert((j + 1) * in_len <= target_len * in_len) by (nonlinear_arith)
            requires
                j < target_len,
        ;
        assert(j * in_len <= (j + 1) * in_len) by (nonlinear_arith);
        let start = (j * in_len) / target_len;
        let end = ((j + 1) * in_len + (target_len - 1)) / target_len;
        w.push((start, end));
        j = j + 1;
    }
    w
}

/// The pooling windows cover the input in order: the first starts at 0, the last ends at
/// the input length, every window lies inside the input and is non-empty, starts and ends
/// never move backwards, and each window starts no later than the previous one ends, so no
/// input step is left out.
pub proof fn lemma_pool_windows_cover(n: int, t: int, j: int)
    requires
        n > 0,
        t > 0,
        0 <= j < t,
    ensures
        pool_start(0, n, t) == 0,
        pool_end(t - 1, n, t) == n,
        0 <= pool_start(j, n, t) < pool_end(j, n, t) <= n,
        j + 1 < t ==> pool_start(j, n, t) <= pool_start(j + 1, n, t),
        j + 1 < t ==> pool_end(j, n, t) <= pool_end(j + 1, n, t),
        j + 1 < t ==> pool_start(j + 1, n, t) <= pool_end(j, n, t),
{
    assert(pool_start(0, n, t) == 0) by (nonlinear_arith)
        requires
            t > 0,
    ;
    assert((t * n + t - 1) / t == n) by (nonlinear_arith)
        requires
            t > 0,
            n > 0,
    {
        assert(t * n + t - 1 == t * n + (t - 1));
        assert(0 <= t - 1 < t);
    }
    assert(pool_end(t - 1, n, t) == n);
    assert(0 <= (j * n) / t) by (nonlinear_arith)
        requires
            n >= 0,
            t > 0,
            j >= 0,
    ;
    // floor(j n / t) <= j n / t < (j + 1) n / t <= ceil((j + 1) n / t)
    assert((j * n) / t < ((j + 1) * n + t - 1) / t) by (nonlinear_arith)
        requires
            n > 0,
            t > 0,
            j >= 0,
    {
        let q = (j * n) / t;
        assert(q * t <= j * n);
        assert(j * n < (j + 1) * n);
        assert((q + 1) * t <= (j + 1) * n + t - 1);
    }
    assert(((j + 1) * n + t - 1) / t <= n) by (nonlinear_arith)
        requires
            n > 0,
            t > 0,
            j + 1 <= t,
    {
        assert((j + 1) * n + t - 1 < (n + 1) * t) by {
            assert((j + 1) * n <= t * n);
        }
    }
    if j + 1 < t {
        assert((j * n) / t <= ((j + 1) * n) / t) by (nonlinear_arith)
            requires
                n >= 0,
                t > 0,
                j >= 0,
        ;
        assert(((j + 1) * n + t - 1) / t <= ((j + 2) * n + t - 1) / t) by (nonlinear_arith)
            requires
                n >= 0,
                t > 0,
                j >= 0,
        ;
        assert(((j + 1) * n) / t <= ((j + 1) * n + t - 1) / t) by (nonlinear_arith)
            requires
                n >= 0,
                t > 0,
                j >= 0,
        ;
    }
}

/// The characters are equal, or are the upper- and lower-case forms of one ASCII letter.
pub open spec fn same_ascii_letter(x: char, y: char) -> bool {
    let (u, v) = (x as u32, y as u32);
    u == v || (0x41 <= u <= 0x5A && v == u + 32) || (0x41 <= v <= 0x5A && u == v + 32)
}

/// The activation read from a layer does not depend on the ASCII case of its name.
pub proof fn lemma_activation_name_ignores_ascii_case(a: Seq<char>, b: Seq<char>)
    requires
        a.len() == b.len(),
        forall|k: int| 0 <= k < a.len() ==> same_ascii_letter(#[trigger] a[k], b[k]),
    ensures
        Activation::named(Some(a)) == Activation::named(Some(b)),
{
    reveal_strlit("relu");
    assert forall|k: int| 0 <= k < a.len() implies ascii_lower(#[trigger] a[k]) == ascii_lower(
        b[k],
    ) by {
        assert(same_ascii_letter(a[k], b[k]));
    }
    if eq_ignore_ascii_case(a, "relu"@) {
        assert forall|k: int| 0 <= k < b.len() implies ascii_lower(#[trigger] b[k]) == ascii_lower(
            "relu"@[k],
        ) by {
            assert(ascii_lower(a[k]) == ascii_lower(b[k]));
        }
    }
    if eq_ignore_ascii_case(b, "relu"@) {
        assert forall|k: int| 0 <= k < a.len() implies ascii_lower(#[trigger] a[k]) == ascii_lower(
            "relu"@[k],
        ) by {
            assert(ascii_lower(a[k]) == ascii_lower(b[k]));
        }
    }
}

/// `relu` selects ReLU, and ReLU is selected only by a spelling of `relu` (in any ASCII
/// case); every other name, and a missing name, selects GELU.
pub proof fn lemma_activation_names(n: Seq<char>)
    ensures
        Activation::named(Some("relu"@)) == Activation::ReLU,
        Activation::named(None) == Activation::GELU,
        Activation::named(Some(n)) == Activation::ReLU <==> (n.len() == 4 && forall|k: int|
            0 <= k < 4 ==> same_ascii_letter(#[trigger] n[k], "relu"@[k])),
        Activation::named(Some(n)) != Activation::Identity,
{
    reveal_strlit("relu");
    let r = "relu"@;
    assert(r[0] == 'r' && r[1] == 'e' && r[2] == 'l' && r[3] == 'u');
    if n.len() == 4 && forall|k: int| 0 <= k < 4 ==> same_ascii_letter(#[trigger] n[k], r[k]) {
        assert forall|k: int| 0 <= k < n.len() implies ascii_lower(#[trigger] n[k]) == ascii_lower(r[k]) by {
            assert(same_ascii_letter(n[k], r[k]));
        }
    }
    if eq_ignore_ascii_case(n, r) {
        assert forall|k: int| 0 <= k < 4 implies same_ascii_letter(#[trigger] n[k], r[k]) by {
            assert(ascii_lower(n[k]) == ascii_lower(r[k]));
        }
    }
}

/// The length of each horizon in minutes.
pub open spec fn horizon_minutes(h: PredictionHorizon) -> int {
    match h {
        PredictionHorizon::HalfHour => 30int,
        PredictionHorizon::OneHour => 60,
        PredictionHorizon::FourHours => 240,
        PredictionHorizon::EightHours => 480,
        PredictionHorizon::TwelveHours => 720,
        PredictionHorizon::TwentyFourHours => 1440,
    }
}

/// A horizon lasts sixty seconds for each of its minutes.
pub proof fn lemma_horizon_seconds(h: PredictionHorizon)
    ensures
        h.seconds_spec() == 60 * horizon_minutes(h),
{
}

/// The spectral layout is row-major over (mode, input channel, output channel): the first
/// weight sits at slot 0, the next output channel is the next slot, the next input channel
/// is `out_ch` slots on, and the next mode is `in_ch * out_ch` slots on.
pub proof fn lemma_spectral_slot_steps(in_ch: int, out_ch: int, m: int, i: int, o: int)
    ensures
        spectral_slot(in_ch, out_ch, 0, 0, 0) == 0,
        spectral_slot(in_ch, out_ch, m, i, o + 1) == spectral_slot(in_ch, out_ch, m, i, o) + 1,
        spectral_slot(in_ch, out_ch, m, i + 1, o) == spectral_slot(in_ch, out_ch, m, i, o)
            + out_ch,
        spectral_slot(in_ch, out_ch, m + 1, i, o) == spectral_slot(in_ch, out_ch, m, i, o) + in_ch
            * out_ch,
{
    assert((i + 1) * out_ch == i * out_ch + out_ch) by (nonlinear_arith);
    assert((m + 1) * in_ch * out_ch == m * in_ch * out_ch + in_ch * out_ch) by (nonlinear_arith);
    assert(0 * in_ch * out_ch + 0 * out_ch == 0) by (nonlinear_arith);
}

/// The linear layout is row-major over (input channel, output channel).
pub proof fn lemma_linear_slot_steps(out_ch: int, i: int, o: int)
    ensures
        linear_slot(out_ch, 0, 0) == 0,
        linear_slot(out_ch, i, o + 1) == linear_slot(out_ch, i, o) + 1,
        linear_slot(out_ch, i + 1, o) == linear_slot(out_ch, i, o) + out_ch,
{
    assert((i + 1) * out_ch == i * out_ch + out_ch) by (nonlinear_arith);
    assert(0 * out_ch == 0) by (nonlinear_arith);
}

} // verus!
