//! PCM helpers: channel downmixing and edge-silence trimming.
use vstd::prelude::*;

verus! {

/// Whisper expects 16 kHz mono PCM.
pub const TARGET_SAMPLE_RATE: u32 = 16_000;

pub open spec fn abs(x: int) -> int {
    if x < 0 {
        -x
    } else {
        x
    }
}

/// A sample is loud when its magnitude reaches the threshold's magnitude;
/// only samples below the threshold are silent.
pub open spec fn loud(sample: i16, threshold: i16) -> bool {
    abs(sample as int) >= abs(threshold as int)
}

/// Number of quiet samples at the start.
pub open spec fn leading_quiet(s: Seq<i16>, t: i16) -> nat
    decreases s.len(),
{
    if s.len() == 0 {
        0
    } else if loud(s[0], t) {
        0
    } else {
        1 + leading_quiet(s.drop_first(), t)
    }
}

/// Number of quiet samples at the end.
pub open spec fn trailing_quiet(s: Seq<i16>, t: i16) -> nat
    decreases s.len(),
{
    if s.len() == 0 {
        0
    } else if loud(s.last(), t) {
        0
    } else {
        1 + trailing_quiet(s.drop_last(), t)
    }
}

/// `s` without its leading and trailing quiet samples; empty when every
/// sample is quiet.
pub open spec fn trimmed(s: Seq<i16>, t: i16) -> Seq<i16> {
    if leading_quiet(s, t) == s.len() {
        Seq::empty()
    } else {
        s.subrange(leading_quiet(s, t) as int, s.len() - trailing_quiet(s, t))
    }
}

pub proof fn lemma_leading_quiet(s: Seq<i16>, t: i16, i: int)
    requires
        0 <= i <= s.len(),
        forall|k: int| 0 <= k < i ==> !loud(#[trigger] s[k], t),
        i == s.len() || loud(s[i], t),
    ensures
        leading_quiet(s, t) == i,
    decreases i,
{
    if i > 0 {
        lemma_leading_quiet(s.drop_first(), t, i - 1);
    }
}

pub proof fn lemma_trailing_quiet(s: Seq<i16>, t: i16, i: int)
    requires
        0 <= i <= s.len(),
        forall|k: int| s.len() - i <= k < s.len() ==> !loud(#[trigger] s[k], t),
        i == s.len() || loud(s[s.len() - i - 1], t),
    ensures
        trailing_quiet(s, t) == i,
    decreases i,
{
    if i > 0 {
        lemma_trailing_quiet(s.drop_last(), t, i - 1);
    }
}

fn is_loud(sample: i16, threshold: i16) -> (r: bool)
    ensures
        r == loud(sample, threshold),
{
    let s: i32 = sample as i32;
    let t: i32 = threshold as i32;
    let sa: i32 = if s < 0 {
        -s
    } else {
        s
    };
    let ta: i32 = if t < 0 {
        -t
    } else {
        t
    };
    sa >= ta
}

/// Trim leading and trailing silence from a PCM buffer.
///
/// Samples whose magnitude is below the threshold's magnitude are silent. The result is the stretch from the first loud sample to the last
/// loud sample, or empty when every sample is silent.
pub fn trim_edge_silence(samples: &[i16], threshold: i16) -> (r: &[i16])
    ensures
        r@ == trimmed(samples@, threshold),
{
    let n = samples.len();
    let mut start: usize = 0;
    while start < n && !is_loud(samples[start], threshold)
        invariant
            n == samples.len(),
            start <= n,
            forall|k: int| 0 <= k < start ==> !loud(#[trigger] samples@[k], threshold),
        decreases n - start,
    {
        start = start + 1;
    }
    proof {
        lemma_leading_quiet(samples@, threshold, start as int);
    }
    if start == n {
        return &samples[0..0];
    }
    let mut tail: usize = 0;
    while tail < n && !is_loud(samples[n - 1 - tail], threshold)
        invariant
            n == samples.len(),
            start < n,
            loud(samples@[start as int], threshold),
            tail <= n - 1 - start,
            forall|k: int| n - tail <= k < n ==> !loud(#[trigger] samples@[k], threshold),
        decreases n - tail,
    {
        tail = tail + 1;
    }
    proof {
        lemma_trailing_quiet(samples@, threshold, tail as int);
    }
    &samples[start..n - tail]
}

/// The trimmed stretch starts and ends with loud samples, and nothing loud
/// is cut away.
pub proof fn lemma_trim_keeps_every_loud_sample(s: Seq<i16>, t: i16)
    ensures
        trimmed(s, t).len() > 0 ==> loud(trimmed(s, t)[0], t) && loud(trimmed(s, t).last(), t),
        forall|k: int|
            0 <= k < s.len() && loud(#[trigger] s[k], t) ==> leading_quiet(s, t) <= k < s.len()
                - trailing_quiet(s, t),
{
    lemma_quiet_runs(s, t);
}

/// Trimming an already trimmed stretch changes nothing.
pub proof fn lemma_trim_idempotent(s: Seq<i16>, t: i16)
    ensures
        trimmed(trimmed(s, t), t) == trimmed(s, t),
{
    lemma_quiet_runs(s, t);
    lemma_trim_keeps_every_loud_sample(s, t);
    let r = trimmed(s, t);
    if r.len() == 0 {
        assert(leading_quiet(r, t) == 0);
    } else {
        assert(leading_quiet(r, t) == 0);
        assert(trailing_quiet(r, t) == 0);
        assert(r.subrange(0, r.len() as int) =~= r);
    }
}

/// Only the threshold's magnitude matters: `t` and `-t` trim alike.
pub proof fn lemma_trim_threshold_sign(s: Seq<i16>, t: i16)
    requires
        t != i16::MIN,
    ensures
        trimmed(s, (-t) as i16) == trimmed(s, t),
{
    let u = (-t) as i16;
    assert forall|x: i16| loud(x, u) == loud(x, t) by {}
    lemma_same_loudness(s, u, t);
}

proof fn lemma_same_loudness(s: Seq<i16>, u: i16, t: i16)
    requires
        forall|x: i16| loud(x, u) == loud(x, t),
    ensures
        leading_quiet(s, u) == leading_quiet(s, t),
        trailing_quiet(s, u) == trailing_quiet(s, t),
    decreases s.len(),
{
    if s.len() > 0 {
        assert(loud(s[0], u) == loud(s[0], t));
        assert(loud(s.last(), u) == loud(s.last(), t));
        lemma_same_loudness(s.drop_first(), u, t);
        lemma_same_loudness(s.drop_last(), u, t);
    }
}

proof fn lemma_quiet_runs(s: Seq<i16>, t: i16)
    ensures
        leading_quiet(s, t) <= s.len(),
        trailing_quiet(s, t) <= s.len(),
        forall|k: int| 0 <= k < leading_quiet(s, t) ==> !loud(#[trigger] s[k], t),
        forall|k: int| s.len() - trailing_quiet(s, t) <= k < s.len() ==> !loud(#[trigger] s[k], t),
        leading_quiet(s, t) < s.len() ==> loud(s[leading_quiet(s, t) as int], t),
        trailing_quiet(s, t) < s.len() ==> loud(s[s.len() - trailing_quiet(s, t) - 1], t),
        leading_quiet(s, t) < s.len() ==> leading_quiet(s, t) + trailing_quiet(s, t) < s.len(),
    decreases s.len(),
{
    if s.len() > 0 {
        lemma_quiet_runs(s.drop_first(), t);
        lemma_quiet_runs(s.drop_last(), t);
        assert forall|k: int| 0 <= k < leading_quiet(s, t) implies !loud(#[trigger] s[k], t) by {
            if k > 0 {
                assert(s[k] == s.drop_first()[k - 1]);
            }
        }
        assert forall|k: int|
            s.len() - trailing_quiet(s, t) <= k < s.len() implies !loud(#[trigger] s[k], t) by {
            if k < s.len() - 1 {
                assert(s[k] == s.drop_last()[k]);
            }
        }
        if leading_quiet(s, t) < s.len() {
            let l = leading_quiet(s, t) as int;
            if l > 0 {
                assert(s[l] == s.drop_first()[l - 1]);
            }
            if trailing_quiet(s, t) + l >= s.len() {
                // the loud sample at l would lie in the quiet tail
                assert(!loud(s[l], t));
            }
        }
        if trailing_quiet(s, t) < s.len() {
            let r = trailing_quiet(s, t) as int;
            if r > 0 {
                assert(s[s.len() - r - 1] == s.drop_last()[s.len() - r - 1]);
            }
        }
    }
}

/// Integer division rounding toward zero, as Rust's `/` does: the
/// quotient of the magnitudes, negated when the signs differ.
pub open spec fn div_toward_zero(a: int, b: int) -> int {
    let q = abs(a) / abs(b);
    if (a >= 0) == (b > 0) {
        q
    } else {
        -q
    }
}

/// The sum of a run of samples.
pub open spec fn sum(s: Seq<i16>) -> int
    decreases s.len(),
{
    if s.len() == 0 {
        0
    } else {
        sum(s.drop_last()) + s.last() as int
    }
}

/// The frame that starts at sample `k * channels` (shorter at the end).
pub open spec fn frame(s: Seq<i16>, channels: int, k: int) -> Seq<i16> {
    s.subrange(k * channels, if (k + 1) * channels <= s.len() {
        (k + 1) * channels
    } else {
        s.len() as int
    })
}

/// Number of frames, counting a trailing partial frame.
pub open spec fn frame_count(len: int, channels: int) -> int {
    (len + channels - 1) / channels
}

/// What the channel count becomes as the `i32` divisor of a frame's sum.
pub open spec fn divisor(channels: usize) -> int {
    (channels as i32) as int
}

/// The mono mix: each frame's sum divided by the channel count taken as
/// an `i32`.
pub open spec fn downmixed(s: Seq<i16>, channels: usize) -> Seq<i16> {
    if channels <= 1 {
        s
    } else {
        Seq::new(
            frame_count(s.len() as int, channels as int) as nat,
            |k: int| div_toward_zero(sum(frame(s, channels as int, k)), divisor(channels)) as i16,
        )
    }
}

/// Inputs the mix can be computed on: every running sum inside a frame
/// fits in an `i32`, the divisor is not zero, and no frame sum is
/// `i32::MIN` when the divisor is `-1`. (With fewer than 65537 channels
/// all of this holds.)
pub open spec fn mixable(s: Seq<i16>, channels: usize) -> bool {
    channels <= 1 || {
        &&& divisor(channels) != 0
        &&& forall|i: int, j: int|
            0 <= i <= j <= s.len() && i % (channels as int) == 0 && j - i <= channels ==> i32::MIN
                <= #[trigger] sum(s.subrange(i, j)) <= i32::MAX
        &&& divisor(channels) == -1 ==> forall|i: int, j: int|
            0 <= i < j <= s.len() && i % (channels as int) == 0 && (j - i == channels || (j
                == s.len() && j - i < channels)) ==> #[trigger] sum(s.subrange(i, j)) != i32::MIN
    }
}

/// `t / c` on `i32`, rounding toward zero; the division is done on the
/// magnitudes in `i64`.
fn div_i32(t: i32, c: i32) -> (q: i32)
    requires
        c != 0,
        !(t == i32::MIN && c == -1),
    ensures
        q == div_toward_zero(t as int, c as int),
{
    let a: i64 = t as i64;
    let b: i64 = c as i64;
    let ma: i64 = if a < 0 { -a } else { a };
    let mb: i64 = if b < 0 { -b } else { b };
    let m: i64 = ma / mb;
    assert(ma as int == abs(t as int) && mb as int == abs(c as int));
    assert(0 <= m <= ma) by (nonlinear_arith)
        requires
            ma >= 0,
            mb >= 1,
            m == ma / mb,
    ;
    if (a >= 0) == (b > 0) {
        if m > i32::MAX as i64 {
            assert(false) by (nonlinear_arith)
                requires
                    m > i32::MAX,
                    m == ma / mb,
                    ma <= 2147483648,
                    mb >= 1,
                    ma == 2147483648 ==> mb >= 2,
            {
                if mb >= 2 {
                    assert(m * mb <= ma);
                    assert(m * 2 <= m * mb);
                }
            }
        }
        assert(m as int == div_toward_zero(t as int, c as int));
        m as i32
    } else {
        let r: i64 = -m;
        assert(r as int == div_toward_zero(t as int, c as int));
        r as i32
    }
}

proof fn lemma_sum_bounds(s: Seq<i16>)
    ensures
        -32768 * s.len() <= sum(s) <= 32767 * s.len(),
    decreases s.len(),
{
    if s.len() > 0 {
        lemma_sum_bounds(s.drop_last());
    }
}

/// Mix interleaved samples down to one channel by averaging each frame.
///
/// A trailing partial frame is summed and divided by the full channel count.
pub fn downmix_i16(data: &[i16], channels: usize) -> (r: Vec<i16>)
    requires
        mixable(data@, channels),
    ensures
        r@ == downmixed(data@, channels),
{
    if channels <= 1 {
        let mut out: Vec<i16> = Vec::new();
        let mut i: usize = 0;
        while i < data.len()
            invariant
                i <= data.len(),
                out@ == data@.take(i as int),
            decreases data.len() - i,
        {
            out.push(data[i]);
            assert(data@.take(i + 1) =~= data@.take(i as int).push(data@[i as int]));
            i = i + 1;
        }
        assert(data@.take(data.len() as int) =~= data@);
        return out;
    }
    let n = data.len();
    let mut out: Vec<i16> = Vec::new();
    let mut start: usize = 0;
    assert(out@.len() * channels == 0);
    while start < n
        invariant
            n == data.len(),
            1 < channels,
            mixable(data@, channels),
            start <= n,
            start <= out@.len() * channels,
            out@.len() > 0 ==> (out@.len() - 1) * channels < start,
            start < n ==> start == out@.len() * channels,
            forall|k: int|
                0 <= k < out@.len() ==> #[trigger] out@[k] == div_toward_zero(
                    sum(frame(data@, channels as int, k)),
                    divisor(channels),
                ) as i16,
        decreases n - start,
    {
        let end: usize = if n - start >= channels {
            start + channels
        } else {
            n
        };
        let ghost k = out@.len() as int;
        assert(start == k * channels);
        assert((k + 1) * channels == start + channels) by (nonlinear_arith)
            requires
                start == k * channels,
        ;
        assert((start as int) % (channels as int) == 0) by (nonlinear_arith)
            requires
                start == k * channels,
                k >= 0,
                channels > 1,
        ;
        let mut total: i32 = 0;
        let mut j: usize = start;
        while j < end
            invariant
                start <= j <= end <= n,
                n == data.len(),
                end - start <= channels,
                (start as int) % (channels as int) == 0,
                mixable(data@, channels),
                1 < channels,
                total == sum(data@.subrange(start as int, j as int)),
            decreases end - j,
        {
            proof {
                let sub = data@.subrange(start as int, j + 1);
                assert(sub.drop_last() =~= data@.subrange(start as int, j as int));
                assert(i32::MIN <= sum(data@.subrange(start as int, j + 1)) <= i32::MAX);
            }
            total = total + data[j] as i32;
            j = j + 1;
        }
        proof {
            assert(frame(data@, channels as int, k) =~= data@.subrange(start as int, end as int));
            if divisor(channels) == -1 {
                assert(sum(data@.subrange(start as int, end as int)) != i32::MIN);
            }
        }
        let c: i32 = channels as i32;
        assert(c as int == divisor(channels));
        let avg: i32 = div_i32(total, c);
        let ghost old_out = out@;
        out.push(avg as i16);
        assert(out@[k] == div_toward_zero(sum(frame(data@, channels as int, k)), divisor(channels)) as i16);
        assert forall|q: int| 0 <= q < out@.len() implies #[trigger] out@[q] == div_toward_zero(
            sum(frame(data@, channels as int, q)),
            divisor(channels),
        ) as i16 by {
            if q < k {
                assert(out@[q] == old_out[q]);
            }
        }
        start = end;
    }
    proof {
        let len = out@.len() as int;
        let ch = channels as int;
        if len == 0 {
            assert(n == 0);
            assert(frame_count(0, ch) == 0) by (nonlinear_arith)
                requires
                    ch > 1,
                    frame_count(0, ch) == (ch - 1) / ch,
            ;
        } else {
            assert(frame_count(n as int, ch) == len) by (nonlinear_arith)
                requires
                    n <= len * ch,
                    (len - 1) * ch < n,
                    ch > 1,
                    frame_count(n as int, ch) == (n + ch - 1) / ch,
            ;
        }
    }
    assert(out@ =~= downmixed(data@, channels));
    out
}


/// An unsigned sample re-centred on zero as the capture callback does: the
/// offset is `i16::MAX`, and the top value wraps to `i16::MIN`.
pub open spec fn recentred(s: u16) -> i16 {
    (s as int - 32767) as i16
}

/// Converts unsigned samples to signed ones.
pub fn u16_to_i16(data: &[u16]) -> (r: Vec<i16>)
    ensures
        r@.len() == data@.len(),
        forall|i: int| 0 <= i < data@.len() ==> #[trigger] r@[i] == recentred(data@[i]),
{
    let mut out: Vec<i16> = Vec::new();
    let mut i: usize = 0;
    while i < data.len()
        invariant
            i <= data.len(),
            out@.len() == i,
            forall|k: int| 0 <= k < i ==> #[trigger] out@[k] == recentred(data@[k]),
        decreases data.len() - i,
    {
        let v: i32 = data[i] as i32 - 32767;
        out.push(v as i16);
        i = i + 1;
    }
    out
}

/// The index of the first device whose name is `target`, among device
/// names (`None` for a device whose name could not be read).
pub open spec fn device_index(names: Seq<Option<String>>, target: Seq<char>) -> Option<int>
    decreases names.len(),
{
    if names.len() == 0 {
        None
    } else {
        match device_index(names.drop_last(), target) {
            Some(i) => Some(i),
            None => match names.last() {
                Some(n) => if n@ == target {
                    Some(names.len() - 1)
                } else {
                    None
                },
                None => None,
            },
        }
    }
}

/// Which input device to record from: the first one named `mic` when a
/// mic is configured and present, else the default device (`None`).
pub fn choose_input(names: &[Option<String>], mic: Option<&str>) -> (r: Option<usize>)
    ensures
        match mic {
            None => r is None,
            Some(t) => match device_index(names@, t@) {
                Some(i) => r == Some(i as usize),
                None => r is None,
            },
        },
{
    match mic {
        None => None,
        Some(target) => {
            let t = crate::text::chars_of(target);
            let mut i: usize = 0;
            while i < names.len()
                invariant
                    i <= names.len(),
                    mic == Some(target),
                    t@ == target@,
                    device_index(names@.take(i as int), target@) is None,
                decreases names.len() - i,
            {
                let ghost pre = names@.take(i + 1);
                assert(pre.drop_last() =~= names@.take(i as int));
                assert(pre.last() == names@[i as int]);
                if let Some(n) = &names[i] {
                    let nv = crate::text::chars_of(n.as_str());
                    if crate::text::eq_chars(nv.as_slice(), t.as_slice()) {
                        proof {
                            lemma_device_index_prefix(names@, target@, i + 1);
                        }
                        return Some(i);
                    }
                }
                i = i + 1;
            }
            assert(names@.take(names.len() as int) =~= names@);
            None
        },
    }
}

proof fn lemma_device_index_prefix(names: Seq<Option<String>>, target: Seq<char>, k: int)
    requires
        0 <= k <= names.len(),
        device_index(names.take(k), target) is Some,
    ensures
        device_index(names, target) == device_index(names.take(k), target),
    decreases names.len() - k,
{
    if k < names.len() {
        assert(names.take(k + 1).drop_last() =~= names.take(k));
        lemma_device_index_prefix(names, target, k + 1);
    } else {
        assert(names.take(k) =~= names);
    }
}

} // verus!
