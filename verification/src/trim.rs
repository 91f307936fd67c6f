//! Silence trimming.
//!
//! The session delegates the actual rewrite to an external waveform tool, run
//! once forward and once on the reversed signal so that both the leading and
//! the trailing near-silence are stripped; the tool writes to a temporary path
//! that afterwards replaces the original file.  This module states what that
//! transform means on a signal of 16-bit samples — strip the quiet run at each
//! end, but leave files below the minimal byte threshold untouched — proves
//! the transform idempotent, and builds the tool's argument list.

use vstd::prelude::*;

use crate::MIN_AUDIO_BYTES;

verus! {

/// Amplitude from which a sample counts as sound rather than silence:
/// one percent of the 16-bit full scale, rounded up.
pub const AMP_THRESHOLD: i16 = 328;

pub open spec fn is_loud(s: i16) -> bool {
    s >= AMP_THRESHOLD || s <= -AMP_THRESHOLD
}

/// Length of the leading run of quiet samples.
pub open spec fn leading_quiet(s: Seq<i16>) -> nat
    decreases s.len(),
{
    if s.len() == 0 || is_loud(s[0]) {
        0
    } else {
        1 + leading_quiet(s.drop_first())
    }
}

/// Length of the trailing run of quiet samples.
pub open spec fn trailing_quiet(s: Seq<i16>) -> nat
    decreases s.len(),
{
    if s.len() == 0 || is_loud(s.last()) {
        0
    } else {
        1 + trailing_quiet(s.drop_last())
    }
}

/// The signal with the quiet run at each end removed; empty if nothing in it
/// is loud.
pub open spec fn strip_silence(s: Seq<i16>) -> Seq<i16> {
    if leading_quiet(s) == s.len() {
        Seq::empty()
    } else {
        s.subrange(leading_quiet(s) as int, s.len() - trailing_quiet(s))
    }
}

/// The whole trim step on a signal stored as 16-bit samples (two bytes per
/// sample): a file below the minimal byte threshold counts as empty and is
/// left exactly as it is; any other file has its quiet ends stripped.
pub open spec fn trim_spec(s: Seq<i16>) -> Seq<i16> {
    if 2 * s.len() < MIN_AUDIO_BYTES {
        s
    } else {
        strip_silence(s)
    }
}

pub proof fn lemma_leading_quiet_character(s: Seq<i16>)
    ensures
        leading_quiet(s) <= s.len(),
        forall|j: int| 0 <= j < leading_quiet(s) ==> !is_loud(#[trigger] s[j]),
        leading_quiet(s) < s.len() ==> is_loud(s[leading_quiet(s) as int]),
    decreases s.len(),
{
    if s.len() > 0 && !is_loud(s[0]) {
        lemma_leading_quiet_character(s.drop_first());
        assert forall|j: int| 0 <= j < leading_quiet(s) implies !is_loud(#[trigger] s[j]) by {
            if j > 0 {
                assert(s.drop_first()[j - 1] == s[j]);
            }
        }
        if leading_quiet(s) < s.len() {
            assert(s.drop_first()[leading_quiet(s) - 1] == s[leading_quiet(s) as int]);
        }
    }
}

pub proof fn lemma_trailing_quiet_character(s: Seq<i16>)
    ensures
        trailing_quiet(s) <= s.len(),
        forall|j: int| s.len() - trailing_quiet(s) <= j < s.len() ==> !is_loud(#[trigger] s[j]),
        trailing_quiet(s) < s.len() ==> is_loud(s[s.len() - 1 - trailing_quiet(s)]),
    decreases s.len(),
{
    if s.len() > 0 && !is_loud(s.last()) {
        lemma_trailing_quiet_character(s.drop_last());
        assert forall|j: int| s.len() - trailing_quiet(s) <= j < s.len() implies !is_loud(
            #[trigger] s[j],
        ) by {
            if j < s.len() - 1 {
                assert(s.drop_last()[j] == s[j]);
            }
        }
        if trailing_quiet(s) < s.len() {
            assert(s.drop_last()[s.len() - 2 - (trailing_quiet(s) - 1)] == s[s.len() - 1
                - trailing_quiet(s)]);
        }
    }
}

/// A stripped signal is either empty or loud at both ends, so stripping it
/// again changes nothing.
pub proof fn lemma_strip_silence_fixed(s: Seq<i16>)
    ensures
        strip_silence(strip_silence(s)) == strip_silence(s),
{
    lemma_leading_quiet_character(s);
    lemma_trailing_quiet_character(s);
    let lq = leading_quiet(s) as int;
    let tq = trailing_quiet(s) as int;
    let t = strip_silence(s);
    if lq == s.len() {
        assert(t =~= Seq::<i16>::empty());
        assert(strip_silence(t) =~= Seq::<i16>::empty());
    } else {
        // the trailing quiet run cannot reach the loud sample at `lq`
        if s.len() - tq <= lq {
            assert(!is_loud(s[lq]));
            assert(false);
        }
        assert(t.len() == s.len() - tq - lq >= 1);
        assert(t[0] == s[lq]);
        assert(is_loud(t[0]));
        assert(leading_quiet(t) == 0);
        assert(t.last() == s[s.len() - 1 - tq]);
        assert(is_loud(t.last()));
        assert(trailing_quiet(t) == 0);
        assert(strip_silence(t) =~= t);
    }
}

/// Trimming is idempotent: a second trim of an already-trimmed signal returns
/// it unchanged, whether the first trim was skipped for size or performed.
pub proof fn lemma_trim_idempotent(s: Seq<i16>)
    ensures
        trim_spec(trim_spec(s)) == trim_spec(s),
{
    if 2 * s.len() >= MIN_AUDIO_BYTES {
        let t = strip_silence(s);
        if 2 * t.len() >= MIN_AUDIO_BYTES {
            lemma_strip_silence_fixed(s);
        }
    }
}

fn is_loud_sample(s: i16) -> (r: bool)
    ensures
        r == is_loud(s),
{
    s >= AMP_THRESHOLD || s <= -AMP_THRESHOLD
}

fn copy_range(v: &Vec<i16>, from: usize, to: usize) -> (r: Vec<i16>)
    requires
        from <= to <= v@.len(),
    ensures
        r@ == v@.subrange(from as int, to as int),
{
    let mut r: Vec<i16> = Vec::new();
    let mut q = from;
    while q < to
        invariant
            from <= q <= to <= v@.len(),
            r@ == v@.subrange(from as int, q as int),
        decreases to - q,
    {
        r.push(v[q]);
        proof {
            assert(v@.subrange(from as int, q + 1) =~= v@.subrange(from as int, q as int).push(
                v@[q as int],
            ));
        }
        q += 1;
    }
    proof {
        assert(r@ =~= v@.subrange(from as int, to as int));
    }
    r
}

/// The trim transform on an in-memory signal: the verified model of what the
/// external tool's forward and reversed silence passes do to the audio.
pub fn trim(samples: &Vec<i16>) -> (r: Vec<i16>)
    ensures
        r@ == trim_spec(samples@),
{
    let n = samples.len();
    if n < 250 {
        proof {
            assert(samples@.subrange(0, n as int) =~= samples@);
        }
        return copy_range(samples, 0, n);
    }
    let mut a: usize = 0;
    loop
        invariant
            a <= n,
            n == samples@.len(),
            forall|j: int| 0 <= j < a ==> !is_loud(#[trigger] samples@[j]),
        ensures
            a <= n,
            forall|j: int| 0 <= j < a ==> !is_loud(#[trigger] samples@[j]),
            a == n || is_loud(samples@[a as int]),
        decreases n - a,
    {
        if a >= n {
            break ;
        }
        if is_loud_sample(samples[a]) {
            break ;
        }
        a += 1;
    }
    proof {
        lemma_leading_quiet_character(samples@);
        let lq = leading_quiet(samples@) as int;
        if a < lq {
            assert(!is_loud(samples@[a as int]));
            assert(false);
        }
        if lq < a {
            assert(!is_loud(samples@[lq]));
            assert(false);
        }
    }
    if a == n {
        proof {
            assert(strip_silence(samples@) =~= Seq::<i16>::empty());
        }
        return Vec::new();
    }
    let mut b: usize = n;
    loop
        invariant
            a < b <= n,
            n == samples@.len(),
            is_loud(samples@[a as int]),
            forall|k: int| b <= k < n ==> !is_loud(#[trigger] samples@[k]),
        ensures
            a < b <= n,
            forall|k: int| b <= k < n ==> !is_loud(#[trigger] samples@[k]),
            is_loud(samples@[b - 1]),
        decreases b,
    {
        if b == a + 1 {
            break ;
        }
        if is_loud_sample(samples[b - 1]) {
            break ;
        }
        b -= 1;
    }
    proof {
        lemma_trailing_quiet_character(samples@);
        let tq = trailing_quiet(samples@) as int;
        if n - tq < b {
            assert(!is_loud(samples@[b - 1]));
            assert(false);
        }
        if b < n - tq {
            assert(!is_loud(samples@[n - 1 - tq]));
            assert(false);
        }
    }
    copy_range(samples, a, b)
}

/// The argument sequence of one external trim invocation, exactly as the tool
/// expects it: input, output, then a silence pass, a reversal, a second
/// silence pass and a second reversal, each pass stripping what lies below the
/// one-percent amplitude threshold after at least a tenth of a second of
/// silence.
pub fn trim_tool_args(input: &str, output: &str) -> (r: Vec<String>)
    ensures
        r@.len() == 12,
        r@[0]@ == input@,
        r@[1]@ == output@,
        r@[2]@ == "silence"@,
        r@[3]@ == "1"@,
        r@[4]@ == "0.1"@,
        r@[5]@ == "1%"@,
        r@[6]@ == "reverse"@,
        r@[7]@ == "silence"@,
        r@[8]@ == "1"@,
        r@[9]@ == "0.1"@,
        r@[10]@ == "1%"@,
        r@[11]@ == "reverse"@,
{
    let mut v: Vec<String> = Vec::new();
    v.push(String::from_str(input));
    v.push(String::from_str(output));
    v.push(String::from_str("silence"));
    v.push(String::from_str("1"));
    v.push(String::from_str("0.1"));
    v.push(String::from_str("1%"));
    v.push(String::from_str("reverse"));
    v.push(String::from_str("silence"));
    v.push(String::from_str("1"));
    v.push(String::from_str("0.1"));
    v.push(String::from_str("1%"));
    v.push(String::from_str("reverse"));
    v
}

} // verus!
