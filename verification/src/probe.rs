//! Duration probing: the size threshold below which a file counts as empty,
//! and the parsing of the probe tool's output.
//!
//! The external probe prints the playback duration as one decimal number of
//! seconds, optionally surrounded by ASCII whitespace: digits, or digits
//! followed by `.` and further digits.  The parser accepts exactly that form,
//! keeps the first nine fractional digits (nanosecond resolution; anything
//! finer is discarded), and rejects values whose whole seconds do not fit in
//! `u64`.  A parse or invocation failure is a hard error for the session:
//! there is no sensible fallback duration for a non-trivial file.

use vstd::prelude::*;

use crate::MIN_AUDIO_BYTES;
use crate::duration::AudioDuration;
use crate::naming::{digit_value, digits_value};

verus! {

pub open spec fn is_digit(b: u8) -> bool {
    48 <= b <= 57
}

pub open spec fn is_space(b: u8) -> bool {
    b == 32 || b == 9 || b == 10 || b == 13
}

pub open spec fn all_digits(s: Seq<u8>) -> bool {
    forall|i: int| 0 <= i < s.len() ==> is_digit(#[trigger] s[i])
}

/// Length of the leading run of whitespace.
pub open spec fn ws_prefix(s: Seq<u8>) -> nat
    decreases s.len(),
{
    if s.len() == 0 || !is_space(s[0]) {
        0
    } else {
        1 + ws_prefix(s.drop_first())
    }
}

/// Length of the trailing run of whitespace.
pub open spec fn ws_suffix(s: Seq<u8>) -> nat
    decreases s.len(),
{
    if s.len() == 0 || !is_space(s.last()) {
        0
    } else {
        1 + ws_suffix(s.drop_last())
    }
}

/// Length of the prefix that precedes the first `.`, or the whole length.
pub open spec fn until_dot(s: Seq<u8>) -> nat
    decreases s.len(),
{
    if s.len() == 0 || s[0] == 46 {
        0
    } else {
        1 + until_dot(s.drop_first())
    }
}

pub proof fn lemma_ws_prefix_character(s: Seq<u8>)
    ensures
        ws_prefix(s) <= s.len(),
        forall|j: int| 0 <= j < ws_prefix(s) ==> is_space(#[trigger] s[j]),
        ws_prefix(s) < s.len() ==> !is_space(s[ws_prefix(s) as int]),
    decreases s.len(),
{
    if s.len() > 0 && is_space(s[0]) {
        lemma_ws_prefix_character(s.drop_first());
        assert forall|j: int| 0 <= j < ws_prefix(s) implies is_space(#[trigger] s[j]) by {
            if j > 0 {
                assert(s.drop_first()[j - 1] == s[j]);
            }
        }
        if ws_prefix(s) < s.len() {
            assert(s.drop_first()[ws_prefix(s) - 1] == s[ws_prefix(s) as int]);
        }
    }
}

pub proof fn lemma_ws_suffix_character(s: Seq<u8>)
    ensures
        ws_suffix(s) <= s.len(),
        forall|j: int| s.len() - ws_suffix(s) <= j < s.len() ==> is_space(#[trigger] s[j]),
        ws_suffix(s) < s.len() ==> !is_space(s[s.len() - 1 - ws_suffix(s)]),
    decreases s.len(),
{
    if s.len() > 0 && is_space(s.last()) {
        lemma_ws_suffix_character(s.drop_last());
        assert forall|j: int| s.len() - ws_suffix(s) <= j < s.len() implies is_space(
            #[trigger] s[j],
        ) by {
            if j < s.len() - 1 {
                assert(s.drop_last()[j] == s[j]);
            }
        }
        if ws_suffix(s) < s.len() {
            assert(s.drop_last()[s.len() - 2 - (ws_suffix(s) - 1)] == s[s.len() - 1 - ws_suffix(
                s,
            )]);
        }
    }
}

pub proof fn lemma_until_dot_character(s: Seq<u8>)
    ensures
        until_dot(s) <= s.len(),
        forall|j: int| 0 <= j < until_dot(s) ==> #[trigger] s[j] != 46,
        until_dot(s) < s.len() ==> s[until_dot(s) as int] == 46,
    decreases s.len(),
{
    if s.len() > 0 && s[0] != 46 {
        lemma_until_dot_character(s.drop_first());
        assert forall|j: int| 0 <= j < until_dot(s) implies #[trigger] s[j] != 46 by {
            if j > 0 {
                assert(s.drop_first()[j - 1] == s[j]);
            }
        }
        if until_dot(s) < s.len() {
            assert(s.drop_first()[until_dot(s) - 1] == s[until_dot(s) as int]);
        }
    }
}

/// The probe output with leading and trailing whitespace removed.
pub open spec fn content_spec(s: Seq<u8>) -> Seq<u8> {
    if ws_prefix(s) == s.len() {
        Seq::empty()
    } else {
        s.subrange(ws_prefix(s) as int, s.len() - ws_suffix(s))
    }
}

pub open spec fn pow10(k: nat) -> nat
    decreases k,
{
    if k == 0 {
        1
    } else {
        10 * pow10((k - 1) as nat)
    }
}

pub proof fn lemma_pow10_pos(k: nat)
    ensures
        pow10(k) >= 1,
    decreases k,
{
    if k > 0 {
        lemma_pow10_pos((k - 1) as nat);
    }
}

/// A string of `k` digits denotes a value below `10^k`.
pub proof fn lemma_digits_value_bound(s: Seq<u8>)
    requires
        all_digits(s),
    ensures
        digits_value(s) < pow10(s.len()),
    decreases s.len(),
{
    if s.len() > 0 {
        assert(all_digits(s.drop_last())) by {
            assert(forall|i: int|
                0 <= i < s.len() - 1 ==> #[trigger] s.drop_last()[i] == s[i]);
        }
        lemma_digits_value_bound(s.drop_last());
        assert(digit_value(s.last()) <= 9);
    }
}

/// The value of a digit string is at least the value of any of its prefixes,
/// scaled by the weight of the positions that follow.
pub proof fn lemma_digits_value_prefix(s: Seq<u8>, m: int)
    requires
        0 <= m <= s.len(),
    ensures
        digits_value(s) >= digits_value(s.subrange(0, m)) * pow10((s.len() - m) as nat),
    decreases s.len() - m,
{
    if m == s.len() {
        assert(s.subrange(0, m) =~= s);
        assert(pow10((s.len() - m) as nat) == 1);
        assert(digits_value(s) >= digits_value(s.subrange(0, m)) * 1);
    } else {
        lemma_digits_value_prefix(s, m + 1);
        assert(s.subrange(0, m + 1).drop_last() =~= s.subrange(0, m));
        let p = digits_value(s.subrange(0, m));
        let q = digits_value(s.subrange(0, m + 1));
        assert(q == p * 10 + digit_value(s.subrange(0, m + 1).last()));
        let w = pow10((s.len() - m - 1) as nat);
        lemma_pow10_pos((s.len() - m - 1) as nat);
        assert(digits_value(s) >= q * w);
        assert(q * w >= p * (10 * w)) by (nonlinear_arith)
            requires
                q >= p * 10,
                w >= 1,
                p >= 0,
        ;
        assert(pow10((s.len() - m) as nat) == 10 * w);
        assert(digits_value(s) >= p * pow10((s.len() - m) as nat));
    }
}

/// Nanoseconds denoted by the fractional digits: the first nine digits,
/// right-padded with zeros to nine places.
pub open spec fn frac_nanos_spec(frac: Seq<u8>) -> nat {
    if frac.len() <= 9 {
        digits_value(frac) * pow10((9 - frac.len()) as nat)
    } else {
        digits_value(frac.subrange(0, 9))
    }
}

pub proof fn lemma_frac_nanos_bound(frac: Seq<u8>)
    requires
        all_digits(frac),
    ensures
        frac_nanos_spec(frac) < 1_000_000_000,
{
    assert(pow10(9) == 1_000_000_000) by {
        reveal_with_fuel(pow10, 10);
    }
    if frac.len() <= 9 {
        lemma_digits_value_bound(frac);
        let v = digits_value(frac);
        let k = frac.len();
        let w = pow10((9 - k) as nat);
        lemma_pow10_pos((9 - k) as nat);
        assert(v < pow10(k));
        assert(v * w <= pow10(k) * w - w) by (nonlinear_arith)
            requires
                v < pow10(k),
                w >= 1,
        ;
        assert(pow10(k) * w == pow10(9)) by {
            lemma_pow10_mul(k, (9 - k) as nat);
        }
        assert(frac_nanos_spec(frac) == v * w);
        assert(v * w <= 1_000_000_000 - w);
    } else {
        let head = frac.subrange(0, 9);
        assert(all_digits(head)) by {
            assert(forall|i: int| 0 <= i < 9 ==> #[trigger] head[i] == frac[i]);
        }
        lemma_digits_value_bound(head);
    }
}

pub proof fn lemma_pow10_mul(a: nat, b: nat)
    ensures
        pow10(a) * pow10(b) == pow10(a + b),
    decreases a,
{
    if a == 0 {
        assert(pow10(0) == 1);
        assert(1 * pow10(b) == pow10(b)) by (nonlinear_arith);
    } else {
        lemma_pow10_mul((a - 1) as nat, b);
        let t = pow10((a - 1) as nat);
        assert(pow10(a) == 10 * t);
        assert((10 * t) * pow10(b) == 10 * (t * pow10(b))) by (nonlinear_arith);
        assert(t * pow10(b) == pow10((a - 1 + b) as nat));
        assert(pow10(a + b) == 10 * pow10((a + b - 1) as nat));
        assert((a - 1 + b) as nat == (a + b - 1) as nat);
    }
}

/// The number of seconds and nanoseconds denoted by a whitespace-trimmed
/// token, if it has the form `digits` or `digits '.' digits*`.
pub open spec fn parse_token_spec(c: Seq<u8>) -> Option<AudioDuration> {
    let k = until_dot(c) as int;
    let intp = c.subrange(0, k);
    let frac = if k == c.len() {
        Seq::<u8>::empty()
    } else {
        c.subrange(k + 1, c.len() as int)
    };
    if 0 < k && all_digits(intp) && all_digits(frac) && digits_value(intp) <= u64::MAX {
        Some(
            AudioDuration {
                secs: digits_value(intp) as u64,
                nanos: frac_nanos_spec(frac) as u32,
            },
        )
    } else {
        None
    }
}

/// What the probe output denotes, or `None` if it is not a decimal duration.
pub open spec fn parse_duration_spec(s: Seq<u8>) -> Option<AudioDuration> {
    parse_token_spec(content_spec(s))
}

/// The duration reported for an audio file of `size` bytes whose probe run
/// (made only for files at or above the threshold) printed `probe_out`: files
/// below the threshold count as empty and are never probed.
pub open spec fn duration_of_spec(size: u64, probe_out: Seq<u8>) -> Option<AudioDuration> {
    if size < MIN_AUDIO_BYTES {
        Some(AudioDuration { secs: 0, nanos: 0 })
    } else {
        parse_duration_spec(probe_out)
    }
}

pub proof fn lemma_pow10_mono(a: nat, b: nat)
    requires
        a <= b,
    ensures
        pow10(a) <= pow10(b),
    decreases b,
{
    if a < b {
        lemma_pow10_mono(a, (b - 1) as nat);
        lemma_pow10_pos((b - 1) as nat);
    }
}

fn is_space_byte(b: u8) -> (r: bool)
    ensures
        r == is_space(b),
{
    b == 32 || b == 9 || b == 10 || b == 13
}

fn is_digit_byte(b: u8) -> (r: bool)
    ensures
        r == is_digit(b),
{
    48 <= b && b <= 57
}

fn find_first_non_space(bytes: &[u8]) -> (i: usize)
    ensures
        i == ws_prefix(bytes@),
{
    let n = bytes.len();
    let mut i: usize = 0;
    loop
        invariant
            i <= n,
            n == bytes@.len(),
            forall|j: int| 0 <= j < i ==> is_space(#[trigger] bytes@[j]),
        ensures
            i <= n,
            forall|j: int| 0 <= j < i ==> is_space(#[trigger] bytes@[j]),
            i == n || !is_space(bytes@[i as int]),
        decreases n - i,
    {
        if i >= n {
            break ;
        }
        if !is_space_byte(bytes[i]) {
            break ;
        }
        i += 1;
    }
    proof {
        lemma_ws_prefix_character(bytes@);
        let w = ws_prefix(bytes@) as int;
        if i < w {
            assert(is_space(bytes@[i as int]));
            assert(false);
        }
        if w < i {
            assert(is_space(bytes@[w]));
            assert(false);
        }
    }
    i
}

fn find_content_end(bytes: &[u8], i: usize) -> (j: usize)
    requires
        i == ws_prefix(bytes@),
        i < bytes@.len(),
    ensures
        i < j <= bytes@.len(),
        bytes@.len() - j == ws_suffix(bytes@),
{
    let n = bytes.len();
    proof {
        lemma_ws_prefix_character(bytes@);
    }
    let mut j: usize = n;
    loop
        invariant
            i < j <= n,
            n == bytes@.len(),
            !is_space(bytes@[i as int]),
            forall|k: int| j <= k < n ==> is_space(#[trigger] bytes@[k]),
        ensures
            i < j <= n,
            n == bytes@.len(),
            forall|k: int| j <= k < n ==> is_space(#[trigger] bytes@[k]),
            !is_space(bytes@[j - 1]),
        decreases j,
    {
        if j == i + 1 {
            break ;
        }
        if !is_space_byte(bytes[j - 1]) {
            break ;
        }
        j -= 1;
    }
    proof {
        lemma_ws_suffix_character(bytes@);
        let w = ws_suffix(bytes@) as int;
        if n - w < j {
            assert(is_space(bytes@[j - 1]));
            assert(false);
        }
        if j < n - w {
            assert(is_space(bytes@[n - 1 - w]));
            assert(false);
        }
    }
    j
}

fn find_dot(bytes: &[u8], from: usize, to: usize) -> (p: usize)
    requires
        from <= to <= bytes@.len(),
    ensures
        from <= p <= to,
        p - from == until_dot(bytes@.subrange(from as int, to as int)),
{
    let mut p = from;
    loop
        invariant
            from <= p <= to,
            to <= bytes@.len(),
            forall|k: int| from <= k < p ==> #[trigger] bytes@[k] != 46,
        ensures
            from <= p <= to,
            forall|k: int| from <= k < p ==> #[trigger] bytes@[k] != 46,
            p == to || bytes@[p as int] == 46,
        decreases to - p,
    {
        if p >= to {
            break ;
        }
        if bytes[p] == 46 {
            break ;
        }
        p += 1;
    }
    proof {
        let c = bytes@.subrange(from as int, to as int);
        lemma_until_dot_character(c);
        let u = until_dot(c) as int;
        if p - from < u {
            assert(c[p - from] != 46);
            assert(c[p - from] == bytes@[p as int]);
            assert(false);
        }
        if u < p - from {
            assert(c[u] == 46);
            assert(c[u] == bytes@[from + u]);
            assert(false);
        }
    }
    p
}

fn parse_int_digits(bytes: &[u8], from: usize, to: usize) -> (r: Option<u64>)
    requires
        from <= to <= bytes@.len(),
    ensures
        ({
            let seg = bytes@.subrange(from as int, to as int);
            match r {
                Some(v) => all_digits(seg) && v == digits_value(seg),
                None => !all_digits(seg) || digits_value(seg) > u64::MAX,
            }
        }),
{
    let ghost seg = bytes@.subrange(from as int, to as int);
    let mut acc: u64 = 0;
    let mut q = from;
    loop
        invariant
            from <= q <= to,
            to <= bytes@.len(),
            seg == bytes@.subrange(from as int, to as int),
            acc == digits_value(seg.subrange(0, q - from)),
            forall|k: int| 0 <= k < q - from ==> is_digit(#[trigger] seg[k]),
        ensures
            q == to,
            acc == digits_value(seg.subrange(0, q - from)),
            forall|k: int| 0 <= k < q - from ==> is_digit(#[trigger] seg[k]),
        decreases to - q,
    {
        if q >= to {
            break ;
        }
        let b = bytes[q];
        proof {
            assert(seg[q - from] == bytes@[q as int]);
        }
        if !is_digit_byte(b) {
            proof {
                assert(!is_digit(seg[q - from]));
            }
            return None;
        }
        let ghost m = q - from;
        proof {
            assert(seg.subrange(0, m + 1).drop_last() =~= seg.subrange(0, m));
            assert(seg.subrange(0, m + 1).last() == seg[m]);
            assert(digits_value(seg.subrange(0, m + 1)) == acc * 10 + digit_value(seg[m]));
        }
        let acc10 = match acc.checked_mul(10) {
            Some(v) => v,
            None => {
                proof {
                    lemma_digits_value_prefix(seg, m + 1);
                    lemma_pow10_pos((seg.len() - m - 1) as nat);
                    let hi = digits_value(seg.subrange(0, m + 1));
                    let w = pow10((seg.len() - m - 1) as nat);
                    assert(hi * w >= hi * 1) by (nonlinear_arith)
                        requires
                            hi >= 0,
                            w >= 1,
                    ;
                    assert(digits_value(seg) > u64::MAX);
                }
                return None;
            },
        };
        let d = (b - 48) as u64;
        let acc1 = match acc10.checked_add(d) {
            Some(v) => v,
            None => {
                proof {
                    lemma_digits_value_prefix(seg, m + 1);
                    lemma_pow10_pos((seg.len() - m - 1) as nat);
                    let hi = digits_value(seg.subrange(0, m + 1));
                    let w = pow10((seg.len() - m - 1) as nat);
                    assert(hi * w >= hi * 1) by (nonlinear_arith)
                        requires
                            hi >= 0,
                            w >= 1,
                    ;
                    assert(digits_value(seg) > u64::MAX);
                }
                return None;
            },
        };
        acc = acc1;
        q += 1;
    }
    proof {
        assert(seg.subrange(0, to - from) =~= seg);
    }
    Some(acc)
}

fn pow10_u32(k: usize) -> (r: u32)
    requires
        k <= 9,
    ensures
        r == pow10(k as nat),
{
    let mut r: u32 = 1;
    let mut m: usize = 0;
    while m < k
        invariant
            m <= k <= 9,
            r == pow10(m as nat),
        decreases k - m,
    {
        proof {
            lemma_pow10_mono(m as nat, 8);
            assert(pow10(8) == 100_000_000) by {
                reveal_with_fuel(pow10, 9);
            }
        }
        r = r * 10;
        m += 1;
    }
    r
}

fn parse_frac_digits(bytes: &[u8], from: usize, to: usize) -> (r: Option<u32>)
    requires
        from <= to <= bytes@.len(),
    ensures
        ({
            let seg = bytes@.subrange(from as int, to as int);
            match r {
                Some(v) => all_digits(seg) && v == frac_nanos_spec(seg) && v < 1_000_000_000,
                None => !all_digits(seg),
            }
        }),
{
    let ghost seg = bytes@.subrange(from as int, to as int);
    let mut facc: u32 = 0;
    let mut used: usize = 0;
    let mut q = from;
    loop
        invariant
            from <= q <= to,
            to <= bytes@.len(),
            seg == bytes@.subrange(from as int, to as int),
            used == if q - from <= 9 {
                q - from
            } else {
                9int
            },
            facc == digits_value(seg.subrange(0, used as int)),
            facc < pow10(used as nat),
            forall|k: int| 0 <= k < q - from ==> is_digit(#[trigger] seg[k]),
        ensures
            q == to,
            used == if to - from <= 9 {
                to - from
            } else {
                9int
            },
            facc == digits_value(seg.subrange(0, used as int)),
            facc < pow10(used as nat),
            forall|k: int| 0 <= k < q - from ==> is_digit(#[trigger] seg[k]),
        decreases to - q,
    {
        if q >= to {
            break ;
        }
        let b = bytes[q];
        proof {
            assert(seg[q - from] == bytes@[q as int]);
        }
        if !is_digit_byte(b) {
            proof {
                assert(!is_digit(seg[q - from]));
            }
            return None;
        }
        if used < 9 {
            let ghost m = used as int;
            proof {
                assert(seg.subrange(0, m + 1).drop_last() =~= seg.subrange(0, m));
                assert(seg.subrange(0, m + 1).last() == seg[m]);
                assert(digits_value(seg.subrange(0, m + 1)) == facc * 10 + digit_value(seg[m]));
                lemma_pow10_mono(used as nat, 8);
                assert(pow10(8) == 100_000_000) by {
                    reveal_with_fuel(pow10, 9);
                }
            }
            facc = facc * 10 + (b - 48) as u32;
            used += 1;
        }
        q += 1;
    }
    if to - from <= 9 {
        let mult = pow10_u32(9 - (to - from));
        proof {
            assert(seg.subrange(0, used as int) =~= seg);
            lemma_frac_nanos_bound(seg);
            let v = digits_value(seg) as int;
            let w = pow10((9 - seg.len()) as nat) as int;
            assert(frac_nanos_spec(seg) == v * w);
        }
        Some(facc * mult)
    } else {
        proof {
            assert(frac_nanos_spec(seg) == digits_value(seg.subrange(0, 9)));
            lemma_pow10_mono(9, 9);
            assert(pow10(9) == 1_000_000_000) by {
                reveal_with_fuel(pow10, 10);
            }
        }
        Some(facc)
    }
}

/// Parses the probe tool's output: a decimal seconds value, optionally
/// surrounded by whitespace, with at most nanosecond precision retained.
pub fn parse_duration(bytes: &[u8]) -> (r: Option<AudioDuration>)
    ensures
        r == parse_duration_spec(bytes@),
        r matches Some(d) ==> d.wf(),
{
    let n = bytes.len();
    let i = find_first_non_space(bytes);
    proof {
        lemma_ws_prefix_character(bytes@);
    }
    if i == n {
        return None;
    }
    let j = find_content_end(bytes, i);
    let ghost c = content_spec(bytes@);
    proof {
        lemma_ws_prefix_character(bytes@);
        assert(c =~= bytes@.subrange(i as int, j as int));
    }
    let p = find_dot(bytes, i, j);
    proof {
        assert(until_dot(c) == p - i);
        lemma_until_dot_character(c);
    }
    if p == i {
        return None;
    }
    let ghost intp = c.subrange(0, p - i);
    proof {
        assert(intp =~= bytes@.subrange(i as int, p as int));
    }
    let secs = match parse_int_digits(bytes, i, p) {
        Some(v) => v,
        None => {
            return None;
        },
    };
    if p == j {
        proof {
            assert(until_dot(c) == c.len());
            assert(frac_nanos_spec(Seq::<u8>::empty()) == 0) by {
                assert(digits_value(Seq::<u8>::empty()) == 0);
            }
            assert(parse_token_spec(c) == Some(AudioDuration { secs, nanos: 0 }));
        }
        return Some(AudioDuration::new(secs, 0));
    }
    let ghost frac = c.subrange(p - i + 1, c.len() as int);
    proof {
        assert(frac =~= bytes@.subrange(p as int + 1, j as int));
    }
    match parse_frac_digits(bytes, p + 1, j) {
        Some(nanos) => Some(AudioDuration::new(secs, nanos)),
        None => None,
    }
}

/// A file strictly below the threshold always has duration zero, whatever the
/// probe would have printed; any other file gets exactly the parsed value.
pub proof fn lemma_duration_threshold(size: u64, probe_out: Seq<u8>)
    ensures
        size < MIN_AUDIO_BYTES ==> duration_of_spec(size, probe_out) == Some(
            AudioDuration { secs: 0, nanos: 0 },
        ),
        size >= MIN_AUDIO_BYTES ==> duration_of_spec(size, probe_out) == parse_duration_spec(
            probe_out,
        ),
{
}

} // verus!
