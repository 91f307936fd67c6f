//! Deterministic output names for one session.
//!
//! Both artifact paths are derived from the session's start time at
//! whole-second resolution: `{unix_seconds}_audio.mp3` and
//! `{unix_seconds}_screenshot.png` under the configured output directory, plus
//! a temporary name used while the trimmed audio is being written.  Sessions
//! started at different whole seconds therefore never share a path; two
//! sessions started within the same second collide, a documented limitation of
//! the naming scheme.

use vstd::prelude::*;

verus! {

/// The decimal digits of `n`, most significant first, as ASCII bytes.
pub open spec fn decimal_bytes(n: nat) -> Seq<u8>
    decreases n,
{
    if n < 10 {
        seq![(48 + n) as u8]
    } else {
        decimal_bytes(n / 10).push((48 + n % 10) as u8)
    }
}

/// The decimal digits of `n` as characters.
pub open spec fn decimal_chars(n: nat) -> Seq<char> {
    decimal_bytes(n).map_values(|b: u8| b as char)
}

/// The numeric value of one ASCII digit.
pub open spec fn digit_value(b: u8) -> nat {
    (b - 48) as nat
}

/// The number denoted by a sequence of ASCII digits, most significant first.
pub open spec fn digits_value(s: Seq<u8>) -> nat
    decreases s.len(),
{
    if s.len() == 0 {
        0
    } else {
        digits_value(s.drop_last()) * 10 + digit_value(s.last())
    }
}

pub proof fn lemma_decimal_bytes_are_digits(n: nat)
    ensures
        decimal_bytes(n).len() >= 1,
        forall|i: int|
            0 <= i < decimal_bytes(n).len() ==> 48 <= #[trigger] decimal_bytes(n)[i] <= 57,
    decreases n,
{
    if n >= 10 {
        lemma_decimal_bytes_are_digits(n / 10);
    }
}

/// Rendering a number and reading the digits back returns the number.
pub proof fn lemma_decimal_bytes_value(n: nat)
    ensures
        digits_value(decimal_bytes(n)) == n,
    decreases n,
{
    if n < 10 {
        assert(decimal_bytes(n).drop_last() =~= Seq::<u8>::empty());
        assert(decimal_bytes(n).last() == (48 + n) as u8);
        assert(digit_value((48 + n) as u8) == n);
        assert(digits_value(decimal_bytes(n)) == digits_value(
            decimal_bytes(n).drop_last(),
        ) * 10 + digit_value(decimal_bytes(n).last()));
    } else {
        lemma_decimal_bytes_value(n / 10);
        assert(decimal_bytes(n).drop_last() =~= decimal_bytes(n / 10));
        assert(decimal_bytes(n).last() == (48 + n % 10) as u8);
        assert(digit_value((48 + n % 10) as u8) == n % 10);
        assert(digits_value(decimal_bytes(n)) == (n / 10) * 10 + n % 10);
        assert((n / 10) * 10 + n % 10 == n) by {
            vstd::arithmetic::div_mod::lemma_fundamental_div_mod(n as int, 10);
        }
    }
}

/// Distinct numbers render to distinct digit strings.
pub proof fn lemma_decimal_bytes_injective(a: nat, b: nat)
    requires
        decimal_bytes(a) == decimal_bytes(b),
    ensures
        a == b,
{
    lemma_decimal_bytes_value(a);
    lemma_decimal_bytes_value(b);
}

/// Relies on `String::from_utf8`: bytes below 0x80 are valid UTF-8 and decode
/// to the characters with the same scalar values, one character per byte.
#[verifier::external_body]
pub(crate) fn ascii_to_string(bytes: Vec<u8>) -> (r: String)
    requires
        forall|i: int| 0 <= i < bytes@.len() ==> bytes@[i] < 128,
    ensures
        r@.len() == bytes@.len(),
        forall|i: int| 0 <= i < bytes@.len() ==> r@[i] == (#[trigger] bytes@[i]) as char,
{
    String::from_utf8(bytes).unwrap()
}

fn push_decimal_digits(n: u64, out: &mut Vec<u8>)
    ensures
        final(out)@ == old(out)@ + decimal_bytes(n as nat),
    decreases n,
{
    if n < 10 {
        out.push(48 + n as u8);
        assert(out@ =~= old(out)@ + decimal_bytes(n as nat));
    } else {
        push_decimal_digits(n / 10, out);
        out.push(48 + (n % 10) as u8);
        assert(out@ =~= old(out)@ + decimal_bytes(n as nat));
    }
}

/// The decimal rendering of `n`, most significant digit first.
pub fn u64_to_decimal(n: u64) -> (r: String)
    ensures
        r@ == decimal_chars(n as nat),
{
    let mut digits: Vec<u8> = Vec::new();
    push_decimal_digits(n, &mut digits);
    proof {
        lemma_decimal_bytes_are_digits(n as nat);
        assert(digits@ =~= decimal_bytes(n as nat));
    }
    let r = ascii_to_string(digits);
    proof {
        assert(r@ =~= decimal_chars(n as nat));
    }
    r
}

pub proof fn lemma_decimal_chars_injective(a: nat, b: nat)
    requires
        decimal_chars(a) == decimal_chars(b),
    ensures
        a == b,
{
    lemma_decimal_bytes_are_digits(a);
    lemma_decimal_bytes_are_digits(b);
    assert(decimal_chars(a).len() == decimal_bytes(a).len());
    assert(decimal_chars(b).len() == decimal_bytes(b).len());
    assert(decimal_bytes(a).len() == decimal_bytes(b).len());
    assert forall|i: int| 0 <= i < decimal_bytes(a).len() implies decimal_bytes(a)[i]
        == decimal_bytes(b)[i] by {
        assert(decimal_chars(a)[i] == decimal_chars(b)[i]);
        assert(decimal_chars(a)[i] == decimal_bytes(a)[i] as char);
        assert(decimal_chars(b)[i] == decimal_bytes(b)[i] as char);
        assert(decimal_bytes(a)[i] as char == decimal_bytes(b)[i] as char);
    }
    assert(decimal_bytes(a) =~= decimal_bytes(b));
    lemma_decimal_bytes_injective(a, b);
}

/// Name of the final audio artifact of a session started at second `t`.
pub open spec fn audio_file_name_spec(t: u64) -> Seq<char> {
    decimal_chars(t as nat) + "_audio.mp3"@
}

/// Name the trimmed audio is written to before it replaces the original.
pub open spec fn trim_temp_name_spec(t: u64) -> Seq<char> {
    decimal_chars(t as nat) + "_audio.tmp.mp3"@
}

/// Name of the screenshot artifact of a session started at second `t`.
pub open spec fn screenshot_file_name_spec(t: u64) -> Seq<char> {
    decimal_chars(t as nat) + "_screenshot.png"@
}

pub open spec fn joined_path_spec(dir: Seq<char>, name: Seq<char>) -> Seq<char> {
    dir + "/"@ + name
}

pub open spec fn session_audio_path_spec(dir: Seq<char>, t: u64) -> Seq<char> {
    joined_path_spec(dir, audio_file_name_spec(t))
}

pub open spec fn session_trim_temp_path_spec(dir: Seq<char>, t: u64) -> Seq<char> {
    joined_path_spec(dir, trim_temp_name_spec(t))
}

pub open spec fn session_screenshot_path_spec(dir: Seq<char>, t: u64) -> Seq<char> {
    joined_path_spec(dir, screenshot_file_name_spec(t))
}

pub fn audio_file_name(t: u64) -> (r: String)
    ensures
        r@ == audio_file_name_spec(t),
{
    u64_to_decimal(t).concat("_audio.mp3")
}

pub fn trim_temp_name(t: u64) -> (r: String)
    ensures
        r@ == trim_temp_name_spec(t),
{
    u64_to_decimal(t).concat("_audio.tmp.mp3")
}

pub fn screenshot_file_name(t: u64) -> (r: String)
    ensures
        r@ == screenshot_file_name_spec(t),
{
    u64_to_decimal(t).concat("_screenshot.png")
}

/// Joins a file name onto a directory with a single separator.
pub fn join_path(dir: &str, name: &str) -> (r: String)
    ensures
        r@ == joined_path_spec(dir@, name@),
{
    let mut r = String::from_str(dir);
    r.append("/");
    r.append(name);
    r
}

/// Two names that differ only in the decimal prefix before a shared suffix are
/// equal exactly when the prefixes are.
proof fn lemma_prefixed_name_eq(dir: Seq<char>, p1: Seq<char>, p2: Seq<char>, suffix: Seq<char>)
    requires
        joined_path_spec(dir, p1 + suffix) == joined_path_spec(dir, p2 + suffix),
    ensures
        p1 == p2,
{
    reveal_strlit("/");
    let full1 = joined_path_spec(dir, p1 + suffix);
    let full2 = joined_path_spec(dir, p2 + suffix);
    assert(full1.len() == dir.len() + 1 + p1.len() + suffix.len());
    assert(full2.len() == dir.len() + 1 + p2.len() + suffix.len());
    assert(p1.len() == p2.len());
    assert forall|i: int| 0 <= i < p1.len() implies p1[i] == p2[i] by {
        assert(full1[dir.len() + 1 + i] == p1[i]);
        assert(full2[dir.len() + 1 + i] == p2[i]);
    }
    assert(p1 =~= p2);
}

/// Sessions started at different whole seconds never share an artifact path;
/// sessions started within the same second collide (a documented limitation,
/// not silently repaired).  Within one session the audio path and the
/// screenshot path always differ.
pub proof fn lemma_session_paths_unique(dir: Seq<char>, t1: u64, t2: u64)
    ensures
        t1 != t2 ==> session_audio_path_spec(dir, t1) != session_audio_path_spec(dir, t2),
        t1 != t2 ==> session_screenshot_path_spec(dir, t1) != session_screenshot_path_spec(
            dir,
            t2,
        ),
        t1 == t2 ==> session_audio_path_spec(dir, t1) == session_audio_path_spec(dir, t2),
        t1 == t2 ==> session_screenshot_path_spec(dir, t1) == session_screenshot_path_spec(
            dir,
            t2,
        ),
        session_audio_path_spec(dir, t1) != session_screenshot_path_spec(dir, t2),
{
    if session_audio_path_spec(dir, t1) == session_audio_path_spec(dir, t2) {
        lemma_prefixed_name_eq(
            dir,
            decimal_chars(t1 as nat),
            decimal_chars(t2 as nat),
            "_audio.mp3"@,
        );
        lemma_decimal_chars_injective(t1 as nat, t2 as nat);
    }
    if session_screenshot_path_spec(dir, t1) == session_screenshot_path_spec(dir, t2) {
        lemma_prefixed_name_eq(
            dir,
            decimal_chars(t1 as nat),
            decimal_chars(t2 as nat),
            "_screenshot.png"@,
        );
        lemma_decimal_chars_injective(t1 as nat, t2 as nat);
    }
    if session_audio_path_spec(dir, t1) == session_screenshot_path_spec(dir, t2) {
        reveal_strlit("/");
        reveal_strlit("_audio.mp3");
        reveal_strlit("_screenshot.png");
        let a = session_audio_path_spec(dir, t1);
        let s = session_screenshot_path_spec(dir, t2);
        lemma_decimal_bytes_are_digits(t1 as nat);
        lemma_decimal_bytes_are_digits(t2 as nat);
        let n1 = decimal_chars(t1 as nat).len() as int;
        let n2 = decimal_chars(t2 as nat).len() as int;
        if n1 == n2 {
            assert(a.len() != s.len());
        } else if n1 < n2 {
            // where the audio name shows '.', the screenshot name still shows a digit
            let i = dir.len() as int + 1 + n1 + 6;
            assert(a[i] == '.');
            if i < dir.len() as int + 1 + n2 {
                let b = decimal_bytes(t2 as nat)[i - dir.len() as int - 1];
                assert(s[i] == b as char);
                assert(48 <= b <= 57);
                assert(b as char != '.') by {
                    assert((b as char) as u32 == b as u32);
                    assert(('.' as u32) == 46);
                }
            } else {
                assert(s[i] == "_screenshot.png"@[i - dir.len() as int - 1 - n2]);
            }
        } else {
            assert(a.len() == dir.len() + 1 + n1 + 10);
            assert(s.len() == dir.len() + 1 + n2 + 15);
            if a.len() == s.len() {
                // n1 == n2 + 5: where the screenshot name has '_' the audio name has a digit
                let i = dir.len() as int + 1 + n2;
                assert(s[i] == '_');
                let b = decimal_bytes(t1 as nat)[i - dir.len() as int - 1];
                assert(a[i] == b as char);
                assert(48 <= b <= 57);
                assert(b as char != '_') by {
                    assert((b as char) as u32 == b as u32);
                    assert(('_' as u32) == 95);
                }
            }
        }
    }
}

} // verus!
