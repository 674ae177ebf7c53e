//! The volume of an audio device: reading `wpctl get-volume` and choosing
//! how the volume is shown. The volume itself is a floating-point number;
//! the library finds its text, and the caller converts it.
use vstd::prelude::*;

use crate::cli::VolumeStatusArgs;
use crate::text::{
    all_digits, ascii_lower, chars_of, is_digit, same_chars, split_words, string_of,
    strings_from, texts, to_ascii_lower, word_list,
};

verus! {

/// The number of leading decimal digits of `s`.
pub open spec fn lead_digits(s: Seq<char>) -> nat
    decreases s.len(),
{
    if s.len() > 0 && is_digit(s[0]) {
        1 + lead_digits(s.drop_first())
    } else {
        0
    }
}

/// The length of an optional leading sign of `s`.
pub open spec fn sign_len(s: Seq<char>) -> int {
    if s.len() > 0 && (s[0] == '+' || s[0] == '-') {
        1
    } else {
        0
    }
}

/// `e` is an exponent: `'e'` or `'E'`, an optional sign, at least one digit.
pub open spec fn is_exponent(e: Seq<char>) -> bool {
    e.len() >= 2 && (e[0] == 'e' || e[0] == 'E') && ({
        let t = e.skip(1 + sign_len(e.skip(1)));
        t.len() >= 1 && all_digits(t)
    })
}

/// `b` is a decimal number: digits, optionally a point and more digits, at
/// least one digit in all, then optionally an exponent.
pub open spec fn is_number(b: Seq<char>) -> bool {
    let i = lead_digits(b);
    let frac: nat = if i < b.len() && b[i as int] == '.' {
        lead_digits(b.skip(i as int + 1))
    } else {
        0
    };
    let j: int = if i < b.len() && b[i as int] == '.' {
        (i + 1 + frac) as int
    } else {
        i as int
    };
    i + frac >= 1 && (j == b.len() || is_exponent(b.skip(j)))
}

/// `s` is text that std's `f32::from_str` accepts: an optional sign, then
/// `inf`, `infinity`, `nan` (in any ASCII case) or a decimal number.
pub open spec fn is_float_text(s: Seq<char>) -> bool {
    let b = s.skip(sign_len(s));
    let l = ascii_lower(b);
    l == "inf"@ || l == "infinity"@ || l == "nan"@ || is_number(b)
}

/// The count of leading digits of `v[lo..]`.
fn count_digits(v: &[char], lo: usize) -> (n: usize)
    requires
        lo <= v.len(),
    ensures
        n == lead_digits(v@.skip(lo as int)),
        lo + n <= v.len(),
{
    let mut i = lo;
    while i < v.len() && 48 <= v[i] as u32 && v[i] as u32 <= 57
        invariant
            lo <= i <= v.len(),
            lead_digits(v@.skip(lo as int)) == (i - lo) + lead_digits(v@.skip(i as int)),
        decreases v.len() - i,
    {
        assert(v@.skip(i as int)[0] == v@[i as int]);
        assert(v@.skip(i as int).drop_first() == v@.skip(i + 1));
        i = i + 1;
    }
    if i < v.len() {
        assert(v@.skip(i as int)[0] == v@[i as int]);
    }
    i - lo
}

/// Whether `v[lo..]` is an exponent.
fn exponent_at(v: &[char], lo: usize) -> (r: bool)
    requires
        lo <= v.len(),
    ensures
        r == is_exponent(v@.skip(lo as int)),
{
    let ghost e = v@.skip(lo as int);
    if v.len() - lo < 2 || !(v[lo] == 'e' || v[lo] == 'E') {
        return false;
    }
    assert(e[0] == v@[lo as int]);
    let mut k = lo + 1;
    assert(e.skip(1) == v@.skip(lo + 1));
    if v[k] == '+' || v[k] == '-' {
        k = k + 1;
    }
    assert(e.skip(1 + sign_len(e.skip(1))) == v@.skip(k as int));
    let n = count_digits(v, k);
    proof {
        lemma_lead_digits_all(v@.skip(k as int));
    }
    n >= 1 && k + n == v.len()
}

/// All of `s` is digits exactly when its leading digits are all of it.
pub proof fn lemma_lead_digits_all(s: Seq<char>)
    ensures
        lead_digits(s) <= s.len(),
        all_digits(s) <==> lead_digits(s) == s.len(),
    decreases s.len(),
{
    if s.len() > 0 {
        lemma_lead_digits_all(s.drop_first());
        if all_digits(s) {
            assert(all_digits(s.drop_first())) by {
                assert forall|i: int| 0 <= i < s.drop_first().len() implies is_digit(
                    #[trigger] s.drop_first()[i],
                ) by {
                    assert(s.drop_first()[i] == s[i + 1]);
                }
            }
        }
        if lead_digits(s) == s.len() {
            assert forall|i: int| 0 <= i < s.len() implies is_digit(#[trigger] s[i]) by {
                if i > 0 {
                    assert(s[i] == s.drop_first()[i - 1]);
                }
            }
        }
    }
}

/// Whether the characters `v` are exactly those of `lit`.
fn is_text(v: &[char], lit: &str) -> (r: bool)
    ensures
        r == (v@ == lit@),
{
    let l = chars_of(lit);
    same_chars(v, l.as_slice())
}

/// Whether `v` is text that `f32::from_str` accepts (see `is_float_text`).
pub fn is_float(v: &[char]) -> (r: bool)
    ensures
        r == is_float_text(v@),
{
    let s: usize = if v.len() > 0 && (v[0] == '+' || v[0] == '-') { 1 } else { 0 };
    let ghost b = v@.skip(s as int);
    let rest = crate::text::copy_range(v, s, v.len());
    assert(rest@ == b);
    let l = to_ascii_lower(rest.as_slice());
    if is_text(l.as_slice(), "inf") || is_text(l.as_slice(), "infinity") || is_text(
        l.as_slice(),
        "nan",
    ) {
        return true;
    }
    let i = count_digits(v, s);
    assert(v@.skip(s as int) == b.skip(0));
    assert(b.skip(0) == b);
    let mut j = s + i;
    let mut frac: usize = 0;
    if j < v.len() && v[j] == '.' {
        assert(b[i as int] == v@[j as int]);
        frac = count_digits(v, j + 1);
        assert(v@.skip(j + 1) == b.skip(i + 1));
        j = j + 1 + frac;
    } else {
        proof {
            if i < b.len() {
                assert(b[i as int] == v@[j as int]);
            }
        }
    }
    if i + frac < 1 {
        return false;
    }
    if j == v.len() {
        return true;
    }
    assert(v@.skip(j as int) == b.skip(j - s));
    exponent_at(v, j)
}

/// The first word of `ws` that is float text.
pub open spec fn first_float(ws: Seq<Seq<char>>) -> Option<Seq<char>>
    decreases ws.len(),
{
    if ws.len() == 0 {
        None
    } else if is_float_text(ws[0]) {
        Some(ws[0])
    } else {
        first_float(ws.drop_first())
    }
}

/// What went wrong in reading the volume.
#[derive(Debug, Clone, Copy, PartialEq, Eq, Structural)]
pub enum VolumeError {
    /// No word of the `wpctl` output is a number.
    MissingVolume,
}

impl VolumeError {
    /// The message that reports the error.
    pub fn message(&self) -> (m: String)
        ensures
            m@ == "volume value not found"@,
    {
        "volume value not found".to_owned()
    }
}

/// The volume and mute state in the output of `wpctl get-volume`: the first
/// whitespace-separated word that is a number (as its text, which
/// `f32::from_str` accepts), and whether some word is `"[MUTED]"`; an error
/// when no word is a number.
pub fn parse_status(output: &str) -> (r: Result<(String, bool), VolumeError>)
    ensures
        match first_float(word_list(output@)) {
            Some(w) => r matches Ok((t, muted)) && t@ == w && muted == word_list(output@).contains(
                "[MUTED]"@,
            ),
            None => r == Err::<(String, bool), VolumeError>(VolumeError::MissingVolume),
        },
{
    let v = chars_of(output);
    let ws = split_words(v.as_slice());
    let ghost all = crate::text::views(ws@);
    let mut found: Option<usize> = None;
    let mut muted = false;
    let mut i: usize = 0;
    assert(all.skip(0) == all);
    while i < ws.len()
        invariant
            0 <= i <= ws.len(),
            all == crate::text::views(ws@),
            all == word_list(output@),
            match found {
                Some(k) => k < i && first_float(all) == Some(all[k as int]),
                None => first_float(all.skip(i as int)) == first_float(all),
            },
            muted == all.take(i as int).contains("[MUTED]"@),
        decreases ws.len() - i,
    {
        let w = ws[i].as_slice();
        assert(all[i as int] == w@);
        if found.is_none() {
            assert(all.skip(i as int)[0] == all[i as int]);
            if is_float(w) {
                found = Some(i);
            } else {
                assert(all.skip(i as int).drop_first() == all.skip(i + 1));
            }
        }
        let is_mute = is_text(w, "[MUTED]");
        proof {
            let pre = all.take(i as int);
            let post = all.take(i + 1);
            assert(post == pre.push(all[i as int]));
            if pre.contains("[MUTED]"@) {
                let k = choose|k: int| 0 <= k < pre.len() && pre[k] == "[MUTED]"@;
                assert(post[k] == pre[k]);
            }
            if post.contains("[MUTED]"@) && !is_mute {
                let k = choose|k: int| 0 <= k < post.len() && post[k] == "[MUTED]"@;
                assert(pre[k] == post[k]);
            }
            if is_mute {
                assert(post[i as int] == "[MUTED]"@);
            }
        }
        muted = muted || is_mute;
        i = i + 1;
    }
    assert(all.take(ws.len() as int) == all);
    match found {
        Some(k) => Ok((string_of(ws[k].as_slice()), muted)),
        None => {
            assert(all.skip(ws.len() as int) =~= Seq::<Seq<char>>::empty());
            Err(VolumeError::MissingVolume)
        },
    }
}

/// How the volume status is shown.
#[derive(Debug, Clone, Copy, PartialEq, Eq, Structural)]
pub enum VolumeFormat {
    Json,
    Value,
    Percent,
    Plain,
}

/// The format that the options ask for: JSON, then the raw value, then the
/// percentage, else the plain line.
pub fn status_format(args: &VolumeStatusArgs) -> (r: VolumeFormat)
    ensures
        r == if args.json {
            VolumeFormat::Json
        } else if args.value {
            VolumeFormat::Value
        } else if args.percent {
            VolumeFormat::Percent
        } else {
            VolumeFormat::Plain
        },
{
    if args.json {
        VolumeFormat::Json
    } else if args.value {
        VolumeFormat::Value
    } else if args.percent {
        VolumeFormat::Percent
    } else {
        VolumeFormat::Plain
    }
}

/// The `wpctl` arguments that read the volume of `device`.
pub fn get_volume_args(device: &str) -> (r: Vec<String>)
    ensures
        texts(r@) == seq!["get-volume"@, device@],
{
    let r = strings_from(&["get-volume", device]);
    assert(texts(r@) =~= seq!["get-volume"@, device@]);
    r
}

/// The volume value of a relative change: the amount's text followed by
/// `'+'` to increase or `'-'` to decrease.
pub fn step_value(amount: &str, increase: bool) -> (r: String)
    ensures
        r@ == amount@ + (if increase { "+"@ } else { "-"@ }),
{
    let mut r = amount.to_owned();
    r.append(if increase { "+" } else { "-" });
    r
}

/// The `wpctl` arguments that set the volume of `device` to `value`.
pub fn set_volume_args(device: &str, value: &str) -> (r: Vec<String>)
    ensures
        texts(r@) == seq!["set-volume"@, device@, value@],
{
    let r = strings_from(&["set-volume", device, value]);
    assert(texts(r@) =~= seq!["set-volume"@, device@, value@]);
    r
}

/// A change of the mute state.
#[derive(Debug, Clone, Copy, PartialEq, Eq, Structural)]
pub enum MuteChange {
    Mute,
    Unmute,
    Toggle,
}

/// The `wpctl set-mute` value of a change: `"1"`, `"0"` or `"toggle"`.
pub fn mute_value(change: MuteChange) -> (r: &'static str)
    ensures
        r@ == match change {
            MuteChange::Mute => "1"@,
            MuteChange::Unmute => "0"@,
            MuteChange::Toggle => "toggle"@,
        },
{
    match change {
        MuteChange::Mute => "1",
        MuteChange::Unmute => "0",
        MuteChange::Toggle => "toggle",
    }
}

/// The `wpctl` arguments that set the mute state of `device` to `value`.
pub fn set_mute_args(device: &str, value: &str) -> (r: Vec<String>)
    ensures
        texts(r@) == seq!["set-mute"@, device@, value@],
{
    let r = strings_from(&["set-mute", device, value]);
    assert(texts(r@) =~= seq!["set-mute"@, device@, value@]);
    r
}

/// The line that reports a change: `"Volume updated: <device> <value>"`, or
/// `"Mute updated: ..."` for the mute state.
pub fn update_message(mute: bool, device: &str, value: &str) -> (r: String)
    ensures
        r@ == (if mute { "Mute updated: "@ } else { "Volume updated: "@ }) + device@ + " "@
            + value@,
{
    let mut r = if mute {
        "Mute updated: ".to_owned()
    } else {
        "Volume updated: ".to_owned()
    };
    r.append(device);
    r.append(" ");
    r.append(value);
    r
}

} // verus!
