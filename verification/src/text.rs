//! Text handling shared by the command modules: the character model of
//! `str`, whitespace, trimming, line and word splitting, decimal numbers.
use vstd::prelude::*;

verus! {

/// Appending one character to a `String` (std's `String::push`): the text
/// afterwards is the text before with the character added at its end.
pub assume_specification[ String::push ](s: &mut String, ch: char)
    ensures
        final(s)@ == old(s)@.push(ch),
;

/// The characters of `s`, in order.
pub fn chars_of(s: &str) -> (v: Vec<char>)
    ensures
        v@ == s@,
{
    let mut v: Vec<char> = Vec::new();
    for c in it: s.chars()
        invariant
            v@ == it.seq().take(it.index() as int),
    {
        v.push(c);
    }
    v
}

/// A `String` holding the characters of `v`.
pub fn string_of(v: &[char]) -> (s: String)
    ensures
        s@ == v@,
{
    let mut s = String::new();
    let mut i: usize = 0;
    while i < v.len()
        invariant
            0 <= i <= v.len(),
            s@ == v@.take(i as int),
        decreases v.len() - i,
    {
        s.push(v[i]);
        assert(v@.take(i + 1) == v@.take(i as int).push(v@[i as int]));
        i = i + 1;
    }
    assert(v@.take(v.len() as int) == v@);
    s
}

/// The characters `v[lo..hi]` as a vector of their own.
pub fn copy_range(v: &[char], lo: usize, hi: usize) -> (r: Vec<char>)
    requires
        lo <= hi <= v.len(),
    ensures
        r@ == v@.subrange(lo as int, hi as int),
{
    let mut r: Vec<char> = Vec::new();
    let mut i = lo;
    while i < hi
        invariant
            lo <= i <= hi <= v.len(),
            r@ == v@.subrange(lo as int, i as int),
        decreases hi - i,
    {
        r.push(v[i]);
        assert(v@.subrange(lo as int, i + 1) == v@.subrange(lo as int, i as int).push(v@[i as int]));
        i = i + 1;
    }
    r
}

/// Whether two character sequences are equal.
pub fn same_chars(a: &[char], b: &[char]) -> (r: bool)
    ensures
        r == (a@ == b@),
{
    if a.len() != b.len() {
        return false;
    }
    let mut i: usize = 0;
    while i < a.len()
        invariant
            a.len() == b.len(),
            0 <= i <= a.len(),
            forall|j: int| 0 <= j < i ==> a@[j] == b@[j],
        decreases a.len() - i,
    {
        if a[i] != b[i] {
            return false;
        }
        i = i + 1;
    }
    assert(a@ =~= b@);
    true
}

/// `s` begins with `p`.
pub open spec fn has_prefix(s: Seq<char>, p: Seq<char>) -> bool {
    p.len() <= s.len() && s.subrange(0, p.len() as int) == p
}

/// `s` ends with `p`.
pub open spec fn has_suffix(s: Seq<char>, p: Seq<char>) -> bool {
    p.len() <= s.len() && s.subrange(s.len() - p.len(), s.len() as int) == p
}

/// Whether `s` begins with `p`.
pub fn starts_with(s: &[char], p: &[char]) -> (r: bool)
    ensures
        r == has_prefix(s@, p@),
{
    if p.len() > s.len() {
        return false;
    }
    let mut i: usize = 0;
    while i < p.len()
        invariant
            p.len() <= s.len(),
            0 <= i <= p.len(),
            forall|j: int| 0 <= j < i ==> s@[j] == p@[j],
        decreases p.len() - i,
    {
        if s[i] != p[i] {
            assert(s@.subrange(0, p.len() as int)[i as int] != p@[i as int]);
            return false;
        }
        i = i + 1;
    }
    assert(s@.subrange(0, p.len() as int) =~= p@);
    true
}

/// Whether `s` ends with `p`.
pub fn ends_with(s: &[char], p: &[char]) -> (r: bool)
    ensures
        r == has_suffix(s@, p@),
{
    if p.len() > s.len() {
        return false;
    }
    let off = s.len() - p.len();
    let mut i: usize = 0;
    while i < p.len()
        invariant
            p.len() <= s.len(),
            off == s.len() - p.len(),
            0 <= i <= p.len(),
            forall|j: int| 0 <= j < i ==> s@[off + j] == p@[j],
        decreases p.len() - i,
    {
        if s[off + i] != p[i] {
            assert(s@.subrange(off as int, s.len() as int)[i as int] != p@[i as int]);
            return false;
        }
        i = i + 1;
    }
    assert(s@.subrange(off as int, s.len() as int) =~= p@);
    true
}


/// Unicode White_Space, the set that std's `char::is_whitespace` tests.
pub open spec fn is_ws(c: char) -> bool {
    let u = c as u32;
    ||| 9 <= u <= 13
    ||| u == 32
    ||| u == 0x85
    ||| u == 0xA0
    ||| u == 0x1680
    ||| 0x2000 <= u <= 0x200A
    ||| u == 0x2028
    ||| u == 0x2029
    ||| u == 0x202F
    ||| u == 0x205F
    ||| u == 0x3000
}

/// Whether `c` is Unicode whitespace.
pub fn is_whitespace(c: char) -> (r: bool)
    ensures
        r == is_ws(c),
{
    let u = c as u32;
    (9 <= u && u <= 13) || u == 32 || u == 0x85 || u == 0xA0 || u == 0x1680 || (0x2000 <= u
        && u <= 0x200A) || u == 0x2028 || u == 0x2029 || u == 0x202F || u == 0x205F || u
        == 0x3000
}

/// `s` without its leading whitespace.
pub open spec fn trim_start(s: Seq<char>) -> Seq<char>
    decreases s.len(),
{
    if s.len() > 0 && is_ws(s[0]) {
        trim_start(s.drop_first())
    } else {
        s
    }
}

/// `s` without its trailing whitespace.
pub open spec fn trim_end(s: Seq<char>) -> Seq<char>
    decreases s.len(),
{
    if s.len() > 0 && is_ws(s.last()) {
        trim_end(s.drop_last())
    } else {
        s
    }
}

/// `s` without leading and trailing whitespace (std's `str::trim`).
pub open spec fn trimmed(s: Seq<char>) -> Seq<char> {
    trim_end(trim_start(s))
}

/// The characters of `v` without leading and trailing whitespace.
pub fn trim(v: &[char]) -> (r: Vec<char>)
    ensures
        r@ == trimmed(v@),
{
    let n = v.len();
    let mut lo: usize = 0;
    assert(v@.skip(0) == v@);
    while lo < n && is_whitespace(v[lo])
        invariant
            n == v.len(),
            0 <= lo <= n,
            trim_start(v@.skip(lo as int)) == trim_start(v@),
        decreases n - lo,
    {
        assert(v@.skip(lo as int).drop_first() == v@.skip(lo + 1));
        lo = lo + 1;
    }
    assert(trim_start(v@.skip(lo as int)) == v@.skip(lo as int));
    assert(v@.skip(lo as int) == v@.subrange(lo as int, n as int));
    let mut hi: usize = n;
    while hi > lo && is_whitespace(v[hi - 1])
        invariant
            n == v.len(),
            0 <= lo <= hi <= n,
            trim_end(v@.subrange(lo as int, hi as int)) == trim_end(v@.subrange(lo as int, n as int)),
        decreases hi - lo,
    {
        assert(v@.subrange(lo as int, hi as int).drop_last() == v@.subrange(lo as int, hi - 1));
        hi = hi - 1;
    }
    assert(trim_end(v@.subrange(lo as int, hi as int)) == v@.subrange(lo as int, hi as int));
    copy_range(v, lo, hi)
}

/// Where `str::lines` has got to after reading a prefix: the lines
/// finished so far and the line being read.
pub open spec fn line_step(st: (Seq<Seq<char>>, Seq<char>), c: char) -> (Seq<Seq<char>>, Seq<char>) {
    if c == '\n' {
        (st.0.push(strip_cr(st.1)), Seq::empty())
    } else {
        (st.0, st.1.push(c))
    }
}

/// A line without the `'\r'` of a `"\r\n"` ending.
pub open spec fn strip_cr(l: Seq<char>) -> Seq<char> {
    if l.len() > 0 && l.last() == '\r' {
        l.drop_last()
    } else {
        l
    }
}

/// The state of line splitting after reading all of `s`.
pub open spec fn line_scan(s: Seq<char>) -> (Seq<Seq<char>>, Seq<char>)
    decreases s.len(),
{
    if s.len() == 0 {
        (Seq::empty(), Seq::empty())
    } else {
        line_step(line_scan(s.drop_last()), s.last())
    }
}

/// The lines of `s` as std's `str::lines` yields them: split at `'\n'`,
/// a `'\r'` before the `'\n'` removed, and no empty line after a final `'\n'`.
pub open spec fn line_list(s: Seq<char>) -> Seq<Seq<char>> {
    let st = line_scan(s);
    if st.1.len() > 0 {
        st.0.push(st.1)
    } else {
        st.0
    }
}

/// The texts held by a sequence of character vectors.
pub open spec fn views(v: Seq<Vec<char>>) -> Seq<Seq<char>> {
    v.map_values(|x: Vec<char>| x@)
}

/// Pushing a vector onto a sequence pushes its text onto the texts.
pub proof fn lemma_views_push(v: Seq<Vec<char>>, x: Vec<char>)
    ensures
        views(v.push(x)) == views(v).push(x@),
{
    assert(views(v.push(x)) =~= views(v).push(x@));
}

/// The lines of `v` (see `line_list`).
pub fn split_lines(v: &[char]) -> (r: Vec<Vec<char>>)
    ensures
        views(r@) == line_list(v@),
{
    let mut done: Vec<Vec<char>> = Vec::new();
    let mut cur: Vec<char> = Vec::new();
    let mut i: usize = 0;
    while i < v.len()
        invariant
            0 <= i <= v.len(),
            (views(done@), cur@) == line_scan(v@.take(i as int)),
        decreases v.len() - i,
    {
        assert(v@.take(i + 1).drop_last() == v@.take(i as int));
        let c = v[i];
        if c == '\n' {
            if cur.len() > 0 && cur[cur.len() - 1] == '\r' {
                cur.pop();
            }
            let line = cur;
            proof { lemma_views_push(done@, line); }
            done.push(line);
            cur = Vec::new();
        } else {
            cur.push(c);
        }
        i = i + 1;
    }
    assert(v@.take(v.len() as int) == v@);
    if cur.len() > 0 {
        proof { lemma_views_push(done@, cur); }
        done.push(cur);
    }
    done
}


/// One character of std's `str::split_whitespace`: whitespace ends the word
/// being read, if there is one; any other character extends it.
pub open spec fn word_step(st: (Seq<Seq<char>>, Seq<char>), c: char) -> (Seq<Seq<char>>, Seq<char>) {
    if is_ws(c) {
        if st.1.len() > 0 {
            (st.0.push(st.1), Seq::empty())
        } else {
            (st.0, Seq::empty())
        }
    } else {
        (st.0, st.1.push(c))
    }
}

/// The state of word splitting after reading all of `s`.
pub open spec fn word_scan(s: Seq<char>) -> (Seq<Seq<char>>, Seq<char>)
    decreases s.len(),
{
    if s.len() == 0 {
        (Seq::empty(), Seq::empty())
    } else {
        word_step(word_scan(s.drop_last()), s.last())
    }
}

/// The words of `s`: its maximal runs of non-whitespace characters, in order
/// (std's `str::split_whitespace`).
pub open spec fn word_list(s: Seq<char>) -> Seq<Seq<char>> {
    let st = word_scan(s);
    if st.1.len() > 0 {
        st.0.push(st.1)
    } else {
        st.0
    }
}

/// The words of `v` (see `word_list`).
pub fn split_words(v: &[char]) -> (r: Vec<Vec<char>>)
    ensures
        views(r@) == word_list(v@),
{
    let mut done: Vec<Vec<char>> = Vec::new();
    let mut cur: Vec<char> = Vec::new();
    let mut i: usize = 0;
    while i < v.len()
        invariant
            0 <= i <= v.len(),
            (views(done@), cur@) == word_scan(v@.take(i as int)),
        decreases v.len() - i,
    {
        assert(v@.take(i + 1).drop_last() == v@.take(i as int));
        let c = v[i];
        if is_whitespace(c) {
            if cur.len() > 0 {
                let word = cur;
                proof { lemma_views_push(done@, word); }
                done.push(word);
            }
            cur = Vec::new();
        } else {
            cur.push(c);
        }
        i = i + 1;
    }
    assert(v@.take(v.len() as int) == v@);
    if cur.len() > 0 {
        proof { lemma_views_push(done@, cur); }
        done.push(cur);
    }
    done
}

/// An ASCII decimal digit.
pub open spec fn is_digit(c: char) -> bool {
    48 <= (c as u32) <= 57
}

/// The value of the digit `c`.
pub open spec fn digit_value(c: char) -> nat {
    ((c as u32) - 48) as nat
}

/// Every character of `s` is a decimal digit.
pub open spec fn all_digits(s: Seq<char>) -> bool {
    forall|i: int| 0 <= i < s.len() ==> is_digit(#[trigger] s[i])
}

/// The number that the digits `s` write in base ten.
pub open spec fn digits_value(s: Seq<char>) -> nat
    decreases s.len(),
{
    if s.len() == 0 {
        0
    } else {
        digits_value(s.drop_last()) * 10 + digit_value(s.last())
    }
}

/// `s` without one leading `'+'`.
pub open spec fn unsigned_body(s: Seq<char>) -> Seq<char> {
    if s.len() > 0 && s[0] == '+' {
        s.drop_first()
    } else {
        s
    }
}

/// What std's `from_str` of an unsigned integer type whose largest value is
/// `max` gives for `s`: an optional `'+'`, then at least one decimal digit and
/// nothing else, with a value of at most `max`.
pub open spec fn parse_unsigned(s: Seq<char>, max: nat) -> Option<nat> {
    let d = unsigned_body(s);
    if d.len() > 0 && all_digits(d) && digits_value(d) <= max {
        Some(digits_value(d))
    } else {
        None
    }
}

/// What std's `i64::from_str` gives for `s`: an optional sign, then at
/// least one decimal digit and nothing else, with the value in `i64`'s range.
pub open spec fn parse_signed(s: Seq<char>) -> Option<int> {
    if s.len() > 0 && s[0] == '-' {
        let d = s.drop_first();
        if d.len() > 0 && all_digits(d) && digits_value(d) <= 0x8000_0000_0000_0000 {
            Some(-(digits_value(d) as int))
        } else {
            None
        }
    } else {
        match parse_unsigned(s, 0x7fff_ffff_ffff_ffff) {
            Some(n) => Some(n as int),
            None => None,
        }
    }
}

/// A longer prefix of digits has at least the value of a shorter one.
pub proof fn lemma_digits_value_grows(s: Seq<char>, i: int)
    requires
        0 <= i <= s.len(),
    ensures
        digits_value(s.take(i)) <= digits_value(s),
    decreases s.len() - i,
{
    if i < s.len() {
        lemma_digits_value_grows(s, i + 1);
        assert(s.take(i + 1).drop_last() == s.take(i));
    } else {
        assert(s.take(i) == s);
    }
}

/// The value of the digits `v[lo..]`, if every character there is a digit,
/// there is at least one, and the value is at most `max`.
fn digits_at_most(v: &[char], lo: usize, max: u64) -> (r: Option<u64>)
    requires
        lo <= v.len(),
    ensures
        ({
            let d = v@.skip(lo as int);
            match r {
                Some(n) => d.len() > 0 && all_digits(d) && digits_value(d) <= max && n
                    == digits_value(d),
                None => !(d.len() > 0 && all_digits(d) && digits_value(d) <= max),
            }
        }),
{
    let ghost d = v@.skip(lo as int);
    if lo == v.len() {
        return None;
    }
    let mut i = lo;
    let mut acc: u64 = 0;
    assert(d.take(0) =~= Seq::<char>::empty());
    while i < v.len()
        invariant
            lo <= i <= v.len(),
            d == v@.skip(lo as int),
            all_digits(d.take(i - lo)),
            acc == digits_value(d.take(i - lo)),
            acc <= max,
        decreases v.len() - i,
    {
        let c = v[i];
        assert(d[i - lo] == c);
        let u = c as u32;
        if !(48 <= u && u <= 57) {
            assert(!is_digit(d[i - lo]));
            return None;
        }
        let dv = (u - 48) as u64;
        assert(d.take(i - lo + 1).drop_last() == d.take(i - lo));
        assert(d.take(i - lo + 1).last() == c);
        if dv > max || acc > (max - dv) / 10 {
            proof {
                assert(digits_value(d.take(i - lo + 1)) == acc * 10 + dv);
                assert(acc * 10 + dv > max) by (nonlinear_arith)
                    requires dv > max || acc > (max - dv) / 10, acc >= 0;
                lemma_digits_value_grows(d, i - lo + 1);
            }
            return None;
        }
        proof {
            assert(acc * 10 + dv <= max) by (nonlinear_arith)
                requires acc <= (max - dv) / 10, dv <= max;
        }
        acc = acc * 10 + dv;
        i = i + 1;
        assert forall|j: int| 0 <= j < i - lo implies is_digit(#[trigger] d.take(i - lo)[j]) by {
            if j < i - lo - 1 {
                assert(d.take(i - lo)[j] == d.take(i - lo - 1)[j]);
            }
        }
    }
    assert(d.take(i - lo) == d);
    Some(acc)
}


/// `u64::from_str` on the characters `v` (see `parse_unsigned`).
pub fn parse_u64(v: &[char]) -> (r: Option<u64>)
    ensures
        match r {
            Some(n) => parse_unsigned(v@, u64::MAX as nat) == Some(n as nat),
            None => parse_unsigned(v@, u64::MAX as nat) is None,
        },
{
    parse_bounded(v, u64::MAX)
}

/// `u32::from_str` on the characters `v` (see `parse_unsigned`).
pub fn parse_u32(v: &[char]) -> (r: Option<u32>)
    ensures
        match r {
            Some(n) => parse_unsigned(v@, u32::MAX as nat) == Some(n as nat),
            None => parse_unsigned(v@, u32::MAX as nat) is None,
        },
{
    match parse_bounded(v, u32::MAX as u64) {
        Some(n) => Some(n as u32),
        None => None,
    }
}

/// An unsigned number of at most `max` written in `v` (see `parse_unsigned`).
fn parse_bounded(v: &[char], max: u64) -> (r: Option<u64>)
    ensures
        match r {
            Some(n) => parse_unsigned(v@, max as nat) == Some(n as nat),
            None => parse_unsigned(v@, max as nat) is None,
        },
{
    let lo: usize = if v.len() > 0 && v[0] == '+' { 1 } else { 0 };
    assert(unsigned_body(v@) == v@.skip(lo as int));
    digits_at_most(v, lo, max)
}

/// Why std's integer `from_str` refuses a text (its `IntErrorKind`).
#[derive(Debug, Clone, Copy, PartialEq, Eq, Structural)]
pub enum IntError {
    /// The text is empty.
    Empty,
    /// A character is no digit where one is needed (a lone sign counts).
    InvalidDigit,
    /// The number is above the type's range.
    PosOverflow,
    /// The number is below the type's range.
    NegOverflow,
}

impl IntError {
    /// The error's text, as std's `ParseIntError` displays it.
    pub fn message(&self) -> (m: String)
        ensures
            m@ == match *self {
                IntError::Empty => "cannot parse integer from empty string"@,
                IntError::InvalidDigit => "invalid digit found in string"@,
                IntError::PosOverflow => "number too large to fit in target type"@,
                IntError::NegOverflow => "number too small to fit in target type"@,
            },
    {
        match self {
            IntError::Empty => "cannot parse integer from empty string".to_owned(),
            IntError::InvalidDigit => "invalid digit found in string".to_owned(),
            IntError::PosOverflow => "number too large to fit in target type".to_owned(),
            IntError::NegOverflow => "number too small to fit in target type".to_owned(),
        }
    }
}

/// Where reading the digits `d` from the left into a value of at most `max`
/// stops: `Some(true)` at the first character that is no digit,
/// `Some(false)` at the first prefix whose value is above `max`, whichever
/// comes first; `None` when every digit is read.
pub open spec fn digits_stop(d: Seq<char>, max: nat) -> Option<bool>
    decreases d.len(),
{
    if d.len() == 0 {
        None
    } else {
        match digits_stop(d.drop_last(), max) {
            Some(e) => Some(e),
            None => if !is_digit(d.last()) {
                Some(true)
            } else if digits_value(d) > max {
                Some(false)
            } else {
                None
            },
        }
    }
}

/// The error of std's `i64::from_str` on `s`; none when it parses.
pub open spec fn i64_error(s: Seq<char>) -> Option<IntError> {
    if s.len() == 0 {
        Some(IntError::Empty)
    } else if (s[0] == '+' || s[0] == '-') && s.len() == 1 {
        Some(IntError::InvalidDigit)
    } else {
        let neg = s[0] == '-';
        let d = if s[0] == '+' || s[0] == '-' {
            s.drop_first()
        } else {
            s
        };
        match digits_stop(d, if neg { 0x8000_0000_0000_0000nat } else { 0x7fff_ffff_ffff_ffffnat }) {
            None => None,
            Some(true) => Some(IntError::InvalidDigit),
            Some(false) => if neg {
                Some(IntError::NegOverflow)
            } else {
                Some(IntError::PosOverflow)
            },
        }
    }
}

/// Reading stops nowhere exactly when all are digits with a value of at
/// most `max`.
pub proof fn lemma_digits_stop(d: Seq<char>, max: nat)
    ensures
        digits_stop(d, max) is None <==> (all_digits(d) && digits_value(d) <= max),
    decreases d.len(),
{
    if d.len() > 0 {
        let p = d.drop_last();
        lemma_digits_stop(p, max);
        assert(digits_value(d) >= digits_value(p));
        if all_digits(d) {
            assert forall|i: int| 0 <= i < p.len() implies is_digit(#[trigger] p[i]) by {
                assert(p[i] == d[i]);
            }
        }
        if all_digits(p) && is_digit(d.last()) {
            assert forall|i: int| 0 <= i < d.len() implies is_digit(#[trigger] d[i]) by {
                if i < p.len() {
                    assert(p[i] == d[i]);
                }
            }
        }
    }
}

/// Once reading a prefix of `d` has stopped, reading all of `d` stops there.
pub proof fn lemma_digits_stop_prefix(d: Seq<char>, max: nat, k: int)
    requires
        0 <= k <= d.len(),
        digits_stop(d.take(k), max) is Some,
    ensures
        digits_stop(d, max) == digits_stop(d.take(k), max),
    decreases d.len() - k,
{
    if k < d.len() {
        assert(d.take(k + 1).drop_last() == d.take(k));
        lemma_digits_stop_prefix(d, max, k + 1);
    } else {
        assert(d.take(k) == d);
    }
}

/// Reads the digits `v[lo..]` (see `digits_stop`): their value, or where
/// reading stops.
fn read_digits(v: &[char], lo: usize, max: u64) -> (r: Result<u64, bool>)
    requires
        lo <= v.len(),
    ensures
        match r {
            Ok(n) => digits_stop(v@.skip(lo as int), max as nat) is None && n == digits_value(
                v@.skip(lo as int),
            ),
            Err(e) => digits_stop(v@.skip(lo as int), max as nat) == Some(e),
        },
{
    let ghost d = v@.skip(lo as int);
    let mut i = lo;
    let mut acc: u64 = 0;
    assert(d.take(0) =~= Seq::<char>::empty());
    while i < v.len()
        invariant
            lo <= i <= v.len(),
            d == v@.skip(lo as int),
            digits_stop(d.take(i - lo), max as nat) is None,
            acc == digits_value(d.take(i - lo)),
            acc <= max,
        decreases v.len() - i,
    {
        let c = v[i];
        assert(d[i - lo] == c);
        let ghost k = i - lo + 1;
        assert(d.take(k).drop_last() == d.take(i - lo));
        assert(d.take(k).last() == c);
        let u = c as u32;
        if !(48 <= u && u <= 57) {
            proof {
                lemma_digits_stop_prefix(d, max as nat, k);
            }
            return Err(true);
        }
        let dv = (u - 48) as u64;
        let next: u128 = acc as u128 * 10 + dv as u128;
        assert(digits_value(d.take(k)) == next);
        if next > max as u128 {
            proof {
                lemma_digits_stop_prefix(d, max as nat, k);
            }
            return Err(false);
        }
        acc = next as u64;
        i = i + 1;
    }
    assert(d.take(i - lo) == d);
    Ok(acc)
}

/// `i64::from_str` on the characters `v`: the number (see `parse_signed`),
/// or the error that std gives (see `i64_error`).
pub fn parse_i64(v: &[char]) -> (r: Result<i64, IntError>)
    ensures
        match r {
            Ok(n) => parse_signed(v@) == Some(n as int) && i64_error(v@) is None,
            Err(e) => parse_signed(v@) is None && i64_error(v@) == Some(e),
        },
{
    if v.len() == 0 {
        return Err(IntError::Empty);
    }
    let signed = v[0] == '+' || v[0] == '-';
    if signed && v.len() == 1 {
        return Err(IntError::InvalidDigit);
    }
    let neg = v[0] == '-';
    let lo: usize = if signed { 1 } else { 0 };
    let max: u64 = if neg { 0x8000_0000_0000_0000u64 } else { 0x7fff_ffff_ffff_ffffu64 };
    assert(v@.skip(0) == v@);
    assert(v@.drop_first() == v@.skip(1));
    let ghost d = v@.skip(lo as int);
    let r = read_digits(v, lo, max);
    proof {
        lemma_digits_stop(d, max as nat);
    }
    match r {
        Ok(n) => {
            if neg {
                if n == 0x8000_0000_0000_0000u64 {
                    Ok(i64::MIN)
                } else {
                    Ok(-(n as i64))
                }
            } else {
                Ok(n as i64)
            }
        },
        Err(true) => Err(IntError::InvalidDigit),
        Err(false) => if neg {
            Err(IntError::NegOverflow)
        } else {
            Err(IntError::PosOverflow)
        },
    }
}

/// The character of the digit `d` (below ten).
pub open spec fn digit_char(d: nat) -> char {
    (d + 48) as char
}

/// `n` written in base ten without leading zeros, as `Display` writes it.
pub open spec fn decimal(n: nat) -> Seq<char>
    decreases n,
{
    if n < 10 {
        seq![digit_char(n)]
    } else {
        decimal(n / 10).push(digit_char(n % 10))
    }
}

/// `n` written in base ten with a leading `'-'` when negative.
pub open spec fn signed_decimal(n: int) -> Seq<char> {
    if n < 0 {
        seq!['-'] + decimal((-n) as nat)
    } else {
        decimal(n as nat)
    }
}

/// The digit character of `d`, for `d` below ten.
fn digit_to_char(d: u8) -> (c: char)
    requires
        d < 10,
    ensures
        c == digit_char(d as nat),
{
    let c = (48u8 + d) as char;
    assert(c == digit_char(d as nat));
    c
}

/// Appends the decimal text of `n` to `out`.
pub fn push_decimal(out: &mut Vec<char>, n: u128)
    ensures
        final(out)@ == old(out)@ + decimal(n as nat),
    decreases n,
{
    if n >= 10 {
        push_decimal(out, n / 10);
    }
    let c = digit_to_char((n % 10) as u8);
    out.push(c);
}

/// Appends the decimal text of the signed `n` to `out`.
pub fn push_signed_decimal(out: &mut Vec<char>, n: i64)
    ensures
        final(out)@ == old(out)@ + signed_decimal(n as int),
{
    if n < 0 {
        out.push('-');
        let m: u128 = (-(n as i128)) as u128;
        push_decimal(out, m);
    } else {
        push_decimal(out, n as u128);
    }
}


/// The texts held by a sequence of strings.
pub open spec fn texts(v: Seq<String>) -> Seq<Seq<char>> {
    v.map_values(|x: String| x@)
}

/// The strings holding the texts of `v`, in order.
pub fn strings_of(v: &Vec<Vec<char>>) -> (r: Vec<String>)
    ensures
        texts(r@) == views(v@),
{
    let mut r: Vec<String> = Vec::new();
    let mut i: usize = 0;
    while i < v.len()
        invariant
            0 <= i <= v.len(),
            texts(r@) == views(v@.take(i as int)),
        decreases v.len() - i,
    {
        let s = string_of(v[i].as_slice());
        proof {
            assert(texts(r@.push(s)) =~= texts(r@).push(s@));
            assert(views(v@.take(i + 1)) =~= views(v@.take(i as int)).push(v@[i as int]@));
        }
        r.push(s);
        i = i + 1;
    }
    assert(v@.take(v.len() as int) == v@);
    r
}


/// The strings holding the texts of the literals `lits`, in order.
pub fn strings_from(lits: &[&str]) -> (r: Vec<String>)
    ensures
        texts(r@) == lits@.map_values(|s: &str| s@),
{
    let mut r: Vec<String> = Vec::new();
    let mut i: usize = 0;
    while i < lits.len()
        invariant
            0 <= i <= lits.len(),
            texts(r@) == lits@.take(i as int).map_values(|s: &str| s@),
        decreases lits.len() - i,
    {
        let s = lits[i].to_owned();
        proof {
            assert(texts(r@.push(s)) =~= texts(r@).push(s@));
            assert(lits@.take(i + 1).map_values(|s: &str| s@) =~= lits@.take(i as int).map_values(
                |s: &str| s@,
            ).push(lits@[i as int]@));
        }
        r.push(s);
        i = i + 1;
    }
    assert(lits@.take(lits.len() as int) == lits@);
    r
}


/// `a` sorts before `b` in the order of `String`'s `Ord`: lexicographic by
/// character code (for UTF-8 text the same as by bytes).
pub open spec fn text_lt(a: Seq<char>, b: Seq<char>) -> bool
    decreases a.len(),
{
    if a.len() == 0 {
        b.len() > 0
    } else if b.len() == 0 {
        false
    } else if a[0] != b[0] {
        a[0] < b[0]
    } else {
        text_lt(a.drop_first(), b.drop_first())
    }
}

/// No text sorts before itself.
pub proof fn lemma_text_lt_irreflexive(a: Seq<char>)
    ensures
        !text_lt(a, a),
    decreases a.len(),
{
    if a.len() > 0 {
        lemma_text_lt_irreflexive(a.drop_first());
    }
}

/// Of two different texts, one sorts before the other, and not both ways.
pub proof fn lemma_text_lt_total(a: Seq<char>, b: Seq<char>)
    ensures
        a != b ==> (text_lt(a, b) || text_lt(b, a)),
        !(text_lt(a, b) && text_lt(b, a)),
    decreases a.len(),
{
    if a.len() > 0 && b.len() > 0 {
        if a[0] == b[0] {
            lemma_text_lt_total(a.drop_first(), b.drop_first());
            if a != b {
                assert(a.drop_first() != b.drop_first()) by {
                    if a.drop_first() == b.drop_first() {
                        assert(a =~= b) by {
                            assert forall|i: int| 0 <= i < a.len() implies a[i] == b[i] by {
                                if i > 0 {
                                    assert(a[i] == a.drop_first()[i - 1]);
                                    assert(b[i] == b.drop_first()[i - 1]);
                                }
                            }
                        }
                    }
                }
            }
        } else {
        }
    } else if a.len() == 0 && b.len() == 0 {
        assert(a =~= b);
    }
}

/// The order is transitive.
pub proof fn lemma_text_lt_transitive(a: Seq<char>, b: Seq<char>, c: Seq<char>)
    requires
        text_lt(a, b),
        text_lt(b, c),
    ensures
        text_lt(a, c),
    decreases a.len(),
{
    if a.len() > 0 && b.len() > 0 && c.len() > 0 {
        if a[0] == b[0] && b[0] == c[0] {
            lemma_text_lt_transitive(a.drop_first(), b.drop_first(), c.drop_first());
        }
    }
}

/// With a common prefix of length `k`, the order is that of the rests.
pub proof fn lemma_text_lt_skip(a: Seq<char>, b: Seq<char>, k: int)
    requires
        0 <= k <= a.len(),
        k <= b.len(),
        a.take(k) == b.take(k),
    ensures
        text_lt(a, b) == text_lt(a.skip(k), b.skip(k)),
    decreases k,
{
    if k > 0 {
        assert(a[0] == a.take(k)[0]);
        assert(b[0] == b.take(k)[0]);
        assert(a.drop_first().take(k - 1) =~= b.drop_first().take(k - 1)) by {
            assert forall|i: int| 0 <= i < k - 1 implies a.drop_first()[i] == b.drop_first()[i] by {
                assert(a.take(k)[i + 1] == b.take(k)[i + 1]);
                assert(a.drop_first()[i] == a[i + 1]);
                assert(b.drop_first()[i] == b[i + 1]);
                assert(a.take(k)[i + 1] == a[i + 1]);
                assert(b.take(k)[i + 1] == b[i + 1]);
            }
        }
        lemma_text_lt_skip(a.drop_first(), b.drop_first(), k - 1);
        assert(a.drop_first().skip(k - 1) =~= a.skip(k));
        assert(b.drop_first().skip(k - 1) =~= b.skip(k));
    } else {
        assert(a.skip(0) == a);
        assert(b.skip(0) == b);
    }
}

/// Whether `a` sorts before `b` (see `text_lt`).
pub fn text_less(a: &[char], b: &[char]) -> (r: bool)
    ensures
        r == text_lt(a@, b@),
{
    let mut k: usize = 0;
    while k < a.len() && k < b.len() && a[k] == b[k]
        invariant
            0 <= k <= a.len(),
            k <= b.len(),
            a@.take(k as int) == b@.take(k as int),
        decreases a.len() - k,
    {
        assert(a@.take(k + 1) =~= b@.take(k + 1)) by {
            assert(a@.take(k + 1) == a@.take(k as int).push(a@[k as int]));
            assert(b@.take(k + 1) == b@.take(k as int).push(b@[k as int]));
        }
        k = k + 1;
    }
    proof {
        lemma_text_lt_skip(a@, b@, k as int);
    }
    if k == a.len() {
        k < b.len()
    } else if k == b.len() {
        false
    } else {
        assert(a@.skip(k as int)[0] == a@[k as int]);
        assert(b@.skip(k as int)[0] == b@[k as int]);
        a[k] < b[k]
    }
}


/// `c` with an ASCII capital letter made small (std's
/// `char::to_ascii_lowercase`).
pub open spec fn lower_char(c: char) -> char {
    if 65 <= (c as u32) <= 90 {
        ((c as u32) + 32) as char
    } else {
        c
    }
}

/// `s` with its ASCII capitals made small (std's `str::to_ascii_lowercase`).
pub open spec fn ascii_lower(s: Seq<char>) -> Seq<char> {
    s.map_values(|c: char| lower_char(c))
}

/// The characters of `v` with ASCII capitals made small.
pub fn to_ascii_lower(v: &[char]) -> (r: Vec<char>)
    ensures
        r@ == ascii_lower(v@),
{
    let mut r: Vec<char> = Vec::new();
    let mut i: usize = 0;
    while i < v.len()
        invariant
            0 <= i <= v.len(),
            r@ == ascii_lower(v@.take(i as int)),
        decreases v.len() - i,
    {
        let c = v[i];
        let u = c as u32;
        let d = if 65 <= u && u <= 90 {
            let l = ((u as u8) + 32) as char;
            assert(l == lower_char(c));
            l
        } else {
            c
        };
        r.push(d);
        assert(ascii_lower(v@.take(i + 1)) =~= ascii_lower(v@.take(i as int)).push(lower_char(c)));
        i = i + 1;
    }
    assert(v@.take(v.len() as int) == v@);
    r
}


/// The texts `ls` with `sep` between them (std's `join`).
pub open spec fn joined(ls: Seq<Seq<char>>, sep: Seq<char>) -> Seq<char>
    decreases ls.len(),
{
    if ls.len() == 0 {
        Seq::empty()
    } else if ls.len() == 1 {
        ls[0]
    } else {
        joined(ls.drop_last(), sep) + sep + ls.last()
    }
}

/// The texts of `v` with `sep` between them.
pub fn join_chars(v: &Vec<Vec<char>>, sep: &str) -> (r: String)
    ensures
        r@ == joined(views(v@), sep@),
{
    let mut r = String::new();
    let mut i: usize = 0;
    while i < v.len()
        invariant
            0 <= i <= v.len(),
            r@ == joined(views(v@).take(i as int), sep@),
        decreases v.len() - i,
    {
        let ghost pre = views(v@).take(i as int);
        let piece = string_of(v[i].as_slice());
        if i > 0 {
            r.append(sep);
        }
        r.append(piece.as_str());
        proof {
            let post = views(v@).take(i + 1);
            assert(post.drop_last() == pre);
            assert(post.last() == v@[i as int]@);
            if i == 0 {
                assert(post.len() == 1);
                assert(r@ =~= post[0]);
            }
        }
        i = i + 1;
    }
    assert(views(v@).take(v.len() as int) == views(v@));
    r
}


/// The position of the first `c` in `s`, if any.
pub open spec fn first_index(s: Seq<char>, c: char) -> Option<int>
    decreases s.len(),
{
    if s.len() == 0 {
        None
    } else if s[0] == c {
        Some(0)
    } else {
        match first_index(s.drop_first(), c) {
            Some(k) => Some(k + 1),
            None => None,
        }
    }
}

/// `s` split at its first `c` (std's `str::split_once`): the text before and
/// the text after, if `c` occurs.
pub open spec fn split_once_at(s: Seq<char>, c: char) -> Option<(Seq<char>, Seq<char>)> {
    match first_index(s, c) {
        Some(k) => Some((s.take(k), s.skip(k + 1))),
        None => None,
    }
}

/// The first index facts: it holds `c`, nothing before it does.
pub proof fn lemma_first_index(s: Seq<char>, c: char)
    ensures
        match first_index(s, c) {
            Some(k) => 0 <= k < s.len() && s[k] == c && forall|j: int| 0 <= j < k ==> s[j] != c,
            None => forall|j: int| 0 <= j < s.len() ==> s[j] != c,
        },
    decreases s.len(),
{
    if s.len() > 0 && s[0] != c {
        lemma_first_index(s.drop_first(), c);
        match first_index(s.drop_first(), c) {
            Some(k) => {
                assert forall|j: int| 0 <= j < k + 1 implies s[j] != c by {
                    if j > 0 {
                        assert(s[j] == s.drop_first()[j - 1]);
                    }
                }
            },
            None => {
                assert forall|j: int| 0 <= j < s.len() implies s[j] != c by {
                    if j > 0 {
                        assert(s[j] == s.drop_first()[j - 1]);
                    }
                }
            },
        }
    }
}

/// A position holding `c` with nothing before it holding `c` is the first.
pub proof fn lemma_first_index_at(s: Seq<char>, c: char, k: int)
    requires
        0 <= k < s.len(),
        s[k] == c,
        forall|j: int| 0 <= j < k ==> s[j] != c,
    ensures
        first_index(s, c) == Some(k),
{
    lemma_first_index(s, c);
    match first_index(s, c) {
        Some(m) => {
            if m < k {
            } else if m > k {
            }
        },
        None => {},
    }
}

/// `v` split at its first `c` (see `split_once_at`).
pub fn split_once(v: &[char], c: char) -> (r: Option<(Vec<char>, Vec<char>)>)
    ensures
        match split_once_at(v@, c) {
            Some((a, b)) => r matches Some((x, y)) && x@ == a && y@ == b,
            None => r is None,
        },
{
    let mut i: usize = 0;
    while i < v.len()
        invariant
            0 <= i <= v.len(),
            forall|j: int| 0 <= j < i ==> v@[j] != c,
        decreases v.len() - i,
    {
        if v[i] == c {
            proof {
                lemma_first_index_at(v@, c, i as int);
            }
            let a = copy_range(v, 0, i);
            let b = copy_range(v, i + 1, v.len());
            assert(a@ == v@.take(i as int));
            assert(b@ == v@.skip(i + 1));
            return Some((a, b));
        }
        i = i + 1;
    }
    proof {
        lemma_first_index(v@, c);
        if first_index(v@, c) is Some {
            let k = first_index(v@, c)->0;
            assert(v@[k] == c);
        }
    }
    None
}

/// `s` with each occurrence of `p`, found from the front without overlaps,
/// replaced by `r` (std's `str::replace`).
pub open spec fn replaced(s: Seq<char>, p: Seq<char>, r: Seq<char>) -> Seq<char>
    decreases s.len(),
{
    if p.len() == 0 || s.len() == 0 {
        s
    } else if has_prefix(s, p) {
        r + replaced(s.skip(p.len() as int), p, r)
    } else {
        seq![s[0]] + replaced(s.drop_first(), p, r)
    }
}

/// The characters of `v` with each occurrence of `p` replaced by `rep`.
pub fn replace_all(v: &[char], p: &[char], rep: &[char]) -> (r: Vec<char>)
    requires
        p.len() > 0,
    ensures
        r@ == replaced(v@, p@, rep@),
{
    let mut out: Vec<char> = Vec::new();
    let mut i: usize = 0;
    assert(v@.skip(0) == v@);
    while i < v.len()
        invariant
            0 <= i <= v.len(),
            p.len() > 0,
            out@ + replaced(v@.skip(i as int), p@, rep@) == replaced(v@, p@, rep@),
        decreases v.len() - i,
    {
        let ghost rest = v@.skip(i as int);
        let rv = copy_range(v, i, v.len());
        assert(rv@ == rest);
        let ghost before = out@;
        if starts_with(rv.as_slice(), p) {
            let mut k: usize = 0;
            while k < rep.len()
                invariant
                    0 <= k <= rep.len(),
                    out@ == before + rep@.take(k as int),
                decreases rep.len() - k,
            {
                out.push(rep[k]);
                assert(rep@.take(k + 1) == rep@.take(k as int).push(rep@[k as int]));
                k = k + 1;
            }
            assert(rep@.take(rep.len() as int) == rep@);
            assert(rest.skip(p.len() as int) == v@.skip(i + p.len()));
            assert(out@ + replaced(v@.skip(i + p.len()), p@, rep@) == before + replaced(rest, p@, rep@));
            i = i + p.len();
        } else {
            out.push(v[i]);
            assert(rest[0] == v@[i as int]);
            assert(rest.drop_first() == v@.skip(i + 1));
            assert(out@ + replaced(v@.skip(i + 1), p@, rep@) == before + replaced(rest, p@, rep@));
            i = i + 1;
        }
    }
    assert(v@.skip(i as int) =~= Seq::<char>::empty());
    assert(out@ + Seq::<char>::empty() == out@);
    out
}

} // verus!
