//! Wi-Fi through `nmcli`: its terse output, access points and bands, and
//! what each request runs.
#![allow(non_camel_case_types)]
use vstd::prelude::*;

use crate::cli::WifiCommands;
use crate::text::{
    chars_of, decimal, has_prefix, push_decimal, lemma_views_push, starts_with, line_list, parse_u32, parse_unsigned, same_chars, split_lines,
    string_of, strings_from, strings_of, text_less, text_lt, texts, trim, trimmed, views,
    lemma_text_lt_total, lemma_text_lt_transitive,
};

verus! {

/// A frequency band of an access point.
#[derive(Debug, Clone, Copy, PartialEq, Eq, Structural)]
pub enum AccessPointBand {
    B2_4GHz,
    B5GHz,
    B6GHz,
}

/// The band that a connection is restricted to, if any.
#[derive(Debug, Clone, Copy, PartialEq, Eq, Structural)]
pub enum BandSelection {
    Auto,
    Specific(AccessPointBand),
}

/// The security of an access point.
#[derive(Debug, Clone, Copy, PartialEq, Eq, Structural)]
pub enum AccessPointSecurity {
    FREE,
    WEP,
    WPA1,
    WPA2,
    WPA3,
    WPA2WPA3,
    OWE,
}

/// One access point of a network.
#[derive(Debug, PartialEq, Eq)]
pub struct AccessPoint {
    pub bssid: String,
    pub ssid: String,
    pub band: AccessPointBand,
    pub security: AccessPointSecurity,
}

/// What went wrong in a Wi-Fi request.
#[derive(Debug, Clone, PartialEq, Eq)]
pub enum WifiError {
    UnknownBand(String),
    UnknownSecurity(String),
    NoNetworks,
    NoAccessPoint,
    AccessPointNotFound,
    NoActiveDevice,
}

/// The text by which `nmcli` names a band.
pub open spec fn band_label(b: AccessPointBand) -> Seq<char> {
    match b {
        AccessPointBand::B2_4GHz => "2.4 GHz"@,
        AccessPointBand::B5GHz => "5 GHz"@,
        AccessPointBand::B6GHz => "6 GHz"@,
    }
}

/// The band that `nmcli` names `s`, if any.
pub open spec fn band_of_label(s: Seq<char>) -> Option<AccessPointBand> {
    if s == "2.4 GHz"@ {
        Some(AccessPointBand::B2_4GHz)
    } else if s == "5 GHz"@ {
        Some(AccessPointBand::B5GHz)
    } else if s == "6 GHz"@ {
        Some(AccessPointBand::B6GHz)
    } else {
        None
    }
}

/// The security that `nmcli` writes as `s`, if any. Mixed WPA modes count as
/// WPA2/WPA3.
pub open spec fn security_of_label(s: Seq<char>) -> Option<AccessPointSecurity> {
    if s == ""@ {
        Some(AccessPointSecurity::FREE)
    } else if s == "WEP"@ {
        Some(AccessPointSecurity::WEP)
    } else if s == "WPA1"@ {
        Some(AccessPointSecurity::WPA1)
    } else if s == "WPA2"@ {
        Some(AccessPointSecurity::WPA2)
    } else if s == "WPA3"@ {
        Some(AccessPointSecurity::WPA3)
    } else if s == "WPA2 WPA3"@ || s == "WPA1 WPA2"@ || s == "WPA1 WPA2 WPA3"@ {
        Some(AccessPointSecurity::WPA2WPA3)
    } else if s == "OWE"@ {
        Some(AccessPointSecurity::OWE)
    } else {
        None
    }
}

/// Whether the characters `v` are exactly those of `lit`.
fn is_text(v: &[char], lit: &str) -> (r: bool)
    ensures
        r == (v@ == lit@),
{
    let l = chars_of(lit);
    same_chars(v, l.as_slice())
}

impl AccessPointBand {
    /// The text by which `nmcli` names the band.
    pub fn as_str(&self) -> (s: &'static str)
        ensures
            s@ == band_label(*self),
    {
        match self {
            AccessPointBand::B2_4GHz => "2.4 GHz",
            AccessPointBand::B5GHz => "5 GHz",
            AccessPointBand::B6GHz => "6 GHz",
        }
    }

    /// The band that `nmcli` names `value`.
    pub fn from_label(value: &str) -> (r: Result<AccessPointBand, WifiError>)
        ensures
            match band_of_label(value@) {
                Some(b) => r == Ok::<AccessPointBand, WifiError>(b),
                None => r matches Err(WifiError::UnknownBand(t)) && t@ == value@,
            },
    {
        let v = chars_of(value);
        Self::from_chars(v.as_slice())
    }

    /// The band that `nmcli` names by the characters `v`.
    pub fn from_chars(v: &[char]) -> (r: Result<AccessPointBand, WifiError>)
        ensures
            match band_of_label(v@) {
                Some(b) => r == Ok::<AccessPointBand, WifiError>(b),
                None => r matches Err(WifiError::UnknownBand(t)) && t@ == v@,
            },
    {
        if is_text(v, "2.4 GHz") {
            Ok(AccessPointBand::B2_4GHz)
        } else if is_text(v, "5 GHz") {
            Ok(AccessPointBand::B5GHz)
        } else if is_text(v, "6 GHz") {
            Ok(AccessPointBand::B6GHz)
        } else {
            Err(WifiError::UnknownBand(string_of(v)))
        }
    }
}

impl AccessPointSecurity {
    /// The security that `nmcli` writes as `value`.
    pub fn from_label(value: &str) -> (r: Result<AccessPointSecurity, WifiError>)
        ensures
            match security_of_label(value@) {
                Some(s) => r == Ok::<AccessPointSecurity, WifiError>(s),
                None => r matches Err(WifiError::UnknownSecurity(t)) && t@ == value@,
            },
    {
        let v = chars_of(value);
        Self::from_chars(v.as_slice())
    }

    /// The security that `nmcli` writes as the characters `v`.
    pub fn from_chars(v: &[char]) -> (r: Result<AccessPointSecurity, WifiError>)
        ensures
            match security_of_label(v@) {
                Some(s) => r == Ok::<AccessPointSecurity, WifiError>(s),
                None => r matches Err(WifiError::UnknownSecurity(t)) && t@ == v@,
            },
    {
        if v.len() == 0 {
            assert(v@ == ""@) by { reveal_strlit(""); }
            Ok(AccessPointSecurity::FREE)
        } else if is_text(v, "WEP") {
            proof { reveal_strlit(""); }
            Ok(AccessPointSecurity::WEP)
        } else if is_text(v, "WPA1") {
            proof { reveal_strlit(""); }
            Ok(AccessPointSecurity::WPA1)
        } else if is_text(v, "WPA2") {
            proof { reveal_strlit(""); }
            Ok(AccessPointSecurity::WPA2)
        } else if is_text(v, "WPA3") {
            proof { reveal_strlit(""); }
            Ok(AccessPointSecurity::WPA3)
        } else if is_text(v, "WPA2 WPA3") || is_text(v, "WPA1 WPA2") || is_text(
            v,
            "WPA1 WPA2 WPA3",
        ) {
            proof { reveal_strlit(""); }
            Ok(AccessPointSecurity::WPA2WPA3)
        } else if is_text(v, "OWE") {
            proof { reveal_strlit(""); }
            Ok(AccessPointSecurity::OWE)
        } else {
            proof { reveal_strlit(""); }
            Err(WifiError::UnknownSecurity(string_of(v)))
        }
    }
}


/// Where the splitting of an `nmcli -t -e yes` line has got to: the fields
/// finished so far, the field being read, and whether the last character
/// was an unconsumed backslash.
pub type FieldScan = (Seq<Seq<char>>, Seq<char>, bool);

/// One character of an escaped `nmcli` line: after a backslash any
/// character is taken literally; a backslash escapes the next character; an
/// unescaped `':'` ends the field.
pub open spec fn field_step(st: FieldScan, c: char) -> FieldScan {
    if st.2 {
        (st.0, st.1.push(c), false)
    } else if c == '\\' {
        (st.0, st.1, true)
    } else if c == ':' {
        (st.0.push(st.1), Seq::empty(), false)
    } else {
        (st.0, st.1.push(c), false)
    }
}

/// The state after reading `s` from the state `st`.
pub open spec fn field_run(st: FieldScan, s: Seq<char>) -> FieldScan
    decreases s.len(),
{
    if s.len() == 0 {
        st
    } else {
        field_step(field_run(st, s.drop_last()), s.last())
    }
}

/// The state before any character.
pub open spec fn field_start() -> FieldScan {
    (Seq::empty(), Seq::empty(), false)
}

/// The fields of an escaped `nmcli` line: the finished fields and then the
/// last one. A line always has at least one field.
pub open spec fn nmcli_fields(s: Seq<char>) -> Seq<Seq<char>> {
    let st = field_run(field_start(), s);
    st.0.push(st.1)
}

/// The fields of the characters `v` (see `nmcli_fields`).
pub fn split_fields(v: &[char]) -> (r: Vec<Vec<char>>)
    ensures
        views(r@) == nmcli_fields(v@),
        r.len() >= 1,
{
    let mut done: Vec<Vec<char>> = Vec::new();
    let mut cur: Vec<char> = Vec::new();
    let mut escaped = false;
    let mut i: usize = 0;
    while i < v.len()
        invariant
            0 <= i <= v.len(),
            (views(done@), cur@, escaped) == field_run(field_start(), v@.take(i as int)),
        decreases v.len() - i,
    {
        assert(v@.take(i + 1).drop_last() == v@.take(i as int));
        let c = v[i];
        if escaped {
            cur.push(c);
            escaped = false;
        } else if c == '\\' {
            escaped = true;
        } else if c == ':' {
            let field = cur;
            proof { lemma_views_push(done@, field); }
            done.push(field);
            cur = Vec::new();
        } else {
            cur.push(c);
        }
        i = i + 1;
    }
    assert(v@.take(v.len() as int) == v@);
    proof { lemma_views_push(done@, cur); }
    done.push(cur);
    done
}

/// Splits a line of `nmcli -t -e yes` output into its fields, undoing the
/// backslash escapes.
pub fn split_nmcli_line(line: &str) -> (r: Vec<String>)
    ensures
        texts(r@) == nmcli_fields(line@),
{
    let v = chars_of(line);
    let f = split_fields(v.as_slice());
    strings_of(&f)
}

/// How `nmcli -e yes` writes one character of a field.
pub open spec fn escape_char(c: char) -> Seq<char> {
    if c == '\\' || c == ':' {
        seq!['\\', c]
    } else {
        seq![c]
    }
}

/// How `nmcli -e yes` writes a field.
pub open spec fn escape_field(f: Seq<char>) -> Seq<char>
    decreases f.len(),
{
    if f.len() == 0 {
        Seq::empty()
    } else {
        escape_field(f.drop_last()) + escape_char(f.last())
    }
}

/// How `nmcli -t -e yes` writes a line of fields: each field escaped, with
/// `':'` between them.
pub open spec fn join_fields(fs: Seq<Seq<char>>) -> Seq<char>
    decreases fs.len(),
{
    if fs.len() <= 1 {
        if fs.len() == 1 {
            escape_field(fs[0])
        } else {
            Seq::empty()
        }
    } else {
        join_fields(fs.drop_last()) + seq![':'] + escape_field(fs.last())
    }
}

/// Reading `s + t` is reading `s`, then `t`.
pub proof fn lemma_field_run_append(st: FieldScan, s: Seq<char>, t: Seq<char>)
    ensures
        field_run(st, s + t) == field_run(field_run(st, s), t),
    decreases t.len(),
{
    if t.len() == 0 {
        assert(s + t == s);
    } else {
        assert((s + t).drop_last() == s + t.drop_last());
        assert((s + t).last() == t.last());
        lemma_field_run_append(st, s, t.drop_last());
    }
}

/// Reading an escaped field, outside an escape, adds the field to the one
/// being read.
pub proof fn lemma_field_run_escaped(st: FieldScan, f: Seq<char>)
    requires
        !st.2,
    ensures
        field_run(st, escape_field(f)) == (st.0, st.1 + f, false),
    decreases f.len(),
{
    if f.len() == 0 {
        assert(st.1 + f == st.1);
    } else {
        let c = f.last();
        lemma_field_run_escaped(st, f.drop_last());
        lemma_field_run_append(st, escape_field(f.drop_last()), escape_char(c));
        let mid = field_run(st, escape_field(f.drop_last()));
        assert(field_run(mid, Seq::<char>::empty()) == mid);
        if c == '\\' || c == ':' {
            assert(seq!['\\', c].drop_last() == seq!['\\']);
            assert(seq!['\\'].drop_last() == Seq::<char>::empty());
            assert(field_run(mid, seq!['\\']) == field_step(mid, '\\'));
            assert(field_run(mid, seq!['\\', c]) == field_step(field_run(mid, seq!['\\']), c));
        } else {
            assert(seq![c].drop_last() == Seq::<char>::empty());
            assert(field_run(mid, seq![c]) == field_step(mid, c));
        }
        assert(st.1 + f.drop_last() + seq![c] == st.1 + f) by {
            assert(f == f.drop_last().push(c));
        }
        assert((st.1 + f.drop_last()).push(c) == st.1 + f) by {
            assert(f == f.drop_last().push(c));
        }
    }
}

/// Reading a joined line of at least one field finishes all fields but the
/// last, and holds the last as the one being read.
pub proof fn lemma_field_run_joined(fs: Seq<Seq<char>>)
    requires
        fs.len() >= 1,
    ensures
        field_run(field_start(), join_fields(fs)) == (fs.drop_last(), fs.last(), false),
    decreases fs.len(),
{
    if fs.len() == 1 {
        lemma_field_run_escaped(field_start(), fs[0]);
        assert(Seq::<char>::empty() + fs[0] == fs[0]);
        assert(fs.drop_last() == Seq::<Seq<char>>::empty());
    } else {
        let init = fs.drop_last();
        lemma_field_run_joined(init);
        lemma_field_run_append(field_start(), join_fields(init) + seq![':'], escape_field(fs.last()));
        lemma_field_run_append(field_start(), join_fields(init), seq![':']);
        assert(seq![':'].drop_last() == Seq::<char>::empty());
        let before_sep = field_run(field_start(), join_fields(init));
        assert(field_run(before_sep, Seq::<char>::empty()) == before_sep);
        assert(field_run(before_sep, seq![':']) == field_step(before_sep, ':'));
        let after_sep = field_run(field_start(), join_fields(init) + seq![':']);
        assert(after_sep == (init.drop_last().push(init.last()), Seq::<char>::empty(), false));
        assert(init.drop_last().push(init.last()) == init);
        lemma_field_run_escaped(after_sep, fs.last());
        assert(Seq::<char>::empty() + fs.last() == fs.last());
    }
}

/// Splitting undoes joining: the fields of a line that `nmcli` wrote from
/// a list of fields are that list, whatever colons and backslashes the
/// fields hold.
pub proof fn lemma_split_join(fs: Seq<Seq<char>>)
    requires
        fs.len() >= 1,
    ensures
        nmcli_fields(join_fields(fs)) == fs,
{
    lemma_field_run_joined(fs);
    assert(fs.drop_last().push(fs.last()) == fs);
}


/// `s` split at every `':'`, as `str::split(':')` does: one more piece than
/// there are colons, empty pieces kept.
pub open spec fn colon_split(s: Seq<char>) -> Seq<Seq<char>>
    decreases s.len(),
{
    if s.len() == 0 {
        seq![Seq::<char>::empty()]
    } else {
        let k = colon_split(s.drop_last());
        if s.last() == ':' {
            k.push(Seq::empty())
        } else {
            k.update(k.len() - 1, k.last().push(s.last()))
        }
    }
}

/// The number of `':'` in `s`.
pub open spec fn colon_count(s: Seq<char>) -> nat
    decreases s.len(),
{
    if s.len() == 0 {
        0
    } else {
        colon_count(s.drop_last()) + if s.last() == ':' { 1nat } else { 0nat }
    }
}

/// Reading a line without backslashes finishes every piece before its
/// last colon and holds the piece after it.
proof fn lemma_field_run_plain(s: Seq<char>)
    requires
        !s.contains('\\'),
    ensures
        colon_split(s).len() == colon_count(s) + 1,
        field_run(field_start(), s) == (colon_split(s).drop_last(), colon_split(s).last(), false),
    decreases s.len(),
{
    if s.len() > 0 {
        let p = s.drop_last();
        assert(!p.contains('\\')) by {
            if p.contains('\\') {
                let i = choose|i: int| 0 <= i < p.len() && p[i] == '\\';
                assert(s[i] == '\\');
            }
        }
        assert(s.last() != '\\') by {
            if s.last() == '\\' {
                assert(s[s.len() - 1] == '\\');
            }
        }
        lemma_field_run_plain(p);
        let k = colon_split(p);
        if s.last() == ':' {
            assert(k.push(Seq::<char>::empty()).drop_last() == k);
            assert(k.drop_last().push(k.last()) == k);
        } else {
            let u = k.update(k.len() - 1, k.last().push(s.last()));
            assert(u.drop_last() == k.drop_last());
        }
    }
}

/// A line without backslashes is split at each colon: its fields are the
/// pieces of `str::split(':')`, one more than there are colons, so never
/// none (an empty line has one empty field).
pub proof fn lemma_split_plain(s: Seq<char>)
    requires
        !s.contains('\\'),
    ensures
        nmcli_fields(s) == colon_split(s),
        nmcli_fields(s).len() == colon_count(s) + 1,
{
    lemma_field_run_plain(s);
    assert(colon_split(s).drop_last().push(colon_split(s).last()) == colon_split(s));
}


/// A network in the `nmcli device wifi list` output.
#[derive(Debug, Clone, PartialEq, Eq)]
pub struct NetworkEntry {
    pub ssid: String,
    pub bssid: String,
    pub signal: Option<u32>,
    pub security: String,
    pub channel: Option<u32>,
    pub band: String,
    pub in_use: bool,
}

/// A device in the `nmcli device status` output.
#[derive(Debug, Clone, PartialEq, Eq)]
pub struct DeviceStatus {
    pub device: String,
    pub kind: String,
    pub state: String,
    pub connection: String,
}

/// A saved connection in the `nmcli connection show` output.
#[derive(Debug, Clone, PartialEq, Eq)]
pub struct SavedConnection {
    pub name: String,
    pub uuid: String,
    pub kind: String,
    pub device: String,
}

/// A parsed number as a `u32`.
pub open spec fn as_u32(o: Option<nat>) -> Option<u32> {
    match o {
        Some(n) => Some(n as u32),
        None => None,
    }
}

/// `e` is the network that the fields `f` (`IN-USE,SSID,BSSID,SIGNAL,
/// SECURITY,CHAN,BAND`) describe; a signal or channel that is no `u32` is
/// absent.
pub open spec fn entry_from_fields(e: NetworkEntry, f: Seq<Seq<char>>) -> bool {
    &&& e.in_use == (f[0] == seq!['*'])
    &&& e.ssid@ == f[1]
    &&& e.bssid@ == f[2]
    &&& e.signal == as_u32(parse_unsigned(f[3], u32::MAX as nat))
    &&& e.security@ == f[4]
    &&& e.channel == as_u32(parse_unsigned(f[5], u32::MAX as nat))
    &&& e.band@ == f[6]
}

/// The network of a scan line of characters, if it has at least seven fields.
fn entry_of_chars(line: &[char]) -> (r: Option<NetworkEntry>)
    ensures
        r is Some <==> nmcli_fields(line@).len() >= 7,
        r matches Some(e) ==> entry_from_fields(e, nmcli_fields(line@)),
{
    let f = split_fields(line);
    if f.len() < 7 {
        return None;
    }
    assert(f@[0]@ == nmcli_fields(line@)[0]);
    let in_use = f[0].len() == 1 && f[0][0] == '*';
    assert(in_use == (f@[0]@ == seq!['*'])) by {
        if f@[0]@.len() == 1 && f@[0]@[0] == '*' {
            assert(f@[0]@ =~= seq!['*']);
        }
    }
    let ssid = string_of(f[1].as_slice());
    let bssid = string_of(f[2].as_slice());
    let signal = parse_u32(f[3].as_slice());
    let security = string_of(f[4].as_slice());
    let channel = parse_u32(f[5].as_slice());
    let band = string_of(f[6].as_slice());
    assert(f@[3]@ == nmcli_fields(line@)[3]);
    assert(f@[5]@ == nmcli_fields(line@)[5]);
    Some(NetworkEntry { ssid, bssid, signal, security, channel, band, in_use })
}

/// The network of a line of `nmcli -t -e yes -f IN-USE,SSID,BSSID,SIGNAL,
/// SECURITY,CHAN,BAND device wifi list`, if it has at least seven fields.
pub fn parse_network_entry(line: &str) -> (r: Option<NetworkEntry>)
    ensures
        r is Some <==> nmcli_fields(line@).len() >= 7,
        r matches Some(e) ==> entry_from_fields(e, nmcli_fields(line@)),
{
    let v = chars_of(line);
    entry_of_chars(v.as_slice())
}

/// The lines of `ls` that have at least `min` fields, in order.
pub open spec fn lines_with_fields(ls: Seq<Seq<char>>, min: nat) -> Seq<Seq<char>>
    decreases ls.len(),
{
    if ls.len() == 0 {
        Seq::empty()
    } else {
        let k = lines_with_fields(ls.drop_last(), min);
        if nmcli_fields(ls.last()).len() >= min {
            k.push(ls.last())
        } else {
            k
        }
    }
}

/// The networks of a whole scan output: one for each line with at least
/// seven fields, in order; other lines are skipped.
pub fn parse_scan_output(output: &str) -> (r: Vec<NetworkEntry>)
    ensures
        r.len() == lines_with_fields(line_list(output@), 7).len(),
        forall|i: int|
            0 <= i < r.len() ==> entry_from_fields(
                #[trigger] r@[i],
                nmcli_fields(lines_with_fields(line_list(output@), 7)[i]),
            ),
{
    let v = chars_of(output);
    let ls = split_lines(v.as_slice());
    let ghost all = views(ls@);
    let mut r: Vec<NetworkEntry> = Vec::new();
    let mut i: usize = 0;
    while i < ls.len()
        invariant
            0 <= i <= ls.len(),
            all == views(ls@),
            r.len() == lines_with_fields(all.take(i as int), 7).len(),
            forall|j: int|
                0 <= j < r.len() ==> entry_from_fields(
                    #[trigger] r@[j],
                    nmcli_fields(lines_with_fields(all.take(i as int), 7)[j]),
                ),
        decreases ls.len() - i,
    {
        assert(all.take(i + 1).drop_last() == all.take(i as int));
        assert(all.take(i + 1).last() == ls@[i as int]@);
        match entry_of_chars(ls[i].as_slice()) {
            Some(e) => {
                r.push(e);
            },
            None => {},
        }
        i = i + 1;
    }
    assert(all.take(ls.len() as int) == all);
    r
}

/// `d` is the device that the fields `f` (`DEVICE,TYPE,STATE,CONNECTION`)
/// describe.
pub open spec fn device_from_fields(d: DeviceStatus, f: Seq<Seq<char>>) -> bool {
    &&& d.device@ == f[0]
    &&& d.kind@ == f[1]
    &&& d.state@ == f[2]
    &&& d.connection@ == f[3]
}

/// The devices of `nmcli -t -e yes -f DEVICE,TYPE,STATE,CONNECTION device
/// status`: one for each line with at least four fields, in order.
pub fn parse_device_statuses(output: &str) -> (r: Vec<DeviceStatus>)
    ensures
        r.len() == lines_with_fields(line_list(output@), 4).len(),
        forall|i: int|
            0 <= i < r.len() ==> device_from_fields(
                #[trigger] r@[i],
                nmcli_fields(lines_with_fields(line_list(output@), 4)[i]),
            ),
{
    let v = chars_of(output);
    let ls = split_lines(v.as_slice());
    let ghost all = views(ls@);
    let mut r: Vec<DeviceStatus> = Vec::new();
    let mut i: usize = 0;
    while i < ls.len()
        invariant
            0 <= i <= ls.len(),
            all == views(ls@),
            r.len() == lines_with_fields(all.take(i as int), 4).len(),
            forall|j: int|
                0 <= j < r.len() ==> device_from_fields(
                    #[trigger] r@[j],
                    nmcli_fields(lines_with_fields(all.take(i as int), 4)[j]),
                ),
        decreases ls.len() - i,
    {
        assert(all.take(i + 1).drop_last() == all.take(i as int));
        assert(all.take(i + 1).last() == ls@[i as int]@);
        let f = split_fields(ls[i].as_slice());
        if f.len() >= 4 {
            let d = DeviceStatus {
                device: string_of(f[0].as_slice()),
                kind: string_of(f[1].as_slice()),
                state: string_of(f[2].as_slice()),
                connection: string_of(f[3].as_slice()),
            };
            r.push(d);
        }
        i = i + 1;
    }
    assert(all.take(ls.len() as int) == all);
    r
}

/// `c` is the connection that the fields `f` (`NAME,UUID,TYPE,DEVICE`)
/// describe.
pub open spec fn saved_from_fields(c: SavedConnection, f: Seq<Seq<char>>) -> bool {
    &&& c.name@ == f[0]
    &&& c.uuid@ == f[1]
    &&& c.kind@ == f[2]
    &&& c.device@ == f[3]
}

/// The connections of `nmcli -t -e yes -f NAME,UUID,TYPE,DEVICE connection
/// show`: one for each line with at least four fields, in order.
pub fn parse_saved_connections(output: &str) -> (r: Vec<SavedConnection>)
    ensures
        r.len() == lines_with_fields(line_list(output@), 4).len(),
        forall|i: int|
            0 <= i < r.len() ==> saved_from_fields(
                #[trigger] r@[i],
                nmcli_fields(lines_with_fields(line_list(output@), 4)[i]),
            ),
{
    let v = chars_of(output);
    let ls = split_lines(v.as_slice());
    let ghost all = views(ls@);
    let mut r: Vec<SavedConnection> = Vec::new();
    let mut i: usize = 0;
    while i < ls.len()
        invariant
            0 <= i <= ls.len(),
            all == views(ls@),
            r.len() == lines_with_fields(all.take(i as int), 4).len(),
            forall|j: int|
                0 <= j < r.len() ==> saved_from_fields(
                    #[trigger] r@[j],
                    nmcli_fields(lines_with_fields(all.take(i as int), 4)[j]),
                ),
        decreases ls.len() - i,
    {
        assert(all.take(i + 1).drop_last() == all.take(i as int));
        assert(all.take(i + 1).last() == ls@[i as int]@);
        let f = split_fields(ls[i].as_slice());
        if f.len() >= 4 {
            let c = SavedConnection {
                name: string_of(f[0].as_slice()),
                uuid: string_of(f[1].as_slice()),
                kind: string_of(f[2].as_slice()),
                device: string_of(f[3].as_slice()),
            };
            r.push(c);
        }
        i = i + 1;
    }
    assert(all.take(ls.len() as int) == all);
    r
}


impl Clone for AccessPoint {
    fn clone(&self) -> (r: Self)
        ensures
            r == *self,
    {
        AccessPoint {
            bssid: self.bssid.clone(),
            ssid: self.ssid.clone(),
            band: self.band,
            security: self.security,
        }
    }
}

/// The texts of an access point: SSID, BSSID, band and security.
pub type ApView = (Seq<char>, Seq<char>, AccessPointBand, AccessPointSecurity);

/// The texts of an access point.
pub open spec fn ap_view(ap: AccessPoint) -> ApView {
    (ap.ssid@, ap.bssid@, ap.band, ap.security)
}

/// The texts of a list of access points.
pub open spec fn ap_views(aps: Seq<AccessPoint>) -> Seq<ApView> {
    aps.map_values(|ap: AccessPoint| ap_view(ap))
}

/// What the `SSID,BSSID,BAND,SECURITY` listing gives for one network: its
/// access points, or the first band or security text that names none.
pub enum ApListing {
    Found(Seq<ApView>),
    BadBand(Seq<char>),
    BadSecurity(Seq<char>),
}

/// The access points of the network `ssid` in the listing lines `ls`, read in
/// order: lines with fewer than four fields, or whose trimmed SSID differs
/// from the trimmed `ssid`, are skipped; band and security are read trimmed,
/// and the first one that is unknown ends the reading.
pub open spec fn ap_listing(ls: Seq<Seq<char>>, ssid: Seq<char>) -> ApListing
    decreases ls.len(),
{
    if ls.len() == 0 {
        ApListing::Found(Seq::empty())
    } else {
        match ap_listing(ls.drop_last(), ssid) {
            ApListing::Found(aps) => {
                let f = nmcli_fields(ls.last());
                if f.len() < 4 || trimmed(f[0]) != trimmed(ssid) {
                    ApListing::Found(aps)
                } else {
                    match band_of_label(trimmed(f[2])) {
                        None => ApListing::BadBand(trimmed(f[2])),
                        Some(b) => match security_of_label(trimmed(f[3])) {
                            None => ApListing::BadSecurity(trimmed(f[3])),
                            Some(sec) => ApListing::Found(aps.push((f[0], f[1], b, sec))),
                        },
                    }
                }
            },
            other => other,
        }
    }
}

/// `r` is what the listing `l` says: its access points, or the error that
/// names the unknown band or security.
pub open spec fn listing_result(r: Result<Vec<AccessPoint>, WifiError>, l: ApListing) -> bool {
    match l {
        ApListing::Found(v) => r matches Ok(aps) && ap_views(aps@) == v,
        ApListing::BadBand(t) => r matches Err(WifiError::UnknownBand(s)) && s@ == t,
        ApListing::BadSecurity(t) => r matches Err(WifiError::UnknownSecurity(s)) && s@ == t,
    }
}

/// The access points of the network `ssid` in the output of `nmcli -t -e yes
/// -f SSID,BSSID,BAND,SECURITY device wifi list` (see `ap_listing`).
pub fn access_points_for(output: &str, ssid: &str) -> (r: Result<Vec<AccessPoint>, WifiError>)
    ensures
        listing_result(r, ap_listing(line_list(output@), ssid@)),
{
    let v = chars_of(output);
    let ls = split_lines(v.as_slice());
    let sv = chars_of(ssid);
    let want = trim(sv.as_slice());
    let ghost all = views(ls@);
    let mut r: Vec<AccessPoint> = Vec::new();
    let mut i: usize = 0;
    assert(ap_views(r@) =~= Seq::<ApView>::empty());
    assert(all.take(0) =~= Seq::<Seq<char>>::empty());
    while i < ls.len()
        invariant
            0 <= i <= ls.len(),
            all == views(ls@),
            all == line_list(output@),
            want@ == trimmed(ssid@),
            ap_listing(all.take(i as int), ssid@) == ApListing::Found(ap_views(r@)),
        decreases ls.len() - i,
    {
        assert(all.take(i + 1).drop_last() == all.take(i as int));
        assert(all.take(i + 1).last() == ls@[i as int]@);
        let f = split_fields(ls[i].as_slice());
        let ghost fs = nmcli_fields(all[i as int]);
        assert(views(f@) == fs);
        if f.len() >= 4 {
            assert(f@[0]@ == fs[0] && f@[1]@ == fs[1] && f@[2]@ == fs[2] && f@[3]@ == fs[3]);
            let name = trim(f[0].as_slice());
            if same_chars(name.as_slice(), want.as_slice()) {
                let band_text = trim(f[2].as_slice());
                let band = match AccessPointBand::from_chars(band_text.as_slice()) {
                    Ok(b) => b,
                    Err(e) => {
                        assert(ap_listing(all.take(i + 1), ssid@) == ApListing::BadBand(band_text@));
                        proof { lemma_listing_stays_failed(all, i as int + 1, ssid@); }
                        return Err(e);
                    },
                };
                let sec_text = trim(f[3].as_slice());
                let security = match AccessPointSecurity::from_chars(sec_text.as_slice()) {
                    Ok(s) => s,
                    Err(e) => {
                        assert(ap_listing(all.take(i + 1), ssid@) == ApListing::BadSecurity(
                            sec_text@,
                        ));
                        proof { lemma_listing_stays_failed(all, i as int + 1, ssid@); }
                        return Err(e);
                    },
                };
                let ap = AccessPoint {
                    ssid: string_of(f[0].as_slice()),
                    bssid: string_of(f[1].as_slice()),
                    band,
                    security,
                };
                proof {
                    assert(ap_views(r@.push(ap)) =~= ap_views(r@).push(ap_view(ap)));
                }
                r.push(ap);
            }
        }
        i = i + 1;
    }
    assert(all.take(ls.len() as int) == all);
    Ok(r)
}

/// Once the reading of a listing has failed, reading more lines keeps the
/// failure.
pub proof fn lemma_listing_stays_failed(ls: Seq<Seq<char>>, i: int, ssid: Seq<char>)
    requires
        0 <= i <= ls.len(),
        !(ap_listing(ls.take(i), ssid) is Found),
    ensures
        ap_listing(ls, ssid) == ap_listing(ls.take(i), ssid),
    decreases ls.len() - i,
{
    if i < ls.len() {
        assert(ls.take(i + 1).drop_last() == ls.take(i));
        lemma_listing_stays_failed(ls, i + 1, ssid);
    } else {
        assert(ls.take(i) == ls);
    }
}


/// Some access point of `aps` is on band `b`.
pub open spec fn has_band(aps: Seq<AccessPoint>, b: AccessPointBand) -> bool {
    exists|i: int| 0 <= i < aps.len() && #[trigger] aps[i].band == b
}

/// The texts offered when a band is chosen: `"auto"`, then the label of each
/// band that some access point is on, from 2.4 GHz up.
pub open spec fn band_menu(aps: Seq<AccessPoint>) -> Seq<Seq<char>> {
    seq!["auto"@] + (if has_band(aps, AccessPointBand::B2_4GHz) {
        seq![band_label(AccessPointBand::B2_4GHz)]
    } else {
        Seq::empty()
    }) + (if has_band(aps, AccessPointBand::B5GHz) {
        seq![band_label(AccessPointBand::B5GHz)]
    } else {
        Seq::empty()
    }) + (if has_band(aps, AccessPointBand::B6GHz) {
        seq![band_label(AccessPointBand::B6GHz)]
    } else {
        Seq::empty()
    })
}

/// Whether some access point of `aps` is on band `b`.
fn any_on_band(aps: &Vec<AccessPoint>, b: AccessPointBand) -> (r: bool)
    ensures
        r == has_band(aps@, b),
{
    let mut i: usize = 0;
    while i < aps.len()
        invariant
            0 <= i <= aps.len(),
            forall|j: int| 0 <= j < i ==> aps@[j].band != b,
        decreases aps.len() - i,
    {
        if aps[i].band == b {
            return true;
        }
        i = i + 1;
    }
    false
}

/// The bands to offer for the access points `aps`: none when there is at
/// most one access point (the band is then chosen automatically), else
/// `band_menu`.
pub fn band_choices(aps: &Vec<AccessPoint>) -> (r: Option<Vec<String>>)
    ensures
        aps.len() <= 1 ==> r is None,
        aps.len() > 1 ==> (r matches Some(v) && texts(v@) == band_menu(aps@)),
{
    if aps.len() <= 1 {
        return None;
    }
    let mut options: Vec<String> = Vec::new();
    options.push("auto".to_owned());
    let ghost menu = seq!["auto"@];
    assert(texts(options@) =~= menu);
    let bands = [AccessPointBand::B2_4GHz, AccessPointBand::B5GHz, AccessPointBand::B6GHz];
    let mut k: usize = 0;
    while k < 3
        invariant
            0 <= k <= 3,
            bands@ == seq![AccessPointBand::B2_4GHz, AccessPointBand::B5GHz, AccessPointBand::B6GHz],
            texts(options@) == seq!["auto"@] + (if k > 0 && has_band(aps@, AccessPointBand::B2_4GHz) {
                seq![band_label(AccessPointBand::B2_4GHz)]
            } else {
                Seq::empty()
            }) + (if k > 1 && has_band(aps@, AccessPointBand::B5GHz) {
                seq![band_label(AccessPointBand::B5GHz)]
            } else {
                Seq::empty()
            }) + (if k > 2 && has_band(aps@, AccessPointBand::B6GHz) {
                seq![band_label(AccessPointBand::B6GHz)]
            } else {
                Seq::empty()
            }),
        decreases 3 - k,
    {
        let b = bands[k];
        if any_on_band(aps, b) {
            let label = b.as_str().to_owned();
            proof {
                assert(texts(options@.push(label)) =~= texts(options@).push(label@));
            }
            options.push(label);
        }
        k = k + 1;
        proof {
            let e = Seq::<Seq<char>>::empty();
            assert(e + e == e);
            assert(seq!["auto"@] + e == seq!["auto"@]);
        }
    }
    assert(texts(options@) =~= band_menu(aps@));
    Some(options)
}

/// The access points of `aps` on band `b`, in order.
pub open spec fn on_band(aps: Seq<AccessPoint>, b: AccessPointBand) -> Seq<AccessPoint> {
    aps.filter(|ap: AccessPoint| ap.band == b)
}

/// The band choice `selected`, taken from `band_menu`, applied to `aps`:
/// `"auto"` keeps every access point; a band label keeps those on that band.
pub fn apply_band_choice(aps: Vec<AccessPoint>, selected: &str) -> (r: Result<
    (BandSelection, Vec<AccessPoint>),
    WifiError,
>)
    ensures
        selected@ == "auto"@ ==> (r matches Ok((sel, kept)) && sel == BandSelection::Auto && kept@
            == aps@),
        selected@ != "auto"@ ==> match band_of_label(selected@) {
            Some(b) => (r matches Ok((sel, kept)) && sel == BandSelection::Specific(b) && kept@
                == on_band(aps@, b)),
            None => r matches Err(WifiError::UnknownBand(t)) && t@ == selected@,
        },
{
    let v = chars_of(selected);
    if is_text(v.as_slice(), "auto") {
        return Ok((BandSelection::Auto, aps));
    }
    let band = AccessPointBand::from_chars(v.as_slice())?;
    let mut kept: Vec<AccessPoint> = Vec::new();
    let mut i: usize = 0;
    while i < aps.len()
        invariant
            0 <= i <= aps.len(),
            kept@ == on_band(aps@.take(i as int), band),
        decreases aps.len() - i,
    {
        proof {
            reveal_with_fuel(Seq::<AccessPoint>::filter, 1);
            assert(aps@.take(i + 1).drop_last() == aps@.take(i as int));
        }
        if aps[i].band == band {
            let ap = aps[i].clone();
            kept.push(ap);
        }
        i = i + 1;
    }
    proof {
        assert(aps@.take(aps.len() as int) == aps@);
    }
    Ok((BandSelection::Specific(band), kept))
}

/// How the access point of a connection is found.
#[derive(Debug, PartialEq, Eq)]
pub enum ApChoice {
    /// No band was chosen: the connection goes by SSID.
    Auto,
    /// The only access point on the band.
    Chosen(AccessPoint),
    /// Ask which of these BSSIDs.
    Ask(Vec<String>),
}

/// The BSSIDs of `aps`, in order.
pub open spec fn bssids(aps: Seq<AccessPoint>) -> Seq<Seq<char>> {
    aps.map_values(|ap: AccessPoint| ap.bssid@)
}

/// The access point decision after a band choice: automatic band means no
/// access point; with a band, the only access point when there is one, an
/// error when there is none, else a question among the BSSIDs.
pub fn access_point_choice(band_selection: &BandSelection, aps: &Vec<AccessPoint>) -> (r: Result<
    ApChoice,
    WifiError,
>)
    ensures
        *band_selection == BandSelection::Auto ==> r == Ok::<ApChoice, WifiError>(ApChoice::Auto),
        *band_selection != BandSelection::Auto && aps.len() == 0 ==> r == Err::<ApChoice, WifiError>(
            WifiError::NoAccessPoint,
        ),
        *band_selection != BandSelection::Auto && aps.len() == 1 ==> r == Ok::<ApChoice, WifiError>(
            ApChoice::Chosen(aps@[0]),
        ),
        *band_selection != BandSelection::Auto && aps.len() > 1 ==> (r matches Ok(ApChoice::Ask(v))
            && texts(v@) == bssids(aps@)),
{
    if let BandSelection::Auto = band_selection {
        return Ok(ApChoice::Auto);
    }
    if aps.len() == 0 {
        return Err(WifiError::NoAccessPoint);
    }
    if aps.len() == 1 {
        return Ok(ApChoice::Chosen(aps[0].clone()));
    }
    let mut v: Vec<String> = Vec::new();
    let mut i: usize = 0;
    while i < aps.len()
        invariant
            0 <= i <= aps.len(),
            texts(v@) == bssids(aps@.take(i as int)),
        decreases aps.len() - i,
    {
        let b = aps[i].bssid.clone();
        proof {
            assert(texts(v@.push(b)) =~= texts(v@).push(b@));
            assert(bssids(aps@.take(i + 1)) =~= bssids(aps@.take(i as int)).push(aps@[i as int].bssid@));
        }
        v.push(b);
        i = i + 1;
    }
    assert(aps@.take(aps.len() as int) == aps@);
    Ok(ApChoice::Ask(v))
}

/// The first access point of `aps` whose BSSID is `selected`.
pub fn find_access_point(aps: &Vec<AccessPoint>, selected: &str) -> (r: Result<AccessPoint, WifiError>)
    ensures
        match r {
            Ok(ap) => exists|i: int|
                0 <= i < aps.len() && aps@[i] == ap && ap.bssid@ == selected@ && forall|j: int|
                    0 <= j < i ==> aps@[j].bssid@ != selected@,
            Err(e) => e == WifiError::AccessPointNotFound && forall|j: int|
                0 <= j < aps.len() ==> aps@[j].bssid@ != selected@,
        },
{
    let want = chars_of(selected);
    let mut i: usize = 0;
    while i < aps.len()
        invariant
            0 <= i <= aps.len(),
            want@ == selected@,
            forall|j: int| 0 <= j < i ==> aps@[j].bssid@ != selected@,
        decreases aps.len() - i,
    {
        let b = chars_of(aps[i].bssid.as_str());
        if same_chars(b.as_slice(), want.as_slice()) {
            return Ok(aps[i].clone());
        }
        i = i + 1;
    }
    Err(WifiError::AccessPointNotFound)
}

/// Whether joining needs no password: open and OWE networks.
pub open spec fn is_open(s: AccessPointSecurity) -> bool {
    s == AccessPointSecurity::FREE || s == AccessPointSecurity::OWE
}

/// How to join a network: the `nmcli` target (a BSSID or an SSID), the SSID
/// whose saved connection a password replaces, and whether a password is
/// asked.
#[derive(Debug, Clone, PartialEq, Eq)]
pub struct ConnectPlan {
    pub target: String,
    pub ssid: String,
    pub needs_password: bool,
}

/// The joining plan: a chosen access point is joined by its BSSID; without
/// one, the first access point of the network is joined by its SSID. A
/// password is asked unless the network is open or OWE.
pub fn connect_plan(selected: Option<&AccessPoint>, aps: &Vec<AccessPoint>) -> (r: ConnectPlan)
    requires
        selected is Some || aps.len() > 0,
    ensures
        match selected {
            Some(ap) => r.target@ == ap.bssid@ && r.ssid@ == ap.ssid@ && r.needs_password == !is_open(
                ap.security,
            ),
            None => r.target@ == aps@[0].ssid@ && r.ssid@ == aps@[0].ssid@ && r.needs_password
                == !is_open(aps@[0].security),
        },
        ({
            let security = match selected {
                Some(ap) => ap.security,
                None => aps@[0].security,
            };
            &&& security == AccessPointSecurity::FREE ==> !r.needs_password
            &&& security == AccessPointSecurity::OWE ==> !r.needs_password
            &&& security != AccessPointSecurity::FREE && security != AccessPointSecurity::OWE
                ==> r.needs_password
        }),
{
    match selected {
        Some(ap) => ConnectPlan {
            target: ap.bssid.clone(),
            ssid: ap.ssid.clone(),
            needs_password: !matches!(ap.security, AccessPointSecurity::FREE | AccessPointSecurity::OWE),
        },
        None => ConnectPlan {
            target: aps[0].ssid.clone(),
            ssid: aps[0].ssid.clone(),
            needs_password: !matches!(aps[0].security, AccessPointSecurity::FREE | AccessPointSecurity::OWE),
        },
    }
}

/// A network is joined without a password exactly when `nmcli` reports no
/// security for it (an empty security text) or OWE; every other security
/// text that `nmcli` gives asks for a password.
pub proof fn law_password_by_security_text(t: Seq<char>)
    ensures
        security_of_label(t) matches Some(s) ==> (is_open(s) <==> (t == ""@ || t == "OWE"@)),
        t == ""@ ==> security_of_label(t) == Some(AccessPointSecurity::FREE) && is_open(
            AccessPointSecurity::FREE,
        ),
        t == "OWE"@ ==> security_of_label(t) == Some(AccessPointSecurity::OWE) && is_open(
            AccessPointSecurity::OWE,
        ),
{
    reveal_strlit("");
    reveal_strlit("WEP");
    reveal_strlit("WPA1");
    reveal_strlit("WPA2");
    reveal_strlit("WPA3");
    reveal_strlit("WPA2 WPA3");
    reveal_strlit("WPA1 WPA2");
    reveal_strlit("WPA1 WPA2 WPA3");
    reveal_strlit("OWE");
    assert(""@.len() == 0);
    assert("OWE"@.len() == 3 && "OWE"@[0] == 'O');
    assert("WEP"@[0] == 'W');
    assert("WPA1"@.len() == 4 && "WPA2"@.len() == 4 && "WPA3"@.len() == 4);
    assert("WPA2 WPA3"@.len() == 9 && "WPA1 WPA2"@.len() == 9);
    assert("WPA1 WPA2 WPA3"@.len() == 14);
}

/// The arguments of `sudo` that join `target`: `nmcli device wifi connect
/// <target>`, followed by `password <password>` when there is one.
pub fn connect_command(target: &str, password: Option<&str>) -> (r: Vec<String>)
    ensures
        texts(r@) == seq!["nmcli"@, "device"@, "wifi"@, "connect"@, target@] + match password {
            Some(p) => seq!["password"@, p@],
            None => Seq::empty(),
        },
{
    let mut r = strings_from(&["nmcli", "device", "wifi", "connect", target]);
    proof {
        let l = seq!["nmcli", "device", "wifi", "connect", target];
        assert(l.map_values(|s: &str| s@) =~= seq!["nmcli"@, "device"@, "wifi"@, "connect"@, target@]);
    }
    match password {
        Some(p) => {
            let a = "password".to_owned();
            let b = p.to_owned();
            proof {
                assert(texts(r@.push(a)) =~= texts(r@).push(a@));
                assert(texts(r@.push(a).push(b)) =~= texts(r@.push(a)).push(b@));
            }
            r.push(a);
            r.push(b);
        },
        None => {
            assert(texts(r@) + Seq::empty() == texts(r@));
        },
    }
    r
}

impl BandSelection {
    /// The text of the selection: `"auto"` or the band's label.
    pub fn to_text(&self) -> (s: String)
        ensures
            s@ == match *self {
                BandSelection::Auto => "auto"@,
                BandSelection::Specific(b) => band_label(b),
            },
    {
        match self {
            BandSelection::Auto => "auto".to_owned(),
            BandSelection::Specific(band) => band.as_str().to_owned(),
        }
    }
}


/// The fields `f` (`DEVICE,TYPE,STATE`) describe a connected Wi-Fi device.
pub open spec fn is_active_wifi(f: Seq<Seq<char>>) -> bool {
    f.len() >= 3 && f[1] == "wifi"@ && has_prefix(f[2], "connected"@)
}

/// The name of the first connected Wi-Fi device among the lines `ls`.
pub open spec fn first_active_wifi(ls: Seq<Seq<char>>) -> Option<Seq<char>>
    decreases ls.len(),
{
    if ls.len() == 0 {
        None
    } else if is_active_wifi(nmcli_fields(ls[0])) {
        Some(nmcli_fields(ls[0])[0])
    } else {
        first_active_wifi(ls.drop_first())
    }
}

/// The first connected Wi-Fi device in the output of `nmcli -t -e yes -f
/// DEVICE,TYPE,STATE device status`, if any.
pub fn active_wifi_device(output: &str) -> (r: Option<String>)
    ensures
        match first_active_wifi(line_list(output@)) {
            Some(d) => r matches Some(s) && s@ == d,
            None => r is None,
        },
{
    let v = chars_of(output);
    let ls = split_lines(v.as_slice());
    let ghost all = views(ls@);
    let wifi = chars_of("wifi");
    let connected = chars_of("connected");
    let mut i: usize = 0;
    assert(all.skip(0) == all);
    while i < ls.len()
        invariant
            0 <= i <= ls.len(),
            all == views(ls@),
            all == line_list(output@),
            wifi@ == "wifi"@,
            connected@ == "connected"@,
            first_active_wifi(all.skip(i as int)) == first_active_wifi(all),
        decreases ls.len() - i,
    {
        let f = split_fields(ls[i].as_slice());
        let ghost fs = nmcli_fields(all[i as int]);
        assert(views(f@) == fs);
        assert(all.skip(i as int)[0] == all[i as int]);
        if f.len() >= 3 && same_chars(f[1].as_slice(), wifi.as_slice()) && starts_with(
            f[2].as_slice(),
            connected.as_slice(),
        ) {
            assert(f@[0]@ == fs[0]);
            return Some(string_of(f[0].as_slice()));
        }
        assert(all.skip(i as int).drop_first() == all.skip(i + 1));
        i = i + 1;
    }
    assert(all.skip(i as int) =~= Seq::<Seq<char>>::empty());
    None
}

/// Whether some line of `ls`, trimmed, is `name`.
pub open spec fn has_trimmed_line(ls: Seq<Seq<char>>, name: Seq<char>) -> bool {
    exists|i: int| 0 <= i < ls.len() && trimmed(#[trigger] ls[i]) == name
}

/// The saved connection named `ssid` in the output of `nmcli -t -f NAME
/// connection show` (one name per line, compared trimmed), if there is one.
pub fn existing_connection(output: &str, ssid: &str) -> (r: Option<String>)
    ensures
        has_trimmed_line(line_list(output@), ssid@) ==> (r matches Some(n) && n@ == ssid@),
        !has_trimmed_line(line_list(output@), ssid@) ==> r is None,
{
    let v = chars_of(output);
    let ls = split_lines(v.as_slice());
    let want = chars_of(ssid);
    let ghost all = views(ls@);
    let mut i: usize = 0;
    while i < ls.len()
        invariant
            0 <= i <= ls.len(),
            all == views(ls@),
            all == line_list(output@),
            want@ == ssid@,
            forall|j: int| 0 <= j < i ==> trimmed(#[trigger] all[j]) != ssid@,
        decreases ls.len() - i,
    {
        let name = trim(ls[i].as_slice());
        if same_chars(name.as_slice(), want.as_slice()) {
            assert(trimmed(all[i as int]) == ssid@);
            return Some(string_of(name.as_slice()));
        }
        i = i + 1;
    }
    None
}

impl WifiError {
    /// The message that reports the error.
    pub fn message(&self) -> (m: String)
        ensures
            m@ == match *self {
                WifiError::UnknownBand(t) => "unknown band: "@ + t@,
                WifiError::UnknownSecurity(t) => "unknown security: "@ + t@,
                WifiError::NoNetworks => "no Wi-Fi networks found"@,
                WifiError::NoAccessPoint => "no access point found"@,
                WifiError::AccessPointNotFound => "selected access point not found"@,
                WifiError::NoActiveDevice => "no active Wi-Fi device"@,
            },
    {
        match self {
            WifiError::UnknownBand(t) => {
                let mut m = "unknown band: ".to_owned();
                m.append(t.as_str());
                m
            },
            WifiError::UnknownSecurity(t) => {
                let mut m = "unknown security: ".to_owned();
                m.append(t.as_str());
                m
            },
            WifiError::NoNetworks => "no Wi-Fi networks found".to_owned(),
            WifiError::NoAccessPoint => "no access point found".to_owned(),
            WifiError::AccessPointNotFound => "selected access point not found".to_owned(),
            WifiError::NoActiveDevice => "no active Wi-Fi device".to_owned(),
        }
    }
}

/// What a Wi-Fi request runs.
#[derive(Debug, Clone, PartialEq, Eq)]
pub enum WifiPlan {
    /// The interactive connection.
    Connect,
    /// Run `nmcli` with `args`; show the devices of its output.
    Status { args: Vec<String>, json: bool },
    /// Run `nmcli` with `rescan` first when there is one, then with `args`;
    /// show the networks of its output.
    Scan { rescan: Option<Vec<String>>, args: Vec<String>, json: bool },
    /// Run `nmcli` with `args`; show the connections of its output.
    Saved { args: Vec<String>, json: bool },
    /// Disconnect `device`, or, when there is none, the device that
    /// `active_wifi_device` finds in the output of `nmcli` with `lookup`.
    Disconnect { device: Option<String>, lookup: Vec<String> },
    /// Run `nmcli` with `args` to switch the radio on or off.
    Radio { args: Vec<String>, enabled: bool },
}

/// The texts of a list of literals.
pub open spec fn lit_texts(l: Seq<&str>) -> Seq<Seq<char>> {
    l.map_values(|s: &str| s@)
}

/// The `nmcli` arguments of the device status.
pub open spec fn status_args() -> Seq<Seq<char>> {
    seq!["-t"@, "-e"@, "yes"@, "-f"@, "DEVICE,TYPE,STATE,CONNECTION"@, "device"@, "status"@]
}

/// The `nmcli` arguments of a rescan.
pub open spec fn rescan_args() -> Seq<Seq<char>> {
    seq!["device"@, "wifi"@, "rescan"@]
}

/// The `nmcli` arguments of the network list.
pub open spec fn scan_args() -> Seq<Seq<char>> {
    seq![
        "-t"@,
        "-e"@,
        "yes"@,
        "-f"@,
        "IN-USE,SSID,BSSID,SIGNAL,SECURITY,CHAN,BAND"@,
        "device"@,
        "wifi"@,
        "list"@,
    ]
}

/// The `nmcli` arguments of the saved connections.
pub open spec fn saved_args() -> Seq<Seq<char>> {
    seq!["-t"@, "-e"@, "yes"@, "-f"@, "NAME,UUID,TYPE,DEVICE"@, "connection"@, "show"@]
}

/// The `nmcli` arguments that find the active Wi-Fi device.
pub open spec fn lookup_args() -> Seq<Seq<char>> {
    seq!["-t"@, "-e"@, "yes"@, "-f"@, "DEVICE,TYPE,STATE"@, "device"@, "status"@]
}

/// The `nmcli` arguments that switch the radio.
pub open spec fn radio_args(enabled: bool) -> Seq<Seq<char>> {
    seq!["radio"@, "wifi"@, if enabled { "on"@ } else { "off"@ }]
}

/// The strings of the literals `lits`, with their texts stated.
fn arg_list(lits: &[&str]) -> (r: Vec<String>)
    ensures
        texts(r@) == lit_texts(lits@),
{
    strings_from(lits)
}

/// What each Wi-Fi request runs (see `WifiPlan`).
pub fn execute(command: &WifiCommands) -> (r: WifiPlan)
    ensures
        match *command {
            WifiCommands::Connect => r == WifiPlan::Connect,
            WifiCommands::Status { json } => r matches WifiPlan::Status { args, json: j } && j
                == json && texts(args@) == status_args(),
            WifiCommands::Scan { rescan, json } => r matches WifiPlan::Scan {
                rescan: re,
                args,
                json: j,
            } && j == json && texts(args@) == scan_args() && (rescan <==> re is Some) && (
            re matches Some(a) ==> texts(a@) == rescan_args()),
            WifiCommands::Saved { json } => r matches WifiPlan::Saved { args, json: j } && j == json
                && texts(args@) == saved_args(),
            WifiCommands::Disconnect { device } => r matches WifiPlan::Disconnect {
                device: d,
                lookup,
            } && d == device && texts(lookup@) == lookup_args(),
            WifiCommands::On => r matches WifiPlan::Radio { args, enabled } && enabled && texts(
                args@,
            ) == radio_args(true),
            WifiCommands::Off => r matches WifiPlan::Radio { args, enabled } && !enabled && texts(
                args@,
            ) == radio_args(false),
        },
{
    match command {
        WifiCommands::Connect => WifiPlan::Connect,
        WifiCommands::Status { json } => {
            let args = arg_list(
                &["-t", "-e", "yes", "-f", "DEVICE,TYPE,STATE,CONNECTION", "device", "status"],
            );
            assert(texts(args@) =~= status_args());
            WifiPlan::Status { args, json: *json }
        },
        WifiCommands::Scan { rescan, json } => {
            let re = if *rescan {
                let a = arg_list(&["device", "wifi", "rescan"]);
                assert(texts(a@) =~= rescan_args());
                Some(a)
            } else {
                None
            };
            let args = arg_list(
                &[
                    "-t",
                    "-e",
                    "yes",
                    "-f",
                    "IN-USE,SSID,BSSID,SIGNAL,SECURITY,CHAN,BAND",
                    "device",
                    "wifi",
                    "list",
                ],
            );
            assert(texts(args@) =~= scan_args());
            WifiPlan::Scan { rescan: re, args, json: *json }
        },
        WifiCommands::Saved { json } => {
            let args = arg_list(
                &["-t", "-e", "yes", "-f", "NAME,UUID,TYPE,DEVICE", "connection", "show"],
            );
            assert(texts(args@) =~= saved_args());
            WifiPlan::Saved { args, json: *json }
        },
        WifiCommands::Disconnect { device } => {
            let lookup = arg_list(
                &["-t", "-e", "yes", "-f", "DEVICE,TYPE,STATE", "device", "status"],
            );
            assert(texts(lookup@) =~= lookup_args());
            WifiPlan::Disconnect { device: device.clone(), lookup }
        },
        WifiCommands::On => {
            let args = arg_list(&["radio", "wifi", "on"]);
            assert(texts(args@) =~= radio_args(true));
            WifiPlan::Radio { args, enabled: true }
        },
        WifiCommands::Off => {
            let args = arg_list(&["radio", "wifi", "off"]);
            assert(texts(args@) =~= radio_args(false));
            WifiPlan::Radio { args, enabled: false }
        },
    }
}

/// The `nmcli` arguments that disconnect `device`.
pub fn disconnect_args(device: &str) -> (r: Vec<String>)
    ensures
        texts(r@) == seq!["device"@, "disconnect"@, device@],
{
    let r = arg_list(&["device", "disconnect", device]);
    assert(texts(r@) =~= seq!["device"@, "disconnect"@, device@]);
    r
}


/// Each text of `v` sorts before every later one.
pub open spec fn strictly_sorted(v: Seq<Seq<char>>) -> bool {
    forall|i: int, j: int| 0 <= i < j < v.len() ==> text_lt(#[trigger] v[i], #[trigger] v[j])
}

/// `x` is an SSID that the lines `ls` offer: some line, trimmed, is `x`, and
/// `x` is not empty.
pub open spec fn is_ssid_choice(ls: Seq<Seq<char>>, x: Seq<char>) -> bool {
    x.len() > 0 && exists|i: int| 0 <= i < ls.len() && trimmed(#[trigger] ls[i]) == x
}

/// Adds `t` to the strictly sorted `sorted` unless it is there already.
fn insert_sorted(sorted: &mut Vec<Vec<char>>, t: Vec<char>)
    requires
        strictly_sorted(views(old(sorted)@)),
    ensures
        strictly_sorted(views(final(sorted)@)),
        forall|x: Seq<char>|
            views(final(sorted)@).contains(x) <==> (views(old(sorted)@).contains(x) || x == t@),
{
    let ghost o = views(sorted@);
    let mut p: usize = 0;
    while p < sorted.len() && text_less(sorted[p].as_slice(), t.as_slice())
        invariant
            0 <= p <= sorted.len(),
            o == views(sorted@),
            forall|j: int| 0 <= j < p ==> text_lt(#[trigger] o[j], t@),
        decreases sorted.len() - p,
    {
        p = p + 1;
    }
    if p < sorted.len() && same_chars(sorted[p].as_slice(), t.as_slice()) {
        assert(o.contains(t@)) by {
            assert(o[p as int] == t@);
        }
        return;
    }
    proof {
        if p < o.len() {
            lemma_text_lt_total(o[p as int], t@);
        }
    }
    let ghost tv = t@;
    sorted.insert(p, t);
    proof {
        let n = views(sorted@);
        assert(n =~= o.insert(p as int, tv));
        assert forall|i: int, j: int| 0 <= i < j < n.len() implies text_lt(#[trigger] n[i], #[trigger] n[j]) by {
            if j < p {
            } else if j == p {
            } else if i < p {
                assert(n[j] == o[j - 1]);
            } else if i == p {
                assert(n[j] == o[j - 1]);
                if j - 1 > p {
                    lemma_text_lt_transitive(tv, o[p as int], o[j - 1]);
                }
            } else {
                assert(n[i] == o[i - 1]);
                assert(n[j] == o[j - 1]);
            }
        }
        assert forall|x: Seq<char>| n.contains(x) <==> (o.contains(x) || x == tv) by {
            if n.contains(x) {
                let k = choose|k: int| 0 <= k < n.len() && n[k] == x;
                if k < p {
                    assert(o[k] == x);
                } else if k > p {
                    assert(o[k - 1] == x);
                }
            }
            if o.contains(x) {
                let k = choose|k: int| 0 <= k < o.len() && o[k] == x;
                if k < p {
                    assert(n[k] == x);
                } else {
                    assert(n[k + 1] == x);
                }
            }
            if x == tv {
                assert(n[p as int] == x);
            }
        }
    }
}

/// The SSIDs to choose from in the output of `nmcli -t -f SSID device wifi
/// list`: the trimmed lines that are not empty, each once, in sorted order;
/// an error when there is none.
pub fn ssid_choices(output: &str) -> (r: Result<Vec<String>, WifiError>)
    ensures
        match r {
            Ok(v) => v.len() > 0 && strictly_sorted(texts(v@)) && forall|x: Seq<char>|
                texts(v@).contains(x) <==> is_ssid_choice(line_list(output@), x),
            Err(e) => e == WifiError::NoNetworks && forall|x: Seq<char>|
                !is_ssid_choice(line_list(output@), x),
        },
{
    let v = chars_of(output);
    let ls = split_lines(v.as_slice());
    let ghost all = views(ls@);
    let mut sorted: Vec<Vec<char>> = Vec::new();
    let mut i: usize = 0;
    while i < ls.len()
        invariant
            0 <= i <= ls.len(),
            all == views(ls@),
            all == line_list(output@),
            strictly_sorted(views(sorted@)),
            forall|x: Seq<char>|
                views(sorted@).contains(x) <==> is_ssid_choice(all.take(i as int), x),
        decreases ls.len() - i,
    {
        let t = trim(ls[i].as_slice());
        let ghost before = views(sorted@);
        if t.len() > 0 {
            insert_sorted(&mut sorted, t);
        }
        proof {
            let pre = all.take(i as int);
            let post = all.take(i + 1);
            assert forall|x: Seq<char>|
                views(sorted@).contains(x) <==> is_ssid_choice(post, x) by {
                if is_ssid_choice(post, x) {
                    let k = choose|k: int| 0 <= k < post.len() && trimmed(#[trigger] post[k]) == x;
                    if k < i {
                        assert(pre[k] == post[k]);
                        assert(is_ssid_choice(pre, x));
                    }
                }
                if is_ssid_choice(pre, x) {
                    let k = choose|k: int| 0 <= k < pre.len() && trimmed(#[trigger] pre[k]) == x;
                    assert(post[k] == pre[k]);
                }
                if views(sorted@).contains(x) && !before.contains(x) {
                    assert(post[i as int] == all[i as int]);
                }
            }
        }
        i = i + 1;
    }
    assert(all.take(ls.len() as int) == all);
    if sorted.len() == 0 {
        assert forall|x: Seq<char>| !is_ssid_choice(all, x) by {
            if is_ssid_choice(all, x) {
                assert(!views(sorted@).contains(x));
            }
        }
        return Err(WifiError::NoNetworks);
    }
    let r = strings_of(&sorted);
    assert(texts(r@) == views(sorted@));
    assert(r.len() > 0) by {
        assert(texts(r@).len() == r@.len());
    }
    Ok(r)
}


impl DeviceStatus {
    /// The line that shows the device: `"<device>: <state> (<type>,
    /// <connection>)"`.
    pub fn summary(&self) -> (m: String)
        ensures
            m@ == self.device@ + ": "@ + self.state@ + " ("@ + self.kind@ + ", "@
                + self.connection@ + ")"@,
    {
        let mut m = self.device.clone();
        m.append(": ");
        m.append(self.state.as_str());
        m.append(" (");
        m.append(self.kind.as_str());
        m.append(", ");
        m.append(self.connection.as_str());
        m.append(")");
        m
    }
}

impl SavedConnection {
    /// The line that shows the connection: `"<name> (<type>, <device>)
    /// [<uuid>]"`.
    pub fn summary(&self) -> (m: String)
        ensures
            m@ == self.name@ + " ("@ + self.kind@ + ", "@ + self.device@ + ") ["@ + self.uuid@
                + "]"@,
    {
        let mut m = self.name.clone();
        m.append(" (");
        m.append(self.kind.as_str());
        m.append(", ");
        m.append(self.device.as_str());
        m.append(") [");
        m.append(self.uuid.as_str());
        m.append("]");
        m
    }
}

impl NetworkEntry {
    /// The line that shows the network: a `'*'` when in use (else a space),
    /// the signal in percent (0 when unknown), SSID, band and security.
    pub fn summary(&self) -> (m: String)
        ensures
            m@ == (if self.in_use {
                "*"@
            } else {
                " "@
            }) + " "@ + decimal(
                match self.signal {
                    Some(n) => n as nat,
                    None => 0,
                },
            ) + "% "@ + self.ssid@ + " "@ + self.band@ + " "@ + self.security@,
    {
        let mut m = if self.in_use {
            "*".to_owned()
        } else {
            " ".to_owned()
        };
        m.append(" ");
        let signal: u32 = match self.signal {
            Some(n) => n,
            None => 0,
        };
        let mut digits: Vec<char> = Vec::new();
        push_decimal(&mut digits, signal as u128);
        let d = string_of(digits.as_slice());
        m.append(d.as_str());
        m.append("% ");
        m.append(self.ssid.as_str());
        m.append(" ");
        m.append(self.band.as_str());
        m.append(" ");
        m.append(self.security.as_str());
        m
    }
}

} // verus!
