//! System metrics from `/proc`: which metrics a request asks for, and the
//! reading of `/proc/stat`, `/proc/meminfo`, `/proc/net/dev` and
//! `/proc/mounts`. Rates and percentages are floating point and stay with
//! the caller.
use vstd::prelude::*;

use crate::cli::MetricsStatusArgs;
use crate::text::{
    chars_of, has_prefix, line_list, parse_u64, parse_unsigned, replace_all, replaced,
    same_chars, split_lines, split_once, split_once_at, split_words, starts_with, string_of,
    trim, trimmed, views, word_list,
};

verus! {

/// How the metrics are shown.
#[derive(Debug, Clone, Copy, PartialEq, Eq, Structural)]
pub enum MetricsFormat {
    Json,
    Short,
    Human { verbose: bool },
}

/// The metrics a snapshot reads, whether it samples twice (for CPU usage
/// and network rates), and how it shows them.
#[derive(Debug, Clone, Copy, PartialEq, Eq, Structural)]
pub struct MetricsSelection {
    pub cpu: bool,
    pub memory: bool,
    pub storage: bool,
    pub network: bool,
    pub temperatures: bool,
    pub sample: bool,
    pub format: MetricsFormat,
}

/// No metric is named: all are read.
pub open spec fn wants_all(args: MetricsStatusArgs) -> bool {
    !(args.cpu || args.memory || args.storage || args.network || args.temperature)
}

/// What a snapshot reads: every metric when none is named, else the named
/// ones, with temperatures also for CPU; it samples when CPU or network is
/// read; JSON, then the short line, else the human report.
pub fn select_metrics(args: &MetricsStatusArgs) -> (r: MetricsSelection)
    ensures
        r.cpu == (wants_all(*args) || args.cpu),
        r.memory == (wants_all(*args) || args.memory),
        r.storage == (wants_all(*args) || args.storage),
        r.network == (wants_all(*args) || args.network),
        r.temperatures == (wants_all(*args) || args.temperature || args.cpu),
        r.sample == (r.cpu || r.network),
        r.format == if args.json {
            MetricsFormat::Json
        } else if args.short {
            MetricsFormat::Short
        } else {
            MetricsFormat::Human { verbose: args.verbose }
        },
{
    let all = !(args.cpu || args.memory || args.storage || args.network || args.temperature);
    let cpu = all || args.cpu;
    let network = all || args.network;
    MetricsSelection {
        cpu,
        memory: all || args.memory,
        storage: all || args.storage,
        network,
        temperatures: all || args.temperature || args.cpu,
        sample: cpu || network,
        format: if args.json {
            MetricsFormat::Json
        } else if args.short {
            MetricsFormat::Short
        } else {
            MetricsFormat::Human { verbose: args.verbose }
        },
    }
}

/// Cumulative CPU time in ticks: all of it, and the idle part.
#[derive(Debug, Clone, Copy, PartialEq, Eq, Structural, Default)]
pub struct CpuTicks {
    pub total: u64,
    pub idle: u64,
}

/// What went wrong in reading metrics.
#[derive(Debug, Clone, PartialEq, Eq)]
pub enum MetricsError {
    /// `/proc/stat` has no line.
    EmptyStat,
    /// A sum or a product of the counters does not fit in 64 bits.
    Overflow,
    /// No usable file system is mounted at the asked path.
    MountNotFound(String),
}

impl MetricsError {
    /// The message that reports the error.
    pub fn message(&self) -> (m: String)
        ensures
            m@ == match *self {
                MetricsError::EmptyStat => "/proc/stat is empty"@,
                MetricsError::Overflow => "counter overflow"@,
                MetricsError::MountNotFound(p) => "mount not found or unavailable: "@ + p@,
            },
    {
        match self {
            MetricsError::EmptyStat => "/proc/stat is empty".to_owned(),
            MetricsError::Overflow => "counter overflow".to_owned(),
            MetricsError::MountNotFound(p) => {
                let mut m = "mount not found or unavailable: ".to_owned();
                m.append(p.as_str());
                m
            },
        }
    }
}

/// The words of `ws` that are `u64` numbers, as numbers, in order.
pub open spec fn numbers(ws: Seq<Seq<char>>) -> Seq<nat>
    decreases ws.len(),
{
    if ws.len() == 0 {
        Seq::empty()
    } else {
        let k = numbers(ws.drop_last());
        match parse_unsigned(ws.last(), u64::MAX as nat) {
            Some(n) => k.push(n),
            None => k,
        }
    }
}

/// The sum of `v`.
pub open spec fn total(v: Seq<nat>) -> nat
    decreases v.len(),
{
    if v.len() == 0 {
        0
    } else {
        total(v.drop_last()) + v.last()
    }
}

/// `v[i]`, or zero past the end.
pub open spec fn at_or_zero(v: Seq<nat>, i: int) -> nat {
    if 0 <= i < v.len() {
        v[i]
    } else {
        0
    }
}

/// `ws` without its first word, if it has one.
pub open spec fn after_first(ws: Seq<Seq<char>>) -> Seq<Seq<char>> {
    if ws.len() > 0 {
        ws.drop_first()
    } else {
        ws
    }
}

/// The numbers of the first line of `/proc/stat` after its label.
pub open spec fn cpu_numbers(stat: Seq<char>) -> Seq<nat> {
    numbers(after_first(word_list(line_list(stat)[0])))
}

/// The `u64` numbers among the words `ws`, in order.
fn numbers_of(ws: &Vec<Vec<char>>, from: usize) -> (r: Vec<u64>)
    requires
        from <= ws.len(),
    ensures
        r@.map_values(|n: u64| n as nat) == numbers(views(ws@).skip(from as int)),
{
    let ghost all = views(ws@).skip(from as int);
    let mut r: Vec<u64> = Vec::new();
    let mut i = from;
    assert(all.take(0) =~= Seq::<Seq<char>>::empty());
    assert(r@.map_values(|n: u64| n as nat) =~= Seq::<nat>::empty());
    while i < ws.len()
        invariant
            from <= i <= ws.len(),
            all == views(ws@).skip(from as int),
            r@.map_values(|n: u64| n as nat) == numbers(all.take(i - from)),
        decreases ws.len() - i,
    {
        assert(all.take(i - from + 1).drop_last() == all.take(i - from));
        assert(all.take(i - from + 1).last() == ws@[i as int]@);
        match parse_u64(ws[i].as_slice()) {
            Some(n) => {
                proof {
                    assert(r@.push(n).map_values(|n: u64| n as nat) =~= r@.map_values(
                        |n: u64| n as nat,
                    ).push(n as nat));
                }
                r.push(n);
            },
            None => {},
        }
        i = i + 1;
    }
    assert(all.take(ws.len() - from) == all);
    r
}

/// The CPU ticks in `/proc/stat`: the first line's numbers after the `cpu`
/// label, all summed, and the idle and I/O-wait counters (the fourth and
/// fifth, zero when missing) summed; an error when the file has no line or a
/// sum does not fit in 64 bits.
pub fn parse_cpu_ticks(stat: &str) -> (r: Result<CpuTicks, MetricsError>)
    ensures
        line_list(stat@).len() == 0 ==> r == Err::<CpuTicks, MetricsError>(MetricsError::EmptyStat),
        line_list(stat@).len() > 0 ==> ({
            let v = cpu_numbers(stat@);
            let t = total(v);
            let idle = at_or_zero(v, 3) + at_or_zero(v, 4);
            if t <= u64::MAX && idle <= u64::MAX {
                r == Ok::<CpuTicks, MetricsError>(CpuTicks { total: t as u64, idle: idle as u64 })
            } else {
                r == Err::<CpuTicks, MetricsError>(MetricsError::Overflow)
            }
        }),
{
    let v = chars_of(stat);
    let ls = split_lines(v.as_slice());
    if ls.len() == 0 {
        return Err(MetricsError::EmptyStat);
    }
    let ws = split_words(ls[0].as_slice());
    let from: usize = if ws.len() > 0 { 1 } else { 0 };
    let nums = numbers_of(&ws, from);
    let ghost nv = nums@.map_values(|n: u64| n as nat);
    assert(nv == cpu_numbers(stat@)) by {
        assert(views(ls@)[0] == line_list(stat@)[0]);
        if ws.len() > 0 {
            assert(views(ws@).skip(1) == views(ws@).drop_first());
        } else {
            assert(views(ws@).skip(0) == views(ws@));
        }
    }
    let mut sum: u64 = 0;
    let mut over = false;
    let mut i: usize = 0;
    while i < nums.len()
        invariant
            0 <= i <= nums.len(),
            nv == nums@.map_values(|n: u64| n as nat),
            !over ==> sum == total(nv.take(i as int)),
            over ==> total(nv.take(i as int)) > u64::MAX,
        decreases nums.len() - i,
    {
        assert(nv.take(i + 1).drop_last() == nv.take(i as int));
        assert(nv.take(i + 1).last() == nums@[i as int] as nat);
        if !over {
            if sum > u64::MAX - nums[i] {
                over = true;
            } else {
                sum = sum + nums[i];
            }
        }
        i = i + 1;
    }
    assert(nv.take(nums.len() as int) == nv);
    if over {
        return Err(MetricsError::Overflow);
    }
    let a: u64 = if nums.len() > 3 { nums[3] } else { 0 };
    let b: u64 = if nums.len() > 4 { nums[4] } else { 0 };
    if a > u64::MAX - b {
        return Err(MetricsError::Overflow);
    }
    Ok(CpuTicks { total: sum, idle: a + b })
}


/// The map that reading the lines `ls` in order builds, where `entry` gives
/// the key and value of a line, if any, and a later line replaces an
/// earlier one of the same key (as `HashMap::insert` does).
pub open spec fn line_map<V>(ls: Seq<Seq<char>>, entry: spec_fn(Seq<char>) -> Option<(Seq<char>, V)>) -> Map<Seq<char>, V>
    decreases ls.len(),
{
    if ls.len() == 0 {
        Map::empty()
    } else {
        let m = line_map(ls.drop_last(), entry);
        match entry(ls.last()) {
            Some((k, v)) => m.insert(k, v),
            None => m,
        }
    }
}

/// `r` lists the map `m`: each key once, each with its value, every key of
/// the map present.
pub open spec fn pairs_hold<V>(r: Seq<(Vec<char>, V)>, m: Map<Seq<char>, V>) -> bool {
    &&& forall|i: int, j: int| 0 <= i < j < r.len() ==> (#[trigger] r[i]).0@ != (#[trigger] r[j]).0@
    &&& forall|i: int| 0 <= i < r.len() ==> m.contains_key((#[trigger] r[i]).0@) && m[r[i].0@] == r[i].1
    &&& forall|k: Seq<char>| #[trigger] m.contains_key(k) ==> exists|i: int| 0 <= i < r.len() && r[i].0@ == k
}

/// Sets `k` to `v` in the listed map `r`: replaces the value of `k` if it is
/// listed, else adds it.
fn upsert<V: Copy>(r: &mut Vec<(Vec<char>, V)>, k: Vec<char>, v: V, Ghost(m): Ghost<Map<Seq<char>, V>>)
    requires
        pairs_hold(old(r)@, m),
    ensures
        pairs_hold(final(r)@, m.insert(k@, v)),
{
    let mut p: usize = 0;
    while p < r.len() && !same_chars(r[p].0.as_slice(), k.as_slice())
        invariant
            0 <= p <= r.len(),
            forall|j: int| 0 <= j < p ==> (#[trigger] r@[j]).0@ != k@,
        decreases r.len() - p,
    {
        p = p + 1;
    }
    let ghost o = r@;
    let ghost kv = k@;
    if p < r.len() {
        assert(o[p as int].0@ == kv);
        r.set(p, (k, v));
        proof {
            let n = r@;
            let m2 = m.insert(kv, v);
            assert forall|i: int, j: int| 0 <= i < j < n.len() implies (#[trigger] n[i]).0@ != (#[trigger] n[j]).0@ by {
                if i == p {
                    assert(o[j].0@ != o[p as int].0@);
                } else if j == p {
                    assert(o[i].0@ != o[p as int].0@);
                } else {
                    assert(o[i].0@ != o[j].0@);
                }
            }
            assert forall|i: int| 0 <= i < n.len() implies m2.contains_key((#[trigger] n[i]).0@) && m2[n[i].0@] == n[i].1 by {
                if i != p {
                    assert(n[i] == o[i]);
                    if i < p {
                        assert(o[i].0@ != o[p as int].0@);
                    } else {
                        assert(o[p as int].0@ != o[i].0@);
                    }
                    assert(m.contains_key(o[i].0@));
                }
            }
            assert forall|key: Seq<char>| #[trigger] m2.contains_key(key) implies exists|i: int| 0 <= i < n.len() && n[i].0@ == key by {
                if key == kv {
                    assert(n[p as int].0@ == key);
                } else {
                    assert(m.contains_key(key));
                    let i = choose|i: int| 0 <= i < o.len() && o[i].0@ == key;
                    assert(i != p);
                    assert(n[i] == o[i]);
                }
            }
        }
    } else {
        r.push((k, v));
        proof {
            let n = r@;
            let m2 = m.insert(kv, v);
            assert forall|i: int, j: int| 0 <= i < j < n.len() implies (#[trigger] n[i]).0@ != (#[trigger] n[j]).0@ by {
                if j == o.len() {
                    assert(n[i] == o[i]);
                } else {
                    assert(n[i] == o[i]);
                    assert(n[j] == o[j]);
                }
            }
            assert forall|i: int| 0 <= i < n.len() implies m2.contains_key((#[trigger] n[i]).0@) && m2[n[i].0@] == n[i].1 by {
                if i < o.len() {
                    assert(n[i] == o[i]);
                    assert(m.contains_key(o[i].0@));
                }
            }
            assert forall|key: Seq<char>| #[trigger] m2.contains_key(key) implies exists|i: int| 0 <= i < n.len() && n[i].0@ == key by {
                if key == kv {
                    assert(n[o.len() as int].0@ == key);
                } else {
                    let i = choose|i: int| 0 <= i < o.len() && o[i].0@ == key;
                    assert(n[i] == o[i]);
                }
            }
        }
    }
}

/// The key and value of a `/proc/meminfo` line: the text before the first
/// `':'`, and the first word after it when that is a `u64` number.
pub open spec fn proc_entry(l: Seq<char>) -> Option<(Seq<char>, u64)> {
    match split_once_at(l, ':') {
        Some((k, rest)) => {
            let ws = word_list(rest);
            if ws.len() > 0 {
                match parse_unsigned(ws[0], u64::MAX as nat) {
                    Some(n) => Some((k, n as u64)),
                    None => None,
                }
            } else {
                None
            }
        },
        None => None,
    }
}

/// A counter of `/proc/meminfo`.
#[derive(Debug, Clone, PartialEq, Eq)]
pub struct ProcValue {
    pub key: String,
    pub value: u64,
}

/// The key of `e`, as the listing of a map has it.
pub open spec fn proc_pair(e: ProcValue) -> (Seq<char>, u64) {
    (e.key@, e.value)
}

/// `r` lists the map `m` (see `pairs_hold`).
pub open spec fn values_hold(r: Seq<ProcValue>, m: Map<Seq<char>, u64>) -> bool {
    &&& forall|i: int, j: int| 0 <= i < j < r.len() ==> (#[trigger] r[i]).key@ != (#[trigger] r[j]).key@
    &&& forall|i: int| 0 <= i < r.len() ==> m.contains_key((#[trigger] r[i]).key@) && m[r[i].key@] == r[i].value
    &&& forall|k: Seq<char>| #[trigger] m.contains_key(k) ==> exists|i: int| 0 <= i < r.len() && r[i].key@ == k
}

/// The counters that `/proc/meminfo` holds, each with the value of its last
/// line.
pub open spec fn proc_map(text: Seq<char>) -> Map<Seq<char>, u64> {
    line_map(line_list(text), |l: Seq<char>| proc_entry(l))
}

/// The counters of `/proc/meminfo` (see `proc_entry`): each key once, with
/// the value of its last line.
pub fn parse_proc_values(text: &str) -> (r: Vec<ProcValue>)
    ensures
        values_hold(r@, proc_map(text@)),
{
    let v = chars_of(text);
    let ls = split_lines(v.as_slice());
    let ghost all = views(ls@);
    let ghost f = |l: Seq<char>| proc_entry(l);
    let mut pairs: Vec<(Vec<char>, u64)> = Vec::new();
    let mut i: usize = 0;
    while i < ls.len()
        invariant
            0 <= i <= ls.len(),
            all == views(ls@),
            all == line_list(text@),
            f == |l: Seq<char>| proc_entry(l),
            pairs_hold(pairs@, line_map(all.take(i as int), f)),
        decreases ls.len() - i,
    {
        let ghost m = line_map(all.take(i as int), f);
        assert(all.take(i + 1).drop_last() == all.take(i as int));
        assert(all.take(i + 1).last() == ls@[i as int]@);
        if let Some((k, rest)) = split_once(ls[i].as_slice(), ':') {
            let ws = split_words(rest.as_slice());
            if ws.len() > 0 {
                assert(views(ws@)[0] == ws@[0]@);
                if let Some(n) = parse_u64(ws[0].as_slice()) {
                    upsert(&mut pairs, k, n, Ghost(m));
                }
            }
        }
        i = i + 1;
    }
    assert(all.take(ls.len() as int) == all);
    let ghost m = line_map(all, f);
    let mut r: Vec<ProcValue> = Vec::new();
    let mut j: usize = 0;
    while j < pairs.len()
        invariant
            0 <= j <= pairs.len(),
            pairs_hold(pairs@, m),
            r.len() == j,
            forall|t: int| 0 <= t < j ==> (#[trigger] r@[t]).key@ == pairs@[t].0@ && r@[t].value == pairs@[t].1,
        decreases pairs.len() - j,
    {
        r.push(ProcValue { key: string_of(pairs[j].0.as_slice()), value: pairs[j].1 });
        j = j + 1;
    }
    assert forall|a: int, b: int| 0 <= a < b < r.len() implies (#[trigger] r@[a]).key@ != (#[trigger] r@[b]).key@ by {
        assert(pairs@[a].0@ != pairs@[b].0@);
    }
    assert forall|a: int| 0 <= a < r.len() implies m.contains_key((#[trigger] r@[a]).key@) && m[r@[a].key@] == r@[a].value by {
        assert(m.contains_key(pairs@[a].0@));
    }
    assert forall|k: Seq<char>| #[trigger] m.contains_key(k) implies exists|a: int| 0 <= a < r.len() && r@[a].key@ == k by {
        let a = choose|a: int| 0 <= a < pairs.len() && pairs@[a].0@ == k;
        assert(r@[a].key@ == k);
    }
    r
}


/// The value of the first counter of `r` named `key`, or zero.
pub open spec fn value_of(r: Seq<ProcValue>, key: Seq<char>) -> nat
    decreases r.len(),
{
    if r.len() == 0 {
        0
    } else if r[0].key@ == key {
        r[0].value as nat
    } else {
        value_of(r.drop_first(), key)
    }
}

/// The value of the first counter named `key`, or zero.
fn lookup(values: &Vec<ProcValue>, key: &str) -> (r: u64)
    ensures
        r == value_of(values@, key@),
{
    let want = chars_of(key);
    let mut i: usize = 0;
    assert(values@.skip(0) == values@);
    while i < values.len()
        invariant
            0 <= i <= values.len(),
            want@ == key@,
            value_of(values@.skip(i as int), key@) == value_of(values@, key@),
        decreases values.len() - i,
    {
        assert(values@.skip(i as int)[0] == values@[i as int]);
        let k = chars_of(values[i].key.as_str());
        if same_chars(k.as_slice(), want.as_slice()) {
            return values[i].value;
        }
        assert(values@.skip(i as int).drop_first() == values@.skip(i + 1));
        i = i + 1;
    }
    assert(values@.skip(i as int) =~= Seq::<ProcValue>::empty());
    0
}

/// Memory and swap in bytes.
#[derive(Debug, Clone, Copy, PartialEq, Eq, Structural)]
pub struct MemoryMetrics {
    pub total_bytes: u64,
    pub used_bytes: u64,
    pub available_bytes: u64,
    pub swap_total_bytes: u64,
    pub swap_used_bytes: u64,
}

/// The memory of the `/proc/meminfo` counters (in KiB, a missing one read as
/// zero): total and available memory, used as their difference (not below
/// zero), total swap, and used swap as total less free (not below zero); an
/// error when a counter in bytes does not fit in 64 bits.
pub fn memory_metrics(values: &Vec<ProcValue>) -> (r: Result<MemoryMetrics, MetricsError>)
    ensures
        ({
            let total = value_of(values@, "MemTotal"@) * 1024;
            let available = value_of(values@, "MemAvailable"@) * 1024;
            let swap_total = value_of(values@, "SwapTotal"@) * 1024;
            let swap_free = value_of(values@, "SwapFree"@) * 1024;
            if total <= u64::MAX && available <= u64::MAX && swap_total <= u64::MAX && swap_free
                <= u64::MAX {
                r == Ok::<MemoryMetrics, MetricsError>(
                    MemoryMetrics {
                        total_bytes: total as u64,
                        used_bytes: (if total >= available { total - available } else { 0 }) as u64,
                        available_bytes: available as u64,
                        swap_total_bytes: swap_total as u64,
                        swap_used_bytes: (if swap_total >= swap_free { swap_total - swap_free } else { 0 }) as u64,
                    },
                )
            } else {
                r == Err::<MemoryMetrics, MetricsError>(MetricsError::Overflow)
            }
        }),
{
    let t = lookup(values, "MemTotal");
    let a = lookup(values, "MemAvailable");
    let st = lookup(values, "SwapTotal");
    let sf = lookup(values, "SwapFree");
    let limit: u64 = u64::MAX / 1024;
    if t > limit || a > limit || st > limit || sf > limit {
        return Err(MetricsError::Overflow);
    }
    let total = t * 1024;
    let available = a * 1024;
    let swap_total = st * 1024;
    let swap_free = sf * 1024;
    Ok(MemoryMetrics {
        total_bytes: total,
        used_bytes: total.saturating_sub(available),
        available_bytes: available,
        swap_total_bytes: swap_total,
        swap_used_bytes: swap_total.saturating_sub(swap_free),
    })
}

/// The interface and counters of a `/proc/net/dev` line: the trimmed text
/// before the first `':'`, unless it is the loopback or a Docker or veth
/// interface, with the first and ninth numbers after it (bytes received and
/// sent), when there are at least nine.
pub open spec fn net_entry(l: Seq<char>) -> Option<(Seq<char>, (u64, u64))> {
    match split_once_at(l, ':') {
        Some((before, rest)) => {
            let name = trimmed(before);
            let v = numbers(word_list(rest));
            if name == "lo"@ || has_prefix(name, "docker"@) || has_prefix(name, "veth"@) {
                None
            } else if v.len() >= 9 {
                Some((name, (v[0] as u64, v[8] as u64)))
            } else {
                None
            }
        },
        None => None,
    }
}

/// The interfaces that the lines `ls` give (see `net_entry`).
pub open spec fn net_line_map(ls: Seq<Seq<char>>) -> Map<Seq<char>, (u64, u64)> {
    line_map(ls, |l: Seq<char>| net_entry(l))
}

/// Every interface that lines give is a real one: not the loopback `lo`, no
/// `docker*` bridge and no `veth*` container link.
proof fn lemma_net_keys_real(ls: Seq<Seq<char>>)
    ensures
        forall|k: Seq<char>|
            #[trigger] net_line_map(ls).contains_key(k) ==> k != "lo"@ && !has_prefix(k, "docker"@)
                && !has_prefix(k, "veth"@),
    decreases ls.len(),
{
    if ls.len() > 0 {
        lemma_net_keys_real(ls.drop_last());
        assert(net_line_map(ls) == match net_entry(ls.last()) {
            Some((k, v)) => net_line_map(ls.drop_last()).insert(k, v),
            None => net_line_map(ls.drop_last()),
        });
    }
}

/// The network interfaces of `/proc/net/dev` leave out the loopback `lo`,
/// every `docker*` bridge and every `veth*` container link: no name in the
/// parsed map is one of them.
pub proof fn law_net_dev_skips_virtual(text: Seq<char>)
    ensures
        forall|k: Seq<char>|
            #[trigger] net_map(text).contains_key(k) ==> k != "lo"@ && !has_prefix(k, "docker"@)
                && !has_prefix(k, "veth"@),
{
    lemma_net_keys_real(net_lines(text));
    assert(net_map(text) == net_line_map(net_lines(text)));
}

/// The byte counters of a network interface.
#[derive(Debug, Clone, PartialEq, Eq)]
pub struct NetCounters {
    pub name: String,
    pub receive_bytes: u64,
    pub transmit_bytes: u64,
}

/// The lines of `/proc/net/dev` after its two header lines.
pub open spec fn net_lines(text: Seq<char>) -> Seq<Seq<char>> {
    let ls = line_list(text);
    if ls.len() >= 2 {
        ls.skip(2)
    } else {
        Seq::empty()
    }
}

/// The interfaces that `/proc/net/dev` holds, each with the counters of its
/// last line.
pub open spec fn net_map(text: Seq<char>) -> Map<Seq<char>, (u64, u64)> {
    line_map(net_lines(text), |l: Seq<char>| net_entry(l))
}

/// `r` lists the interface map `m`: each name once, with its counters, every
/// name present.
pub open spec fn counters_hold(r: Seq<NetCounters>, m: Map<Seq<char>, (u64, u64)>) -> bool {
    &&& forall|i: int, j: int| 0 <= i < j < r.len() ==> (#[trigger] r[i]).name@ != (#[trigger] r[j]).name@
    &&& forall|i: int| 0 <= i < r.len() ==> m.contains_key((#[trigger] r[i]).name@) && m[r[i].name@] == (r[i].receive_bytes, r[i].transmit_bytes)
    &&& forall|k: Seq<char>| #[trigger] m.contains_key(k) ==> exists|i: int| 0 <= i < r.len() && r[i].name@ == k
}

/// The interfaces of `/proc/net/dev` after its two header lines (see
/// `net_entry`): each name once, with the counters of its last line.
pub fn parse_net_dev(text: &str) -> (r: Vec<NetCounters>)
    ensures
        counters_hold(r@, net_map(text@)),
        forall|i: int|
            0 <= i < r.len() ==> (#[trigger] r@[i]).name@ != "lo"@ && !has_prefix(r@[i].name@, "docker"@)
                && !has_prefix(r@[i].name@, "veth"@),
{
    let v = chars_of(text);
    let ls = split_lines(v.as_slice());
    let ghost all = net_lines(text@);
    let ghost f = |l: Seq<char>| net_entry(l);
    let lo = chars_of("lo");
    let docker = chars_of("docker");
    let veth = chars_of("veth");
    let mut pairs: Vec<(Vec<char>, (u64, u64))> = Vec::new();
    let start: usize = if ls.len() >= 2 { 2 } else { ls.len() };
    let mut i: usize = start;
    proof {
        if ls.len() >= 2 {
            assert(all == views(ls@).skip(2));
        } else {
            assert(all =~= views(ls@).skip(ls.len() as int));
        }
        assert(all.take(0) =~= Seq::<Seq<char>>::empty());
    }
    while i < ls.len()
        invariant
            start <= i <= ls.len(),
            all == views(ls@).skip(start as int),
            f == |l: Seq<char>| net_entry(l),
            lo@ == "lo"@,
            docker@ == "docker"@,
            veth@ == "veth"@,
            pairs_hold(pairs@, line_map(all.take(i - start), f)),
        decreases ls.len() - i,
    {
        let ghost m = line_map(all.take(i - start), f);
        assert(all.take(i - start + 1).drop_last() == all.take(i - start));
        assert(all.take(i - start + 1).last() == ls@[i as int]@);
        if let Some((before, rest)) = split_once(ls[i].as_slice(), ':') {
            let name = trim(before.as_slice());
            if !(same_chars(name.as_slice(), lo.as_slice()) || starts_with(name.as_slice(), docker.as_slice())
                || starts_with(name.as_slice(), veth.as_slice())) {
                let ws = split_words(rest.as_slice());
                let nums = numbers_of(&ws, 0);
                assert(views(ws@).skip(0) == views(ws@));
                if nums.len() >= 9 {
                    let rx = nums[0];
                    let tx = nums[8];
                    assert(nums@.map_values(|n: u64| n as nat)[0] == rx as nat);
                    assert(nums@.map_values(|n: u64| n as nat)[8] == tx as nat);
                    upsert(&mut pairs, name, (rx, tx), Ghost(m));
                }
            }
        }
        i = i + 1;
    }
    assert(all.take(ls.len() - start) == all);
    let ghost m = line_map(all, f);
    let mut r: Vec<NetCounters> = Vec::new();
    let mut j: usize = 0;
    while j < pairs.len()
        invariant
            0 <= j <= pairs.len(),
            pairs_hold(pairs@, m),
            r.len() == j,
            forall|t: int| 0 <= t < j ==> (#[trigger] r@[t]).name@ == pairs@[t].0@ && (r@[t].receive_bytes, r@[t].transmit_bytes) == pairs@[t].1,
        decreases pairs.len() - j,
    {
        let (rx, tx) = pairs[j].1;
        r.push(NetCounters { name: string_of(pairs[j].0.as_slice()), receive_bytes: rx, transmit_bytes: tx });
        j = j + 1;
    }
    assert forall|a: int, b: int| 0 <= a < b < r.len() implies (#[trigger] r@[a]).name@ != (#[trigger] r@[b]).name@ by {
        assert(pairs@[a].0@ != pairs@[b].0@);
    }
    assert forall|a: int| 0 <= a < r.len() implies m.contains_key((#[trigger] r@[a]).name@) && m[r@[a].name@] == (r@[a].receive_bytes, r@[a].transmit_bytes) by {
        assert(m.contains_key(pairs@[a].0@));
    }
    assert forall|k: Seq<char>| #[trigger] m.contains_key(k) implies exists|a: int| 0 <= a < r.len() && r@[a].name@ == k by {
        let a = choose|a: int| 0 <= a < pairs.len() && pairs@[a].0@ == k;
        assert(r@[a].name@ == k);
    }
    proof {
        law_net_dev_skips_virtual(text@);
    }
    assert forall|a: int| 0 <= a < r.len() implies (#[trigger] r@[a]).name@ != "lo"@ && !has_prefix(
        r@[a].name@,
        "docker"@,
    ) && !has_prefix(r@[a].name@, "veth"@) by {
        assert(net_map(text@).contains_key(r@[a].name@));
    }
    r
}


/// The mount point and device of a `/proc/mounts` line: the line needs at
/// least three words and a device under `/dev/` or `/run/media/`; the mount
/// point has its escaped spaces (`\040`) restored; with an asked mount point,
/// only that one.
pub open spec fn mount_entry(l: Seq<char>, wanted: Option<Seq<char>>) -> Option<(Seq<char>, Seq<char>)> {
    let ws = word_list(l);
    if ws.len() < 3 || !(has_prefix(ws[0], "/dev/"@) || has_prefix(ws[0], "/run/media/"@)) {
        None
    } else {
        let path = replaced(ws[1], "\\040"@, " "@);
        if wanted matches Some(w) && w != path {
            None
        } else {
            Some((path, ws[0]))
        }
    }
}

/// The mount entries of the lines `ls`, in order.
pub open spec fn mount_entries(ls: Seq<Seq<char>>, wanted: Option<Seq<char>>) -> Seq<(Seq<char>, Seq<char>)>
    decreases ls.len(),
{
    if ls.len() == 0 {
        Seq::empty()
    } else {
        let k = mount_entries(ls.drop_last(), wanted);
        match mount_entry(ls.last(), wanted) {
            Some(e) => k.push(e),
            None => k,
        }
    }
}

/// A mounted file system that may be reported.
#[derive(Debug, Clone, PartialEq, Eq)]
pub struct MountCandidate {
    pub mount: String,
    pub device: String,
}

/// The texts of mount candidates.
pub open spec fn candidate_views(v: Seq<MountCandidate>) -> Seq<(Seq<char>, Seq<char>)> {
    v.map_values(|c: MountCandidate| (c.mount@, c.device@))
}

/// The text of an optional literal.
pub open spec fn opt_text(o: Option<&str>) -> Option<Seq<char>> {
    match o {
        Some(s) => Some(s@),
        None => None,
    }
}

/// The file systems of `/proc/mounts` that may be reported (see
/// `mount_entry`), in order.
pub fn storage_candidates(mounts: &str, wanted: Option<&str>) -> (r: Vec<MountCandidate>)
    ensures
        candidate_views(r@) == mount_entries(line_list(mounts@), opt_text(wanted)),
{
    let v = chars_of(mounts);
    let ls = split_lines(v.as_slice());
    let ghost all = views(ls@);
    let ghost w = opt_text(wanted);
    let dev = chars_of("/dev/");
    let media = chars_of("/run/media/");
    let esc = chars_of("\\040");
    let space = chars_of(" ");
    let want: Option<Vec<char>> = match wanted {
        Some(t) => Some(chars_of(t)),
        None => None,
    };
    let mut r: Vec<MountCandidate> = Vec::new();
    let mut i: usize = 0;
    proof {
        reveal_strlit("\\040");
    }
    while i < ls.len()
        invariant
            0 <= i <= ls.len(),
            all == views(ls@),
            all == line_list(mounts@),
            w == opt_text(wanted),
            dev@ == "/dev/"@,
            media@ == "/run/media/"@,
            esc@ == "\\040"@,
            esc@.len() > 0,
            space@ == " "@,
            match want {
                Some(t) => w == Some(t@),
                None => w is None,
            },
            candidate_views(r@) == mount_entries(all.take(i as int), w),
        decreases ls.len() - i,
    {
        assert(all.take(i + 1).drop_last() == all.take(i as int));
        assert(all.take(i + 1).last() == ls@[i as int]@);
        let ws = split_words(ls[i].as_slice());
        if ws.len() >= 3 && (starts_with(ws[0].as_slice(), dev.as_slice()) || starts_with(ws[0].as_slice(), media.as_slice())) {
            assert(views(ws@)[0] == ws@[0]@ && views(ws@)[1] == ws@[1]@);
            let path = replace_all(ws[1].as_slice(), esc.as_slice(), space.as_slice());
            let keep = match &want {
                Some(t) => same_chars(t.as_slice(), path.as_slice()),
                None => true,
            };
            if keep {
                let c = MountCandidate { mount: string_of(path.as_slice()), device: string_of(ws[0].as_slice()) };
                proof {
                    assert(candidate_views(r@.push(c)) =~= candidate_views(r@).push((c.mount@, c.device@)));
                }
                r.push(c);
            }
        }
        i = i + 1;
    }
    assert(all.take(ls.len() as int) == all);
    r
}

/// The size of a file system in bytes: total, used and available.
#[derive(Debug, Clone, Copy, PartialEq, Eq, Structural)]
pub struct FsStats {
    pub total: u64,
    pub used: u64,
    pub available: u64,
}

/// A reported file system.
#[derive(Debug, Clone, PartialEq, Eq)]
pub struct StorageEntry {
    pub mount: String,
    pub device: String,
    pub stats: FsStats,
}

/// The texts of a reported file system.
pub type StorageView = (Seq<char>, Seq<char>, FsStats);

/// The texts of reported file systems.
pub open spec fn storage_views(v: Seq<StorageEntry>) -> Seq<StorageView> {
    v.map_values(|e: StorageEntry| (e.mount@, e.device@, e.stats))
}

/// Some reported file system of `k` is mounted at `m`.
pub open spec fn has_mount(k: Seq<StorageView>, m: Seq<char>) -> bool {
    exists|i: int| 0 <= i < k.len() && (#[trigger] k[i]).0 == m
}

/// The report of the candidates `cs`, whose sizes are `st` (none where the
/// file system could not be asked), in order: each mount point once, with the
/// first candidate of it that has a size.
pub open spec fn storage_report(cs: Seq<(Seq<char>, Seq<char>)>, st: Seq<Option<FsStats>>) -> Seq<StorageView>
    decreases cs.len(),
{
    if cs.len() == 0 || st.len() == 0 {
        Seq::empty()
    } else {
        let k = storage_report(cs.drop_last(), st.drop_last());
        let (m, d) = cs.last();
        if has_mount(k, m) {
            k
        } else {
            match st.last() {
                Some(s) => k.push((m, d, s)),
                None => k,
            }
        }
    }
}

/// The reported file systems (see `storage_report`); an error when a mount
/// point was asked and nothing is reported.
pub fn select_storage(
    cands: &Vec<MountCandidate>,
    stats: &Vec<Option<FsStats>>,
    wanted: Option<&str>,
) -> (r: Result<Vec<StorageEntry>, MetricsError>)
    requires
        cands.len() == stats.len(),
    ensures
        ({
            let rep = storage_report(candidate_views(cands@), stats@);
            if wanted is Some && rep.len() == 0 {
                r matches Err(MetricsError::MountNotFound(p)) && p@ == wanted->0@
            } else {
                r matches Ok(v) && storage_views(v@) == rep
            }
        }),
{
    let ghost cs = candidate_views(cands@);
    let mut r: Vec<StorageEntry> = Vec::new();
    let mut i: usize = 0;
    while i < cands.len()
        invariant
            0 <= i <= cands.len(),
            cands.len() == stats.len(),
            cs == candidate_views(cands@),
            storage_views(r@) == storage_report(cs.take(i as int), stats@.take(i as int)),
        decreases cands.len() - i,
    {
        assert(cs.take(i + 1).drop_last() == cs.take(i as int));
        assert(stats@.take(i + 1).drop_last() == stats@.take(i as int));
        assert(cs.take(i + 1).last() == (cands@[i as int].mount@, cands@[i as int].device@));
        assert(stats@.take(i + 1).last() == stats@[i as int]);
        let ghost k = storage_views(r@);
        let m = chars_of(cands[i].mount.as_str());
        let mut j: usize = 0;
        let mut seen = false;
        while j < r.len()
            invariant
                0 <= j <= r.len(),
                k == storage_views(r@),
                m@ == cands@[i as int].mount@,
                seen <==> exists|t: int| 0 <= t < j && (#[trigger] k[t]).0 == m@,
            decreases r.len() - j,
        {
            let e = chars_of(r[j].mount.as_str());
            if same_chars(e.as_slice(), m.as_slice()) {
                assert(k[j as int].0 == m@);
                seen = true;
            }
            j = j + 1;
        }
        if !seen {
            match stats[i] {
                Some(st) => {
                    let e = StorageEntry { mount: cands[i].mount.clone(), device: cands[i].device.clone(), stats: st };
                    proof {
                        assert(storage_views(r@.push(e)) =~= storage_views(r@).push((e.mount@, e.device@, e.stats)));
                    }
                    r.push(e);
                },
                None => {},
            }
        }
        i = i + 1;
    }
    assert(cs.take(cands.len() as int) == cs);
    assert(stats@.take(cands.len() as int) == stats@);
    if let Some(w) = wanted {
        if r.len() == 0 {
            return Err(MetricsError::MountNotFound(w.to_owned()));
        }
    }
    Ok(r)
}


/// The CPU frequency in Hz from a `scaling_cur_freq` file (in kHz): none
/// when the trimmed text is no `u64` number; an error when the value in Hz
/// does not fit in 64 bits.
pub fn frequency_hz(text: &str) -> (r: Result<Option<u64>, MetricsError>)
    ensures
        match parse_unsigned(trimmed(text@), u64::MAX as nat) {
            None => r == Ok::<Option<u64>, MetricsError>(None),
            Some(k) => if k * 1000 <= u64::MAX {
                r == Ok::<Option<u64>, MetricsError>(Some((k * 1000) as u64))
            } else {
                r == Err::<Option<u64>, MetricsError>(MetricsError::Overflow)
            },
        },
{
    let v = chars_of(text);
    let t = trim(v.as_slice());
    match parse_u64(t.as_slice()) {
        None => Ok(None),
        Some(k) => {
            if k > u64::MAX / 1000 {
                Err(MetricsError::Overflow)
            } else {
                Ok(Some(k * 1000))
            }
        },
    }
}

} // verus!
