//! Batteries and AC supplies from sysfs: which supplies count, the overall
//! status, durations, and how the report is shown. The energy arithmetic is
//! floating point and stays with the caller.
use vstd::prelude::*;

use crate::cli::{BatteryCommands, BatteryStatusArgs};
use crate::text::{ascii_lower, chars_of, decimal, push_decimal, same_chars, string_of, to_ascii_lower};

verus! {

/// How the battery report is shown.
#[derive(Debug, Clone, Copy, PartialEq, Eq, Structural)]
pub enum BatteryFormat {
    Json,
    Short,
    Human { verbose: bool },
}

/// What a battery request reads and how it shows it.
#[derive(Debug, Clone, PartialEq, Eq)]
pub struct BatteryPlan {
    /// Read only the battery of this name.
    pub selected: Option<String>,
    pub format: BatteryFormat,
}

/// The format that the options ask for: JSON first, then the short line,
/// else the human report.
pub open spec fn battery_format(args: BatteryStatusArgs) -> BatteryFormat {
    if args.json {
        BatteryFormat::Json
    } else if args.short {
        BatteryFormat::Short
    } else {
        BatteryFormat::Human { verbose: args.verbose }
    }
}

/// What a battery request does (see `BatteryPlan`).
pub fn execute(commands: &BatteryCommands) -> (r: BatteryPlan)
    ensures
        match *commands {
            BatteryCommands::Status(args) => r.selected == args.battery && r.format
                == battery_format(args),
        },
{
    match commands {
        BatteryCommands::Status(args) => {
            let format = if args.json {
                BatteryFormat::Json
            } else if args.short {
                BatteryFormat::Short
            } else {
                BatteryFormat::Human { verbose: args.verbose }
            };
            BatteryPlan { selected: args.battery.clone(), format }
        },
    }
}

/// Some status of `st` is `s`.
pub open spec fn some_status(st: Seq<Seq<char>>, s: Seq<char>) -> bool {
    exists|i: int| 0 <= i < st.len() && st[i] == s
}

/// The status of several batteries: charging if one charges, else
/// discharging if one discharges, else full if all are full, else the status
/// of the first (`"Unknown"` when there is none).
pub open spec fn aggregate(st: Seq<Seq<char>>) -> Seq<char> {
    if some_status(st, "Charging"@) {
        "Charging"@
    } else if some_status(st, "Discharging"@) {
        "Discharging"@
    } else if forall|i: int| 0 <= i < st.len() ==> st[i] == "Full"@ {
        "Full"@
    } else if st.len() > 0 {
        st[0]
    } else {
        "Unknown"@
    }
}

/// The texts of a list of statuses.
pub open spec fn status_texts(v: Seq<String>) -> Seq<Seq<char>> {
    v.map_values(|s: String| s@)
}

/// Whether some status of `statuses` is `lit`.
fn any_status(statuses: &Vec<String>, lit: &str) -> (r: bool)
    ensures
        r == some_status(status_texts(statuses@), lit@),
{
    let want = chars_of(lit);
    let mut i: usize = 0;
    while i < statuses.len()
        invariant
            0 <= i <= statuses.len(),
            want@ == lit@,
            forall|j: int| 0 <= j < i ==> statuses@[j]@ != lit@,
        decreases statuses.len() - i,
    {
        let s = chars_of(statuses[i].as_str());
        if same_chars(s.as_slice(), want.as_slice()) {
            assert(status_texts(statuses@)[i as int] == lit@);
            return true;
        }
        i = i + 1;
    }
    assert forall|j: int| 0 <= j < status_texts(statuses@).len() implies status_texts(
        statuses@,
    )[j] != lit@ by {
        assert(status_texts(statuses@)[j] == statuses@[j]@);
    }
    false
}

/// Whether every status of `statuses` is `lit`.
fn all_status(statuses: &Vec<String>, lit: &str) -> (r: bool)
    ensures
        r == forall|i: int|
            0 <= i < status_texts(statuses@).len() ==> status_texts(statuses@)[i] == lit@,
{
    let want = chars_of(lit);
    let mut i: usize = 0;
    while i < statuses.len()
        invariant
            0 <= i <= statuses.len(),
            want@ == lit@,
            forall|j: int| 0 <= j < i ==> statuses@[j]@ == lit@,
        decreases statuses.len() - i,
    {
        let s = chars_of(statuses[i].as_str());
        if !same_chars(s.as_slice(), want.as_slice()) {
            assert(status_texts(statuses@)[i as int] != lit@);
            return false;
        }
        i = i + 1;
    }
    assert forall|j: int| 0 <= j < status_texts(statuses@).len() implies status_texts(
        statuses@,
    )[j] == lit@ by {
        assert(status_texts(statuses@)[j] == statuses@[j]@);
    }
    true
}

/// The overall status of the batteries whose statuses are `statuses` (see
/// `aggregate`).
pub fn aggregate_status(statuses: &Vec<String>) -> (r: String)
    ensures
        r@ == aggregate(status_texts(statuses@)),
{
    if any_status(statuses, "Charging") {
        "Charging".to_owned()
    } else if any_status(statuses, "Discharging") {
        "Discharging".to_owned()
    } else if all_status(statuses, "Full") {
        "Full".to_owned()
    } else if statuses.len() > 0 {
        statuses[0].clone()
    } else {
        "Unknown".to_owned()
    }
}

/// `m` (below one hundred) with at least two digits.
pub open spec fn two_digits(m: nat) -> Seq<char> {
    if m < 10 {
        seq!['0'] + decimal(m)
    } else {
        decimal(m)
    }
}

/// How a duration of `seconds` is shown: `"<h> h <mm> min"` with the
/// minutes in two digits when there is a whole hour, else `"<m> min"`.
pub open spec fn duration_text(seconds: nat) -> Seq<char> {
    let hours = seconds / 3600;
    let minutes = (seconds % 3600) / 60;
    if hours > 0 {
        decimal(hours) + " h "@ + two_digits(minutes) + " min"@
    } else {
        decimal(minutes) + " min"@
    }
}

/// Shows a duration of `seconds` (see `duration_text`).
pub fn format_duration(seconds: u64) -> (r: String)
    ensures
        r@ == duration_text(seconds as nat),
{
    let hours = seconds / 3600;
    let minutes = (seconds % 3600) / 60;
    let mut v: Vec<char> = Vec::new();
    if hours > 0 {
        push_decimal(&mut v, hours as u128);
        v.push(' ');
        v.push('h');
        v.push(' ');
        if minutes < 10 {
            v.push('0');
        }
        push_decimal(&mut v, minutes as u128);
    } else {
        push_decimal(&mut v, minutes as u128);
    }
    v.push(' ');
    v.push('m');
    v.push('i');
    v.push('n');
    let r = string_of(v.as_slice());
    proof {
        reveal_strlit(" h ");
        reveal_strlit(" min");
        if hours > 0 {
            if minutes < 10 {
                assert(r@ =~= decimal(hours as nat) + " h "@ + two_digits(minutes as nat) + " min"@);
            } else {
                assert(r@ =~= decimal(hours as nat) + " h "@ + two_digits(minutes as nat) + " min"@);
            }
        } else {
            assert(r@ =~= decimal(minutes as nat) + " min"@);
        }
    }
    r
}


/// What a power supply is to the report.
#[derive(Debug, Clone, Copy, PartialEq, Eq, Structural)]
pub enum SupplyRole {
    /// A battery that the report reads.
    Battery,
    /// A mains or USB supply whose `online` value counts for AC.
    Ac,
    /// Neither.
    Ignore,
}

/// The text of an optional literal.
pub open spec fn opt_text(o: Option<&str>) -> Option<Seq<char>> {
    match o {
        Some(s) => Some(s@),
        None => None,
    }
}

/// The role of the supply `name` whose `type` file holds `kind` (absent counts
/// as empty), compared without ASCII case: a battery when it is one and no
/// other battery is asked for, AC for mains, USB and USB-C, else nothing.
pub open spec fn supply_role(kind: Option<Seq<char>>, name: Seq<char>, selected: Option<Seq<char>>) -> SupplyRole {
    let k = ascii_lower(
        match kind {
            Some(t) => t,
            None => Seq::empty(),
        },
    );
    if k == "battery"@ && (selected matches Some(w) ==> w == name) {
        SupplyRole::Battery
    } else if k == "mains"@ || k == "usb"@ || k == "usb-c"@ {
        SupplyRole::Ac
    } else {
        SupplyRole::Ignore
    }
}

/// Whether the characters `v` are exactly those of `lit`.
fn is_text(v: &[char], lit: &str) -> (r: bool)
    ensures
        r == (v@ == lit@),
{
    let l = chars_of(lit);
    same_chars(v, l.as_slice())
}

/// Mains, USB and USB-C supplies (in any ASCII case) feed AC power: such a
/// supply is never a battery, whatever battery is asked for.
pub proof fn law_external_supplies_are_ac(kind: Seq<char>, name: Seq<char>, selected: Option<Seq<char>>)
    requires
        ascii_lower(kind) == "mains"@ || ascii_lower(kind) == "usb"@ || ascii_lower(kind) == "usb-c"@,
    ensures
        supply_role(Some(kind), name, selected) == SupplyRole::Ac,
{
    reveal_strlit("battery");
    reveal_strlit("mains");
    reveal_strlit("usb");
    reveal_strlit("usb-c");
    assert("battery"@.len() == 7);
    assert("mains"@.len() == 5);
    assert("usb"@.len() == 3);
    assert("usb-c"@.len() == 5);
}

/// AC power is on as soon as one mains, USB or USB-C supply reads `"1"` in
/// its `online` file.
pub proof fn law_online_external_supply_means_ac(es: Seq<SupplyEntry>, selected: Option<Seq<char>>, i: int)
    requires
        0 <= i < es.len(),
        es[i].kind matches Some(t) && (ascii_lower(t@) == "mains"@ || ascii_lower(t@) == "usb"@
            || ascii_lower(t@) == "usb-c"@),
        opt_string(es[i].online) == Some("1"@),
    ensures
        ac_is_online(es, selected),
{
    law_external_supplies_are_ac(es[i].kind->0@, es[i].name@, selected);
    assert(entry_role(es[i], selected) == SupplyRole::Ac);
}

/// The role of a supply (see `supply_role`).
pub fn classify_supply(kind: Option<&str>, name: &str, selected: Option<&str>) -> (r: SupplyRole)
    ensures
        r == supply_role(opt_text(kind), name@, opt_text(selected)),
        kind matches Some(t) && (ascii_lower(t@) == "mains"@ || ascii_lower(t@) == "usb"@
            || ascii_lower(t@) == "usb-c"@) ==> r == SupplyRole::Ac,
        kind matches Some(t) && ascii_lower(t@) == "battery"@ && selected is None ==> r
            == SupplyRole::Battery,
{
    proof {
        if kind is Some {
            let t = kind->0@;
            if ascii_lower(t) == "mains"@ || ascii_lower(t) == "usb"@ || ascii_lower(t) == "usb-c"@ {
                law_external_supplies_are_ac(t, name@, opt_text(selected));
            }
        }
    }
    let raw = match kind {
        Some(t) => chars_of(t),
        None => Vec::new(),
    };
    proof {
        if kind is None {
            assert(raw@ =~= Seq::<char>::empty());
        }
    }
    let k = to_ascii_lower(raw.as_slice());
    if is_text(k.as_slice(), "battery") {
        let wanted = match selected {
            None => true,
            Some(w) => {
                let wv = chars_of(w);
                let nv = chars_of(name);
                same_chars(wv.as_slice(), nv.as_slice())
            },
        };
        if wanted {
            return SupplyRole::Battery;
        }
        proof {
            reveal_strlit("battery");
            reveal_strlit("mains");
            reveal_strlit("usb");
            reveal_strlit("usb-c");
            assert("battery"@.len() == 7);
            assert("mains"@.len() == 5);
            assert("usb"@.len() == 3);
            assert("usb-c"@.len() == 5);
        }
        return SupplyRole::Ignore;
    }
    if is_text(k.as_slice(), "mains") || is_text(k.as_slice(), "usb") || is_text(k.as_slice(), "usb-c") {
        SupplyRole::Ac
    } else {
        SupplyRole::Ignore
    }
}

/// A power supply as read from sysfs: its name and the trimmed contents of
/// its `type` and `online` files, when readable.
#[derive(Debug, Clone, PartialEq, Eq)]
pub struct SupplyEntry {
    pub name: String,
    pub kind: Option<String>,
    pub online: Option<String>,
}

/// The text of an optional string.
pub open spec fn opt_string(o: Option<String>) -> Option<Seq<char>> {
    match o {
        Some(s) => Some(s@),
        None => None,
    }
}

/// The role of the supply `e`.
pub open spec fn entry_role(e: SupplyEntry, selected: Option<Seq<char>>) -> SupplyRole {
    supply_role(opt_string(e.kind), e.name@, selected)
}

/// The positions of the batteries to read among `es`, in order.
pub open spec fn battery_positions(es: Seq<SupplyEntry>, selected: Option<Seq<char>>) -> Seq<usize>
    decreases es.len(),
{
    if es.len() == 0 {
        Seq::empty()
    } else {
        let k = battery_positions(es.drop_last(), selected);
        if entry_role(es.last(), selected) == SupplyRole::Battery {
            k.push((es.len() - 1) as usize)
        } else {
            k
        }
    }
}

/// AC power is on: some AC supply of `es` reads `"1"` in `online`.
pub open spec fn ac_is_online(es: Seq<SupplyEntry>, selected: Option<Seq<char>>) -> bool {
    exists|i: int|
        0 <= i < es.len() && entry_role(#[trigger] es[i], selected) == SupplyRole::Ac
            && opt_string(es[i].online) == Some("1"@)
}

/// The supplies that a report reads.
#[derive(Debug, Clone, PartialEq, Eq)]
pub struct SupplyScan {
    /// The positions of the batteries, in order.
    pub batteries: Vec<usize>,
    /// Whether AC power is on.
    pub ac_online: bool,
}

/// Why there is no report.
#[derive(Debug, Clone, PartialEq, Eq)]
pub enum BatteryError {
    /// The asked battery is not there.
    NotFound(String),
    /// There is no battery at all.
    NoBattery,
}

/// Which supplies of `es` the report reads, and whether AC is on; an error
/// when no battery is left: the asked one is missing, or there is none.
pub fn scan_supplies(es: &Vec<SupplyEntry>, selected: Option<&str>) -> (r: Result<SupplyScan, BatteryError>)
    ensures
        battery_positions(es@, opt_text(selected)).len() > 0 ==> (r matches Ok(scan)
            && scan.batteries@ == battery_positions(es@, opt_text(selected)) && scan.ac_online
            == ac_is_online(es@, opt_text(selected))),
        battery_positions(es@, opt_text(selected)).len() == 0 ==> match selected {
            Some(name) => r matches Err(BatteryError::NotFound(n)) && n@ == name@,
            None => r == Err::<SupplyScan, BatteryError>(BatteryError::NoBattery),
        },
{
    let ghost sel = opt_text(selected);
    let mut batteries: Vec<usize> = Vec::new();
    let mut ac_online = false;
    let one = chars_of("1");
    let mut i: usize = 0;
    while i < es.len()
        invariant
            0 <= i <= es.len(),
            sel == opt_text(selected),
            one@ == "1"@,
            batteries@ == battery_positions(es@.take(i as int), sel),
            ac_online == ac_is_online(es@.take(i as int), sel),
        decreases es.len() - i,
    {
        let e = &es[i];
        let kind = match &e.kind {
            Some(k) => Some(k.as_str()),
            None => None,
        };
        let role = classify_supply(kind, e.name.as_str(), selected);
        assert(es@.take(i + 1).drop_last() == es@.take(i as int));
        assert(es@.take(i + 1).last() == es@[i as int]);
        let is_on = match &e.online {
            Some(o) => {
                let ov = chars_of(o.as_str());
                same_chars(ov.as_slice(), one.as_slice())
            },
            None => false,
        };
        match role {
            SupplyRole::Battery => {
                batteries.push(i);
            },
            SupplyRole::Ac => {
                if is_on {
                    ac_online = true;
                }
            },
            SupplyRole::Ignore => {},
        }
        proof {
            let pre = es@.take(i as int);
            let post = es@.take(i + 1);
            assert forall|j: int| 0 <= j < pre.len() implies #[trigger] post[j] == pre[j] by {}
            if ac_is_online(post, sel) {
                let j = choose|j: int|
                    0 <= j < post.len() && entry_role(#[trigger] post[j], sel) == SupplyRole::Ac
                        && opt_string(post[j].online) == Some("1"@);
                if j < i {
                    assert(pre[j] == post[j]);
                    assert(ac_is_online(pre, sel));
                }
            }
            if ac_is_online(pre, sel) {
                let j = choose|j: int|
                    0 <= j < pre.len() && entry_role(#[trigger] pre[j], sel) == SupplyRole::Ac
                        && opt_string(pre[j].online) == Some("1"@);
                assert(post[j] == pre[j]);
            }
            if role == SupplyRole::Ac && is_on {
                assert(post[i as int] == es@[i as int]);
            }
        }
        i = i + 1;
    }
    assert(es@.take(es.len() as int) == es@);
    if batteries.len() == 0 {
        return match selected {
            Some(name) => Err(BatteryError::NotFound(name.to_owned())),
            None => Err(BatteryError::NoBattery),
        };
    }
    Ok(SupplyScan { batteries, ac_online })
}

impl BatteryError {
    /// The message that reports the error.
    pub fn message(&self) -> (m: String)
        ensures
            m@ == match *self {
                BatteryError::NotFound(n) => "battery not found: "@ + n@,
                BatteryError::NoBattery => "no battery found"@,
            },
    {
        match self {
            BatteryError::NotFound(n) => {
                let mut m = "battery not found: ".to_owned();
                m.append(n.as_str());
                m
            },
            BatteryError::NoBattery => "no battery found".to_owned(),
        }
    }
}

/// Which time estimate a status allows.
#[derive(Debug, Clone, Copy, PartialEq, Eq, Structural)]
pub enum TimeEstimate {
    /// Time until empty, while discharging.
    Remaining,
    /// Time until full, while charging.
    ToFull,
    /// No estimate.
    Neither,
}

/// The estimate that the status text `status` allows.
pub fn time_estimate(status: &str) -> (r: TimeEstimate)
    ensures
        r == if status@ == "Discharging"@ {
            TimeEstimate::Remaining
        } else if status@ == "Charging"@ {
            TimeEstimate::ToFull
        } else {
            TimeEstimate::Neither
        },
{
    let v = chars_of(status);
    if is_text(v.as_slice(), "Discharging") {
        TimeEstimate::Remaining
    } else if is_text(v.as_slice(), "Charging") {
        TimeEstimate::ToFull
    } else {
        TimeEstimate::Neither
    }
}

} // verus!
