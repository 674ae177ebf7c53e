//! Monitors: their names from `hyprctl monitors -j`, and the expressions
//! that extend or mirror the first two.
use vstd::prelude::*;

use crate::text::{chars_of, same_chars, texts};

verus! {

/// The error of `serde_json`.
#[verifier::external_type_specification]
#[verifier::external_body]
pub struct ExJsonError(serde_json::Error);

/// The members of a JSON object as the library reads them: each key, with
/// its value's text when the value is a string.
pub type MemberView = (Seq<char>, Option<Seq<char>>);

/// What `serde_json::from_slice::<serde_json::Value>` makes of `bytes`, read
/// as a list of JSON objects: `None` when the bytes are no JSON;
/// `Some(None)` when the value is no array; else, for each element in order,
/// `None` when it is no object, or its members in the order of
/// `serde_json::Map` (keys distinct), each key with the text of its value
/// when that value is a string.
pub uninterp spec fn json_object_list(bytes: Seq<u8>) -> Option<Option<Seq<Option<Seq<MemberView>>>>>;

/// The text of an optional string.
pub open spec fn opt_text(o: Option<String>) -> Option<Seq<char>> {
    match o {
        Some(s) => Some(s@),
        None => None,
    }
}

/// The texts of optional strings.
pub open spec fn opt_texts(v: Seq<Option<String>>) -> Seq<Option<Seq<char>>> {
    v.map_values(|o: Option<String>| opt_text(o))
}

/// The texts of an object's members.
pub open spec fn member_views(ms: Seq<(String, Option<String>)>) -> Seq<MemberView> {
    ms.map_values(|m: (String, Option<String>)| (m.0@, opt_text(m.1)))
}

/// The texts of a list's elements.
pub open spec fn element_views(es: Seq<Option<Vec<(String, Option<String>)>>>) -> Seq<Option<Seq<MemberView>>> {
    es.map_values(
        |e: Option<Vec<(String, Option<String>)>>|
            match e {
                Some(ms) => Some(member_views(ms@)),
                None => None,
            },
    )
}

/// Parses `bytes` with `serde_json::from_slice` into a `serde_json::Value`
/// and hands it out as `json_object_list` says: the error of the parse; no
/// list when `Value::as_array` gives none; else each element's
/// `Value::as_object` members, keys cloned and values read with
/// `Value::as_str`. What `serde_json` accepts as JSON is not stated here; the
/// result is named.
#[verifier::external_body]
fn object_list_of_json(bytes: &[u8]) -> (r: Result<Option<Vec<Option<Vec<(String, Option<String>)>>>>, serde_json::Error>)
    ensures
        match r {
            Err(_) => json_object_list(bytes@) is None,
            Ok(None) => json_object_list(bytes@) == Some(None::<Seq<Option<Seq<MemberView>>>>),
            Ok(Some(v)) => json_object_list(bytes@) == Some(Some(element_views(v@))),
        },
{
    let value: serde_json::Value = serde_json::from_slice(bytes)?;
    Ok(value.as_array().map(|items| {
        items.iter().map(|item| {
            item.as_object().map(|members| {
                members.iter().map(|(key, v)| (key.clone(), v.as_str().map(String::from))).collect()
            })
        }).collect()
    }))
}

/// The text of the first member named `key` among `ms`, when it is a string.
pub open spec fn member_text(ms: Seq<MemberView>, key: Seq<char>) -> Option<Seq<char>>
    decreases ms.len(),
{
    if ms.len() == 0 {
        None
    } else if ms[0].0 == key {
        ms[0].1
    } else {
        member_text(ms.drop_first(), key)
    }
}

/// The `"name"` string of an element: none when the element is no object,
/// has no `"name"` member, or that member is no string.
pub open spec fn name_field(e: Option<Seq<MemberView>>) -> Option<Seq<char>> {
    match e {
        Some(ms) => member_text(ms, "name"@),
        None => None,
    }
}

/// The `"name"` fields of the elements `es`, in order.
pub open spec fn name_fields(es: Seq<Option<Seq<MemberView>>>) -> Seq<Option<Seq<char>>> {
    es.map_values(|e: Option<Seq<MemberView>>| name_field(e))
}

/// The string of the first member named `key` among `ms` (see `member_text`).
pub fn member_string(ms: &Vec<(String, Option<String>)>, key: &str) -> (r: Option<String>)
    ensures
        opt_text(r) == member_text(member_views(ms@), key@),
{
    let ghost all = member_views(ms@);
    let want = chars_of(key);
    let mut i: usize = 0;
    assert(all.skip(0) == all);
    while i < ms.len()
        invariant
            0 <= i <= ms.len(),
            all == member_views(ms@),
            want@ == key@,
            member_text(all, key@) == member_text(all.skip(i as int), key@),
        decreases ms.len() - i,
    {
        assert(all.skip(i as int)[0] == all[i as int]);
        assert(all.skip(i as int).drop_first() == all.skip(i + 1));
        let k = chars_of(ms[i].0.as_str());
        if same_chars(k.as_slice(), want.as_slice()) {
            return match &ms[i].1 {
                Some(t) => Some(t.clone()),
                None => None,
            };
        }
        i = i + 1;
    }
    None
}

/// The `"name"` fields of the elements `es` (see `name_field`).
pub fn element_names(es: &Vec<Option<Vec<(String, Option<String>)>>>) -> (r: Vec<Option<String>>)
    ensures
        opt_texts(r@) == name_fields(element_views(es@)),
{
    let ghost want = name_fields(element_views(es@));
    let mut r: Vec<Option<String>> = Vec::new();
    let mut i: usize = 0;
    while i < es.len()
        invariant
            0 <= i <= es.len(),
            want == name_fields(element_views(es@)),
            opt_texts(r@) == want.take(i as int),
        decreases es.len() - i,
    {
        let n = match &es[i] {
            Some(ms) => member_string(ms, "name"),
            None => None,
        };
        assert(opt_text(n) == want[i as int]);
        proof {
            assert(opt_texts(r@.push(n)) =~= opt_texts(r@).push(opt_text(n)));
            assert(want.take(i + 1) =~= want.take(i as int).push(want[i as int]));
        }
        r.push(n);
        i = i + 1;
    }
    assert(want.take(es.len() as int) == want);
    r
}

/// The names present in `fields`, in order.
pub open spec fn present_names(fields: Seq<Option<Seq<char>>>) -> Seq<Seq<char>>
    decreases fields.len(),
{
    if fields.len() == 0 {
        Seq::empty()
    } else {
        let k = present_names(fields.drop_last());
        match fields.last() {
            Some(n) => k.push(n),
            None => k,
        }
    }
}

/// The names among `fields`, in order, skipping elements without one.
pub fn monitor_names(fields: &Vec<Option<String>>) -> (r: Vec<String>)
    ensures
        texts(r@) == present_names(opt_texts(fields@)),
{
    let mut r: Vec<String> = Vec::new();
    let mut i: usize = 0;
    while i < fields.len()
        invariant
            0 <= i <= fields.len(),
            texts(r@) == present_names(opt_texts(fields@).take(i as int)),
        decreases fields.len() - i,
    {
        assert(opt_texts(fields@).take(i + 1).drop_last() == opt_texts(fields@).take(i as int));
        assert(opt_texts(fields@).take(i + 1).last() == opt_texts(fields@)[i as int]);
        if let Some(n) = &fields[i] {
            let s = n.clone();
            proof {
                assert(texts(r@.push(s)) =~= texts(r@).push(s@));
            }
            r.push(s);
        }
        i = i + 1;
    }
    assert(opt_texts(fields@).take(fields.len() as int) == opt_texts(fields@));
    r
}

/// What went wrong in reading the monitors.
#[derive(Debug)]
pub enum MonitorError {
    /// The output of `hyprctl` is no JSON.
    Json(serde_json::Error),
}

/// The monitor names in the output of `hyprctl monitors -j`: none when the
/// JSON is no array, else the `"name"` strings of its elements in order,
/// skipping elements without one; an error when the output is no JSON.
pub fn get_monitor_names(output: &[u8]) -> (r: Result<Option<Vec<String>>, MonitorError>)
    ensures
        match json_object_list(output@) {
            None => r is Err,
            Some(None) => r matches Ok(None),
            Some(Some(es)) => r matches Ok(Some(names)) && texts(names@) == present_names(
                name_fields(es),
            ),
        },
{
    match object_list_of_json(output) {
        Err(e) => Err(MonitorError::Json(e)),
        Ok(None) => Ok(None),
        Ok(Some(es)) => {
            let fields = element_names(&es);
            Ok(Some(monitor_names(&fields)))
        },
    }
}

/// The expression that sets monitor `name` to 1920x1080 at 60 Hz at the
/// origin, unmirrored when `unmirror`.
pub open spec fn extend_expression(name: Seq<char>, unmirror: bool) -> Seq<char> {
    "'hl.monitor({ output = \""@ + name + "\", mode = \"1920x1080@60\", position = \"0x0\", scale = 1"@
        + (if unmirror { ", mirror = \"\""@ } else { ""@ }) + " })'"@
}

/// The expressions of `hyprctl eval` that extend the desktop over the first
/// two monitors: none with fewer than two; else the first monitor, then the
/// second unmirrored.
pub fn extend_expressions(names: &Vec<String>) -> (r: Vec<String>)
    ensures
        names.len() < 2 ==> r.len() == 0,
        names.len() >= 2 ==> texts(r@) == seq![
            extend_expression(names@[0]@, false),
            extend_expression(names@[1]@, true),
        ],
{
    let mut r: Vec<String> = Vec::new();
    if names.len() < 2 {
        return r;
    }
    let mut a = "'hl.monitor({ output = \"".to_owned();
    a.append(names[0].as_str());
    a.append("\", mode = \"1920x1080@60\", position = \"0x0\", scale = 1");
    a.append(" })'");
    let mut b = "'hl.monitor({ output = \"".to_owned();
    b.append(names[1].as_str());
    b.append("\", mode = \"1920x1080@60\", position = \"0x0\", scale = 1");
    b.append(", mirror = \"\"");
    b.append(" })'");
    r.push(a);
    r.push(b);
    proof {
        reveal_strlit("");
        assert(a@ == extend_expression(names@[0]@, false));
    }
    assert(texts(r@) =~= seq![extend_expression(names@[0]@, false), extend_expression(names@[1]@, true)]);
    r
}

/// The expression of `hyprctl eval` that mirrors the first monitor on the
/// second; none with fewer than two monitors.
pub fn mirror_expression(names: &Vec<String>) -> (r: Option<String>)
    ensures
        names.len() < 2 ==> r is None,
        names.len() >= 2 ==> (r matches Some(e) && e@ == "'hl.monitor({ output = \""@ + names@[1]@
            + "\", mirror = \""@ + names@[0]@ + "\" })'"@),
{
    if names.len() < 2 {
        return None;
    }
    let mut e = "'hl.monitor({ output = \"".to_owned();
    e.append(names[1].as_str());
    e.append("\", mirror = \"");
    e.append(names[0].as_str());
    e.append("\" })'");
    Some(e)
}

} // verus!
