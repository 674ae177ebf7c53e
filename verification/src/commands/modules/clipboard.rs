//! The Wayland clipboard through `wl-copy` and `wl-paste`: their arguments,
//! and what showing the clipboard does with the offered MIME types.
use vstd::prelude::*;

use crate::cli::ClipboardCommands;
use crate::text::{
    chars_of, has_prefix, join_chars, joined, line_list, split_lines, starts_with, string_of,
    texts, views,
};

verus! {

/// The `wl-copy` arguments of a copy: the MIME type when given, then
/// `--primary` and `--sensitive` when asked.
pub open spec fn copy_args(mime: Option<Seq<char>>, primary: bool, sensitive: bool) -> Seq<Seq<char>> {
    (match mime {
        Some(m) => seq!["--type"@, m],
        None => Seq::empty(),
    }) + (if primary { seq!["--primary"@] } else { Seq::empty() }) + (if sensitive {
        seq!["--sensitive"@]
    } else {
        Seq::empty()
    })
}

/// The `wl-paste` arguments of a paste: the MIME type when given, then
/// `--primary` and `--no-newline` when asked.
pub open spec fn paste_args(mime: Option<Seq<char>>, primary: bool, no_newline: bool) -> Seq<Seq<char>> {
    (match mime {
        Some(m) => seq!["--type"@, m],
        None => Seq::empty(),
    }) + (if primary { seq!["--primary"@] } else { Seq::empty() }) + (if no_newline {
        seq!["--no-newline"@]
    } else {
        Seq::empty()
    })
}

/// The `wl-paste` arguments that list the offered MIME types.
pub open spec fn list_args(primary: bool) -> Seq<Seq<char>> {
    seq!["--list-types"@] + (if primary { seq!["--primary"@] } else { Seq::empty() })
}

/// The `wl-copy` arguments that clear the clipboard.
pub open spec fn clear_args(primary: bool) -> Seq<Seq<char>> {
    seq!["--clear"@] + (if primary { seq!["--primary"@] } else { Seq::empty() })
}

/// The text of an optional string.
pub open spec fn opt_text(o: Option<String>) -> Option<Seq<char>> {
    match o {
        Some(s) => Some(s@),
        None => None,
    }
}

/// Appends `lit` to `args` when `cond`.
fn push_if(args: &mut Vec<String>, cond: bool, lit: &str)
    ensures
        texts(final(args)@) == texts(old(args)@) + (if cond { seq![lit@] } else { Seq::empty() }),
{
    if cond {
        let s = lit.to_owned();
        proof {
            assert(texts(args@.push(s)) =~= texts(args@) + seq![lit@]);
        }
        args.push(s);
    } else {
        assert(texts(args@) + Seq::<Seq<char>>::empty() =~= texts(args@));
    }
}

/// The MIME type arguments: `--type <mime>` when there is one.
fn mime_args(mime: Option<&String>) -> (r: Vec<String>)
    ensures
        texts(r@) == match mime {
            Some(m) => seq!["--type"@, m@],
            None => Seq::empty(),
        },
{
    let mut r: Vec<String> = Vec::new();
    match mime {
        Some(m) => {
            r.push("--type".to_owned());
            r.push(m.clone());
            assert(texts(r@) =~= seq!["--type"@, m@]);
        },
        None => {
            assert(texts(r@) =~= Seq::<Seq<char>>::empty());
        },
    }
    r
}

/// The `wl-paste` arguments of a paste (see `paste_args`).
pub fn paste_arguments(mime: Option<&String>, primary: bool, no_newline: bool) -> (r: Vec<String>)
    ensures
        texts(r@) == paste_args(
            match mime {
                Some(m) => Some(m@),
                None => None,
            },
            primary,
            no_newline,
        ),
{
    let mut r = mime_args(mime);
    push_if(&mut r, primary, "--primary");
    push_if(&mut r, no_newline, "--no-newline");
    r
}

/// Every clipboard request names the primary selection (`--primary`)
/// exactly when it is asked for: copying, pasting and clearing alike (a
/// MIME type that is itself `--primary` aside).
pub proof fn law_requests_name_primary(mime: Option<Seq<char>>, primary: bool, flag: bool)
    requires
        mime != Some("--primary"@),
    ensures
        copy_args(mime, primary, flag).contains("--primary"@) <==> primary,
        paste_args(mime, primary, flag).contains("--primary"@) <==> primary,
        clear_args(primary).contains("--primary"@) <==> primary,
{
    reveal_strlit("--type");
    reveal_strlit("--primary");
    reveal_strlit("--sensitive");
    reveal_strlit("--no-newline");
    reveal_strlit("--clear");
    assert("--type"@.len() == 6 && "--primary"@.len() == 9 && "--sensitive"@.len() == 11);
    assert("--no-newline"@.len() == 12 && "--clear"@.len() == 7);
    let m: Seq<Seq<char>> = match mime {
        Some(t) => seq!["--type"@, t],
        None => Seq::empty(),
    };
    let p: Seq<Seq<char>> = if primary { seq!["--primary"@] } else { Seq::empty() };
    let c: Seq<Seq<char>> = if flag { seq!["--sensitive"@] } else { Seq::empty() };
    let n: Seq<Seq<char>> = if flag { seq!["--no-newline"@] } else { Seq::empty() };
    assert(!m.contains("--primary"@));
    assert(!c.contains("--primary"@));
    assert(!n.contains("--primary"@));
    assert(p.contains("--primary"@) <==> primary) by {
        if primary {
            assert(p[0] == "--primary"@);
        }
    }
    assert(copy_args(mime, primary, flag) == m + p + c);
    assert(paste_args(mime, primary, flag) == m + p + n);
    assert forall|x: Seq<char>| (m + p + c).contains(x) <==> (m.contains(x) || p.contains(x) || c.contains(x)) by {
        if (m + p + c).contains(x) {
            let i = choose|i: int| 0 <= i < (m + p + c).len() && (m + p + c)[i] == x;
            if i < m.len() { assert(m[i] == x); } else if i < m.len() + p.len() { assert(p[i - m.len()] == x); } else { assert(c[i - m.len() - p.len()] == x); }
        }
        if m.contains(x) { let i = choose|i: int| 0 <= i < m.len() && m[i] == x; assert((m + p + c)[i] == x); }
        if p.contains(x) { let i = choose|i: int| 0 <= i < p.len() && p[i] == x; assert((m + p + c)[m.len() + i] == x); }
        if c.contains(x) { let i = choose|i: int| 0 <= i < c.len() && c[i] == x; assert((m + p + c)[m.len() + p.len() + i] == x); }
    }
    assert forall|x: Seq<char>| (m + p + n).contains(x) <==> (m.contains(x) || p.contains(x) || n.contains(x)) by {
        if (m + p + n).contains(x) {
            let i = choose|i: int| 0 <= i < (m + p + n).len() && (m + p + n)[i] == x;
            if i < m.len() { assert(m[i] == x); } else if i < m.len() + p.len() { assert(p[i - m.len()] == x); } else { assert(n[i - m.len() - p.len()] == x); }
        }
        if m.contains(x) { let i = choose|i: int| 0 <= i < m.len() && m[i] == x; assert((m + p + n)[i] == x); }
        if p.contains(x) { let i = choose|i: int| 0 <= i < p.len() && p[i] == x; assert((m + p + n)[m.len() + i] == x); }
        if n.contains(x) { let i = choose|i: int| 0 <= i < n.len() && n[i] == x; assert((m + p + n)[m.len() + p.len() + i] == x); }
    }
    let cl = clear_args(primary);
    if primary {
        assert(cl =~= seq!["--clear"@, "--primary"@]);
        assert(cl[1] == "--primary"@);
    } else {
        assert(cl =~= seq!["--clear"@]);
        if cl.contains("--primary"@) {
            assert(cl[0] == "--clear"@);
        }
    }
}

/// Listing MIME types asks `wl-paste` for the types (`--list-types`, first),
/// and names the primary selection (`--primary`) exactly when it is asked
/// for; the listing of a show and of a types request are the same.
pub proof fn law_list_names_primary(primary: bool)
    ensures
        list_args(primary)[0] == "--list-types"@,
        list_args(primary).contains("--primary"@) <==> primary,
        list_args(primary).len() == if primary { 2nat } else { 1nat },
{
    reveal_strlit("--list-types");
    reveal_strlit("--primary");
    let l = list_args(primary);
    if primary {
        assert(l =~= seq!["--list-types"@, "--primary"@]);
        assert(l[1] == "--primary"@);
    } else {
        assert(l =~= seq!["--list-types"@]);
        if l.contains("--primary"@) {
            assert(l[0] == "--list-types"@);
            assert("--list-types"@[2] != "--primary"@[2]);
        }
    }
}

/// The `wl-paste` arguments that list the MIME types (see `list_args`).
pub fn list_arguments(primary: bool) -> (r: Vec<String>)
    ensures
        texts(r@) == list_args(primary),
        primary ==> texts(r@) == seq!["--list-types"@, "--primary"@],
        !primary ==> texts(r@) == seq!["--list-types"@],
{
    let mut r: Vec<String> = Vec::new();
    push_if(&mut r, true, "--list-types");
    push_if(&mut r, primary, "--primary");
    proof {
        assert(Seq::<Seq<char>>::empty() + seq!["--list-types"@] =~= seq!["--list-types"@]);
    }
    r
}

/// What a clipboard request runs.
#[derive(Debug, Clone, PartialEq, Eq)]
pub enum ClipboardPlan {
    /// Feed standard input to `wl-copy` with these arguments.
    Copy { args: Vec<String> },
    /// Write the output of `wl-paste` with these arguments.
    Paste { args: Vec<String> },
    /// List the MIME types with `wl-paste` and these arguments, then decide
    /// with `show_action`.
    Show { list: Vec<String>, primary: bool, no_newline: bool },
    /// Write the output of `wl-paste` with these arguments (the MIME types).
    Types { list: Vec<String> },
    /// Run `wl-copy` with these arguments.
    Clear { args: Vec<String> },
}

/// What each clipboard request runs (see `ClipboardPlan`).
pub fn execute(command: &ClipboardCommands) -> (r: ClipboardPlan)
    ensures
        match *command {
            ClipboardCommands::Copy { mime_type, primary, sensitive } => r matches ClipboardPlan::Copy {
                args,
            } && texts(args@) == copy_args(opt_text(mime_type), primary, sensitive),
            ClipboardCommands::Paste { mime_type, primary, no_newline } => r matches ClipboardPlan::Paste {
                args,
            } && texts(args@) == paste_args(opt_text(mime_type), primary, no_newline),
            ClipboardCommands::Show { primary, no_newline } => r matches ClipboardPlan::Show {
                list,
                primary: p,
                no_newline: n,
            } && texts(list@) == list_args(primary) && p == primary && n == no_newline,
            ClipboardCommands::Types { primary } => r matches ClipboardPlan::Types { list } && texts(
                list@,
            ) == list_args(primary),
            ClipboardCommands::Clear { primary } => r matches ClipboardPlan::Clear { args } && texts(
                args@,
            ) == clear_args(primary),
        },
{
    match command {
        ClipboardCommands::Copy { mime_type, primary, sensitive } => {
            let mut args = mime_args(mime_type.as_ref());
            push_if(&mut args, *primary, "--primary");
            push_if(&mut args, *sensitive, "--sensitive");
            ClipboardPlan::Copy { args }
        },
        ClipboardCommands::Paste { mime_type, primary, no_newline } => {
            ClipboardPlan::Paste { args: paste_arguments(mime_type.as_ref(), *primary, *no_newline) }
        },
        ClipboardCommands::Show { primary, no_newline } => {
            ClipboardPlan::Show {
                list: list_arguments(*primary),
                primary: *primary,
                no_newline: *no_newline,
            }
        },
        ClipboardCommands::Types { primary } => ClipboardPlan::Types { list: list_arguments(*primary) },
        ClipboardCommands::Clear { primary } => {
            let mut args: Vec<String> = Vec::new();
            push_if(&mut args, true, "--clear");
            push_if(&mut args, *primary, "--primary");
            proof {
                assert(Seq::<Seq<char>>::empty() + seq!["--clear"@] =~= seq!["--clear"@]);
            }
            ClipboardPlan::Clear { args }
        },
    }
}

/// What showing the clipboard does.
#[derive(Debug, Clone, PartialEq, Eq)]
pub enum ShowAction {
    /// Paste with these `wl-paste` arguments.
    Paste(Vec<String>),
    /// Print this line.
    Print(String),
}

/// The first line of `ls` that starts with `"text/"`.
pub open spec fn first_text_type(ls: Seq<Seq<char>>) -> Option<Seq<char>>
    decreases ls.len(),
{
    if ls.len() == 0 {
        None
    } else if has_prefix(ls[0], "text/"@) {
        Some(ls[0])
    } else {
        first_text_type(ls.drop_first())
    }
}

/// What showing does with the MIME types `types` (one per line): paste the
/// first text type; else say that the clipboard is empty, or list the types.
pub fn show_action(types: &str, primary: bool, no_newline: bool) -> (r: ShowAction)
    ensures
        match first_text_type(line_list(types@)) {
            Some(t) => r matches ShowAction::Paste(args) && texts(args@) == paste_args(
                Some(t),
                primary,
                no_newline,
            ),
            None => if line_list(types@).len() == 0 {
                r matches ShowAction::Print(m) && m@ == "Clipboard is empty."@
            } else {
                r matches ShowAction::Print(m) && m@ == "Clipboard contains non-text data (MIME types: "@
                    + joined(line_list(types@), ", "@) + ")."@
            },
        },
{
    let v = chars_of(types);
    let ls = split_lines(v.as_slice());
    let ghost all = views(ls@);
    let prefix = chars_of("text/");
    let mut i: usize = 0;
    assert(all.skip(0) == all);
    while i < ls.len()
        invariant
            0 <= i <= ls.len(),
            all == views(ls@),
            all == line_list(types@),
            prefix@ == "text/"@,
            first_text_type(all.skip(i as int)) == first_text_type(all),
        decreases ls.len() - i,
    {
        assert(all.skip(i as int)[0] == all[i as int]);
        if starts_with(ls[i].as_slice(), prefix.as_slice()) {
            let t = string_of(ls[i].as_slice());
            return ShowAction::Paste(paste_arguments(Some(&t), primary, no_newline));
        }
        assert(all.skip(i as int).drop_first() == all.skip(i + 1));
        i = i + 1;
    }
    assert(all.skip(i as int) =~= Seq::<Seq<char>>::empty());
    if ls.len() == 0 {
        return ShowAction::Print("Clipboard is empty.".to_owned());
    }
    let mut m = "Clipboard contains non-text data (MIME types: ".to_owned();
    let list = join_chars(&ls, ", ");
    m.append(list.as_str());
    m.append(").");
    ShowAction::Print(m)
}

/// What went wrong in a clipboard request.
#[derive(Debug, Clone, Copy, PartialEq, Eq, Structural)]
pub enum ClipboardError {
    /// Nothing was given to copy.
    EmptyInput,
}

/// A copy needs some input.
pub fn check_copy_input(data: &[u8]) -> (r: Result<(), ClipboardError>)
    ensures
        r is Ok <==> data.len() > 0,
        r is Err ==> r == Err::<(), ClipboardError>(ClipboardError::EmptyInput),
{
    if data.len() == 0 {
        Err(ClipboardError::EmptyInput)
    } else {
        Ok(())
    }
}

impl ClipboardError {
    /// The message that reports the error.
    pub fn message(&self) -> (m: String)
        ensures
            m@ == "clipboard input is empty"@,
    {
        "clipboard input is empty".to_owned()
    }
}

} // verus!
