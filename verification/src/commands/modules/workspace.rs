//! Workspaces: moving one to a monitor, and which status to show.
use vstd::prelude::*;

use crate::cli::WorkspaceCommands;
use crate::text::{chars_of, i64_error, parse_i64, parse_signed, IntError, push_signed_decimal, signed_decimal, string_of, texts};

verus! {

/// What a workspace request runs.
#[derive(Debug, Clone, PartialEq, Eq)]
pub enum WorkspacePlan {
    /// `hyprctl dispatch` with this expression.
    Dispatch(String),
    /// `hyprctl workspaces`.
    ShowAll,
    /// `hyprctl activeworkspace`.
    ShowActive,
    /// Describe the workspace with this ID from `hyprctl workspaces -j`.
    Describe(i64),
}

/// What went wrong in a workspace request.
#[derive(Debug, Clone, PartialEq, Eq)]
pub enum WorkspaceError {
    /// The workspace is neither `now` nor an `i64`: why std's
    /// `i64::from_str` refuses it.
    InvalidId(IntError),
    /// No workspace has the ID.
    NotFound,
}

impl WorkspaceError {
    /// The message that reports the error.
    pub fn message(&self) -> (m: String)
        ensures
            m@ == match *self {
                WorkspaceError::InvalidId(e) => match e {
                    IntError::Empty => "cannot parse integer from empty string"@,
                    IntError::InvalidDigit => "invalid digit found in string"@,
                    IntError::PosOverflow => "number too large to fit in target type"@,
                    IntError::NegOverflow => "number too small to fit in target type"@,
                },
                WorkspaceError::NotFound => "Workspace is not found."@,
            },
    {
        match self {
            WorkspaceError::InvalidId(e) => e.message(),
            WorkspaceError::NotFound => "Workspace is not found.".to_owned(),
        }
    }
}

/// The Hyprland expression that moves `workspace` to `monitor`.
pub open spec fn move_expression(workspace: Seq<char>, monitor: Seq<char>) -> Seq<char> {
    "hl.dsp.workspace.move({ workspace = \""@ + workspace + "\", monitor = \""@ + monitor
        + "\" })"@
}

/// What each workspace request runs: a move dispatches the move
/// expression; a status shows all workspaces, the active one for `now`, or
/// describes the one whose ID the text is (the error of `i64::from_str`
/// when it is no `i64`).
pub fn execute(command: &WorkspaceCommands) -> (r: Result<WorkspacePlan, WorkspaceError>)
    ensures
        match *command {
            WorkspaceCommands::Move { workspace, monitor } => r matches Ok(
                WorkspacePlan::Dispatch(e),
            ) && e@ == move_expression(workspace@, monitor@),
            WorkspaceCommands::Status { workspace } => match workspace {
                None => r == Ok::<WorkspacePlan, WorkspaceError>(WorkspacePlan::ShowAll),
                Some(w) => if w@ == "now"@ {
                    r == Ok::<WorkspacePlan, WorkspaceError>(WorkspacePlan::ShowActive)
                } else {
                    match parse_signed(w@) {
                        Some(id) => r matches Ok(WorkspacePlan::Describe(n)) && n == id,
                        None => r matches Err(WorkspaceError::InvalidId(e)) && i64_error(w@) == Some(
                            e,
                        ),
                    }
                },
            },
        },
{
    match command {
        WorkspaceCommands::Move { workspace, monitor } => {
            let mut e = "hl.dsp.workspace.move({ workspace = \"".to_owned();
            e.append(workspace.as_str());
            e.append("\", monitor = \"");
            e.append(monitor.as_str());
            e.append("\" })");
            Ok(WorkspacePlan::Dispatch(e))
        },
        WorkspaceCommands::Status { workspace } => match workspace {
            None => Ok(WorkspacePlan::ShowAll),
            Some(w) => {
                let v = chars_of(w.as_str());
                let now = chars_of("now");
                if crate::text::same_chars(v.as_slice(), now.as_slice()) {
                    Ok(WorkspacePlan::ShowActive)
                } else {
                    match parse_i64(v.as_slice()) {
                        Ok(id) => Ok(WorkspacePlan::Describe(id)),
                        Err(e) => Err(WorkspaceError::InvalidId(e)),
                    }
                }
            },
        },
    }
}

/// A workspace as `hyprctl workspaces -j` describes it.
#[derive(Debug, Clone, PartialEq, Eq)]
pub struct Workspace {
    pub id: i64,
    pub name: String,
    pub monitor: String,
    pub monitor_id: i64,
    pub windows: i64,
    pub hasfullscreen: bool,
    pub lastwindow: String,
    pub lastwindowtitle: String,
    pub ispersistent: bool,
    pub tiled_layout: String,
}

/// The position of the first workspace with ID `id`; an error when there is
/// none.
pub fn find_workspace(workspaces: &Vec<Workspace>, id: i64) -> (r: Result<usize, WorkspaceError>)
    ensures
        match r {
            Ok(i) => i < workspaces.len() && workspaces@[i as int].id == id && forall|j: int|
                0 <= j < i ==> workspaces@[j].id != id,
            Err(e) => e == WorkspaceError::NotFound && forall|j: int|
                0 <= j < workspaces.len() ==> workspaces@[j].id != id,
        },
{
    let mut i: usize = 0;
    while i < workspaces.len()
        invariant
            0 <= i <= workspaces.len(),
            forall|j: int| 0 <= j < i ==> workspaces@[j].id != id,
        decreases workspaces.len() - i,
    {
        if workspaces[i].id == id {
            return Ok(i);
        }
        i = i + 1;
    }
    Err(WorkspaceError::NotFound)
}

/// `1` or `0` for a flag.
pub open spec fn flag_text(b: bool) -> Seq<char> {
    if b { "1"@ } else { "0"@ }
}

/// The lines that describe a workspace, as `hyprctl workspaces` shows one.
pub open spec fn description(w: Workspace) -> Seq<Seq<char>> {
    seq![
        "workspace ID "@ + w.name@ + " ("@ + signed_decimal(w.id as int) + ") on monitor "@
            + w.monitor@ + ":"@,
        "\tmonitorID: "@ + signed_decimal(w.monitor_id as int),
        "\twindows: "@ + signed_decimal(w.windows as int),
        "\thasfullscreen: "@ + flag_text(w.hasfullscreen),
        "\tlastwindow: "@ + w.lastwindow@,
        "\tlastwindowtitle: "@ + w.lastwindowtitle@,
        "\tispersistent: "@ + flag_text(w.ispersistent),
        "\ttiledLayout: "@ + w.tiled_layout@ + "\n\n"@,
    ]
}

/// The text of a signed number.
fn number_text(n: i64) -> (r: String)
    ensures
        r@ == signed_decimal(n as int),
{
    let mut v: Vec<char> = Vec::new();
    push_signed_decimal(&mut v, n);
    assert(v@ =~= signed_decimal(n as int));
    string_of(v.as_slice())
}

/// `lit` followed by `tail`.
fn line(lit: &str, tail: &str) -> (r: String)
    ensures
        r@ == lit@ + tail@,
{
    let mut r = lit.to_owned();
    r.append(tail);
    r
}

/// The lines that describe `w` (see `description`).
pub fn describe(w: &Workspace) -> (r: Vec<String>)
    ensures
        texts(r@) == description(*w),
{
    let mut first = line("workspace ID ", w.name.as_str());
    first.append(" (");
    let id = number_text(w.id);
    first.append(id.as_str());
    first.append(") on monitor ");
    first.append(w.monitor.as_str());
    first.append(":");
    let mid = number_text(w.monitor_id);
    let wins = number_text(w.windows);
    let mut last = line("\ttiledLayout: ", w.tiled_layout.as_str());
    last.append("\n\n");
    let mut r: Vec<String> = Vec::new();
    r.push(first);
    r.push(line("\tmonitorID: ", mid.as_str()));
    r.push(line("\twindows: ", wins.as_str()));
    r.push(line("\thasfullscreen: ", if w.hasfullscreen { "1" } else { "0" }));
    r.push(line("\tlastwindow: ", w.lastwindow.as_str()));
    r.push(line("\tlastwindowtitle: ", w.lastwindowtitle.as_str()));
    r.push(line("\tispersistent: ", if w.ispersistent { "1" } else { "0" }));
    r.push(last);
    assert(texts(r@) =~= description(*w));
    r
}

} // verus!
