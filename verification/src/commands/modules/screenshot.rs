//! Screenshots with `grim`: checking the options, choosing the region,
//! the `grim` arguments, geometries and generated file names.
use vstd::prelude::*;

use crate::cli::ScreenshotArgs;
use crate::text::{chars_of, decimal, push_decimal, push_signed_decimal, same_chars, signed_decimal, string_of, texts, trim, trimmed};

verus! {

/// What went wrong in a screenshot.
#[derive(Debug, Clone, PartialEq, Eq)]
pub enum ScreenshotError {
    /// `--no-save` without `--clipboard` would keep the picture nowhere.
    NoSaveWithoutClipboard,
    /// `--freeze` only goes with an interactive region.
    FreezeNeedsRegion,
    /// The region selection gave nothing.
    SelectionCancelled,
    /// No monitor of this name.
    MonitorNotFound(String),
    /// `grim` exited with failure; its error output, trimmed.
    GrimFailed(String),
    /// `grim` succeeded but wrote no picture.
    EmptyScreenshot,
}

impl ScreenshotError {
    /// The message that reports the error.
    pub fn message(&self) -> (m: String)
        ensures
            m@ == match *self {
                ScreenshotError::NoSaveWithoutClipboard => "--no-save requires --clipboard"@,
                ScreenshotError::FreezeNeedsRegion => "--freeze can only be used with interactive region selection"@,
                ScreenshotError::SelectionCancelled => "region selection was cancelled"@,
                ScreenshotError::MonitorNotFound(n) => "monitor not found: "@ + n@,
                ScreenshotError::GrimFailed(e) => "grim failed: "@ + e@,
                ScreenshotError::EmptyScreenshot => "grim returned an empty screenshot"@,
            },
    {
        match self {
            ScreenshotError::NoSaveWithoutClipboard => "--no-save requires --clipboard".to_owned(),
            ScreenshotError::FreezeNeedsRegion => "--freeze can only be used with interactive region selection".to_owned(),
            ScreenshotError::SelectionCancelled => "region selection was cancelled".to_owned(),
            ScreenshotError::MonitorNotFound(n) => {
                let mut m = "monitor not found: ".to_owned();
                m.append(n.as_str());
                m
            },
            ScreenshotError::GrimFailed(e) => {
                let mut m = "grim failed: ".to_owned();
                m.append(e.as_str());
                m
            },
            ScreenshotError::EmptyScreenshot => "grim returned an empty screenshot".to_owned(),
        }
    }
}

/// Where the picture's geometry comes from.
#[derive(Debug, Clone, PartialEq, Eq)]
pub enum Region {
    /// The focused window.
    Window,
    /// The monitor of this name.
    Monitor(String),
    /// The whole desktop: no geometry.
    Desktop,
    /// An interactive selection, with the desktop frozen or not.
    Select { freeze: bool },
}

/// The screenshot to take: its region, whether the pointer is in it, whether
/// a file is saved and whether the PNG goes to the clipboard.
#[derive(Debug, Clone, PartialEq, Eq)]
pub struct CapturePlan {
    pub region: Region,
    pub cursor: bool,
    pub save: bool,
    pub clipboard: bool,
}

/// The region that the options ask for: the window, else the named monitor,
/// else the whole desktop for `--fast`, else a selection.
pub open spec fn region_of(args: ScreenshotArgs) -> Region {
    if args.window {
        Region::Window
    } else if args.monitor is Some {
        Region::Monitor(args.monitor->0)
    } else if args.fast {
        Region::Desktop
    } else {
        Region::Select { freeze: args.freeze }
    }
}

/// `--window` captures the focused window whatever else is asked: it goes
/// before `--monitor`, `--fast` and a selection; `--monitor` goes before
/// `--fast` and a selection; only without all three is a region selected.
pub proof fn law_region_precedence(args: ScreenshotArgs)
    ensures
        args.window ==> region_of(args) == Region::Window,
        !args.window && args.monitor is Some ==> region_of(args) == Region::Monitor(args.monitor->0),
        !args.window && args.monitor is None && args.fast ==> region_of(args) == Region::Desktop,
        region_of(args) is Select ==> !args.window && args.monitor is None && !args.fast
            && region_of(args) == (Region::Select { freeze: args.freeze }),
{
}

/// Checks the options and decides the screenshot: `--no-save` needs
/// `--clipboard`, and `--freeze` does not go with `--fast`, `--window` or
/// `--monitor`; otherwise the plan follows the options.
pub fn capture_plan(args: &ScreenshotArgs) -> (r: Result<CapturePlan, ScreenshotError>)
    ensures
        args.no_save && !args.clipboard ==> r == Err::<CapturePlan, ScreenshotError>(
            ScreenshotError::NoSaveWithoutClipboard,
        ),
        !(args.no_save && !args.clipboard) && args.freeze && (args.fast || args.window
            || args.monitor is Some) ==> r == Err::<CapturePlan, ScreenshotError>(
            ScreenshotError::FreezeNeedsRegion,
        ),
        !(args.no_save && !args.clipboard) && !(args.freeze && (args.fast || args.window
            || args.monitor is Some)) ==> r == Ok::<CapturePlan, ScreenshotError>(
            CapturePlan {
                region: region_of(*args),
                cursor: args.cursor,
                save: !args.no_save,
                clipboard: args.clipboard,
            },
        ),
        r matches Ok(p) ==> {
            &&& args.window ==> p.region == Region::Window
            &&& !args.window && args.monitor is Some ==> p.region == Region::Monitor(args.monitor->0)
            &&& !args.window && args.monitor is None && args.fast ==> p.region == Region::Desktop
            &&& !args.window && args.monitor is None && !args.fast ==> p.region == (Region::Select {
                freeze: args.freeze,
            })
        },
{
    if args.no_save && !args.clipboard {
        return Err(ScreenshotError::NoSaveWithoutClipboard);
    }
    if args.freeze && (args.fast || args.window || args.monitor.is_some()) {
        return Err(ScreenshotError::FreezeNeedsRegion);
    }
    let region = if args.window {
        Region::Window
    } else if let Some(name) = &args.monitor {
        Region::Monitor(name.clone())
    } else if args.fast {
        Region::Desktop
    } else {
        Region::Select { freeze: args.freeze }
    };
    Ok(CapturePlan { region, cursor: args.cursor, save: !args.no_save, clipboard: args.clipboard })
}

/// The arguments of `grim`: `-c` for the pointer, `-g <geometry>` when there
/// is one, and `-` to write the PNG to standard output.
pub fn grim_args(cursor: bool, geometry: Option<&str>) -> (r: Vec<String>)
    ensures
        texts(r@) == (if cursor { seq!["-c"@] } else { Seq::empty() }) + (match geometry {
            Some(g) => seq!["-g"@, g@],
            None => Seq::empty(),
        }) + seq!["-"@],
{
    let mut r: Vec<String> = Vec::new();
    let ghost mut expect: Seq<Seq<char>> = Seq::empty();
    if cursor {
        r.push("-c".to_owned());
        proof { expect = seq!["-c"@]; }
    }
    assert(texts(r@) =~= expect);
    if let Some(g) = geometry {
        r.push("-g".to_owned());
        r.push(g.to_owned());
        proof { expect = expect + seq!["-g"@, g@]; }
    } else {
        proof { expect = expect + Seq::empty(); }
    }
    assert(texts(r@) =~= expect);
    r.push("-".to_owned());
    assert(texts(r@) =~= expect + seq!["-"@]);
    r
}

/// The geometry that `slurp` printed: its output trimmed; an empty one means
/// the selection was cancelled.
pub fn selected_geometry(output: &str) -> (r: Result<String, ScreenshotError>)
    ensures
        trimmed(output@).len() > 0 ==> (r matches Ok(g) && g@ == trimmed(output@)),
        trimmed(output@).len() == 0 ==> r == Err::<String, ScreenshotError>(
            ScreenshotError::SelectionCancelled,
        ),
{
    let v = chars_of(output);
    let t = trim(v.as_slice());
    if t.len() == 0 {
        return Err(ScreenshotError::SelectionCancelled);
    }
    Ok(string_of(t.as_slice()))
}

/// The `grim` geometry of a rectangle: `"<x>,<y> <width>x<height>"`.
pub open spec fn geometry_text(x: int, y: int, w: int, h: int) -> Seq<char> {
    signed_decimal(x) + seq![','] + signed_decimal(y) + seq![' '] + signed_decimal(w) + seq!['x']
        + signed_decimal(h)
}

/// The `grim` geometry of a rectangle (see `geometry_text`).
pub fn geometry(x: i64, y: i64, width: i64, height: i64) -> (r: String)
    ensures
        r@ == geometry_text(x as int, y as int, width as int, height as int),
{
    let mut v: Vec<char> = Vec::new();
    push_signed_decimal(&mut v, x);
    v.push(',');
    push_signed_decimal(&mut v, y);
    v.push(' ');
    push_signed_decimal(&mut v, width);
    v.push('x');
    push_signed_decimal(&mut v, height);
    let r = string_of(v.as_slice());
    assert(r@ =~= geometry_text(x as int, y as int, width as int, height as int));
    r
}

/// A monitor as `hyprctl monitors -j` describes it.
#[derive(Debug, Clone, PartialEq, Eq)]
pub struct Monitor {
    pub name: String,
    pub x: i64,
    pub y: i64,
    pub width: i64,
    pub height: i64,
}

/// The geometry of the first monitor named `name`; an error when there is
/// none.
pub fn monitor_geometry(monitors: &Vec<Monitor>, name: &str) -> (r: Result<String, ScreenshotError>)
    ensures
        match r {
            Ok(g) => exists|i: int|
                0 <= i < monitors.len() && (#[trigger] monitors@[i]).name@ == name@ && g@
                    == geometry_text(
                    monitors@[i].x as int,
                    monitors@[i].y as int,
                    monitors@[i].width as int,
                    monitors@[i].height as int,
                ) && forall|j: int| 0 <= j < i ==> monitors@[j].name@ != name@,
            Err(e) => (e matches ScreenshotError::MonitorNotFound(n) && n@ == name@) && forall|j: int|
                0 <= j < monitors.len() ==> monitors@[j].name@ != name@,
        },
{
    let want = chars_of(name);
    let mut i: usize = 0;
    while i < monitors.len()
        invariant
            0 <= i <= monitors.len(),
            want@ == name@,
            forall|j: int| 0 <= j < i ==> monitors@[j].name@ != name@,
        decreases monitors.len() - i,
    {
        let m = &monitors[i];
        let n = chars_of(m.name.as_str());
        if same_chars(n.as_slice(), want.as_slice()) {
            return Ok(geometry(m.x, m.y, m.width, m.height));
        }
        i = i + 1;
    }
    Err(ScreenshotError::MonitorNotFound(name.to_owned()))
}

/// The generated file name: `screenshot-<millis>.png`, or with `-<n>` before
/// the extension for the `n`th name tried after a taken one.
pub open spec fn screenshot_name(millis: nat, suffix: Option<nat>) -> Seq<char> {
    "screenshot-"@ + decimal(millis) + match suffix {
        Some(n) => seq!['-'] + decimal(n),
        None => Seq::empty(),
    } + ".png"@
}

/// The generated file name (see `screenshot_name`).
pub fn screenshot_file_name(millis: u128, suffix: Option<u64>) -> (r: String)
    ensures
        r@ == screenshot_name(
            millis as nat,
            match suffix {
                Some(n) => Some(n as nat),
                None => None,
            },
        ),
{
    let mut v: Vec<char> = Vec::new();
    push_decimal(&mut v, millis);
    if let Some(n) = suffix {
        v.push('-');
        push_decimal(&mut v, n as u128);
    }
    let mut r = "screenshot-".to_owned();
    let tail = string_of(v.as_slice());
    r.append(tail.as_str());
    r.append(".png");
    proof {
        match suffix {
            Some(n) => {
                assert(tail@ =~= decimal(millis as nat) + (seq!['-'] + decimal(n as nat)));
            },
            None => {
                assert(tail@ =~= decimal(millis as nat) + Seq::<char>::empty());
            },
        }
    }
    r
}


/// The error text of a tool that could not be started: `"<tool> is required:
/// <error>"`.
pub fn tool_error(tool: &str, error: &str) -> (r: String)
    ensures
        r@ == tool@ + " is required: "@ + error@,
{
    let mut r = tool.to_owned();
    r.append(" is required: ");
    r.append(error);
    r
}

/// The error output of a tool as reported: its text trimmed.
pub fn stderr(text: &str) -> (r: String)
    ensures
        r@ == trimmed(text@),
{
    let v = chars_of(text);
    let t = trim(v.as_slice());
    string_of(t.as_slice())
}

/// Whether the run of `grim` gave a picture: a failed run is reported with
/// its error output trimmed; a successful run that wrote nothing is an
/// empty screenshot.
pub fn check_grim(success: bool, output_len: usize, error_output: &str) -> (r: Result<(), ScreenshotError>)
    ensures
        !success ==> (r matches Err(ScreenshotError::GrimFailed(e)) && e@ == trimmed(error_output@)),
        success && output_len == 0 ==> r == Err::<(), ScreenshotError>(ScreenshotError::EmptyScreenshot),
        success && output_len > 0 ==> r == Ok::<(), ScreenshotError>(()),
{
    if !success {
        return Err(ScreenshotError::GrimFailed(stderr(error_output)));
    }
    if output_len == 0 {
        return Err(ScreenshotError::EmptyScreenshot);
    }
    Ok(())
}

} // verus!
