//! The start-up decisions of the app shell: whether this launch came from
//! the logon entry, what a second launch does, the WebView2 arguments that
//! switch the overlay to software compositing, whether a window has been
//! stranded off every monitor, when the tray icon has already been promoted,
//! and the one message box a fatal start shows.
use vstd::prelude::*;

use crate::text::{
    chars_of, contains_seq, eq_ignore_ascii_case, eq_ignore_case_at, push_str, str_contains,
    str_eq,
};

verus! {

/// The argument the logon entry starts the app with.
pub const AUTOSTART_FLAG: &'static str = "--autostart";

/// The WebView2 browser argument that turns GPU composition off.
pub const DISABLE_GPU: &'static str = "--disable-gpu";

/// The compositing mode that asks for [`DISABLE_GPU`].
pub const SOFTWARE_MODE: &'static str = "software";

/// Some argument is exactly `flag`.
pub open spec fn has_arg(args: Seq<String>, flag: Seq<char>) -> bool {
    exists|i: int| 0 <= i < args.len() && #[trigger] args[i]@ == flag
}

/// Was this process started by the logon entry (`--autostart` among its
/// arguments)?
pub fn is_autostart_launch(args: &[String]) -> (r: bool)
    ensures
        r == has_arg(args@, AUTOSTART_FLAG@),
{
    let mut i: usize = 0;
    while i < args.len()
        invariant
            i <= args.len(),
            forall|k: int| 0 <= k < i ==> (#[trigger] args@[k])@ != AUTOSTART_FLAG@,
        decreases args.len() - i,
    {
        if str_eq(args[i].as_str(), AUTOSTART_FLAG) {
            return true;
        }
        i += 1;
    }
    false
}

/// What the running instance does when another launch of the app arrives.
#[derive(Clone, Copy, Debug, PartialEq, Eq, Structural)]
pub enum SecondLaunch {
    /// A second logon launch: nothing.
    Ignore,
    /// A person asked for the app: front the dashboard, building the windows
    /// first when they do not exist yet.
    Front { create_first: bool },
}

/// The answer to a second launch with `args`, given whether the dashboard
/// window exists.
pub fn second_launch(args: &[String], has_dashboard: bool) -> (r: SecondLaunch)
    ensures
        r == (if has_arg(args@, AUTOSTART_FLAG@) {
            SecondLaunch::Ignore
        } else {
            SecondLaunch::Front { create_first: !has_dashboard }
        }),
{
    if is_autostart_launch(args) {
        SecondLaunch::Ignore
    } else {
        SecondLaunch::Front { create_first: !has_dashboard }
    }
}

/// The WebView2 argument string with `--disable-gpu` added once.
pub open spec fn spec_with_disable_gpu(current: Seq<char>) -> Seq<char> {
    if contains_seq(current, DISABLE_GPU@) {
        current
    } else if current.len() == 0 {
        DISABLE_GPU@
    } else {
        current + " "@ + DISABLE_GPU@
    }
}

/// The WebView2 arguments to set for the compositing mode `mode`, given the
/// current ones: `None` (leave them) unless the mode is `software`.
pub fn webview_args_for(mode: &str, current: &str) -> (r: Option<String>)
    ensures
        mode@ != SOFTWARE_MODE@ ==> r is None,
        mode@ == SOFTWARE_MODE@ ==> (r matches Some(s) && s@ == spec_with_disable_gpu(current@)),
{
    if !str_eq(mode, SOFTWARE_MODE) {
        return None;
    }
    let mut s = String::new();
    push_str(&mut s, current);
    if !str_contains(current, DISABLE_GPU) {
        if chars_of(current).len() > 0 {
            push_str(&mut s, " ");
        }
        push_str(&mut s, DISABLE_GPU);
    }
    Some(s)
}

/// A live monitor's rectangle: left, top, width, height, in physical pixels.
pub type MonitorRect = (i32, i32, u32, u32);

/// The point `(x, y)` lies inside monitor `m`.
pub open spec fn inside(m: MonitorRect, x: int, y: int) -> bool {
    m.0 <= x < m.0 + m.2 && m.1 <= y < m.1 + m.3
}

/// A window at `(x, y)` of size `width`×`height` has to be re-centred: there
/// are monitors, and its centre lies on none of them.
pub open spec fn stranded(x: i32, y: i32, width: u32, height: u32, monitors: Seq<MonitorRect>) -> bool {
    let cx = x + width / 2;
    let cy = y + height / 2;
    monitors.len() > 0 && !(exists|i: int| 0 <= i < monitors.len() && inside(#[trigger] monitors[i], cx, cy))
}

/// Whether a window at `(x, y)` of size `width`×`height` is stranded off
/// every live monitor and must be re-centred. With no monitors at all there
/// is nothing sane to do, and the answer is no.
pub fn needs_recentre(x: i32, y: i32, width: u32, height: u32, monitors: &[MonitorRect]) -> (r: bool)
    ensures
        r == stranded(x, y, width, height, monitors@),
{
    if monitors.len() == 0 {
        return false;
    }
    let cx: i64 = x as i64 + (width / 2) as i64;
    let cy: i64 = y as i64 + (height / 2) as i64;
    let mut i: usize = 0;
    while i < monitors.len()
        invariant
            i <= monitors.len(),
            cx == x + width / 2,
            cy == y + height / 2,
            forall|k: int| 0 <= k < i ==> !inside(#[trigger] monitors@[k], cx as int, cy as int),
        decreases monitors.len() - i,
    {
        let (mx, my, mw, mh) = monitors[i];
        if mx as i64 <= cx && cx < mx as i64 + mw as i64 && my as i64 <= cy && cy < my as i64
            + mh as i64 {
            assert(inside(monitors@[i as int], cx as int, cy as int));
            return false;
        }
        i += 1;
    }
    true
}

/// The tray icon was already promoted for this executable: the path is
/// known and matches the one recorded, ignoring ASCII case.
pub fn tray_already_promoted(exe: &str, promoted_for: &str) -> (r: bool)
    ensures
        r == (exe@.len() > 0 && eq_ignore_ascii_case(promoted_for@, exe@)),
{
    let me = chars_of(exe);
    let done = chars_of(promoted_for);
    if me.len() == 0 || done.len() != me.len() {
        return false;
    }
    let r = eq_ignore_case_at(&done, 0, &me);
    assert(done@.subrange(0, me@.len() as int) =~= done@);
    r
}

/// A panic shows the fatal message box only on the main thread and only
/// before the tray icon exists; anywhere else it is logged and survived.
pub fn shows_fatal_box(on_main_thread: bool, ui_ready: bool) -> (r: bool)
    ensures
        r == (on_main_thread && !ui_ready),
{
    on_main_thread && !ui_ready
}

/// The fatal message box's text around `detail`.
pub open spec fn spec_fatal_box_body(detail: Seq<char>) -> Seq<char> {
    "Spaceadom could not start.\n\n"@ + detail
        + "\n\nThis is usually a missing or broken Microsoft Edge WebView2 Runtime. Reinstalling Spaceadom repairs it.\n\nDetails: %APPDATA%\\Spaceadom\\debug.log"@
}

/// The fatal message box's text for `detail`.
pub fn fatal_box_body(detail: &str) -> (r: String)
    ensures
        r@ == spec_fatal_box_body(detail@),
{
    let mut s = String::new();
    push_str(&mut s, "Spaceadom could not start.\n\n");
    push_str(&mut s, detail);
    push_str(
        &mut s,
        "\n\nThis is usually a missing or broken Microsoft Edge WebView2 Runtime. Reinstalling Spaceadom repairs it.\n\nDetails: %APPDATA%\\Spaceadom\\debug.log",
    );
    s
}

/// The label of the Guide HUD's overlay window.
pub const OVERLAY_LABEL: &'static str = "overlay";

/// Whether a declared window is built by the window creation: not when it
/// exists already, and not the overlay in safe mode.
pub fn builds_window(label: &str, exists: bool, safe_mode: bool) -> (r: bool)
    ensures
        r == (!exists && !(label@ == OVERLAY_LABEL@ && safe_mode)),
{
    !exists && !(str_eq(label, OVERLAY_LABEL) && safe_mode)
}

/// Whether the app's windows have been built. Whoever asks first builds
/// them; every later asker finds the work done.
pub struct WindowGate {
    created: bool,
}

impl WindowGate {
    /// No window has been built yet.
    pub closed spec fn is_open(&self) -> bool {
        !self.created
    }

    /// A gate before any window exists.
    pub fn new() -> (g: Self)
        ensures
            g.is_open(),
    {
        WindowGate { created: false }
    }

    /// Has the UI been built yet?
    pub fn windows_created(&self) -> (b: bool)
        ensures
            b == !self.is_open(),
    {
        self.created
    }

    /// Claims the creation: `true` for the one caller that must build the
    /// windows, `false` for every caller after it.
    pub fn claim(&mut self) -> (first: bool)
        ensures
            first == old(self).is_open(),
            !final(self).is_open(),
    {
        let first = !self.created;
        self.created = true;
        first
    }
}

} // verus!
