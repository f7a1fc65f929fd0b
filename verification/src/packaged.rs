//! "Is this copy running from an MSIX package?", and the decisions that
//! differ when the answer is yes: how the package probe's return codes are
//! read, what the package's startup task state means for the settings row,
//! and whether the first packaged launch has a config to snapshot.
//!
//! The probe itself (`GetCurrentPackageFullName`) and the WinRT startup-task
//! calls are the caller's; everything here is the pure reading of their
//! answers.
use crate::text::{chars_of, trim, trim_chars};
use vstd::prelude::*;

verus! {

/// The boot line's marker: long, lower-case, hyphenated and unique, so a
/// log grep finds it and it survives contiguously in the binary.
pub const BOOT_MARKER: &'static str = "package-identity-probe-msix-store-mode-spaceadom";

/// The `TaskId` of the `windows.startupTask` extension in the manifest.
pub const STARTUP_TASK_ID: &'static str = "SpaceadomStartupTask";

/// The placeholder name for a process that IS packaged but whose package
/// could not be named.
pub const UNKNOWN_PACKAGE_NAME: &'static str = "<packaged, name unavailable>";

/// `GetCurrentPackageFullName`'s success code.
pub const ERROR_SUCCESS: u32 = 0;

/// The sizing call's answer for a packaged process.
pub const ERROR_INSUFFICIENT_BUFFER: u32 = 122;

/// The one code that means "no package identity".
pub const APPMODEL_ERROR_NO_PACKAGE: u32 = 15700;

/// What the probe found.
#[derive(Debug, Clone, PartialEq, Eq)]
pub enum Identity {
    /// No package identity: an NSIS or MSI install, or a `cargo` build.
    Unpackaged,
    /// Running from an MSIX package, under this full name.
    Packaged { full_name: String },
}

impl Identity {
    /// True when this identity is a package's.
    pub fn is_packaged(&self) -> (b: bool)
        ensures
            b == (self is Packaged),
    {
        match self {
            Identity::Packaged { .. } => true,
            Identity::Unpackaged => false,
        }
    }
}

/// True when the process's identity is a package's.
pub fn is_packaged(id: &Identity) -> (b: bool)
    ensures
        b == (*id is Packaged),
{
    id.is_packaged()
}

/// The package full name, or `None` when unpackaged or when the name could
/// not be read (the placeholder name).
pub fn package_full_name(id: &Identity) -> (r: Option<&str>)
    ensures
        match *id {
            Identity::Unpackaged => r is None,
            Identity::Packaged { full_name } => if full_name@ == UNKNOWN_PACKAGE_NAME@ {
                r is None
            } else {
                r matches Some(n) && n@ == full_name@
            },
        },
{
    match id {
        Identity::Packaged { full_name } => {
            if crate::text::str_eq(full_name.as_str(), UNKNOWN_PACKAGE_NAME) {
                None
            } else {
                Some(full_name.as_str())
            }
        },
        Identity::Unpackaged => None,
    }
}

/// How `GetCurrentPackageFullName`'s sizing-call return code is read.
#[derive(Debug, Clone, Copy, PartialEq, Eq)]
pub enum ProbeVerdict {
    /// 15700: definitively unpackaged. The ONLY code that means this.
    NoPackage,
    /// 0 or 122: packaged; read the name.
    Packaged,
    /// Anything else: treated as unpackaged, but reported.
    Unexpected(u32),
}

/// Read the sizing call's return code: 15700 is the only "no package" code,
/// 0 and 122 mean packaged, and anything else is an anomaly.
pub fn classify_probe_rc(rc: u32) -> (v: ProbeVerdict)
    ensures
        rc == APPMODEL_ERROR_NO_PACKAGE ==> v == ProbeVerdict::NoPackage,
        rc == ERROR_SUCCESS || rc == ERROR_INSUFFICIENT_BUFFER ==> v == ProbeVerdict::Packaged,
        rc != APPMODEL_ERROR_NO_PACKAGE && rc != ERROR_SUCCESS && rc != ERROR_INSUFFICIENT_BUFFER
            ==> v == ProbeVerdict::Unexpected(rc),
{
    if rc == APPMODEL_ERROR_NO_PACKAGE {
        ProbeVerdict::NoPackage
    } else if rc == ERROR_SUCCESS || rc == ERROR_INSUFFICIENT_BUFFER {
        ProbeVerdict::Packaged
    } else {
        ProbeVerdict::Unexpected(rc)
    }
}

/// The identity a probe arrives at. The sizing call's verdict decides
/// packaged or not; once it has said packaged, a failure of the naming call
/// keeps the identity packaged with the placeholder name, never demoting it.
pub fn identity_from_probe(sizing_rc: u32, naming_rc: u32, name: String) -> (id: Identity)
    ensures
        sizing_rc == ERROR_SUCCESS || sizing_rc == ERROR_INSUFFICIENT_BUFFER ==> (if naming_rc
            == ERROR_SUCCESS {
            id == (Identity::Packaged { full_name: name })
        } else {
            (id matches Identity::Packaged { full_name } && full_name@ == UNKNOWN_PACKAGE_NAME@)
        }),
        !(sizing_rc == ERROR_SUCCESS || sizing_rc == ERROR_INSUFFICIENT_BUFFER) ==> id
            == Identity::Unpackaged,
{
    match classify_probe_rc(sizing_rc) {
        ProbeVerdict::NoPackage => Identity::Unpackaged,
        ProbeVerdict::Unexpected(_) => Identity::Unpackaged,
        ProbeVerdict::Packaged => {
            if naming_rc != ERROR_SUCCESS {
                Identity::Packaged { full_name: crate::text::owned(UNKNOWN_PACKAGE_NAME) }
            } else {
                Identity::Packaged { full_name: name }
            }
        },
    }
}

/// The state of the package's `windows.startupTask`, flattened for the UI.
#[derive(Debug, Clone, Copy, PartialEq, Eq)]
pub enum StartupState {
    /// Runs at logon.
    Enabled,
    /// Does not run at logon; the app may turn it back on.
    Disabled,
    /// The user turned it off in Task Manager; the app cannot undo it.
    DisabledByUser,
    /// Group policy.
    DisabledByPolicy,
    /// Group policy, forced on.
    EnabledByPolicy,
    /// The API could not be reached at all.
    Unavailable,
}

/// `Enabled` and `Disabled` are the only states the app may change.
pub open spec fn spec_app_may_change(state: StartupState) -> bool {
    state == StartupState::Enabled || state == StartupState::Disabled
}

/// Can the app itself change this?
pub fn app_may_change(state: StartupState) -> (b: bool)
    ensures
        b == spec_app_may_change(state),
{
    match state {
        StartupState::Enabled | StartupState::Disabled => true,
        _ => false,
    }
}

/// The one-sentence reason shown under an inert row; empty when the row is
/// live.
pub fn startup_locked_note(state: StartupState) -> (note: &'static str)
    ensures
        (note@.len() == 0) == spec_app_may_change(state),
{
    proof {
        reveal_strlit("");
        reveal_strlit(
            "Windows is holding this off. You turned Spaceadom off in Task Manager (Startup apps), and Windows does not let an app switch itself back on. Turn it on there and this comes back.",
        );
        reveal_strlit("Your organisation's policy decides this one, so the switch is off here.");
        reveal_strlit(
            "Your organisation's policy starts Spaceadom with Windows, so this cannot be turned off here.",
        );
        reveal_strlit(
            "Windows manages this for the Store version. Settings \u{25b8} Apps \u{25b8} Startup has the switch.",
        );
    }
    match state {
        StartupState::Enabled | StartupState::Disabled => "",
        StartupState::DisabledByUser => {
            "Windows is holding this off. You turned Spaceadom off in Task Manager (Startup apps), and Windows does not let an app switch itself back on. Turn it on there and this comes back."
        },
        StartupState::DisabledByPolicy => {
            "Your organisation's policy decides this one, so the switch is off here."
        },
        StartupState::EnabledByPolicy => {
            "Your organisation's policy starts Spaceadom with Windows, so this cannot be turned off here."
        },
        StartupState::Unavailable => {
            "Windows manages this for the Store version. Settings \u{25b8} Apps \u{25b8} Startup has the switch."
        },
    }
}

/// The WinRT `StartupTaskState` numbering, in declaration order.
pub open spec fn spec_startup_state(raw: i32) -> StartupState {
    if raw == 0 {
        StartupState::Disabled
    } else if raw == 1 {
        StartupState::DisabledByUser
    } else if raw == 2 {
        StartupState::Enabled
    } else if raw == 3 {
        StartupState::DisabledByPolicy
    } else if raw == 4 {
        StartupState::EnabledByPolicy
    } else {
        StartupState::Unavailable
    }
}

/// Map the WinRT enum's number.
pub fn classify_startup_state(raw: i32) -> (s: StartupState)
    ensures
        s == spec_startup_state(raw),
{
    match raw {
        0 => StartupState::Disabled,
        1 => StartupState::DisabledByUser,
        2 => StartupState::Enabled,
        3 => StartupState::DisabledByPolicy,
        4 => StartupState::EnabledByPolicy,
        _ => StartupState::Unavailable,
    }
}

/// What the startup-task call answered.
#[derive(Debug, Clone, Copy, PartialEq, Eq)]
pub enum TaskReply {
    /// `StartupTask::GetAsync` failed: the task could not be reached.
    Unreachable,
    /// The task was reached but the call on it failed.
    Failed,
    /// The task reported this raw `StartupTaskState`.
    State(i32),
    /// `Disable()` succeeded.
    DisableDone,
}

/// The state of the package's startup task: `Unavailable` for every failure,
/// including "not packaged".
pub fn startup_task_state(packaged: bool, reply: TaskReply) -> (s: StartupState)
    ensures
        s == (if !packaged {
            StartupState::Unavailable
        } else {
            match reply {
                TaskReply::State(raw) => spec_startup_state(raw),
                _ => StartupState::Unavailable,
            }
        }),
{
    if !packaged {
        return StartupState::Unavailable;
    }
    match reply {
        TaskReply::State(raw) => classify_startup_state(raw),
        _ => StartupState::Unavailable,
    }
}

/// The state after asking Windows to enable or disable the startup task:
/// an enable reports whatever state Windows answered with (which may be
/// `DisabledByUser`), a successful disable is `Disabled`, and every failure
/// is `Unavailable`.
pub fn set_startup_task(packaged: bool, enabled: bool, reply: TaskReply) -> (s: StartupState)
    ensures
        s == (if !packaged {
            StartupState::Unavailable
        } else if enabled {
            match reply {
                TaskReply::State(raw) => spec_startup_state(raw),
                _ => StartupState::Unavailable,
            }
        } else if reply == TaskReply::DisableDone {
            StartupState::Disabled
        } else {
            StartupState::Unavailable
        }),
{
    if !packaged {
        return StartupState::Unavailable;
    }
    if enabled {
        match reply {
            TaskReply::State(raw) => classify_startup_state(raw),
            _ => StartupState::Unavailable,
        }
    } else {
        match reply {
            TaskReply::DisableDone => StartupState::Disabled,
            _ => StartupState::Unavailable,
        }
    }
}

/// What the first packaged launch should do about the user's config.
#[derive(Debug, Clone, Copy, PartialEq, Eq)]
pub enum MigrationPlan {
    /// Not a packaged process.
    NotPackaged,
    /// The marker is there: a packaged launch has already happened.
    AlreadyDone,
    /// First packaged launch and a config is readable at the classic path.
    Snapshot,
    /// First packaged launch, no config anywhere.
    Nothing,
    /// The resolved data dir IS the classic path: nothing to copy to.
    SameDirectory,
}

/// The migration decision: unpackaged never migrates; then a data dir that
/// is already the classic path (checked before the marker); then the
/// marker; then whether a config exists.
pub fn plan_migration(
    packaged: bool,
    marker_exists: bool,
    classic_config_exists: bool,
    data_dir_is_classic: bool,
) -> (p: MigrationPlan)
    ensures
        p == (if !packaged {
            MigrationPlan::NotPackaged
        } else if data_dir_is_classic {
            MigrationPlan::SameDirectory
        } else if marker_exists {
            MigrationPlan::AlreadyDone
        } else if classic_config_exists {
            MigrationPlan::Snapshot
        } else {
            MigrationPlan::Nothing
        }),
{
    if !packaged {
        return MigrationPlan::NotPackaged;
    }
    if data_dir_is_classic {
        return MigrationPlan::SameDirectory;
    }
    if marker_exists {
        return MigrationPlan::AlreadyDone;
    }
    if classic_config_exists {
        MigrationPlan::Snapshot
    } else {
        MigrationPlan::Nothing
    }
}

/// `str::to_lowercase`: the full Unicode lower-case mapping of `s`.
pub uninterp spec fn lowercase(s: Seq<char>) -> Seq<char>;

/// `str::to_lowercase`.
#[verifier::external_body]
pub(crate) fn to_lowercase(s: &str) -> (r: String)
    ensures
        r@ == lowercase(s@),
{
    s.to_lowercase()
}

/// Every `/` written as `\`.
pub open spec fn backslashed(s: Seq<char>) -> Seq<char> {
    s.map_values(|c: char| if c == '/' {
        '\\'
    } else {
        c
    })
}

/// The number of trailing `\` characters of `s`.
pub open spec fn trailing_backslashes(s: Seq<char>) -> nat
    decreases s.len(),
{
    if s.len() > 0 && s.last() == '\\' {
        1 + trailing_backslashes(s.drop_last())
    } else {
        0
    }
}

/// The directory spelling `same_directory` compares: trimmed, `/` as `\`,
/// trailing `\` removed (then lower-cased by [`lowercase`]).
pub open spec fn dir_key(s: Seq<char>) -> Seq<char> {
    let t = backslashed(trim(s));
    t.take(t.len() - trailing_backslashes(t))
}

proof fn lemma_trailing_is(s: Seq<char>, i: int)
    requires
        0 <= i <= s.len(),
        forall|j: int| i <= j < s.len() ==> #[trigger] s[j] == '\\',
        i > 0 ==> s[i - 1] != '\\',
    ensures
        trailing_backslashes(s) == s.len() - i,
    decreases s.len(),
{
    if i < s.len() {
        assert forall|j: int| i <= j < s.len() - 1 implies #[trigger] s.drop_last()[j] == '\\' by {
            assert(s.drop_last()[j] == s[j]);
        }
        lemma_trailing_is(s.drop_last(), i);
    }
}

/// `dir_key` of a string, as a `String`.
fn dir_key_of(s: &str) -> (r: String)
    ensures
        r@ == dir_key(s@),
{
    let v = chars_of(s);
    let t = trim_chars(&v);
    let mut b: Vec<char> = Vec::new();
    let mut i: usize = 0;
    while i < t.len()
        invariant
            i <= t.len(),
            b@ == backslashed(t@).take(i as int),
        decreases t.len() - i,
    {
        let c = if t[i] == '/' {
            '\\'
        } else {
            t[i]
        };
        b.push(c);
        assert(backslashed(t@).take(i + 1) =~= backslashed(t@).take(i as int).push(c));
        i += 1;
    }
    assert(backslashed(t@).take(t.len() as int) =~= backslashed(t@));
    let mut hi = b.len();
    while hi > 0 && b[hi - 1] == '\\'
        invariant
            hi <= b.len(),
            forall|j: int| hi <= j < b.len() ==> #[trigger] b@[j] == '\\',
        decreases hi,
    {
        hi -= 1;
    }
    proof {
        lemma_trailing_is(b@, hi as int);
    }
    let r = crate::text::string_of_range(&b, 0, hi);
    assert(b@.subrange(0, hi as int) =~= b@.take(hi as int));
    r
}

/// Case-insensitive, separator-insensitive "are these the same directory":
/// both sides trimmed, `/` read as `\`, trailing separators dropped and
/// lower-cased; an empty result never matches anything.
pub fn same_directory(a: &str, b: &str) -> (same: bool)
    ensures
        same == (lowercase(dir_key(a@)).len() > 0 && lowercase(dir_key(a@)) == lowercase(
            dir_key(b@),
        )),
{
    let ka = dir_key_of(a);
    let kb = dir_key_of(b);
    let la = to_lowercase(ka.as_str());
    let lb = to_lowercase(kb.as_str());
    let va = chars_of(la.as_str());
    let vb = chars_of(lb.as_str());
    va.len() > 0 && crate::text::chars_eq(&va, &vb)
}

/// Once the sizing call has said packaged, no naming failure makes the
/// identity unpackaged.
pub proof fn law_naming_never_demotes(sizing_rc: u32, naming_rc: u32, id: Identity, name: String)
    requires
        sizing_rc == ERROR_SUCCESS || sizing_rc == ERROR_INSUFFICIENT_BUFFER,
        naming_rc == ERROR_SUCCESS ==> id == (Identity::Packaged { full_name: name }),
        naming_rc != ERROR_SUCCESS ==> (id matches Identity::Packaged { full_name }
            && full_name@ == UNKNOWN_PACKAGE_NAME@),
    ensures
        id is Packaged,
{
}

/// The file whose presence says the first packaged launch has run.
pub const MIGRATION_MARKER: &'static str = "packaged-first-run.txt";

/// What the migration marker file says: the package it was written by, or
/// `unknown` when the name is not known.
pub fn migration_marker_text(id: &Identity) -> (r: String)
    ensures
        r@ == "Spaceadom first packaged launch, package "@ + match *id {
            Identity::Packaged { full_name } => if full_name@ == UNKNOWN_PACKAGE_NAME@ {
                "unknown"@
            } else {
                full_name@
            },
            Identity::Unpackaged => "unknown"@,
        } + "\n"@,
{
    let mut s = String::new();
    crate::text::push_str(&mut s, "Spaceadom first packaged launch, package ");
    match package_full_name(id) {
        Some(n) => crate::text::push_str(&mut s, n),
        None => crate::text::push_str(&mut s, "unknown"),
    }
    crate::text::push_str(&mut s, "\n");
    s
}

} // verus!
