//! The app picker's worker: the rules it answers by. Which answer a request
//! gets (session memory, the disk cache, or a scan first), when a disk cache
//! may be trusted or written, what a background refresh announces, how the
//! PowerShell scan's output becomes an ordered app list, and what a caller is
//! told when the worker drops or outlives its request.
use vstd::prelude::*;

use vstd::string::StringSliceAdditionalSpecFns;

use crate::packaged::{lowercase, to_lowercase};
use crate::text::{
    chars_of, decimal, law_lex_lt_is_str_order, lemma_lex_lt_order, lex_less, lex_lt, owned, push_decimal, push_str,
    str_eq,
};

verus! {

/// Emitted when a background refresh produced a list different from the one
/// last handed out.
pub const UPDATED_EVENT: &'static str = "picker-data-updated";

/// The disk cache's file name, in the data directory.
pub const CACHE_FILE: &'static str = "picker-cache.json";

/// The disk cache's format; a file of another format is a miss.
pub const CACHE_FORMAT: u32 = 1;

/// How long after the windows exist the boot warm-up starts, in seconds.
pub const BOOT_WARM_DELAY_SECS: u64 = 4;

/// How long a caller waits for the worker before giving up, in seconds.
pub const REQUEST_TIMEOUT_SECS: u64 = 60;

/// How long the PowerShell shell-out may run before it is killed, in seconds.
pub const POWERSHELL_TIMEOUT_SECS: u64 = 30;

/// What a request is told when the worker's channel is closed.
pub const WORKER_GONE: &'static str = "the picker worker is gone";

/// What a request is told when the worker dropped it unanswered.
pub const WORKER_DROPPED: &'static str = "the picker worker dropped the request";

/// What a scan that found nothing reports.
pub const EMPTY_SCAN: &'static str = "the scan returned zero apps, which cannot be true on a real machine — treating it as a failed scan rather than caching an empty app list";

/// Payload of [`UPDATED_EVENT`].
#[derive(Clone, Copy, Debug, PartialEq, Eq, Structural)]
pub struct PickerDataUpdated {
    /// Apps in the new list.
    pub count: usize,
    /// Apps in the list it replaced.
    pub previous: usize,
}

/// One bindable application as the picker lists it.
#[derive(Clone, Debug, PartialEq, Eq)]
pub struct AppInfo {
    /// The display name.
    pub name: String,
    /// The `.exe`, the `.lnk`, or `shell:AppsFolder\<AUMID>`.
    pub path: String,
    /// The icon as base64 PNG, when the shell had one.
    pub icon_base64: Option<String>,
}

/// The characters of an optional string.
pub open spec fn opt_view(s: Option<String>) -> Option<Seq<char>> {
    match s {
        Some(t) => Some(t@),
        None => None,
    }
}

/// An app as the characters of its three fields.
pub open spec fn app_view(a: AppInfo) -> (Seq<char>, Seq<char>, Option<Seq<char>>) {
    (a.name@, a.path@, opt_view(a.icon_base64))
}

/// A list of apps as the characters of their fields.
pub open spec fn list_view(l: Seq<AppInfo>) -> Seq<(Seq<char>, Seq<char>, Option<Seq<char>>)> {
    l.map_values(|a: AppInfo| app_view(a))
}

/// An owned copy of an optional string.
fn copy_opt(s: &Option<String>) -> (r: Option<String>)
    ensures
        opt_view(r) == opt_view(*s),
{
    match s {
        Some(t) => Some(owned(t.as_str())),
        None => None,
    }
}

/// An owned copy of an app.
pub fn copy_app(a: &AppInfo) -> (r: AppInfo)
    ensures
        app_view(r) == app_view(*a),
{
    AppInfo {
        name: owned(a.name.as_str()),
        path: owned(a.path.as_str()),
        icon_base64: copy_opt(&a.icon_base64),
    }
}

/// An owned copy of a list of apps.
pub fn copy_list(l: &[AppInfo]) -> (r: Vec<AppInfo>)
    ensures
        list_view(r@) == list_view(l@),
{
    let mut r: Vec<AppInfo> = Vec::new();
    let mut i: usize = 0;
    while i < l.len()
        invariant
            i <= l.len(),
            r@.len() == i,
            forall|k: int| 0 <= k < i ==> app_view(#[trigger] r@[k]) == app_view(l@[k]),
        decreases l.len() - i,
    {
        r.push(copy_app(&l[i]));
        i += 1;
    }
    assert(list_view(r@) =~= list_view(l@));
    r
}

fn same_opt(a: &Option<String>, b: &Option<String>) -> (r: bool)
    ensures
        r == (opt_view(*a) == opt_view(*b)),
{
    match (a, b) {
        (Some(x), Some(y)) => str_eq(x.as_str(), y.as_str()),
        (None, None) => true,
        _ => false,
    }
}

fn same_app(a: &AppInfo, b: &AppInfo) -> (r: bool)
    ensures
        r == (app_view(*a) == app_view(*b)),
{
    str_eq(a.name.as_str(), b.name.as_str()) && str_eq(a.path.as_str(), b.path.as_str())
        && same_opt(&a.icon_base64, &b.icon_base64)
}

/// Whether two lists hold the same apps, field for field, in the same order.
pub fn same_app_list(a: &[AppInfo], b: &[AppInfo]) -> (r: bool)
    ensures
        r == (list_view(a@) == list_view(b@)),
{
    if a.len() != b.len() {
        assert(list_view(a@).len() != list_view(b@).len());
        return false;
    }
    let mut i: usize = 0;
    while i < a.len()
        invariant
            i <= a.len(),
            a.len() == b.len(),
            forall|k: int| 0 <= k < i ==> app_view(#[trigger] a@[k]) == app_view(b@[k]),
        decreases a.len() - i,
    {
        if !same_app(&a[i], &b[i]) {
            assert(list_view(a@)[i as int] != list_view(b@)[i as int]);
            return false;
        }
        i += 1;
    }
    assert(list_view(a@) =~= list_view(b@));
    true
}

/// Whether a disk cache read back as `format`, `fingerprint` and `app_count`
/// apps may answer a request made under the fingerprint `expected`.
pub fn cache_is_usable(format: u32, fingerprint: &str, expected: &str, app_count: usize) -> (r:
    bool)
    ensures
        r == (format == CACHE_FORMAT && fingerprint@ == expected@ && app_count > 0),
{
    format == CACHE_FORMAT && str_eq(fingerprint, expected) && app_count > 0
}

/// Whether a list of `app_count` apps may be written to the disk cache: an
/// empty list never is.
pub fn worth_caching(app_count: usize) -> (r: bool)
    ensures
        r == (app_count > 0),
{
    app_count > 0
}

/// Whether a scan's outcome is written to the disk cache: a failed scan
/// never overwrites it, and an empty list is never cached.
pub fn scan_writes_cache(outcome: &Result<Vec<AppInfo>, String>) -> (r: bool)
    ensures
        r == (outcome matches Ok(l) && l@.len() > 0),
{
    match outcome {
        Ok(l) => worth_caching(l.len()),
        Err(_) => false,
    }
}

/// Whether a deferred warm-up waits: it answers nobody, its start time is
/// still ahead, and the session has no list yet.
pub fn defers(answers_someone: bool, start_ahead: bool, session_has_list: bool) -> (r: bool)
    ensures
        r == (!answers_someone && start_ahead && !session_has_list),
{
    !answers_someone && start_ahead && !session_has_list
}

/// What a background refresh that succeeded leads to.
#[derive(Clone, Copy, Debug, PartialEq, Eq, Structural)]
pub struct RefreshPlan {
    /// The disk cache is written again.
    pub rewrite_cache: bool,
    /// The new list replaces the one in memory.
    pub replace_list: bool,
    /// The event announced, if any.
    pub announce: Option<PickerDataUpdated>,
}

/// The list in memory differs from the fresh one (no list counts as
/// different).
pub open spec fn list_changed(served: Option<Seq<AppInfo>>, fresh: Seq<AppInfo>) -> bool {
    match served {
        Some(l) => list_view(l) != list_view(fresh),
        None => true,
    }
}

/// The fingerprint in memory differs from the fresh one (none counts as
/// different).
pub open spec fn fingerprint_changed(served: Option<Seq<char>>, fresh: Seq<char>) -> bool {
    match served {
        Some(f) => f != fresh,
        None => true,
    }
}

/// The plan for a refresh that produced `fresh` under `fresh_fingerprint`,
/// given what the session holds.
pub open spec fn spec_refresh_plan(
    served: Option<Seq<AppInfo>>,
    served_fingerprint: Option<Seq<char>>,
    fresh: Seq<AppInfo>,
    fresh_fingerprint: Seq<char>,
) -> RefreshPlan {
    let changed = list_changed(served, fresh);
    RefreshPlan {
        rewrite_cache: changed || fingerprint_changed(served_fingerprint, fresh_fingerprint),
        replace_list: changed,
        announce: if changed {
            Some(
                PickerDataUpdated {
                    count: fresh.len() as usize,
                    previous: match served {
                        Some(l) => l.len() as usize,
                        None => 0,
                    },
                },
            )
        } else {
            None
        },
    }
}

/// Decides what a successful background refresh does.
pub fn plan_refresh(
    served: Option<&[AppInfo]>,
    served_fingerprint: Option<&str>,
    fresh: &[AppInfo],
    fresh_fingerprint: &str,
) -> (p: RefreshPlan)
    ensures
        p == spec_refresh_plan(
            match served {
                Some(l) => Some(l@),
                None => None,
            },
            match served_fingerprint {
                Some(f) => Some(f@),
                None => None,
            },
            fresh@,
            fresh_fingerprint@,
        ),
{
    let changed = match served {
        Some(l) => !same_app_list(l, fresh),
        None => true,
    };
    let fp_changed = match served_fingerprint {
        Some(f) => !str_eq(f, fresh_fingerprint),
        None => true,
    };
    let previous = match served {
        Some(l) => l.len(),
        None => 0,
    };
    RefreshPlan {
        rewrite_cache: changed || fp_changed,
        replace_list: changed,
        announce: if changed {
            Some(PickerDataUpdated { count: fresh.len(), previous })
        } else {
            None
        },
    }
}


/// The picker's memory for one run of the app: the list last handed out, the
/// fingerprint the disk cache carries, and whether the once-per-run full scan
/// has been attempted.
pub struct PickerSession {
    list: Option<Vec<AppInfo>>,
    fingerprint: Option<String>,
    refreshed: bool,
}

/// Where a request's answer comes from.
#[derive(Clone, Copy, Debug, PartialEq, Eq, Structural)]
pub enum ServeStep {
    /// The list in memory; then the full scan, when it has not run yet.
    FromMemory { refresh_after: bool },
    /// Nothing in memory: try the disk cache, else scan before answering.
    NeedsList,
}

impl PickerSession {
    /// The list in memory, as the characters of its apps.
    pub closed spec fn served(&self) -> Option<Seq<(Seq<char>, Seq<char>, Option<Seq<char>>)>> {
        match self.list {
            Some(l) => Some(list_view(l@)),
            None => None,
        }
    }

    /// The fingerprint in memory.
    pub closed spec fn fingerprint_held(&self) -> Option<Seq<char>> {
        match self.fingerprint {
            Some(f) => Some(f@),
            None => None,
        }
    }

    /// The full scan has been attempted this run.
    pub closed spec fn has_refreshed(&self) -> bool {
        self.refreshed
    }

    /// A session that has answered nothing yet.
    pub fn new() -> (s: Self)
        ensures
            s.served() is None,
            s.fingerprint_held() is None,
            !s.has_refreshed(),
    {
        PickerSession { list: None, fingerprint: None, refreshed: false }
    }

    /// Whether the session holds a list.
    pub fn has_list(&self) -> (b: bool)
        ensures
            b == self.served() is Some,
    {
        self.list.is_some()
    }

    /// Where the next request's answer comes from.
    pub fn next_step(&self) -> (step: ServeStep)
        ensures
            step == (if self.served() is Some {
                ServeStep::FromMemory { refresh_after: !self.has_refreshed() }
            } else {
                ServeStep::NeedsList
            }),
    {
        if self.list.is_some() {
            ServeStep::FromMemory { refresh_after: !self.refreshed }
        } else {
            ServeStep::NeedsList
        }
    }

    /// A copy of the list in memory (empty when there is none).
    pub fn answer(&self) -> (r: Vec<AppInfo>)
        ensures
            match self.served() {
                Some(l) => list_view(r@) == l,
                None => r@.len() == 0,
            },
    {
        match &self.list {
            Some(l) => copy_list(l.as_slice()),
            None => Vec::new(),
        }
    }

    /// Takes a disk cache that matched: its list and fingerprint become the
    /// session's. The full scan still runs afterwards.
    pub fn adopt_cache(&mut self, list: Vec<AppInfo>, fingerprint: String)
        ensures
            final(self).served() == Some(list_view(list@)),
            final(self).fingerprint_held() == Some(fingerprint@),
            final(self).has_refreshed() == old(self).has_refreshed(),
    {
        self.list = Some(list);
        self.fingerprint = Some(fingerprint);
    }

    /// Records the scan made before the first answer, and gives that answer:
    /// the list, or `scan failed: ` and the reason. A failed scan leaves the
    /// session without a list, so the next request scans again.
    pub fn record_first_scan(&mut self, outcome: Result<Vec<AppInfo>, String>, fingerprint: String) -> (r:
        Result<Vec<AppInfo>, String>)
        ensures
            final(self).has_refreshed(),
            match outcome {
                Ok(l) => {
                    &&& final(self).served() == Some(list_view(l@))
                    &&& final(self).fingerprint_held() == Some(fingerprint@)
                    &&& r matches Ok(a) && list_view(a@) == list_view(l@)
                },
                Err(e) => {
                    &&& final(self).served() == old(self).served()
                    &&& final(self).fingerprint_held() == old(self).fingerprint_held()
                    &&& r matches Err(m) && m@ == "scan failed: "@ + e@
                },
            },
    {
        self.refreshed = true;
        match outcome {
            Ok(l) => {
                let a = copy_list(l.as_slice());
                self.list = Some(l);
                self.fingerprint = Some(fingerprint);
                Ok(a)
            },
            Err(e) => {
                let mut m = String::new();
                push_str(&mut m, "scan failed: ");
                push_str(&mut m, e.as_str());
                proof {
                    reveal_strlit("scan failed: ");
                }
                Err(m)
            },
        }
    }

    /// Records the once-per-run full scan behind an answer already given,
    /// and says what follows from it. A failed refresh changes nothing but
    /// the fact that it ran.
    pub fn record_refresh(&mut self, outcome: Result<Vec<AppInfo>, String>, fingerprint: String) -> (p:
        RefreshPlan)
        ensures
            final(self).has_refreshed(),
            match outcome {
                Ok(l) => {
                    let changed = match old(self).served() {
                        Some(s) => s != list_view(l@),
                        None => true,
                    };
                    &&& p.replace_list == changed
                    &&& p.rewrite_cache == (changed || match old(self).fingerprint_held() {
                        Some(f) => f != fingerprint@,
                        None => true,
                    })
                    &&& p.announce == (if changed {
                        Some(
                            PickerDataUpdated {
                                count: l@.len() as usize,
                                previous: match old(self).served() {
                                    Some(s) => s.len() as usize,
                                    None => 0,
                                },
                            },
                        )
                    } else {
                        None
                    })
                    &&& final(self).served() == (if changed {
                        Some(list_view(l@))
                    } else {
                        old(self).served()
                    })
                    &&& final(self).fingerprint_held() == Some(fingerprint@)
                },
                Err(_) => {
                    &&& p == RefreshPlan { rewrite_cache: false, replace_list: false, announce: None }
                    &&& final(self).served() == old(self).served()
                    &&& final(self).fingerprint_held() == old(self).fingerprint_held()
                },
            },
    {
        self.refreshed = true;
        match outcome {
            Ok(l) => {
                let p = match &self.list {
                    Some(old_list) => plan_refresh(
                        Some(old_list.as_slice()),
                        match &self.fingerprint {
                            Some(f) => Some(f.as_str()),
                            None => None,
                        },
                        l.as_slice(),
                        fingerprint.as_str(),
                    ),
                    None => plan_refresh(
                        None,
                        match &self.fingerprint {
                            Some(f) => Some(f.as_str()),
                            None => None,
                        },
                        l.as_slice(),
                        fingerprint.as_str(),
                    ),
                };
                if p.replace_list {
                    self.list = Some(l);
                }
                self.fingerprint = Some(fingerprint);
                p
            },
            Err(_) => RefreshPlan { rewrite_cache: false, replace_list: false, announce: None },
        }
    }
}

/// How a request for the app list ended on the caller's side.
pub enum WorkerReply {
    /// The worker answered, with a list or a failure.
    Answered(Result<Vec<AppInfo>, String>),
    /// The worker dropped the request without answering.
    Dropped,
    /// The worker did not answer in time.
    TimedOut,
}

/// The message for a request that waited `secs` seconds in vain.
pub open spec fn timed_out_message(secs: u64) -> Seq<char> {
    "the app scan did not answer within "@ + decimal(secs as nat)
        + "s — it is still running in the background; close and reopen the picker to try again"@
}

/// What the caller is handed: the worker's own verdict passes through, and
/// both other endings are rejections, never an empty list.
pub fn reply_verdict(reply: WorkerReply, timeout_secs: u64) -> (r: Result<Vec<AppInfo>, String>)
    ensures
        match reply {
            WorkerReply::Answered(x) => r == x,
            WorkerReply::Dropped => r matches Err(e) && e@ == WORKER_DROPPED@,
            WorkerReply::TimedOut => r matches Err(e) && e@ == timed_out_message(timeout_secs),
        },
{
    match reply {
        WorkerReply::Answered(x) => x,
        WorkerReply::Dropped => Err(owned(WORKER_DROPPED)),
        WorkerReply::TimedOut => {
            let mut m = String::new();
            push_str(&mut m, "the app scan did not answer within ");
            push_decimal(&mut m, timeout_secs);
            push_str(
                &mut m,
                "s — it is still running in the background; close and reopen the picker to try again",
            );
            Err(m)
        },
    }
}


/// One element of the scan's JSON array: its `Name` and `Path` strings.
pub open spec fn row_view(r: (Option<String>, Option<String>)) -> (Option<Seq<char>>, Option<Seq<char>>) {
    (opt_view(r.0), opt_view(r.1))
}

/// What `serde_json` reads from `json` as an array: for each element, its
/// `Name` and `Path` when they are strings; or the parser's error text.
pub uninterp spec fn json_name_path_rows(json: Seq<char>) -> Result<
    Seq<(Option<Seq<char>>, Option<Seq<char>>)>,
    Seq<char>,
>;

/// `serde_json::from_str::<Vec<serde_json::Value>>`, then each element's
/// `Name` and `Path` as strings (`None` where the field is missing or not a
/// string); on failure the error's text.
#[verifier::external_body]
fn name_path_rows(json: &str) -> (r: Result<Vec<(Option<String>, Option<String>)>, String>)
    ensures
        match json_name_path_rows(json@) {
            Ok(rows) => r matches Ok(v) && v@.map_values(|x: (Option<String>, Option<String>)| row_view(x)) == rows,
            Err(e) => r matches Err(m) && m@ == e,
        },
{
    match serde_json::from_str::<Vec<serde_json::Value>>(json) {
        Ok(values) => Ok(
            values.iter().map(
                |v| (v["Name"].as_str().map(|t| t.to_string()), v["Path"].as_str().map(|t| t.to_string())),
            ).collect(),
        ),
        Err(e) => Err(e.to_string()),
    }
}

/// The rows that have both a name and a path, in order.
pub open spec fn named_rows(rows: Seq<(Option<Seq<char>>, Option<Seq<char>>)>) -> Seq<(Seq<char>, Seq<char>)>
    decreases rows.len(),
{
    if rows.len() == 0 {
        Seq::empty()
    } else {
        let rest = named_rows(rows.drop_last());
        match rows.last() {
            (Some(n), Some(p)) => rest.push((n, p)),
            _ => rest,
        }
    }
}

/// The message for scan output that is not a JSON array.
pub open spec fn not_an_array_message(err: Seq<char>, bytes: nat) -> Seq<char> {
    "powershell output was not a JSON array ("@ + err + "; "@ + decimal(bytes) + " bytes)"@
}

/// The `(name, path)` pairs of the PowerShell scan's output, in order, from
/// the elements that have both; or why the output is not a JSON array.
pub fn scan_rows(json: &str) -> (r: Result<Vec<(String, String)>, String>)
    ensures
        match json_name_path_rows(json@) {
            Ok(rows) => r matches Ok(v) && v@.map_values(|x: (String, String)| (x.0@, x.1@))
                == named_rows(rows),
            Err(e) => r matches Err(m) && m@ == not_an_array_message(e, (json.spec_bytes().len() as usize) as nat),
        },
{
    match name_path_rows(json) {
        Ok(rows) => Ok(named_rows_of(rows)),
        Err(e) => Err(not_an_array(e.as_str(), json.len())),
    }
}

/// The `(name, path)` pairs of `rows` that have both, in order.
pub fn named_rows_of(rows: Vec<(Option<String>, Option<String>)>) -> (out: Vec<(String, String)>)
    ensures
        out@.map_values(|x: (String, String)| (x.0@, x.1@)) == named_rows(
            rows@.map_values(|x: (Option<String>, Option<String>)| row_view(x)),
        ),
{
    let ghost spec_rows = rows@.map_values(|x: (Option<String>, Option<String>)| row_view(x));
    let mut out: Vec<(String, String)> = Vec::new();
    let mut i: usize = 0;
    while i < rows.len()
        invariant
            i <= rows.len(),
            spec_rows == rows@.map_values(|x: (Option<String>, Option<String>)| row_view(x)),
            out@.map_values(|x: (String, String)| (x.0@, x.1@)) == named_rows(spec_rows.take(i as int)),
        decreases rows.len() - i,
    {
        let ghost before = out@;
        assert(spec_rows.take(i + 1).drop_last() =~= spec_rows.take(i as int));
        match (&rows[i].0, &rows[i].1) {
            (Some(n), Some(p)) => {
                out.push((owned(n.as_str()), owned(p.as_str())));
                assert(out@.map_values(|x: (String, String)| (x.0@, x.1@)) =~= before.map_values(
                    |x: (String, String)| (x.0@, x.1@),
                ).push((n@, p@)));
            },
            _ => {},
        }
        i += 1;
    }
    assert(spec_rows.take(rows.len() as int) =~= spec_rows);
    out
}

/// Why scan output of `bytes` bytes is not a JSON array, given the parser's
/// error text `err`.
pub fn not_an_array(err: &str, bytes: usize) -> (m: String)
    ensures
        m@ == not_an_array_message(err@, bytes as nat),
{
    let mut m = String::new();
    push_str(&mut m, "powershell output was not a JSON array (");
    push_str(&mut m, err);
    push_str(&mut m, "; ");
    push_decimal(&mut m, bytes as u64);
    push_str(&mut m, " bytes)");
    m
}

/// The `(name, path)` pairs of `v` as text.
pub open spec fn pairs_view(v: Seq<(String, String)>) -> Seq<(Seq<char>, Seq<char>)> {
    v.map_values(|x: (String, String)| (x.0@, x.1@))
}

/// `refuses` answered `verdict` when asked about the text `t`.
pub open spec fn answered<R: Fn(&str) -> bool>(refuses: R, t: Seq<char>, verdict: bool) -> bool {
    exists|arg: &str| arg@ == t && #[trigger] refuses.ensures((arg,), verdict)
}

/// Whether the row `(name, path)` stays, as `keep` says, agrees with what
/// `refuses` answered: a row stays when neither its name nor its path is
/// refused; the path is asked about only when the name is not refused.
pub open spec fn refusal_rule<R: Fn(&str) -> bool>(row: (Seq<char>, Seq<char>), keep: bool, refuses: R) -> bool {
    if keep {
        answered(refuses, row.0, false) && answered(refuses, row.1, false)
    } else {
        answered(refuses, row.0, true) || (answered(refuses, row.0, false) && answered(refuses, row.1, true))
    }
}

/// The rows whose flag in `keep` is set, in order.
pub open spec fn kept_rows(rows: Seq<(Seq<char>, Seq<char>)>, keep: Seq<bool>) -> Seq<(Seq<char>, Seq<char>)>
    decreases rows.len(),
{
    if rows.len() == 0 {
        Seq::empty()
    } else {
        let rest = kept_rows(rows.drop_last(), keep);
        if keep[rows.len() - 1] {
            rest.push(rows.last())
        } else {
            rest
        }
    }
}

/// The rows the picker may offer: those whose name and path `refuses`
/// refuses neither (an uninstaller or an installer is never a bindable app),
/// in order.
pub fn offerable_rows<R: Fn(&str) -> bool>(rows: Vec<(String, String)>, refuses: &R) -> (out: Vec<(String, String)>)
    requires
        forall|t: &str| #[trigger] refuses.requires((t,)),
    ensures
        exists|keep: Seq<bool>|
            {
                &&& keep.len() == rows@.len()
                &&& forall|i: int|
                    0 <= i < rows@.len() ==> #[trigger] refusal_rule(
                        (rows@[i].0@, rows@[i].1@),
                        keep[i],
                        *refuses,
                    )
                &&& pairs_view(out@) == #[trigger] kept_rows(pairs_view(rows@), keep)
            },
{
    let ghost views = rows@.map_values(|x: (String, String)| (x.0@, x.1@));
    let ghost mut keep: Seq<bool> = Seq::empty();
    let mut out: Vec<(String, String)> = Vec::new();
    let mut i: usize = 0;
    while i < rows.len()
        invariant
            i <= rows.len(),
            forall|t: &str| #[trigger] refuses.requires((t,)),
            views == rows@.map_values(|x: (String, String)| (x.0@, x.1@)),
            keep.len() == i,
            forall|j: int| 0 <= j < i ==> #[trigger] refusal_rule((rows@[j].0@, rows@[j].1@), keep[j], *refuses),
            out@.map_values(|x: (String, String)| (x.0@, x.1@)) == kept_rows(views.take(i as int), keep),
        decreases rows.len() - i,
    {
        let ghost before = out@;
        let name = rows[i].0.as_str();
        let path = rows[i].1.as_str();
        let by_name = refuses(name);
        let refused = if by_name {
            true
        } else {
            refuses(path)
        };
        proof {
            assert(answered(*refuses, name@, by_name));
            if !by_name {
                assert(answered(*refuses, path@, refused));
            }
            let ghost old_keep = keep;
            keep = keep.push(!refused);
            lemma_kept_rows_prefix(views.take(i as int), keep, old_keep);
            assert(views.take(i + 1).drop_last() =~= views.take(i as int));
            assert(views.take(i + 1).last() == views[i as int]);
            assert(kept_rows(views.take(i + 1), keep) == if !refused {
                kept_rows(views.take(i as int), keep).push(views[i as int])
            } else {
                kept_rows(views.take(i as int), keep)
            });
        }
        if !refused {
            out.push((owned(name), owned(path)));
            assert(out@.map_values(|x: (String, String)| (x.0@, x.1@)) =~= before.map_values(
                |x: (String, String)| (x.0@, x.1@),
            ).push(views[i as int]));
        }
        i += 1;
    }
    assert(views.take(rows.len() as int) =~= views);
    assert(pairs_view(out@) == kept_rows(pairs_view(rows@), keep));
    out
}

/// `kept_rows` reads only the flags of the rows it is given.
proof fn lemma_kept_rows_prefix(rows: Seq<(Seq<char>, Seq<char>)>, a: Seq<bool>, b: Seq<bool>)
    requires
        rows.len() <= a.len(),
        rows.len() <= b.len(),
        forall|j: int| 0 <= j < rows.len() ==> a[j] == b[j],
    ensures
        kept_rows(rows, a) == kept_rows(rows, b),
    decreases rows.len(),
{
    if rows.len() > 0 {
        lemma_kept_rows_prefix(rows.drop_last(), a, b);
    }
}


/// The key the picker orders apps by: the lower-cased name.
pub open spec fn name_key(a: AppInfo) -> Seq<char> {
    lowercase(a.name@)
}

/// `out` is `inp` put in order by [`name_key`], keeping the input order among
/// equal keys; `idx[k]` is where `out[k]` stood in `inp`.
pub open spec fn stably_sorted_as(inp: Seq<AppInfo>, out: Seq<AppInfo>, idx: Seq<int>) -> bool {
    &&& out.len() == inp.len()
    &&& idx.len() == out.len()
    &&& forall|k: int| 0 <= k < out.len() ==> 0 <= #[trigger] idx[k] < inp.len() && out[k] == inp[idx[k]]
    &&& forall|j: int, k: int| 0 <= j < k < out.len() ==> #[trigger] idx[j] != #[trigger] idx[k]
    &&& forall|j: int, k: int|
        0 <= j < k < out.len() ==> !lex_lt(name_key(#[trigger] out[k]), name_key(#[trigger] out[j]))
    &&& forall|j: int, k: int|
        0 <= j < k < out.len() && name_key(#[trigger] out[j]) == name_key(#[trigger] out[k]) ==> idx[j]
            < idx[k]
}

/// Putting the next input app at the first place whose key is greater keeps
/// the order stable and sorted.
proof fn lemma_insert_in_order(inp: Seq<AppInfo>, out: Seq<AppInfo>, idx: Seq<int>, done: int, p: int)
    requires
        0 <= done < inp.len(),
        stably_sorted_as(inp.take(done), out, idx),
        0 <= p <= out.len(),
        forall|j: int| 0 <= j < p ==> !lex_lt(name_key(inp[done]), name_key(#[trigger] out[j])),
        p < out.len() ==> lex_lt(name_key(inp[done]), name_key(out[p])),
    ensures
        stably_sorted_as(inp.take(done + 1), out.insert(p, inp[done]), idx.insert(p, done)),
{
    let item = inp[done];
    let o2 = out.insert(p, item);
    let i2 = idx.insert(p, done);
    let t = inp.take(done);
    let t2 = inp.take(done + 1);
    assert forall|k: int| 0 <= k < o2.len() implies 0 <= #[trigger] i2[k] < t2.len() && o2[k] == t2[i2[k]] by {
        if k < p {
            assert(o2[k] == out[k] && i2[k] == idx[k]);
            assert(t[idx[k]] == t2[idx[k]]);
        } else if k > p {
            assert(o2[k] == out[k - 1] && i2[k] == idx[k - 1]);
            assert(t[idx[k - 1]] == t2[idx[k - 1]]);
        }
    }
    assert forall|j: int, k: int| 0 <= j < k < o2.len() implies #[trigger] i2[j] != #[trigger] i2[k] by {
        if j < p && k > p {
            assert(i2[j] == idx[j] && i2[k] == idx[k - 1]);
        } else if k < p {
        } else if j > p {
            assert(i2[j] == idx[j - 1] && i2[k] == idx[k - 1]);
        } else if j == p {
            assert(i2[k] == idx[k - 1]);
        } else {
            assert(i2[j] == idx[j]);
        }
    }
    assert forall|j: int, k: int| 0 <= j < k < o2.len() implies !lex_lt(
        name_key(#[trigger] o2[k]),
        name_key(#[trigger] o2[j]),
    ) && (name_key(o2[j]) == name_key(o2[k]) ==> i2[j] < i2[k]) by {
        if k < p {
            assert(o2[j] == out[j] && o2[k] == out[k]);
        } else if j > p {
            assert(o2[j] == out[j - 1] && o2[k] == out[k - 1]);
        } else if j < p && k > p {
            assert(o2[j] == out[j] && o2[k] == out[k - 1]);
        } else if j == p {
            // k > p: out[k - 1] sorts no earlier than out[p], which is above the item.
            let a = name_key(out[k - 1]);
            let b = name_key(item);
            let c = name_key(out[p]);
            assert(o2[k] == out[k - 1]);
            lemma_lex_lt_order(a, b, c);
            lemma_lex_lt_order(b, c, b);
            if k - 1 > p {
                assert(!lex_lt(name_key(out[k - 1]), name_key(out[p])));
            }
            if a == b {
                lemma_lex_lt_order(c, c, c);
            }
        } else {
            // k == p, j < p
            assert(o2[j] == out[j]);
            assert(i2[j] == idx[j]);
            lemma_lex_lt_order(name_key(item), name_key(item), name_key(item));
        }
    }
}

/// `apps` in order of their lower-cased names, equal names keeping their
/// order.
pub fn sort_by_name(apps: Vec<AppInfo>) -> (out: Vec<AppInfo>)
    ensures
        exists|idx: Seq<int>| stably_sorted_as(apps@, out@, idx),
{
    let ghost inp = apps@;
    let n = apps.len();
    let mut rest = apps;
    let mut out: Vec<AppInfo> = Vec::new();
    let mut keys: Vec<Vec<char>> = Vec::new();
    let ghost mut idx: Seq<int> = Seq::empty();
    let mut done: usize = 0;
    assert(inp.skip(0) =~= inp);
    while rest.len() > 0
        invariant
            done + rest@.len() == inp.len(),
            inp.len() == n,
            rest@ == inp.skip(done as int),
            keys@.len() == out@.len(),
            forall|k: int| 0 <= k < out@.len() ==> (#[trigger] keys@[k])@ == name_key(out@[k]),
            stably_sorted_as(inp.take(done as int), out@, idx),
        decreases rest@.len(),
    {
        let item = rest.remove(0);
        assert(item == inp[done as int]);
        assert(rest@ =~= inp.skip(done + 1));
        let lowered = to_lowercase(item.name.as_str());
        let key = chars_of(lowered.as_str());
        let mut p: usize = 0;
        while p < out.len() && !lex_less(&key, &keys[p])
            invariant
                p <= out@.len(),
                keys@.len() == out@.len(),
                forall|k: int| 0 <= k < out@.len() ==> (#[trigger] keys@[k])@ == name_key(out@[k]),
                key@ == name_key(item),
                forall|j: int| 0 <= j < p ==> !lex_lt(name_key(item), name_key(#[trigger] out@[j])),
            decreases out@.len() - p,
        {
            p += 1;
        }
        proof {
            lemma_insert_in_order(inp, out@, idx, done as int, p as int);
            idx = idx.insert(p as int, done as int);
        }
        let ghost old_out = out@;
        let ghost old_keys = keys@;
        out.insert(p, item);
        keys.insert(p, key);
        assert forall|k: int| 0 <= k < out@.len() implies (#[trigger] keys@[k])@ == name_key(out@[k]) by {
            if k < p {
                assert(keys@[k] == old_keys[k] && out@[k] == old_out[k]);
            } else if k > p {
                assert(keys@[k] == old_keys[k - 1] && out@[k] == old_out[k - 1]);
            }
        }
        done += 1;
    }
    assert(inp.take(inp.len() as int) =~= inp);
    out
}

/// The end of a scan: the apps in order of their lower-cased names; an
/// empty result is a failed scan, not a list worth handing out or caching.
pub fn finish_scan(apps: Vec<AppInfo>) -> (r: Result<Vec<AppInfo>, String>)
    ensures
        apps@.len() == 0 <==> r is Err,
        match r {
            Ok(out) => exists|idx: Seq<int>| stably_sorted_as(apps@, out@, idx),
            Err(e) => e@ == EMPTY_SCAN@,
        },
{
    if apps.len() == 0 {
        return Err(owned(EMPTY_SCAN));
    }
    let ghost inp = apps@;
    let out = sort_by_name(apps);
    let ghost idx = choose|idx: Seq<int>| stably_sorted_as(inp, out@, idx);
    let r: Result<Vec<AppInfo>, String> = Ok(out);
    assert(stably_sorted_as(apps@, r->Ok_0@, idx));
    r
}

/// A list sorted as the picker sorts it is in alphabetical order of the
/// lower-cased names, as `str` orders them: an earlier name is the same as
/// a later one or sorts before it, and a later name is never a proper
/// prefix of an earlier one ("Notepad" before "Notepad++").
pub proof fn law_sorted_is_alphabetical(inp: Seq<AppInfo>, out: Seq<AppInfo>, idx: Seq<int>, j: int, k: int)
    requires
        stably_sorted_as(inp, out, idx),
        0 <= j < k < out.len(),
    ensures
        name_key(out[j]) == name_key(out[k]) || lex_lt(name_key(out[j]), name_key(out[k])),
        !(name_key(out[k]).len() < name_key(out[j]).len() && name_key(out[j]).take(
            name_key(out[k]).len() as int,
        ) == name_key(out[k])),
{
    let a = name_key(out[j]);
    let b = name_key(out[k]);
    assert(!lex_lt(b, a));
    law_lex_lt_is_str_order(a, b);
    law_lex_lt_is_str_order(b, a);
}

/// A refresh that finds the list already in memory announces nothing and
/// keeps that list; it rewrites the disk cache only for a new fingerprint.
pub proof fn law_same_list_is_silent(
    served: Seq<AppInfo>,
    served_fingerprint: Option<Seq<char>>,
    fresh: Seq<AppInfo>,
    fresh_fingerprint: Seq<char>,
)
    requires
        list_view(served) == list_view(fresh),
    ensures
        spec_refresh_plan(Some(served), served_fingerprint, fresh, fresh_fingerprint).announce is None,
        !spec_refresh_plan(Some(served), served_fingerprint, fresh, fresh_fingerprint).replace_list,
        spec_refresh_plan(Some(served), served_fingerprint, fresh, fresh_fingerprint).rewrite_cache
            == fingerprint_changed(served_fingerprint, fresh_fingerprint),
{
}

/// Whatever the refresh found, an announcement always carries the new
/// list's length and the replaced list's length, and comes exactly when the
/// list in memory is replaced.
pub proof fn law_announcement_matches_replacement(
    served: Option<Seq<AppInfo>>,
    served_fingerprint: Option<Seq<char>>,
    fresh: Seq<AppInfo>,
    fresh_fingerprint: Seq<char>,
)
    ensures
        ({
            let p = spec_refresh_plan(served, served_fingerprint, fresh, fresh_fingerprint);
            &&& (p.announce is Some <==> p.replace_list)
            &&& p.replace_list ==> p.rewrite_cache
            &&& p.announce matches Some(e) ==> e.count == fresh.len() as usize
        }),
{
}

} // verus!
