//! "What's new in this version": the pure half of fetching a release's notes
//! from GitHub.
//!
//! The version string reaches both a URL and a path join, so it is
//! sanitised before either is built: only ASCII alphanumerics, `.`, `-`, `_`
//! and `+` survive, `..` anywhere is refused, and a value with no digit is
//! refused too. The notes themselves are the `body` field of the releases
//! API's JSON, trimmed, and cut on a character boundary when they run past
//! [`MAX_NOTES_BYTES`].
use crate::text::{char_len, chars_of, string_of, trim, trim_chars, utf8_bytes, utf8_len};
use vstd::prelude::*;

verus! {

/// The GitHub releases-by-tag endpoint; the tag is `v` + the version.
pub const RELEASES_TAG_API: &'static str =
    "https://api.github.com/repos/nur-arpon/Spaceadom/releases/tags/";

/// The event the UI listens for.
pub const EVENT_WHATS_NEW: &'static str = "whats-new-available";

/// The longest version string accepted, in characters.
pub const MAX_VERSION_LEN: usize = 64;

/// A release body larger than this many bytes is truncated.
pub const MAX_NOTES_BYTES: usize = 65536;

/// One request's timeout, in seconds.
pub const FETCH_TIMEOUT_SECS: u64 = 20;

/// How long after start the fetch waits, in seconds: past window creation
/// and past the updater's first check.
pub const SETTLE_DELAY_SECS: u64 = 25;

/// The prefix of the User-Agent GitHub's API requires; the app version and
/// the repository follow it.
pub const UA_PREFIX: &'static str = "Spaceadom/";

/// The repository the User-Agent names.
pub const UA_REPOSITORY: &'static str = " (+https://github.com/nur-arpon/Spaceadom)";

/// What the UI is told when a launch follows a version change.
#[derive(Debug, Clone, PartialEq, Eq)]
pub struct WhatsNew {
    pub version: String,
    pub has_notes: bool,
    /// The version went backwards: this launch follows a rollback.
    pub rolled_back: bool,
}

/// Characters a sanitised version may hold.
pub open spec fn version_char(c: char) -> bool {
    ||| ('0' <= c && c <= '9')
    ||| ('a' <= c && c <= 'z')
    ||| ('A' <= c && c <= 'Z')
    ||| c == '.'
    ||| c == '-'
    ||| c == '_'
    ||| c == '+'
}

/// The number of leading `v` characters of `s`.
pub open spec fn lead_v(s: Seq<char>) -> nat
    decreases s.len(),
{
    if s.len() > 0 && s[0] == 'v' {
        1 + lead_v(s.drop_first())
    } else {
        0
    }
}

/// Does `s` hold two consecutive dots?
pub open spec fn has_dot_dot(s: Seq<char>) -> bool {
    exists|i: int| 0 <= i && i + 1 < s.len() && s[i] == '.' && #[trigger] s[i + 1] == '.'
}

/// The candidate version: trimmed, leading `v`s dropped, trimmed again.
pub open spec fn version_core(v: Seq<char>) -> Seq<char> {
    let t = trim(v);
    trim(t.skip(lead_v(t) as int))
}

/// The sanitised version, or `None` when it is refused.
pub open spec fn spec_sanitize_version(v: Seq<char>) -> Option<Seq<char>> {
    let t = version_core(v);
    if t.len() == 0 || t.len() > MAX_VERSION_LEN || has_dot_dot(t) || !(forall|i: int|
        0 <= i < t.len() ==> version_char(#[trigger] t[i])) || !(exists|i: int|
        0 <= i < t.len() && '0' <= #[trigger] t[i] && t[i] <= '9') {
        None
    } else {
        Some(t)
    }
}

proof fn lemma_lead_v_is(s: Seq<char>, i: int)
    requires
        0 <= i <= s.len(),
        forall|j: int| 0 <= j < i ==> #[trigger] s[j] == 'v',
        i < s.len() ==> s[i] != 'v',
    ensures
        lead_v(s) == i,
    decreases s.len(),
{
    if i > 0 {
        assert forall|j: int| 0 <= j < i - 1 implies #[trigger] s.drop_first()[j] == 'v' by {
            assert(s.drop_first()[j] == s[j + 1]);
        }
        lemma_lead_v_is(s.drop_first(), i - 1);
    }
}

/// `version_core` as a `Vec<char>`.
fn version_core_of(v: &str) -> (r: Vec<char>)
    ensures
        r@ == version_core(v@),
{
    let chars = chars_of(v);
    let t = trim_chars(&chars);
    let mut i: usize = 0;
    while i < t.len() && t[i] == 'v'
        invariant
            i <= t.len(),
            forall|j: int| 0 <= j < i ==> #[trigger] t@[j] == 'v',
        decreases t.len() - i,
    {
        i += 1;
    }
    proof {
        lemma_lead_v_is(t@, i as int);
    }
    let mut rest: Vec<char> = Vec::new();
    let mut k = i;
    while k < t.len()
        invariant
            i <= k <= t.len(),
            rest@ == t@.subrange(i as int, k as int),
        decreases t.len() - k,
    {
        rest.push(t[k]);
        assert(t@.subrange(i as int, k + 1) =~= t@.subrange(i as int, k as int).push(t@[k as int]));
        k += 1;
    }
    assert(rest@ =~= t@.skip(i as int));
    trim_chars(&rest)
}

/// Make a version safe to put in a filename and a URL.
pub fn sanitize_version(v: &str) -> (r: Option<String>)
    ensures
        match spec_sanitize_version(v@) {
            Some(t) => r matches Some(s) && s@ == t,
            None => r is None,
        },
{
    let t = version_core_of(v);
    if t.len() == 0 || t.len() > MAX_VERSION_LEN {
        return None;
    }
    let mut i: usize = 0;
    let mut digit = false;
    while i < t.len()
        invariant
            i <= t.len(),
            t@ == version_core(v@),
            forall|j: int| 0 <= j < i ==> version_char(#[trigger] t@[j]),
            forall|j: int| 0 <= j && j + 1 < i ==> !(t@[j] == '.' && #[trigger] t@[j + 1] == '.'),
            digit == exists|j: int| 0 <= j < i && '0' <= #[trigger] t@[j] && t@[j] <= '9',
        decreases t.len() - i,
    {
        let c = t[i];
        let ok = ('0' <= c && c <= '9') || ('a' <= c && c <= 'z') || ('A' <= c && c <= 'Z') || c
            == '.' || c == '-' || c == '_' || c == '+';
        if !ok {
            assert(!version_char(t@[i as int]));
            return None;
        }
        if i > 0 && c == '.' && t[i - 1] == '.' {
            let ghost j = i - 1;
            assert(0 <= j && j + 1 < t@.len() && t@[j] == '.' && t@[j + 1] == '.');
            assert(has_dot_dot(t@));
            return None;
        }
        if '0' <= c && c <= '9' {
            digit = true;
        }
        i += 1;
    }
    if !digit {
        return None;
    }
    Some(string_of(&t))
}

/// Append the characters of `s` to `v`.
fn extend_chars(v: &mut Vec<char>, s: &Vec<char>)
    ensures
        final(v)@ == old(v)@ + s@,
{
    let mut i: usize = 0;
    while i < s.len()
        invariant
            i <= s.len(),
            v@ == old(v)@ + s@.take(i as int),
        decreases s.len() - i,
    {
        v.push(s[i]);
        assert(s@.take(i + 1) =~= s@.take(i as int).push(s@[i as int]));
        i += 1;
    }
    assert(s@.take(s.len() as int) =~= s@);
}

/// The API URL for a version: the endpoint, `v`, and the sanitised version.
/// `None` for a version that failed sanitising.
pub fn tag_url(version: &str) -> (r: Option<String>)
    ensures
        match spec_sanitize_version(version@) {
            Some(t) => r matches Some(s) && s@ == RELEASES_TAG_API@ + seq!['v'] + t,
            None => r is None,
        },
{
    let v = match sanitize_version(version) {
        Some(v) => v,
        None => return None,
    };
    let mut out = chars_of(RELEASES_TAG_API);
    out.push('v');
    let tail = chars_of(v.as_str());
    extend_chars(&mut out, &tail);
    Some(string_of(&out))
}

/// The User-Agent GitHub's API requires: the app, its version, and the
/// repository.
pub fn user_agent(version: &str) -> (ua: String)
    ensures
        ua@ == UA_PREFIX@ + version@ + UA_REPOSITORY@,
{
    let mut out = chars_of(UA_PREFIX);
    let v = chars_of(version);
    extend_chars(&mut out, &v);
    let r = chars_of(UA_REPOSITORY);
    extend_chars(&mut out, &r);
    string_of(&out)
}

/// The cache file name for a version: `release-notes-<version>.md`.
pub fn cache_file_name(version: &str) -> (r: Option<String>)
    ensures
        match spec_sanitize_version(version@) {
            Some(t) => r matches Some(s) && s@ == "release-notes-"@ + t + ".md"@,
            None => r is None,
        },
{
    let v = match sanitize_version(version) {
        Some(v) => v,
        None => return None,
    };
    let mut out = chars_of("release-notes-");
    let tail = chars_of(v.as_str());
    extend_chars(&mut out, &tail);
    let ext = chars_of(".md");
    extend_chars(&mut out, &ext);
    Some(string_of(&out))
}

/// The string value of the field `key` of the JSON object in `json`, as
/// `serde_json` reads it; `None` when `json` is not a JSON object, has no
/// such field, or the field is not a string.
pub uninterp spec fn json_string_field(json: Seq<char>, key: Seq<char>) -> Option<Seq<char>>;

/// `serde_json::from_str::<serde_json::Value>`, then the string at `key`.
#[verifier::external_body]
fn json_field(json: &str, key: &str) -> (r: Option<String>)
    ensures
        match json_string_field(json@, key@) {
            Some(t) => r matches Some(s) && s@ == t,
            None => r is None,
        },
{
    match serde_json::from_str::<serde_json::Value>(json) {
        Ok(serde_json::Value::Object(map)) => match map.get(key) {
            Some(serde_json::Value::String(s)) => Some(s.clone()),
            _ => None,
        },
        _ => None,
    }
}

/// The longest prefix of `s` whose UTF-8 encoding fits in `max` bytes, as
/// a character count.
pub open spec fn fit_prefix(s: Seq<char>, max: nat) -> nat
    decreases s.len(),
{
    if utf8_bytes(s) <= max {
        s.len()
    } else {
        fit_prefix(s.drop_last(), max)
    }
}

proof fn lemma_bytes_monotone(s: Seq<char>, i: int, j: int)
    requires
        0 <= i <= j <= s.len(),
    ensures
        utf8_bytes(s.take(i)) <= utf8_bytes(s.take(j)),
    decreases j - i,
{
    if i < j {
        assert(s.take(j).drop_last() =~= s.take(j - 1));
        lemma_bytes_monotone(s, i, j - 1);
    }
}

/// `fit_prefix` is the largest `k` whose prefix fits.
proof fn lemma_fit_prefix_is(s: Seq<char>, max: nat, k: int)
    requires
        0 <= k <= s.len(),
        utf8_bytes(s.take(k)) <= max,
        k < s.len() ==> utf8_bytes(s.take(k + 1)) > max,
    ensures
        fit_prefix(s, max) == k,
    decreases s.len(),
{
    assert(s.take(s.len() as int) =~= s);
    if k < s.len() {
        lemma_bytes_monotone(s, k + 1, s.len() as int);
        assert(s.drop_last().take(k) =~= s.take(k));
        if k + 1 <= s.len() - 1 {
            assert(s.drop_last().take(k + 1) =~= s.take(k + 1));
        }
        lemma_fit_prefix_is(s.drop_last(), max, k);
    }
}

/// The release notes a body holds: trimmed; `None` when empty; the whole
/// of it when it fits in [`MAX_NOTES_BYTES`]; otherwise its longest prefix
/// that fits, cut on a character boundary, followed by a blank line and `…`.
pub open spec fn spec_notes(body: Seq<char>) -> Option<Seq<char>> {
    let t = trim(body);
    if t.len() == 0 {
        None
    } else if utf8_bytes(t) <= MAX_NOTES_BYTES {
        Some(t)
    } else {
        Some(t.take(fit_prefix(t, MAX_NOTES_BYTES as nat) as int) + seq!['\n', '\n', '\u{2026}'])
    }
}

/// Pull the release notes out of a GitHub releases API response: the
/// `body` field, as [`notes_from_body`] reads it; `None` for every response
/// with no string `body`.
pub fn parse_release_body(json: &str) -> (r: Option<String>)
    ensures
        match json_string_field(json@, "body"@) {
            Some(b) => match spec_notes(b) {
                Some(n) => r matches Some(s) && s@ == n,
                None => r is None,
            },
            None => r is None,
        },
{
    match json_field(json, "body") {
        Some(b) => notes_from_body(b.as_str()),
        None => None,
    }
}

/// The release notes a release's `body` text holds, as [`spec_notes`] says.
pub fn notes_from_body(body: &str) -> (r: Option<String>)
    ensures
        match spec_notes(body@) {
            Some(n) => r matches Some(s) && s@ == n,
            None => r is None,
        },
{
    let chars = chars_of(body);
    let t = trim_chars(&chars);
    if t.len() == 0 {
        return None;
    }
    let mut k: usize = 0;
    let mut used: usize = 0;
    while k < t.len() && used + char_len(t[k]) <= MAX_NOTES_BYTES
        invariant
            k <= t.len(),
            used == utf8_bytes(t@.take(k as int)),
            used <= MAX_NOTES_BYTES,
        decreases t.len() - k,
    {
        assert(t@.take(k + 1).drop_last() =~= t@.take(k as int));
        used = used + char_len(t[k]);
        k += 1;
    }
    proof {
        if k < t.len() {
            assert(t@.take(k + 1).drop_last() =~= t@.take(k as int));
        }
        lemma_fit_prefix_is(t@, MAX_NOTES_BYTES as nat, k as int);
        assert(t@.take(t.len() as int) =~= t@);
    }
    if k == t.len() {
        return Some(string_of(&t));
    }
    let mut out: Vec<char> = Vec::new();
    let mut i: usize = 0;
    while i < k
        invariant
            i <= k <= t.len(),
            out@ == t@.take(i as int),
        decreases k - i,
    {
        out.push(t[i]);
        assert(t@.take(i + 1) =~= t@.take(i as int).push(t@[i as int]));
        i += 1;
    }
    out.push('\n');
    out.push('\n');
    out.push('\u{2026}');
    assert(out@ =~= t@.take(k as int) + seq!['\n', '\n', '\u{2026}']);
    Some(string_of(&out))
}

/// A version that sanitises survives as its own sanitised form: sanitising
/// is idempotent on what it accepts, and what it accepts is never empty,
/// never longer than the cap, never holds `..`, and always holds a digit.
pub proof fn law_sanitised_is_safe(v: Seq<char>)
    requires
        spec_sanitize_version(v) is Some,
    ensures
        ({
            let t = spec_sanitize_version(v).unwrap();
            &&& 0 < t.len() <= MAX_VERSION_LEN
            &&& !has_dot_dot(t)
            &&& forall|i: int| 0 <= i < t.len() ==> version_char(#[trigger] t[i])
            &&& t.len() > 0
        }),
{
}

/// Notes are never empty, and a cut always ends in the marker.
pub proof fn law_notes_never_empty(body: Seq<char>)
    requires
        spec_notes(body) is Some,
    ensures
        spec_notes(body).unwrap().len() > 0,
{
}

/// What a cache file's text gives: the trimmed notes, `None` when nothing
/// is left.
pub fn cached_notes(text: &str) -> (r: Option<String>)
    ensures
        trim(text@).len() == 0 ==> r is None,
        trim(text@).len() > 0 ==> (r matches Some(s) && s@ == trim(text@)),
{
    let chars = chars_of(text);
    let t = trim_chars(&chars);
    if t.len() == 0 {
        None
    } else {
        Some(string_of(&t))
    }
}

/// Where a version's release notes come from.
#[derive(Clone, Copy, Debug, PartialEq, Eq, Structural)]
pub enum NotesStep {
    /// The cached copy.
    Cached,
    /// Nothing: a packaged copy never asks the network.
    Skip,
    /// The releases API, caching what it returns.
    Fetch,
}

/// The step for a version's notes: the cache first, then nothing for a
/// packaged copy, then the network.
pub open spec fn spec_notes_step(have_cached: bool, packaged: bool) -> NotesStep {
    if have_cached {
        NotesStep::Cached
    } else if packaged {
        NotesStep::Skip
    } else {
        NotesStep::Fetch
    }
}

/// Executable [`spec_notes_step`].
pub fn notes_step(have_cached: bool, packaged: bool) -> (r: NotesStep)
    ensures
        r == spec_notes_step(have_cached, packaged),
{
    if have_cached {
        NotesStep::Cached
    } else if packaged {
        NotesStep::Skip
    } else {
        NotesStep::Fetch
    }
}

/// The payload for the first launch of `version`.
pub fn whats_new(version: String, has_notes: bool, rolled_back: bool) -> (w: WhatsNew)
    ensures
        w.version@ == version@,
        w.has_notes == has_notes,
        w.rolled_back == rolled_back,
{
    WhatsNew { version, has_notes, rolled_back }
}

/// A packaged copy never asks the network, whatever its cache holds; a
/// cached copy is always served first.
pub proof fn law_packaged_never_fetches(have_cached: bool, packaged: bool)
    ensures
        packaged ==> spec_notes_step(have_cached, packaged) != NotesStep::Fetch,
        have_cached ==> spec_notes_step(have_cached, packaged) == NotesStep::Cached,
{
}

} // verus!
