//! The middle-button icon ring: the names it shows, the shapes it names,
//! which path a middle press takes, and which letters are its favourites.
//!
//! The ring's geometry is laid out in floating point by the caller; this
//! module holds the parts that are words and lists: the centre pill's two
//! lines ([`split_display_name`]), the marker line's shape names, the route
//! a middle press takes, and the favourite letters of a profile.
use crate::text::{
    ascii_lower, chars_of, eq_ignore_ascii_case, eq_ignore_case_at, is_ascii_lower, string_of,
    string_of_range, to_ascii_lower, trim, trim_bounds,
};
use crate::config::{find_profile, profile_index, AppConfig, KeyBinding};
use vstd::prelude::*;

verus! {

/// The em dash a browser profile's label puts between the browser and the
/// profile.
pub const EM_DASH: char = '\u{2014}';

/// The vendor names replaced whole, case-insensitively, at display time.
pub const VENDOR_EDGE: &'static str = "Microsoft Edge";

/// What [`VENDOR_EDGE`] is shown as.
pub const SHORT_EDGE: &'static str = "Edge";

/// The second vendor name replaced whole.
pub const VENDOR_FIREFOX: &'static str = "Mozilla Firefox";

/// What [`VENDOR_FIREFOX`] is shown as.
pub const SHORT_FIREFOX: &'static str = "Firefox";

/// The vendor prefix stripped from any name it starts, case-insensitively.
pub const VENDOR_PREFIX: &'static str = "Google ";

/// The vendor-prefix rule: the trimmed name, with "Microsoft Edge" and
/// "Mozilla Firefox" replaced by their short names and a leading "Google "
/// stripped when that leaves something, all case-insensitively.
pub open spec fn spec_short_app_name(app: Seq<char>) -> Seq<char> {
    let a = trim(app);
    if eq_ignore_ascii_case(a, VENDOR_EDGE@) {
        SHORT_EDGE@
    } else if eq_ignore_ascii_case(a, VENDOR_FIREFOX@) {
        SHORT_FIREFOX@
    } else if a.len() > 7 && eq_ignore_ascii_case(a.take(7), VENDOR_PREFIX@) && trim(a.skip(7)).len()
        > 0 {
        trim(a.skip(7))
    } else {
        a
    }
}

/// Is `c[lo..hi]` equal to `w`, ignoring ASCII case?
fn range_eq_ignore_case(c: &Vec<char>, lo: usize, hi: usize, w: &Vec<char>) -> (r: bool)
    requires
        lo <= hi <= c.len(),
    ensures
        r == eq_ignore_ascii_case(c@.subrange(lo as int, hi as int), w@),
{
    if hi - lo != w.len() {
        return false;
    }
    eq_ignore_case_at(c, lo, w)
}

/// The trimmed bounds of `c[lo..hi]`.
fn trim_range(c: &Vec<char>, lo: usize, hi: usize) -> (r: (usize, usize))
    requires
        lo <= hi <= c.len(),
    ensures
        lo <= r.0 <= r.1 <= hi,
        c@.subrange(r.0 as int, r.1 as int) == trim(c@.subrange(lo as int, hi as int)),
{
    let mut sub: Vec<char> = Vec::new();
    let mut i = lo;
    while i < hi
        invariant
            lo <= i <= hi <= c.len(),
            sub@ == c@.subrange(lo as int, i as int),
        decreases hi - i,
    {
        sub.push(c[i]);
        assert(c@.subrange(lo as int, i + 1) =~= c@.subrange(lo as int, i as int).push(c@[i as int]));
        i += 1;
    }
    let (a, b) = trim_bounds(&sub);
    assert(c@.subrange(lo + a, lo + b) =~= sub@.subrange(a as int, b as int));
    (lo + a, lo + b)
}

/// The vendor-prefix rule on `c[lo..hi]`.
fn short_name_of_range(c: &Vec<char>, lo: usize, hi: usize) -> (r: String)
    requires
        lo <= hi <= c.len(),
    ensures
        r@ == spec_short_app_name(c@.subrange(lo as int, hi as int)),
{
    let ghost whole = c@.subrange(lo as int, hi as int);
    let (a, b) = trim_range(c, lo, hi);
    let ghost t = c@.subrange(a as int, b as int);
    let edge = chars_of(VENDOR_EDGE);
    if range_eq_ignore_case(c, a, b, &edge) {
        return string_of(&chars_of(SHORT_EDGE));
    }
    let firefox = chars_of(VENDOR_FIREFOX);
    if range_eq_ignore_case(c, a, b, &firefox) {
        return string_of(&chars_of(SHORT_FIREFOX));
    }
    let prefix = chars_of(VENDOR_PREFIX);
    proof {
        reveal_strlit("Google ");
    }
    if b - a > 7 {
        assert(c@.subrange(a as int, a + 7) =~= t.take(7));
        if range_eq_ignore_case(c, a, a + 7, &prefix) {
            let (ra, rb) = trim_range(c, a + 7, b);
            assert(c@.subrange(a + 7, b as int) =~= t.skip(7));
            if rb > ra {
                return string_of_range(c, ra, rb);
            }
        }
    }
    string_of_range(c, a, b)
}

/// The vendor-prefix rule of `split_display_name`, on its own.
pub fn short_app_name(app: &str) -> (r: String)
    ensures
        r@ == spec_short_app_name(app@),
{
    let c = chars_of(app);
    assert(c@.subrange(0, c@.len() as int) =~= c@);
    short_name_of_range(&c, 0, c.len())
}

/// The account part of what follows the em dash: up to the first `@` (an
/// e-mail shows as its local part), trimmed; `None` when that is empty.
pub open spec fn spec_account(after: Seq<char>) -> Option<Seq<char>> {
    let a = trim(after);
    let local = match a.index_of_first('@') {
        Some(j) => a.take(j),
        None => a,
    };
    if trim(local).len() == 0 {
        None
    } else {
        Some(trim(local))
    }
}

/// The pill's two lines for a binding's display name: the short app name,
/// and the account part when the name carries one after an em dash.
pub open spec fn spec_split_display_name(name: Seq<char>) -> (Seq<char>, Option<Seq<char>>) {
    let n = trim(name);
    match n.index_of_first(EM_DASH) {
        Some(i) => (spec_short_app_name(n.take(i)), spec_account(n.skip(i + 1))),
        None => (spec_short_app_name(n), None),
    }
}

/// The first index of `x` in `c[lo..hi]`, relative to `lo`.
fn find_in_range(c: &Vec<char>, lo: usize, hi: usize, x: char) -> (r: Option<usize>)
    requires
        lo <= hi <= c.len(),
    ensures
        match c@.subrange(lo as int, hi as int).index_of_first(x) {
            Some(j) => r matches Some(k) && k as int == j,
            None => r is None,
        },
        r matches Some(k) ==> k < hi - lo,
{
    let ghost s = c@.subrange(lo as int, hi as int);
    let mut i = lo;
    while i < hi
        invariant
            lo <= i <= hi <= c.len(),
            s == c@.subrange(lo as int, hi as int),
            forall|j: int| 0 <= j < i - lo ==> s[j] != x,
        decreases hi - i,
    {
        if c[i] == x {
            proof {
                s.index_of_first_ensures(x);
                assert(s[i - lo] == x);
                let k = s.index_of_first(x).unwrap();
                assert(!(k < i - lo));
                assert(!(k > i - lo));
            }
            return Some(i - lo);
        }
        i += 1;
    }
    proof {
        s.index_of_first_ensures(x);
    }
    None
}

/// Split a binding's display name into the pill's two lines: the app's
/// SHORT name and, when the name carries one, the profile / account part.
pub fn split_display_name(name: &str) -> (r: (String, Option<String>))
    ensures
        r.0@ == spec_split_display_name(name@).0,
        match spec_split_display_name(name@).1 {
            Some(a) => r.1 matches Some(s) && s@ == a,
            None => r.1 is None,
        },
{
    let c = chars_of(name);
    let (lo, hi) = crate::text::trim_bounds(&c);
    let ghost n = c@.subrange(lo as int, hi as int);
    assert(n == trim(name@));
    match find_in_range(&c, lo, hi, EM_DASH) {
        None => {
            let app = short_name_of_range(&c, lo, hi);
            assert(spec_split_display_name(name@) == (spec_short_app_name(n), None::<Seq<char>>));
            (app, None)
        },
        Some(i) => {
            let cut = lo + i;
            assert(c@.subrange(lo as int, cut as int) =~= n.take(i as int));
            let app = short_name_of_range(&c, lo, cut);
            let (alo, ahi) = trim_range(&c, cut + 1, hi);
            assert(c@.subrange(cut + 1, hi as int) =~= n.skip(i + 1));
            let ghost a = c@.subrange(alo as int, ahi as int);
            assert(a == trim(n.skip(i + 1)));
            let end = match find_in_range(&c, alo, ahi, '@') {
                Some(j) => {
                    assert(c@.subrange(alo as int, alo + j) =~= a.take(j as int));
                    alo + j
                },
                None => ahi,
            };
            let ghost local = c@.subrange(alo as int, end as int);
            let (llo, lhi) = trim_range(&c, alo, end);
            assert(c@.subrange(llo as int, lhi as int) == trim(local));
            assert(spec_split_display_name(name@).0 == spec_short_app_name(n.take(i as int)));
            assert(spec_split_display_name(name@).1 == spec_account(n.skip(i + 1)));
            if lhi == llo {
                (app, None)
            } else {
                (app, Some(string_of_range(&c, llo, lhi)))
            }
        },
    }
}

/// Which side of the centre a ring opens toward. Compass names: `N` is up.
#[derive(Debug, Clone, Copy, PartialEq, Eq)]
pub enum Dir {
    N,
    NE,
    E,
    SE,
    S,
    SW,
    W,
    NW,
}

/// The compass name of a direction.
pub open spec fn spec_dir_name(d: Dir) -> Seq<char> {
    match d {
        Dir::N => seq!['N'],
        Dir::NE => seq!['N', 'E'],
        Dir::E => seq!['E'],
        Dir::SE => seq!['S', 'E'],
        Dir::S => seq!['S'],
        Dir::SW => seq!['S', 'W'],
        Dir::W => seq!['W'],
        Dir::NW => seq!['N', 'W'],
    }
}

impl Dir {
    /// The compass name: `N`, `NE`, … `NW`.
    pub fn name(self) -> (s: &'static str)
        ensures
            s@ == spec_dir_name(self),
    {
        proof {
            reveal_strlit("N");
            reveal_strlit("NE");
            reveal_strlit("E");
            reveal_strlit("SE");
            reveal_strlit("S");
            reveal_strlit("SW");
            reveal_strlit("W");
            reveal_strlit("NW");
        }
        match self {
            Dir::N => "N",
            Dir::NE => "NE",
            Dir::E => "E",
            Dir::SE => "SE",
            Dir::S => "S",
            Dir::SW => "SW",
            Dir::W => "W",
            Dir::NW => "NW",
        }
    }

    /// Is this one of the four cardinals (N/E/S/W)?
    pub fn is_cardinal(self) -> (b: bool)
        ensures
            b == (self == Dir::N || self == Dir::E || self == Dir::S || self == Dir::W),
    {
        match self {
            Dir::N | Dir::E | Dir::S | Dir::W => true,
            _ => false,
        }
    }

    /// The direction at `index` steps of 45° clockwise from north.
    pub fn from_octant(index: usize) -> (d: Dir)
        requires
            index < 8,
        ensures
            index == 0 ==> d == Dir::N,
            index == 1 ==> d == Dir::NE,
            index == 2 ==> d == Dir::E,
            index == 3 ==> d == Dir::SE,
            index == 4 ==> d == Dir::S,
            index == 5 ==> d == Dir::SW,
            index == 6 ==> d == Dir::W,
            index == 7 ==> d == Dir::NW,
    {
        match index {
            0 => Dir::N,
            1 => Dir::NE,
            2 => Dir::E,
            3 => Dir::SE,
            4 => Dir::S,
            5 => Dir::SW,
            6 => Dir::W,
            _ => Dir::NW,
        }
    }
}

/// The shape a ring layout takes at the press point.
#[derive(Debug, Clone, Copy, PartialEq, Eq)]
pub enum RingShape {
    /// Open space: every ring a full circle at the press point.
    Circle,
    /// The first partial arc opens toward a cardinal direction.
    Half(Dir),
    /// The first partial arc opens toward a diagonal.
    Quarter(Dir),
    /// The centre was moved by the smallest grid vector that fits.
    Nudged(Dir),
    /// Nothing fits near the press point: full circles, clamped on-screen.
    CircleClamped,
    /// "All", arranged as one phyllotaxis spiral.
    Spiral,
}

/// The marker line's spelling of a shape.
pub open spec fn spec_shape_name(s: RingShape) -> Seq<char> {
    match s {
        RingShape::Circle => "circle"@,
        RingShape::Half(d) => "half-"@ + spec_dir_name(d),
        RingShape::Quarter(d) => "quarter-"@ + spec_dir_name(d),
        RingShape::Nudged(d) => "nudged-"@ + spec_dir_name(d),
        RingShape::CircleClamped => "circle-clamped"@,
        RingShape::Spiral => "spiral"@,
    }
}

/// `word` followed by a direction's name.
fn word_and_dir(word: &str, d: Dir) -> (s: String)
    ensures
        s@ == word@ + spec_dir_name(d),
{
    let mut v = chars_of(word);
    let n = chars_of(d.name());
    let mut i: usize = 0;
    let ghost w = v@;
    while i < n.len()
        invariant
            i <= n.len(),
            v@ == w + n@.take(i as int),
        decreases n.len() - i,
    {
        v.push(n[i]);
        assert(n@.take(i + 1) =~= n@.take(i as int).push(n@[i as int]));
        i += 1;
    }
    assert(n@.take(n.len() as int) =~= n@);
    string_of(&v)
}

impl RingShape {
    /// The marker line's spelling: `circle`, `half-W`, `quarter-SW`,
    /// `nudged-E`, `circle-clamped`, `spiral`.
    pub fn name(self) -> (s: String)
        ensures
            s@ == spec_shape_name(self),
    {
        match self {
            RingShape::Circle => crate::text::owned("circle"),
            RingShape::Half(d) => word_and_dir("half-", d),
            RingShape::Quarter(d) => word_and_dir("quarter-", d),
            RingShape::Nudged(d) => word_and_dir("nudged-", d),
            RingShape::CircleClamped => crate::text::owned("circle-clamped"),
            RingShape::Spiral => crate::text::owned("spiral"),
        }
    }

    /// Does this shape decide its own centre (the press point plus its
    /// offset) rather than leave it to the clamp?
    pub fn anchored(self) -> (b: bool)
        ensures
            b == !(self == RingShape::CircleClamped || self == RingShape::Spiral),
    {
        match self {
            RingShape::CircleClamped | RingShape::Spiral => false,
            _ => true,
        }
    }
}

/// The owner's `middle_ring_style` setting.
#[derive(Debug, Clone, Copy, PartialEq, Eq)]
pub enum MiddleRingStyle {
    /// Normalise a middle press to a Space press and raise the Guide HUD.
    GuideHud,
    /// Raise the icon ring at the cursor.
    IconRing,
}

impl Default for MiddleRingStyle {
    /// The icon ring is the default.
    fn default() -> (s: Self)
        ensures
            s == MiddleRingStyle::IconRing,
    {
        MiddleRingStyle::IconRing
    }
}

/// The two things a middle-button hold can raise.
#[derive(Debug, Clone, Copy, PartialEq, Eq)]
pub enum MiddleRoute {
    /// The centred Guide HUD, exactly as a Space hold raises it.
    GuideHud,
    /// The icon ring, at the cursor.
    IconRing,
}

/// Which path a middle press takes: the one the setting names.
pub fn middle_down_route(style: MiddleRingStyle) -> (r: MiddleRoute)
    ensures
        style == MiddleRingStyle::GuideHud ==> r == MiddleRoute::GuideHud,
        style == MiddleRingStyle::IconRing ==> r == MiddleRoute::IconRing,
{
    match style {
        MiddleRingStyle::GuideHud => MiddleRoute::GuideHud,
        MiddleRingStyle::IconRing => MiddleRoute::IconRing,
    }
}

/// What kind of thing a tile launches.
#[derive(Debug, Clone, Copy, PartialEq, Eq, Structural)]
pub enum ItemKind {
    App,
    Folder,
    Link,
    Special,
}

/// The `data:` URL prefix a bare base64 PNG is given.
pub const PNG_DATA_PREFIX: &'static str = "data:image/png;base64,";

/// A value that already is a `data:` URL passes through; bare base64 PNG is
/// given the PNG data-URL prefix.
pub open spec fn spec_png_data_url(b64: Seq<char>) -> Seq<char> {
    if b64.len() >= 5 && b64.take(5) == "data:"@ {
        b64
    } else {
        PNG_DATA_PREFIX@ + b64
    }
}

/// `icon_override` and the extractor hand back bare base64 PNG; the page
/// wants a `data:` URL.
pub fn as_png_data_url(b64: &str) -> (r: String)
    ensures
        r@ == spec_png_data_url(b64@),
{
    let c = chars_of(b64);
    let d = chars_of("data:");
    proof {
        reveal_strlit("data:");
    }
    let mut starts = c.len() >= 5;
    if starts {
        let mut i: usize = 0;
        while i < 5
            invariant
                i <= 5 <= c.len(),
                d@ == "data:"@,
                d.len() == 5,
                starts == forall|j: int| 0 <= j < i ==> c@[j] == d@[j],
            decreases 5 - i,
        {
            if c[i] != d[i] {
                starts = false;
            }
            i += 1;
        }
        assert(starts == (c@.take(5) =~= d@));
    }
    if starts {
        return string_of(&c);
    }
    let mut out = chars_of(PNG_DATA_PREFIX);
    let ghost p = out@;
    let mut i: usize = 0;
    while i < c.len()
        invariant
            i <= c.len(),
            out@ == p + c@.take(i as int),
        decreases c.len() - i,
    {
        out.push(c[i]);
        assert(c@.take(i + 1) =~= c@.take(i as int).push(c@[i as int]));
        i += 1;
    }
    assert(c@.take(c.len() as int) =~= c@);
    string_of(&out)
}

/// The most favourites a user may tick.
pub const FAVOURITES_MAX: usize = 13;

/// The favourites shown when none are chosen: the first this-many bound
/// letters, one full inner ring.
pub const FAVOURITES_DEFAULT: usize = 5;

/// The lower-case ASCII letters, in order.
pub open spec fn alphabet() -> Seq<char> {
    Seq::new(26, |i: int| (97 + i) as char)
}

/// Is `c` a lower-case letter that some mapped binding is keyed by, the key
/// being that one letter in either case?
pub open spec fn binds_letter(bs: Seq<(String, KeyBinding)>, c: char) -> bool {
    is_ascii_lower(c) && exists|i: int|
        0 <= i < bs.len() && (#[trigger] bs[i]).1.spec_is_mapped() && bs[i].0@.len() == 1
            && ascii_lower(bs[i].0@[0]) == c
}

/// The letters bound in a profile, sorted and without repeats; empty when
/// there is no such profile.
pub open spec fn spec_bound_letters(cfg: AppConfig, profile: Seq<char>) -> Seq<char> {
    match profile_index(cfg, profile) {
        Some(p) => alphabet().filter(|c: char| binds_letter(cfg.profiles@[p].bindings@, c)),
        None => Seq::empty(),
    }
}

/// The lower-cased first characters of the non-empty strings of `s`.
pub open spec fn firsts(s: Seq<String>) -> Seq<char>
    decreases s.len(),
{
    if s.len() == 0 {
        Seq::empty()
    } else {
        let r = firsts(s.drop_last());
        if s.last()@.len() > 0 {
            r.push(ascii_lower(s.last()@[0]))
        } else {
            r
        }
    }
}

/// `s` with every repeat of an earlier element dropped.
pub open spec fn dedup(s: Seq<char>) -> Seq<char>
    decreases s.len(),
{
    if s.len() == 0 {
        Seq::empty()
    } else {
        let d = dedup(s.drop_last());
        if d.contains(s.last()) {
            d
        } else {
            d.push(s.last())
        }
    }
}

/// At most `n` elements from the front of `s`.
pub open spec fn take_at_most(s: Seq<char>, n: nat) -> Seq<char> {
    if s.len() <= n {
        s
    } else {
        s.take(n as int)
    }
}

/// Membership in `s`, as a predicate.
pub open spec fn member_of(s: Seq<char>) -> spec_fn(char) -> bool {
    |c: char| s.contains(c)
}

/// The stored favourites still bound in the profile: first characters,
/// lower-cased, filtered to bound letters, at most [`FAVOURITES_MAX`].
pub open spec fn chosen_favourites(cfg: AppConfig, profile: Seq<char>) -> Seq<char> {
    let bound = spec_bound_letters(cfg, profile);
    take_at_most(
        firsts(cfg.middle_ring_favourites@).filter(member_of(bound)),
        FAVOURITES_MAX as nat,
    )
}

/// The favourites of a profile: the stored ones still bound, without
/// repeats, or — when that leaves nothing — the first
/// [`FAVOURITES_DEFAULT`] bound letters.
pub open spec fn spec_favourites(cfg: AppConfig, profile: Seq<char>) -> Seq<char> {
    let chosen = chosen_favourites(cfg, profile);
    if chosen.len() > 0 {
        dedup(chosen)
    } else {
        take_at_most(spec_bound_letters(cfg, profile), FAVOURITES_DEFAULT as nat)
    }
}

/// The letter a key is, lower-cased: `Some` only for a key of one
/// character that is an ASCII letter.
fn key_letter(key: &String) -> (r: Option<char>)
    ensures
        match r {
            Some(c) => key@.len() == 1 && c == ascii_lower(key@[0]) && is_ascii_lower(c),
            None => key@.len() != 1 || !is_ascii_lower(ascii_lower(key@[0])),
        },
{
    let v = chars_of(key.as_str());
    if v.len() != 1 {
        return None;
    }
    let c = to_ascii_lower(v[0]);
    if 'a' <= c && c <= 'z' {
        Some(c)
    } else {
        None
    }
}

/// The letters bound in `profile`, sorted: the ring's raw material.
pub fn bound_letters(cfg: &AppConfig, profile: &str) -> (r: Vec<char>)
    ensures
        r@ == spec_bound_letters(*cfg, profile@),
{
    let idx = match find_profile(cfg, profile) {
        Some(i) => i,
        None => return Vec::new(),
    };
    let bs = &cfg.profiles[idx].bindings;
    let ghost pred = |c: char| binds_letter(bs@, c);
    let mut flags: Vec<bool> = Vec::new();
    let mut k: usize = 0;
    while k < 26
        invariant
            k <= 26,
            flags@.len() == k,
            forall|j: int| 0 <= j < k ==> !flags@[j],
        decreases 26 - k,
    {
        flags.push(false);
        k += 1;
    }
    let mut i: usize = 0;
    while i < bs.len()
        invariant
            i <= bs.len(),
            flags@.len() == 26,
            forall|j: int|
                0 <= j < 26 ==> (#[trigger] flags@[j] <==> exists|m: int|
                    0 <= m < i && (#[trigger] bs@[m]).1.spec_is_mapped() && bs@[m].0@.len() == 1
                        && ascii_lower(bs@[m].0@[0]) == (97 + j) as char),
        decreases bs.len() - i,
    {
        let (key, b) = (&bs[i].0, &bs[i].1);
        if b.is_mapped() {
            match key_letter(key) {
                Some(c) => {
                    let slot = (c as u32 - 97) as usize;
                    flags.set(slot, true);
                    assert forall|j: int|
                        0 <= j < 26 implies (#[trigger] flags@[j] <==> exists|m: int|
                        0 <= m < i + 1 && (#[trigger] bs@[m]).1.spec_is_mapped() && bs@[m].0@.len()
                            == 1 && ascii_lower(bs@[m].0@[0]) == (97 + j) as char) by {
                        if j == slot {
                            assert(bs@[i as int].0@ == key@);
                        }
                        if (exists|m: int|
                            0 <= m < i + 1 && (#[trigger] bs@[m]).1.spec_is_mapped() && bs@[m].0@.len()
                                == 1 && ascii_lower(bs@[m].0@[0]) == (97 + j) as char) && j != slot {
                            let m = choose|m: int|
                                0 <= m < i + 1 && (#[trigger] bs@[m]).1.spec_is_mapped()
                                    && bs@[m].0@.len() == 1 && ascii_lower(bs@[m].0@[0]) == (97
                                    + j) as char;
                            if m == i {
                                assert(bs@[i as int].0@ == key@);
                            }
                        }
                    }
                },
                None => {
                    assert forall|j: int|
                        0 <= j < 26 implies (#[trigger] flags@[j] <==> exists|m: int|
                        0 <= m < i + 1 && (#[trigger] bs@[m]).1.spec_is_mapped() && bs@[m].0@.len()
                            == 1 && ascii_lower(bs@[m].0@[0]) == (97 + j) as char) by {
                        if (exists|m: int|
                            0 <= m < i + 1 && (#[trigger] bs@[m]).1.spec_is_mapped() && bs@[m].0@.len()
                                == 1 && ascii_lower(bs@[m].0@[0]) == (97 + j) as char) {
                            let m = choose|m: int|
                                0 <= m < i + 1 && (#[trigger] bs@[m]).1.spec_is_mapped()
                                    && bs@[m].0@.len() == 1 && ascii_lower(bs@[m].0@[0]) == (97
                                    + j) as char;
                            if m == i {
                                assert(bs@[i as int].0@ == key@);
                            }
                        }
                    }
                },
            }
        } else {
            assert forall|j: int|
                0 <= j < 26 implies (#[trigger] flags@[j] <==> exists|m: int|
                0 <= m < i + 1 && (#[trigger] bs@[m]).1.spec_is_mapped() && bs@[m].0@.len() == 1
                    && ascii_lower(bs@[m].0@[0]) == (97 + j) as char) by {
                if (exists|m: int|
                    0 <= m < i + 1 && (#[trigger] bs@[m]).1.spec_is_mapped() && bs@[m].0@.len() == 1
                        && ascii_lower(bs@[m].0@[0]) == (97 + j) as char) {
                    let m = choose|m: int|
                        0 <= m < i + 1 && (#[trigger] bs@[m]).1.spec_is_mapped() && bs@[m].0@.len()
                            == 1 && ascii_lower(bs@[m].0@[0]) == (97 + j) as char;
                    assert(m != i);
                }
            }
        }
        i += 1;
    }
    let mut out: Vec<char> = Vec::new();
    let mut k: usize = 0;
    while k < 26
        invariant
            k <= 26,
            flags@.len() == 26,
            forall|j: int|
                0 <= j < 26 ==> (#[trigger] flags@[j] <==> pred((97 + j) as char)),
            out@ == alphabet().take(k as int).filter(pred),
        decreases 26 - k,
    {
        let c = crate::text::char_from_ascii(97 + k as u32);
        proof {
            reveal_with_fuel(Seq::<char>::filter, 1);
            assert(alphabet().take(k + 1).drop_last() =~= alphabet().take(k as int));
            assert(alphabet().take(k + 1).last() == c);
        }
        if flags[k] {
            out.push(c);
        }
        k += 1;
    }
    assert(alphabet().take(26) =~= alphabet());
    out
}

/// Does `v` hold `c`?
fn contains_char(v: &Vec<char>, c: char) -> (b: bool)
    ensures
        b == v@.contains(c),
{
    let mut i: usize = 0;
    while i < v.len()
        invariant
            i <= v.len(),
            forall|j: int| 0 <= j < i ==> v@[j] != c,
        decreases v.len() - i,
    {
        if v[i] == c {
            assert(v@[i as int] == c);
            return true;
        }
        i += 1;
    }
    false
}

/// The first `n` elements of `v`, or all of it when it is shorter.
fn first_n(v: &Vec<char>, n: usize) -> (r: Vec<char>)
    ensures
        r@ == take_at_most(v@, n as nat),
{
    let mut r: Vec<char> = Vec::new();
    let mut i: usize = 0;
    while i < v.len() && i < n
        invariant
            i <= v.len(),
            i <= n,
            r@ == v@.take(i as int),
        decreases v.len() - i,
    {
        r.push(v[i]);
        assert(v@.take(i + 1) =~= v@.take(i as int).push(v@[i as int]));
        i += 1;
    }
    assert(v@.take(v.len() as int) =~= v@);
    r
}

/// The favourites for `profile`: the user's stored list filtered to letters
/// that are still bound (at most [`FAVOURITES_MAX`], repeats dropped), or —
/// when that leaves nothing — the first [`FAVOURITES_DEFAULT`] bound
/// letters. Nothing is written back.
pub fn favourites_for(cfg: &AppConfig, profile: &str) -> (r: Vec<char>)
    ensures
        r@ == spec_favourites(*cfg, profile@),
{
    let bound = bound_letters(cfg, profile);
    let ghost pred = member_of(bound@);
    let favs = &cfg.middle_ring_favourites;
    let mut f: Vec<char> = Vec::new();
    let mut i: usize = 0;
    while i < favs.len()
        invariant
            i <= favs.len(),
            bound@ == spec_bound_letters(*cfg, profile@),
            favs@ == cfg.middle_ring_favourites@,
            pred == member_of(bound@),
            f@ == firsts(favs@.take(i as int)).filter(pred),
        decreases favs.len() - i,
    {
        let ghost before = firsts(favs@.take(i as int));
        assert(favs@.take(i + 1).drop_last() =~= favs@.take(i as int));
        let v = chars_of(favs[i].as_str());
        if v.len() > 0 {
            let c = to_ascii_lower(v[0]);
            proof {
                reveal_with_fuel(Seq::<char>::filter, 1);
                assert(before.push(c).drop_last() =~= before);
                assert(favs@.take(i + 1).last() == favs@[i as int]);
                assert(firsts(favs@.take(i + 1)) == before.push(c));
                assert(before.push(c).filter(pred) == (if pred(c) {
                    before.filter(pred).push(c)
                } else {
                    before.filter(pred)
                }));
            }
            if contains_char(&bound, c) {
                f.push(c);
            }
        } else {
            assert(favs@.take(i + 1).last() == favs@[i as int]);
            assert(firsts(favs@.take(i + 1)) == before);
        }
        i += 1;
    }
    assert(favs@.take(favs.len() as int) =~= favs@);
    let chosen = first_n(&f, FAVOURITES_MAX);
    if chosen.len() > 0 {
        let mut d: Vec<char> = Vec::new();
        let mut k: usize = 0;
        while k < chosen.len()
            invariant
                k <= chosen.len(),
                d@ == dedup(chosen@.take(k as int)),
            decreases chosen.len() - k,
        {
            assert(chosen@.take(k + 1).drop_last() =~= chosen@.take(k as int));
            if !contains_char(&d, chosen[k]) {
                d.push(chosen[k]);
            }
            k += 1;
        }
        assert(chosen@.take(chosen.len() as int) =~= chosen@);
        return d;
    }
    first_n(&bound, FAVOURITES_DEFAULT)
}

/// Which letters the ring shows: the favourites, or all of them.
#[derive(Debug, Clone, Copy, PartialEq, Eq, Structural)]
pub enum MiddleRingScope {
    /// The favourites alone.
    MyEight,
    /// The favourites, then every other bound letter, then the specials.
    All,
}

/// A raw ring entry before layout: what to launch and how to draw it.
#[derive(Debug, Clone)]
pub struct RingEntry {
    pub key: String,
    pub code: char,
    pub name: String,
    pub icon: Option<String>,
    pub kind: ItemKind,
}

/// What kind of thing a binding launches, and the shell target its icon
/// comes from: an action is a special with no target; a web address is a
/// link; an app path is a folder when it names an absolute directory
/// (`app_is_dir`), else an app.
pub open spec fn spec_classify(b: KeyBinding, app_is_dir: bool) -> (ItemKind, Option<Seq<char>>) {
    if b.action is Some {
        (ItemKind::Special, None)
    } else if b.web_url is Some {
        (ItemKind::Link, Some(b.web_url.unwrap()@))
    } else if b.app is None {
        (ItemKind::App, None)
    } else if app_is_dir {
        (ItemKind::Folder, Some(b.app.unwrap()@))
    } else {
        (ItemKind::App, Some(b.app.unwrap()@))
    }
}

/// Classify a binding's target. `app_is_dir` is whether its app path is an
/// absolute path to a directory.
pub fn classify(bind: &KeyBinding, app_is_dir: bool) -> (r: (ItemKind, Option<String>))
    ensures
        r.0 == spec_classify(*bind, app_is_dir).0,
        match spec_classify(*bind, app_is_dir).1 {
            Some(t) => r.1 matches Some(s) && s@ == t,
            None => r.1 is None,
        },
{
    if bind.action.is_some() {
        return (ItemKind::Special, None);
    }
    match &bind.web_url {
        Some(url) => return (ItemKind::Link, Some(crate::text::owned(url.as_str()))),
        None => {},
    }
    match &bind.app {
        None => (ItemKind::App, None),
        Some(app) => {
            if app_is_dir {
                (ItemKind::Folder, Some(crate::text::owned(app.as_str())))
            } else {
                (ItemKind::App, Some(crate::text::owned(app.as_str())))
            }
        },
    }
}

/// The letters of "All" beyond the favourites: each of `extra` not already
/// in `order`, appended in turn.
pub open spec fn append_missing(order: Seq<char>, extra: Seq<char>) -> Seq<char>
    decreases extra.len(),
{
    if extra.len() == 0 {
        order
    } else {
        let o = append_missing(order, extra.drop_last());
        if o.contains(extra.last()) {
            o
        } else {
            o.push(extra.last())
        }
    }
}

/// The letters the ring is built from, in order.
pub open spec fn ring_order(cfg: AppConfig, profile: Seq<char>, scope: MiddleRingScope) -> Seq<
    char,
> {
    let fav = spec_favourites(cfg, profile);
    if scope == MiddleRingScope::All {
        append_missing(fav, spec_bound_letters(cfg, profile))
    } else {
        fav
    }
}

/// The index of the binding whose key is exactly the letter `c`.
pub open spec fn binding_index(bs: Seq<(String, KeyBinding)>, c: char) -> Option<int> {
    bs.map_values(|e: (String, KeyBinding)| e.0@).index_of_first(seq![c])
}

/// Does the letter `c` have a mapped binding?
pub open spec fn has_mapped(bs: Seq<(String, KeyBinding)>, c: char) -> bool {
    binding_index(bs, c) matches Some(i) && bs[i].1.spec_is_mapped()
}

/// The letters that become tiles: those of the order with a mapped binding.
pub open spec fn tile_letters(bs: Seq<(String, KeyBinding)>, order: Seq<char>) -> Seq<char> {
    order.filter(|c: char| has_mapped(bs, c))
}

/// The icon a tile shows, given how its binding classified: a link's own
/// site icon when it has a non-empty one; for anything else the picker's
/// icon when non-empty, else what the extractor answered for the target;
/// each non-link icon as a PNG data URL. The extractor is consulted only in
/// that last case.
pub open spec fn icon_rule<X: Fn(&str) -> Option<String>>(
    b: KeyBinding,
    kind: ItemKind,
    target: Option<Seq<char>>,
    icon: Option<String>,
    extract: X,
) -> bool {
    if kind == ItemKind::Link {
        match b.site_icon {
            Some(s) => if s@.len() > 0 {
                icon matches Some(u) && u@ == s@
            } else {
                icon is None
            },
            None => icon is None,
        }
    } else if b.icon_override is Some && b.icon_override.unwrap()@.len() > 0 {
        icon matches Some(u) && u@ == spec_png_data_url(b.icon_override.unwrap()@)
    } else {
        match target {
            None => icon is None,
            Some(t) => exists|arg: &str, got: Option<String>|
                arg@ == t && #[trigger] extract.ensures((arg,), got) && match got {
                    Some(g) => icon matches Some(u) && u@ == spec_png_data_url(g@),
                    None => icon is None,
                },
        }
    }
}

/// The extractor is asked about `t` for the binding `b`: a mapped app or
/// folder (no action, no web address) whose path is `t` and which has no
/// picker icon.
pub open spec fn asks_icon_of(b: KeyBinding, t: Seq<char>) -> bool {
    &&& b.spec_is_mapped()
    &&& b.action is None
    &&& b.web_url is None
    &&& b.app matches Some(a) && a@ == t
    &&& !(b.icon_override is Some && b.icon_override.unwrap()@.len() > 0)
}

/// The targets `build_entries` may ask the extractor about among the
/// bindings `bs`: those that [`asks_icon_of`] names.
pub open spec fn extractor_targets(bs: Seq<(String, KeyBinding)>, t: Seq<char>) -> bool {
    exists|i: int| 0 <= i < bs.len() && #[trigger] asks_icon_of(bs[i].1, t)
}

/// The extractor may be asked about `t` for `profile`: a target of that
/// profile's bindings; none without the profile.
pub open spec fn asks_extractor(cfg: AppConfig, profile: Seq<char>, t: Seq<char>) -> bool {
    profile_index(cfg, profile) matches Some(p) && extractor_targets(cfg.profiles@[p].bindings@, t)
}

/// One tile's entry for the letter `c` bound to `b`.
pub open spec fn entry_rule<N: Fn(&KeyBinding) -> String, D: Fn(&str) -> bool, X: Fn(&str) -> Option<String>>(
    b: KeyBinding,
    c: char,
    e: RingEntry,
    name_of: N,
    is_folder: D,
    extract: X,
) -> bool {
    &&& e.code == c
    &&& e.key@ == seq![crate::text::ascii_upper(c)]
    &&& name_of.ensures((&b,), e.name)
    &&& exists|dir: bool|
        {
            &&& (match b.app {
                Some(a) => exists|arg: &str| arg@ == a@ && #[trigger] is_folder.ensures((arg,), dir),
                None => !dir,
            })
            &&& e.kind == spec_classify(b, dir).0
            &&& icon_rule(b, e.kind, spec_classify(b, dir).1, e.icon, extract)
        }
}

/// The index of the binding whose key is exactly `c`.
fn find_binding(bs: &Vec<(String, KeyBinding)>, c: char) -> (r: Option<usize>)
    ensures
        match binding_index(bs@, c) {
            Some(i) => r matches Some(k) && k as int == i,
            None => r is None,
        },
        r matches Some(k) ==> k < bs@.len(),
{
    let ghost keys = bs@.map_values(|e: (String, KeyBinding)| e.0@);
    let mut i: usize = 0;
    while i < bs.len()
        invariant
            i <= bs.len(),
            keys == bs@.map_values(|e: (String, KeyBinding)| e.0@),
            forall|j: int| 0 <= j < i ==> keys[j] != seq![c],
        decreases bs.len() - i,
    {
        let k = chars_of(bs[i].0.as_str());
        if k.len() == 1 && k[0] == c {
            proof {
                assert(k@ =~= seq![c]);
                keys.index_of_first_ensures(seq![c]);
                assert(keys[i as int] == seq![c]);
                let f = keys.index_of_first(seq![c]).unwrap();
                assert(!(f < i));
                assert(!(f > i));
            }
            return Some(i);
        }
        proof {
            if keys[i as int] == seq![c] {
                assert(k@.len() == 1 && k@[0] == c);
            }
        }
        i += 1;
    }
    proof {
        keys.index_of_first_ensures(seq![c]);
    }
    None
}

/// Append one special tile per `(key, name, code)`, with no icon.
fn push_specials(out: &mut Vec<RingEntry>, specials: &Vec<(String, String, char)>)
    ensures
        final(out)@.len() == old(out)@.len() + specials@.len(),
        forall|i: int| 0 <= i < old(out)@.len() ==> #[trigger] final(out)@[i] == old(out)@[i],
        forall|j: int|
            0 <= j < specials@.len() ==> {
                let e = #[trigger] final(out)@[old(out)@.len() + j];
                let s = specials@[j];
                &&& e.key == s.0
                &&& e.name == s.1
                &&& e.code == s.2
                &&& e.icon is None
                &&& e.kind == ItemKind::Special
            },
{
    let ghost prefix = out@;
    let mut j: usize = 0;
    while j < specials.len()
        invariant
            j <= specials.len(),
            out@.len() == prefix.len() + j,
            forall|i: int| 0 <= i < prefix.len() ==> #[trigger] out@[i] == prefix[i],
            forall|i: int|
                0 <= i < j ==> {
                    let e = #[trigger] out@[prefix.len() + i];
                    let s = specials@[i];
                    &&& e.key == s.0
                    &&& e.name == s.1
                    &&& e.code == s.2
                    &&& e.icon is None
                    &&& e.kind == ItemKind::Special
                },
        decreases specials.len() - j,
    {
        let e = RingEntry {
            key: specials[j].0.clone(),
            name: specials[j].1.clone(),
            code: specials[j].2,
            icon: None,
            kind: ItemKind::Special,
        };
        let ghost before = out@;
        out.push(e);
        proof {
            lemma_push_entry(before, e);
        }
        j += 1;
    }
}

proof fn lemma_push_entry(s: Seq<RingEntry>, e: RingEntry)
    ensures
        s.push(e).len() == s.len() + 1,
        forall|i: int| 0 <= i < s.len() ==> #[trigger] s.push(e)[i] == s[i],
        s.push(e)[s.len() as int] == e,
{
}

/// Build the ring's entries for `profile` under `scope`: one per letter of
/// the order (the favourites, then for "All" every other bound letter) that
/// has a mapped binding, then for "All" the specials. The caller supplies
/// what lives outside this module: the specials (`specials`, as
/// `(key, name, code)`), a binding's display name (`name_of`), whether an
/// app path is an absolute directory (`is_folder`), and the shell's icon for
/// a target as base64 PNG (`extract`). The extractor is asked only about an
/// app or folder with no picker icon, never about a link: it need answer
/// only on [`asks_extractor`].
pub fn build_entries<N, D, X>(
    cfg: &AppConfig,
    profile: &str,
    scope: MiddleRingScope,
    specials: &Vec<(String, String, char)>,
    name_of: &N,
    is_folder: &D,
    extract: &X,
) -> (r: Vec<RingEntry>) where
    N: Fn(&KeyBinding) -> String,
    D: Fn(&str) -> bool,
    X: Fn(&str) -> Option<String>,

    requires
        forall|b: &KeyBinding| #[trigger] name_of.requires((b,)),
        forall|s: &str| #[trigger] is_folder.requires((s,)),
        forall|s: &str| asks_extractor(*cfg, profile@, s@) ==> #[trigger] extract.requires((s,)),
    ensures
        profile_index(*cfg, profile@) is None ==> r@.len() == 0,
        profile_index(*cfg, profile@) matches Some(p) ==> ({
            let bs = cfg.profiles@[p].bindings@;
            let letters = tile_letters(bs, ring_order(*cfg, profile@, scope));
            let extra = if scope == MiddleRingScope::All {
                specials@.len()
            } else {
                0
            };
            &&& r@.len() == letters.len() + extra
            &&& forall|i: int|
                0 <= i < letters.len() ==> entry_rule(
                    bs[binding_index(bs, letters[i]).unwrap()].1,
                    letters[i],
                    #[trigger] r@[i],
                    *name_of,
                    *is_folder,
                    *extract,
                )
            &&& forall|j: int|
                0 <= j < extra ==> {
                    let e = #[trigger] r@[letters.len() + j];
                    let s = specials@[j];
                    &&& e.key == s.0
                    &&& e.name == s.1
                    &&& e.code == s.2
                    &&& e.icon is None
                    &&& e.kind == ItemKind::Special
                }
        }),
{
    let idx = match find_profile(cfg, profile) {
        Some(i) => i,
        None => return Vec::new(),
    };
    let bs = &cfg.profiles[idx].bindings;
    let fav = favourites_for(cfg, profile);
    let mut order: Vec<char> = Vec::new();
    let mut k: usize = 0;
    while k < fav.len()
        invariant
            k <= fav.len(),
            order@ == fav@.take(k as int),
        decreases fav.len() - k,
    {
        order.push(fav[k]);
        assert(fav@.take(k + 1) =~= fav@.take(k as int).push(fav@[k as int]));
        k += 1;
    }
    assert(fav@.take(fav.len() as int) =~= fav@);
    if scope == MiddleRingScope::All {
        let bound = bound_letters(cfg, profile);
        let mut j: usize = 0;
        while j < bound.len()
            invariant
                j <= bound.len(),
                order@ == append_missing(fav@, bound@.take(j as int)),
            decreases bound.len() - j,
        {
            assert(bound@.take(j + 1).drop_last() =~= bound@.take(j as int));
            if !contains_char(&order, bound[j]) {
                order.push(bound[j]);
            }
            j += 1;
        }
        assert(bound@.take(bound.len() as int) =~= bound@);
    }
    let ghost ord = order@;
    assert(ord == ring_order(*cfg, profile@, scope));
    let mut out: Vec<RingEntry> = Vec::new();
    let mut k: usize = 0;
    while k < order.len()
        invariant
            k <= order.len(),
            order@ == ord,
            idx < cfg.profiles@.len(),
            bs@ == cfg.profiles@[idx as int].bindings@,
            forall|b: &KeyBinding| #[trigger] name_of.requires((b,)),
            forall|s: &str| #[trigger] is_folder.requires((s,)),
            profile_index(*cfg, profile@) == Some(idx as int),
            forall|s: &str| asks_extractor(*cfg, profile@, s@) ==> #[trigger] extract.requires((s,)),
            out@.len() == tile_letters(bs@, ord.take(k as int)).len(),
            forall|i: int|
                0 <= i < out@.len() ==> entry_rule(
                    bs@[binding_index(bs@, tile_letters(bs@, ord.take(k as int))[i]).unwrap()].1,
                    tile_letters(bs@, ord.take(k as int))[i],
                    #[trigger] out@[i],
                    *name_of,
                    *is_folder,
                    *extract,
                ),
        decreases order.len() - k,
    {
        let c = order[k];
        let ghost before = tile_letters(bs@, ord.take(k as int));
        proof {
            reveal_with_fuel(Seq::<char>::filter, 1);
            assert(ord.take(k + 1).drop_last() =~= ord.take(k as int));
        }
        match find_binding(bs, c) {
            None => {
                assert(!has_mapped(bs@, c));
                assert(tile_letters(bs@, ord.take(k + 1)) == before);
            },
            Some(bi) => {
                let b = &bs[bi].1;
                if !b.is_mapped() {
                    assert(!has_mapped(bs@, c));
                    assert(tile_letters(bs@, ord.take(k + 1)) == before);
                } else {
                    assert(has_mapped(bs@, c));
                    assert(tile_letters(bs@, ord.take(k + 1)) == before.push(c));
                    let dir = match &b.app {
                        Some(a) => {
                            let arg = a.as_str();
                            let d = is_folder(arg);
                            assert(arg@ == a@ && is_folder.ensures((arg,), d));
                            d
                        },
                        None => false,
                    };
                    let (kind, target) = classify(b, dir);
                    let name = name_of(b);
                    let icon: Option<String> = if kind == ItemKind::Link {
                        match &b.site_icon {
                            Some(si) => {
                                if chars_of(si.as_str()).len() > 0 {
                                    Some(si.clone())
                                } else {
                                    None
                                }
                            },
                            None => None,
                        }
                    } else {
                        let ov_ok = match &b.icon_override {
                            Some(ov) => chars_of(ov.as_str()).len() > 0,
                            None => false,
                        };
                        if ov_ok {
                            match &b.icon_override {
                                Some(ov) => Some(as_png_data_url(ov.as_str())),
                                None => None,
                            }
                        } else {
                            match &target {
                                Some(t) => {
                                    let arg = t.as_str();
                                    assert(asks_icon_of(bs@[bi as int].1, arg@));
                                    assert(extractor_targets(bs@, arg@));
                                    assert(asks_extractor(*cfg, profile@, arg@));
                                    let got = extract(arg);
                                    assert(arg@ == t@ && extract.ensures((arg,), got));
                                    match got {
                                        Some(g) => Some(as_png_data_url(g.as_str())),
                                        None => None,
                                    }
                                },
                                None => None,
                            }
                        }
                    };
                    let key = string_of(&vec![crate::text::to_ascii_upper(c)]);
                    let e = RingEntry { key, code: c, name, icon, kind };
                    assert(e.code == c);
                    assert(e.key@ == seq![crate::text::ascii_upper(c)]);
                    assert(name_of.ensures((&bs@[bi as int].1,), e.name));
                    assert(e.kind == spec_classify(bs@[bi as int].1, dir).0);
                    assert(icon_rule(bs@[bi as int].1, e.kind, spec_classify(bs@[bi as int].1, dir).1, e.icon, *extract));
                    assert(entry_rule(bs@[bi as int].1, c, e, *name_of, *is_folder, *extract));
                    out.push(e);
                }
            },
        }
        k += 1;
    }
    assert(ord.take(ord.len() as int) =~= ord);
    if scope == MiddleRingScope::All {
        push_specials(&mut out, specials);
    }
    out
}

} // verus!
