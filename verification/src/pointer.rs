//! Pointer activation on the Guide HUD and the icon ring.
//!
//! While Space is held and a ring is up, pointing the cursor in a binding's
//! direction arms it; releasing Space or left-clicking launches it. This
//! module holds the state the hook callback and the poller share
//! ([`PointerState`]: the armed chip, the hold's block, the key table, the
//! published snapshot), the per-hold tracker that turns ticks into verdicts
//! ([`HoldTracker`]), how a verdict is applied to the shared abort flag
//! ([`apply_to`]), and the throttle in front of the aim event
//! ([`AimThrottle`]).
//!
//! Arming claims the Space-abort flag, so releasing an armed hold types no
//! space; drifting back into the dead zone of a live hold clears it again,
//! so the user gets their space back; a disarm for any other reason leaves
//! the flag to whoever set it.
use crate::text::{ascii_lower, chars_of, is_ascii_lower, to_ascii_lower};
use vstd::prelude::*;

verus! {

/// Chip capacity of the shared tables.
pub const MAX_CHIPS: usize = 40;

/// Guard 2: physical px the cursor must move from its Space-down position
/// before anything can arm.
pub const MIN_TRAVEL_PHYS_PX: i64 = 24;

/// Guard 3: how long the direction must hold steady before it arms, in ms.
pub const DWELL_MS: u64 = 60;

/// Poller cadence while Space is held, in ms.
pub const TICK_HELD_MS: u64 = 16;

/// Poller cadence while idle, in ms.
pub const TICK_IDLE_MS: u64 = 40;

/// The first code of the icon ring's special tiles (Private Use Area).
pub const SPECIAL_CODE_BASE: u32 = 0xE000;

/// Is `u` a Unicode scalar value, the values `char::from_u32` accepts?
pub open spec fn is_scalar(u: u32) -> bool {
    u <= 0x10FFFF && !(0xD800 <= u && u <= 0xDFFF)
}

/// `char::from_u32`: `Some` exactly for a Unicode scalar value.
#[verifier::external_body]
fn char_from_u32(u: u32) -> (r: Option<char>)
    ensures
        r matches Some(c) ==> c as u32 == u,
        r is Some <==> is_scalar(u),
{
    char::from_u32(u)
}

/// Is `u` the code of one of the icon ring's special tiles: inside the
/// Private Use Area block that starts at U+E000, one code per entry of the
/// key table?
pub open spec fn spec_is_special_code(u: u32, key_table_len: u32) -> bool {
    SPECIAL_CODE_BASE <= u && (u as int) < SPECIAL_CODE_BASE + key_table_len
}

/// Is this the code of a ring special, as opposed to a bound letter?
pub fn is_special_code(c: char, key_table_len: u32) -> (b: bool)
    ensures
        b == spec_is_special_code(c as u32, key_table_len),
{
    let u = c as u32;
    SPECIAL_CODE_BASE <= u && (u as u64) < SPECIAL_CODE_BASE as u64 + key_table_len as u64
}

/// A code a chip may launch: a lower-case letter or a ring special.
pub open spec fn valid_code(u: u32, key_table_len: u32) -> bool {
    is_scalar(u) && ((0x61 <= u && u <= 0x7A) || spec_is_special_code(u, key_table_len))
}

/// The shared snapshot, as the contracts speak of it.
pub struct PointerView {
    pub cursor: (i32, i32),
    pub cursor_stamp: u64,
    pub chip_rects: Seq<(i32, i32, i32, i32)>,
    pub chip_keys: Seq<u32>,
    pub chip_geom_count: nat,
    pub chip_key_count: nat,
    pub hud_center: (i32, i32),
    pub hud_center_ok: bool,
    pub dead_zone: i32,
    pub ring_items: Seq<(i32, i32, i32)>,
    pub ring_tiles: Seq<i32>,
    pub ring_count: nat,
    pub ring_spiral: bool,
    pub ring_active: bool,
    pub armed_index: i32,
    pub hold_blocked: bool,
    pub click_eaten: bool,
    pub activation_enabled: bool,
    pub key_table_len: u32,
}

/// What the hook callback and the poller share: the cursor, the chip key
/// table and geometry, the icon ring's polar table, the armed chip, and the
/// hold's latches.
pub struct PointerState {
    cursor: (i32, i32),
    cursor_stamp: u64,
    chip_rects: Vec<(i32, i32, i32, i32)>,
    chip_keys: Vec<u32>,
    chip_geom_count: usize,
    chip_key_count: usize,
    hud_center: (i32, i32),
    hud_center_ok: bool,
    dead_zone: i32,
    ring_items: Vec<(i32, i32, i32)>,
    ring_tiles: Vec<i32>,
    ring_count: usize,
    ring_spiral: bool,
    ring_active: bool,
    armed_index: i32,
    hold_blocked: bool,
    click_eaten: bool,
    activation_enabled: bool,
    key_table_len: u32,
}

impl PointerState {
    /// The snapshot as the contracts speak of it.
    pub closed spec fn view(&self) -> PointerView {
        PointerView {
            cursor: self.cursor,
            cursor_stamp: self.cursor_stamp,
            chip_rects: self.chip_rects@,
            chip_keys: self.chip_keys@,
            chip_geom_count: self.chip_geom_count as nat,
            chip_key_count: self.chip_key_count as nat,
            hud_center: self.hud_center,
            hud_center_ok: self.hud_center_ok,
            dead_zone: self.dead_zone,
            ring_items: self.ring_items@,
            ring_tiles: self.ring_tiles@,
            ring_count: self.ring_count as nat,
            ring_spiral: self.ring_spiral,
            ring_active: self.ring_active,
            armed_index: self.armed_index,
            hold_blocked: self.hold_blocked,
            click_eaten: self.click_eaten,
            activation_enabled: self.activation_enabled,
            key_table_len: self.key_table_len,
        }
    }

    /// Every table holds exactly [`MAX_CHIPS`] slots and every count is
    /// bounded by it.
    #[verifier::type_invariant]
    spec fn wf(&self) -> bool {
        &&& self.chip_rects@.len() == MAX_CHIPS
        &&& self.chip_keys@.len() == MAX_CHIPS
        &&& self.ring_items@.len() == MAX_CHIPS
        &&& self.ring_tiles@.len() == MAX_CHIPS
        &&& self.chip_geom_count <= MAX_CHIPS
        &&& self.chip_key_count <= MAX_CHIPS
        &&& self.ring_count <= MAX_CHIPS
    }

    /// A fresh state: nothing published, nothing armed, every latch down.
    /// `activation_enabled` is the user's "point to launch" setting and
    /// `key_table_len` the number of keys whose special codes exist.
    pub fn new(activation_enabled: bool, key_table_len: u32) -> (s: Self)
        ensures
            s.view().chip_geom_count == 0,
            s.view().chip_key_count == 0,
            s.view().ring_count == 0,
            !s.view().ring_active,
            !s.view().ring_spiral,
            !s.view().hud_center_ok,
            s.view().armed_index == -1,
            !s.view().hold_blocked,
            !s.view().click_eaten,
            s.view().activation_enabled == activation_enabled,
            s.view().key_table_len == key_table_len,
            s.view().cursor_stamp == 0,
            s.view().chip_keys == Seq::new(MAX_CHIPS as nat, |i: int| 0u32),
    {
        let mut chip_rects = Vec::new();
        let mut chip_keys = Vec::new();
        let mut ring_items = Vec::new();
        let mut ring_tiles = Vec::new();
        let mut i: usize = 0;
        while i < MAX_CHIPS
            invariant
                i <= MAX_CHIPS,
                chip_rects@.len() == i,
                chip_keys@.len() == i,
                ring_items@.len() == i,
                ring_tiles@.len() == i,
                forall|j: int| 0 <= j < i ==> chip_keys@[j] == 0u32,
            decreases MAX_CHIPS - i,
        {
            chip_rects.push((0i32, 0i32, 0i32, 0i32));
            chip_keys.push(0u32);
            ring_items.push((0i32, 0i32, 0i32));
            ring_tiles.push(0i32);
            i += 1;
        }
        let s = PointerState {
            cursor: (0, 0),
            cursor_stamp: 0,
            chip_rects,
            chip_keys,
            chip_geom_count: 0,
            chip_key_count: 0,
            hud_center: (0, 0),
            hud_center_ok: false,
            dead_zone: 0,
            ring_items,
            ring_tiles,
            ring_count: 0,
            ring_spiral: false,
            ring_active: false,
            armed_index: -1i32,
            hold_blocked: false,
            click_eaten: false,
            activation_enabled,
            key_table_len,
        };
        assert(s.view().chip_keys =~= Seq::new(MAX_CHIPS as nat, |i: int| 0u32));
        s
    }

    /// The user switched "point to launch" on or off.
    pub fn set_activation(&mut self, enabled: bool)
        ensures
            final(self).view() == (PointerView { activation_enabled: enabled, ..old(self).view() }),
    {
        proof {
            use_type_invariant(&*self);
        }
        self.activation_enabled = enabled;
    }

    /// A cursor move during a hold: remember where it is, and when.
    pub fn note_cursor(&mut self, x: i32, y: i32, stamp: u64)
        ensures
            final(self).view() == (PointerView {
                cursor: (x, y),
                cursor_stamp: stamp,
                ..old(self).view()
            }),
    {
        proof {
            use_type_invariant(&*self);
        }
        self.cursor = (x, y);
        self.cursor_stamp = stamp;
    }

    /// The cursor, if it moved during the hold that started at `hold_ts`.
    pub fn cursor_for_hold(&self, hold_ts: u64) -> (r: Option<(i32, i32)>)
        ensures
            r == (if self.view().cursor_stamp >= hold_ts {
                Some(self.view().cursor)
            } else {
                None
            }),
    {
        if self.cursor_stamp >= hold_ts {
            Some(self.cursor)
        } else {
            None
        }
    }

    /// Space-down: a fresh hold inherits neither the last hold's armed chip
    /// nor its block.
    pub fn on_space_down(&mut self)
        ensures
            final(self).view() == (PointerView {
                armed_index: -1i32,
                hold_blocked: false,
                ..old(self).view()
            }),
    {
        proof {
            use_type_invariant(&*self);
        }
        self.armed_index = -1;
        self.hold_blocked = false;
    }

    /// A new hold seen by the poller: no chip is armed for it yet.
    pub fn forget_armed(&mut self)
        ensures
            final(self).view() == (PointerView { armed_index: -1i32, ..old(self).view() }),
    {
        proof {
            use_type_invariant(&*self);
        }
        self.armed_index = -1;
    }

    /// Space+wheel: disarm and stand down for the rest of this hold.
    pub fn block_for_hold(&mut self)
        ensures
            final(self).view() == (PointerView {
                armed_index: -1i32,
                hold_blocked: true,
                ..old(self).view()
            }),
    {
        proof {
            use_type_invariant(&*self);
        }
        self.armed_index = -1;
        self.hold_blocked = true;
    }

    /// If a chip is armed (and pointer activation is live), consume the arm
    /// and return its key. Consuming also blocks the rest of the hold, so a
    /// click-then-release cannot activate twice. A slot outside the key
    /// table, or holding anything but a lower-case letter or a ring special,
    /// arms nothing.
    pub fn take_armed_key(&mut self) -> (r: Option<char>)
        ensures
            !(old(self).view().activation_enabled || old(self).view().ring_active)
                || old(self).view().armed_index < 0 ==> r is None && final(self).view()
                == old(self).view(),
            (old(self).view().activation_enabled || old(self).view().ring_active)
                && old(self).view().armed_index >= 0 ==> ({
                let i = old(self).view().armed_index as int;
                let v = old(self).view();
                &&& final(self).view() == (PointerView {
                    armed_index: -1i32,
                    hold_blocked: true,
                    ..v
                })
                &&& (if i < v.chip_key_count && valid_code(v.chip_keys[i], v.key_table_len) {
                    r matches Some(c) && c as u32 == v.chip_keys[i]
                } else {
                    r is None
                })
            }),
    {
        proof {
            use_type_invariant(&*self);
        }
        if !self.activation_enabled && !self.ring_active {
            return None;
        }
        let i = self.armed_index;
        if i < 0 {
            return None;
        }
        let i = i as usize;
        self.armed_index = -1;
        self.hold_blocked = true;
        if i >= self.chip_key_count {
            return None;
        }
        let u = self.chip_keys[i];
        match char_from_u32(u) {
            Some(c) => {
                proof {
                    crate::text::lemma_char_as_u32(c);
                }
                if ('a' <= c && c <= 'z') || is_special_code(c, self.key_table_len) {
                    Some(c)
                } else {
                    None
                }
            },
            None => None,
        }
    }

    /// Is the icon ring's snapshot the live one?
    pub fn ring_active(&self) -> (b: bool)
        ensures
            b == self.view().ring_active,
    {
        self.ring_active
    }

    /// A left-button down was eaten: owe the matching up.
    pub fn latch_click_eaten(&mut self)
        ensures
            final(self).view() == (PointerView { click_eaten: true, ..old(self).view() }),
    {
        proof {
            use_type_invariant(&*self);
        }
        self.click_eaten = true;
    }

    /// The matching left-button up arrived: eat it too, once.
    pub fn eat_click_up(&mut self) -> (eat: bool)
        ensures
            eat == old(self).view().click_eaten,
            final(self).view() == (PointerView { click_eaten: false, ..old(self).view() }),
    {
        proof {
            use_type_invariant(&*self);
        }
        if self.click_eaten {
            self.click_eaten = false;
            true
        } else {
            false
        }
    }

    /// The hook was reinstalled after an eviction: every latch a lost event
    /// could have stranded is reset.
    pub fn reset_on_eviction(&mut self)
        ensures
            final(self).view() == (PointerView {
                armed_index: -1i32,
                hold_blocked: false,
                click_eaten: false,
                ..old(self).view()
            }),
    {
        proof {
            use_type_invariant(&*self);
        }
        self.armed_index = -1;
        self.hold_blocked = false;
        self.click_eaten = false;
    }

    /// Record which key each chip launches, in apps-ring order: the first
    /// character of each key, lower-cased, when it is a lower-case letter,
    /// else 0 (invalid). At most [`MAX_CHIPS`] are kept. The previous
    /// layout's geometry, and the icon ring's snapshot, are invalidated.
    pub fn publish_keys(&mut self, apps: &[(String, String)])
        ensures
            final(self).view().chip_key_count == (if apps@.len() < MAX_CHIPS {
                apps@.len()
            } else {
                MAX_CHIPS as nat
            }),
            forall|i: int|
                0 <= i < final(self).view().chip_key_count ==> #[trigger] final(self).view().chip_keys[i]
                    == key_code(apps@[i].0@),
            forall|i: int|
                final(self).view().chip_key_count <= i < MAX_CHIPS ==> #[trigger] final(self).view().chip_keys[i] == old(self).view().chip_keys[i],
            final(self).view() == (PointerView {
                chip_keys: final(self).view().chip_keys,
                chip_key_count: final(self).view().chip_key_count,
                chip_geom_count: 0,
                ring_active: false,
                ring_count: 0,
                ring_spiral: false,
                ..old(self).view()
            }),
    {
        proof {
            use_type_invariant(&*self);
        }
        self.chip_geom_count = 0;
        self.ring_active = false;
        self.ring_count = 0;
        self.ring_spiral = false;
        let n = if apps.len() < MAX_CHIPS {
            apps.len()
        } else {
            MAX_CHIPS
        };
        let mut keys: Vec<u32> = Vec::new();
        let mut i: usize = 0;
        while i < MAX_CHIPS
            invariant
                i <= MAX_CHIPS,
                n <= MAX_CHIPS,
                n <= apps@.len(),
                self.chip_keys@.len() == MAX_CHIPS,
                keys@.len() == i,
                forall|j: int| 0 <= j < i && j < n ==> #[trigger] keys@[j] == key_code(apps@[j].0@),
                forall|j: int| n <= j < i ==> #[trigger] keys@[j] == self.chip_keys@[j],
            decreases MAX_CHIPS - i,
        {
            if i < n {
                keys.push(first_letter_code(&apps[i].0));
            } else {
                keys.push(self.chip_keys[i]);
            }
            i += 1;
        }
        self.chip_keys = keys;
        self.chip_key_count = n;
    }

    /// Record which code each icon-ring tile fires, in tile order: a
    /// lower-case letter or a ring special as its code, anything else 0. The
    /// previous geometry and polar table are invalidated.
    pub fn publish_key_codes(&mut self, codes: &[char])
        ensures
            final(self).view().chip_key_count == (if codes@.len() < MAX_CHIPS {
                codes@.len()
            } else {
                MAX_CHIPS as nat
            }),
            forall|i: int|
                0 <= i < final(self).view().chip_key_count ==> #[trigger] final(self).view().chip_keys[i]
                    == (if valid_code(codes@[i] as u32, old(self).view().key_table_len) {
                    codes@[i] as u32
                } else {
                    0u32
                }),
            forall|i: int|
                final(self).view().chip_key_count <= i < MAX_CHIPS ==> #[trigger] final(self).view().chip_keys[i] == old(self).view().chip_keys[i],
            final(self).view() == (PointerView {
                chip_keys: final(self).view().chip_keys,
                chip_key_count: final(self).view().chip_key_count,
                chip_geom_count: 0,
                ring_count: 0,
                ..old(self).view()
            }),
    {
        proof {
            use_type_invariant(&*self);
        }
        self.chip_geom_count = 0;
        self.ring_count = 0;
        let n = if codes.len() < MAX_CHIPS {
            codes.len()
        } else {
            MAX_CHIPS
        };
        let mut keys: Vec<u32> = Vec::new();
        let mut i: usize = 0;
        while i < MAX_CHIPS
            invariant
                i <= MAX_CHIPS,
                n <= MAX_CHIPS,
                n <= codes@.len(),
                self.chip_keys@.len() == MAX_CHIPS,
                keys@.len() == i,
                forall|j: int|
                    0 <= j < i && j < n ==> #[trigger] keys@[j] == (if valid_code(
                        codes@[j] as u32,
                        self.key_table_len,
                    ) {
                        codes@[j] as u32
                    } else {
                        0u32
                    }),
                forall|j: int| n <= j < i ==> #[trigger] keys@[j] == self.chip_keys@[j],
            decreases MAX_CHIPS - i,
        {
            if i < n {
                let c = codes[i];
                proof {
                    crate::text::lemma_char_as_u32(c);
                }
                let v = match char_from_u32(c as u32) {
                    Some(_) => if ('a' <= c && c <= 'z') || is_special_code(c, self.key_table_len) {
                        c as u32
                    } else {
                        0
                    },
                    None => 0,
                };
                keys.push(v);
            } else {
                keys.push(self.chip_keys[i]);
            }
            i += 1;
        }
        self.chip_keys = keys;
        self.chip_key_count = n;
    }

    /// Store the page's chip boxes, already in physical screen px, with the
    /// HUD centre and dead-zone radius derived from them. At most
    /// [`MAX_CHIPS`] are kept; the centre is trusted only when `centre_ok`.
    pub fn store_chips(
        &mut self,
        rects: &[(i32, i32, i32, i32)],
        centre: (i32, i32),
        dead_zone: i32,
        centre_ok: bool,
    )
        ensures
            final(self).view().chip_geom_count == (if rects@.len() < MAX_CHIPS {
                rects@.len()
            } else {
                MAX_CHIPS as nat
            }),
            forall|i: int|
                0 <= i < final(self).view().chip_geom_count ==> #[trigger] final(self).view().chip_rects[i] == rects@[i],
            final(self).view() == (PointerView {
                chip_rects: final(self).view().chip_rects,
                chip_geom_count: final(self).view().chip_geom_count,
                hud_center: centre,
                dead_zone: dead_zone,
                hud_center_ok: centre_ok,
                ..old(self).view()
            }),
    {
        proof {
            use_type_invariant(&*self);
        }
        self.chip_geom_count = 0;
        self.hud_center_ok = false;
        let n = if rects.len() < MAX_CHIPS {
            rects.len()
        } else {
            MAX_CHIPS
        };
        let mut out: Vec<(i32, i32, i32, i32)> = Vec::new();
        let mut i: usize = 0;
        while i < MAX_CHIPS
            invariant
                i <= MAX_CHIPS,
                n <= MAX_CHIPS,
                n <= rects@.len(),
                self.chip_rects@.len() == MAX_CHIPS,
                out@.len() == i,
                forall|j: int| 0 <= j < i && j < n ==> #[trigger] out@[j] == rects@[j],
            decreases MAX_CHIPS - i,
        {
            if i < n {
                out.push(rects[i]);
            } else {
                out.push(self.chip_rects[i]);
            }
            i += 1;
        }
        self.chip_rects = out;
        self.hud_center = centre;
        self.dead_zone = dead_zone;
        self.hud_center_ok = centre_ok;
        self.chip_geom_count = n;
    }

    /// Store the icon ring's polar table — `(ring, angle in milli-degrees,
    /// radius)` and the tile edge per tile, physical px — with its centre
    /// and dead zone, and make it the live snapshot.
    pub fn store_ring(
        &mut self,
        centre: (i32, i32),
        dead_zone: i32,
        items: &[(i32, i32, i32)],
        tiles: &[i32],
        spiral: bool,
    )
        requires
            items@.len() == tiles@.len(),
        ensures
            final(self).view().ring_count == (if items@.len() < MAX_CHIPS {
                items@.len()
            } else {
                MAX_CHIPS as nat
            }),
            forall|i: int|
                0 <= i < final(self).view().ring_count ==> #[trigger] final(self).view().ring_items[i]
                    == items@[i],
            forall|i: int|
                0 <= i < final(self).view().ring_count ==> #[trigger] final(self).view().ring_tiles[i]
                    == tiles@[i],
            final(self).view() == (PointerView {
                ring_items: final(self).view().ring_items,
                ring_tiles: final(self).view().ring_tiles,
                ring_count: final(self).view().ring_count,
                ring_spiral: spiral,
                hud_center: centre,
                dead_zone: dead_zone,
                hud_center_ok: true,
                ring_active: true,
                ..old(self).view()
            }),
    {
        proof {
            use_type_invariant(&*self);
        }
        self.ring_active = false;
        self.ring_count = 0;
        self.ring_spiral = spiral;
        self.hud_center_ok = false;
        let n = if items.len() < MAX_CHIPS {
            items.len()
        } else {
            MAX_CHIPS
        };
        let mut its: Vec<(i32, i32, i32)> = Vec::new();
        let mut tls: Vec<i32> = Vec::new();
        let mut i: usize = 0;
        while i < MAX_CHIPS
            invariant
                i <= MAX_CHIPS,
                n <= MAX_CHIPS,
                n <= items@.len(),
                items@.len() == tiles@.len(),
                self.ring_items@.len() == MAX_CHIPS,
                self.ring_tiles@.len() == MAX_CHIPS,
                its@.len() == i,
                tls@.len() == i,
                forall|j: int| 0 <= j < i && j < n ==> #[trigger] its@[j] == items@[j],
                forall|j: int| 0 <= j < i && j < n ==> #[trigger] tls@[j] == tiles@[j],
            decreases MAX_CHIPS - i,
        {
            if i < n {
                its.push(items[i]);
                tls.push(tiles[i]);
            } else {
                its.push(self.ring_items[i]);
                tls.push(self.ring_tiles[i]);
            }
            i += 1;
        }
        self.ring_items = its;
        self.ring_tiles = tls;
        self.hud_center = centre;
        self.dead_zone = dead_zone;
        self.hud_center_ok = true;
        self.ring_count = n;
        self.ring_active = true;
    }

    /// The HUD hid: nothing on screen means nothing to hit, for both rings.
    pub fn clear_chips(&mut self)
        ensures
            final(self).view() == (PointerView {
                chip_geom_count: 0,
                chip_key_count: 0,
                hud_center_ok: false,
                ring_active: false,
                ring_count: 0,
                ring_spiral: false,
                ..old(self).view()
            }),
    {
        proof {
            use_type_invariant(&*self);
        }
        self.chip_geom_count = 0;
        self.chip_key_count = 0;
        self.hud_center_ok = false;
        self.ring_active = false;
        self.ring_count = 0;
        self.ring_spiral = false;
    }

    /// How many key slots are valid.
    pub fn chip_key_count(&self) -> (n: usize)
        ensures
            n == self.view().chip_key_count,
    {
        self.chip_key_count
    }

    /// How many chip rects are valid.
    pub fn chip_geom_count(&self) -> (n: usize)
        ensures
            n == self.view().chip_geom_count,
    {
        self.chip_geom_count
    }

    /// The code stored in key slot `i`.
    pub fn chip_key(&self, i: usize) -> (u: u32)
        requires
            i < MAX_CHIPS,
        ensures
            u == self.view().chip_keys[i as int],
    {
        proof {
            use_type_invariant(self);
        }
        self.chip_keys[i]
    }

    /// The armed chip, -1 for none.
    pub fn armed_index(&self) -> (i: i32)
        ensures
            i == self.view().armed_index,
    {
        self.armed_index
    }

    /// Is pointer activation blocked for the rest of this hold?
    pub fn hold_blocked(&self) -> (b: bool)
        ensures
            b == self.view().hold_blocked,
    {
        self.hold_blocked
    }

    /// The chip snapshot the poller hit-tests: the rects bounded by the
    /// smaller of the two counts, so keys and geometry always pair up.
    pub fn chips_snapshot(&self) -> (r: Vec<(i32, i32, i32, i32)>)
        ensures
            r@.len() == (if self.view().chip_geom_count < self.view().chip_key_count {
                self.view().chip_geom_count
            } else {
                self.view().chip_key_count
            }),
            forall|i: int| 0 <= i < r@.len() ==> #[trigger] r@[i] == self.view().chip_rects[i],
    {
        proof {
            use_type_invariant(self);
        }
        let n = if self.chip_geom_count < self.chip_key_count {
            self.chip_geom_count
        } else {
            self.chip_key_count
        };
        let mut r: Vec<(i32, i32, i32, i32)> = Vec::new();
        let mut i: usize = 0;
        while i < n
            invariant
                self.wf(),
                i <= n <= MAX_CHIPS,
                r@.len() == i,
                forall|j: int| 0 <= j < i ==> #[trigger] r@[j] == self.chip_rects@[j],
            decreases n - i,
        {
            r.push(self.chip_rects[i]);
            i += 1;
        }
        r
    }

    /// The dead-zone radius of the live snapshot, physical px.
    pub fn dead_zone(&self) -> (d: i32)
        ensures
            d == self.view().dead_zone,
    {
        self.dead_zone
    }

    /// Is the icon ring's table a spiral?
    pub fn ring_spiral(&self) -> (b: bool)
        ensures
            b == self.view().ring_spiral,
    {
        self.ring_spiral
    }

    /// Is pointer activation on: the user's setting, or the icon ring up?
    pub fn activation_on(&self) -> (b: bool)
        ensures
            b == (self.view().activation_enabled || self.view().ring_active),
    {
        self.activation_enabled || self.ring_active
    }

    /// The icon ring's table the poller hit-tests: `(ring, milli-degrees,
    /// radius)` and the tile edge per tile, bounded by the smaller of the
    /// tile and code counts; empty while the ring is not the live snapshot.
    pub fn ring_snapshot(&self) -> (r: Vec<((i32, i32, i32), i32)>)
        ensures
            r@.len() == (if !self.view().ring_active {
                0
            } else if self.view().ring_count < self.view().chip_key_count {
                self.view().ring_count
            } else {
                self.view().chip_key_count
            }),
            forall|i: int|
                0 <= i < r@.len() ==> #[trigger] r@[i] == (self.view().ring_items[i], self.view().ring_tiles[i]),
    {
        proof {
            use_type_invariant(self);
        }
        let n = if !self.ring_active {
            0
        } else if self.ring_count < self.chip_key_count {
            self.ring_count
        } else {
            self.chip_key_count
        };
        let mut r: Vec<((i32, i32, i32), i32)> = Vec::new();
        let mut i: usize = 0;
        while i < n
            invariant
                self.wf(),
                i <= n <= MAX_CHIPS,
                r@.len() == i,
                forall|j: int| 0 <= j < i ==> #[trigger] r@[j] == (self.ring_items@[j], self.ring_tiles@[j]),
            decreases n - i,
        {
            r.push((self.ring_items[i], self.ring_tiles[i]));
            i += 1;
        }
        r
    }

    /// The HUD centre, when a snapshot has published one.
    pub fn centre(&self) -> (r: Option<(i32, i32)>)
        ensures
            r == (if self.view().hud_center_ok {
                Some(self.view().hud_center)
            } else {
                None
            }),
    {
        if self.hud_center_ok {
            Some(self.hud_center)
        } else {
            None
        }
    }
}

/// The code a chip key launches: its first character lower-cased, when
/// that is a lower-case letter; else 0.
pub open spec fn key_code(key: Seq<char>) -> u32 {
    if key.len() > 0 && is_ascii_lower(ascii_lower(key[0])) {
        ascii_lower(key[0]) as u32
    } else {
        0
    }
}

/// `key_code` of a string.
fn first_letter_code(key: &String) -> (u: u32)
    ensures
        u == key_code(key@),
{
    let v = chars_of(key.as_str());
    if v.len() == 0 {
        return 0;
    }
    let c = to_ascii_lower(v[0]);
    if 'a' <= c && c <= 'z' {
        c as u32
    } else {
        0
    }
}

/// What one tick decided.
#[derive(Debug, Clone, Copy, PartialEq, Eq)]
pub enum Verdict {
    NoChange,
    /// A gesture consumed the arm: resync, emit null, touch nothing else.
    SyncLost,
    /// none → armed(i). Claims the Space-abort flag; refused if the hold was
    /// already aborted.
    Arm(usize),
    /// armed(a) → armed(b) without passing through none.
    Shift(usize),
    /// armed → none because the cursor came back inside the dead zone of a
    /// live hold: the abort flag is cleared, so release types a space.
    DisarmClear,
    /// armed → none for any other reason: the abort flag belongs to someone
    /// else now.
    DisarmKeep,
}

/// Everything one tick's bookkeeping needs, gathered by the impure side.
/// The hit test itself (which chip the cursor points at) is the caller's.
#[derive(Debug, Clone, Copy)]
pub struct TickFacts {
    /// The user's setting, or the icon ring being up.
    pub enabled: bool,
    /// Space (or the middle button) physically held.
    pub modifier_active: bool,
    /// Guard 1: the ring is actually on screen.
    pub hud_visible: bool,
    /// Guard 6, or a consumed activation.
    pub blocked: bool,
    /// Which hold this tick belongs to.
    pub hold_ts: u64,
    /// Guard 2's reference point, latched at the start of the hold.
    pub hold_start_cursor: Option<(i32, i32)>,
    /// The cursor, when it moved during this hold.
    pub cursor: Option<(i32, i32)>,
    /// The armed index read back as none: a gesture consumed the arm.
    pub externally_disarmed: bool,
    /// A snapshot has published a centre; without one nothing can arm.
    pub has_centre: bool,
}

/// The first half of a tick's answer.
#[derive(Debug, Clone, Copy, PartialEq, Eq)]
pub enum TickStep {
    /// The tick is decided already.
    Done(Verdict),
    /// Every guard before the hit test passed: hit-test the cursor, then
    /// finish the tick. `live` is guard 1 and the hold's state together.
    Aim { live: bool },
    /// Nothing can be pointed at this tick: finish it with no hit.
    NoAim { live: bool },
}

/// Per-hold pointer state: the travel and dwell guards and the armed chip.
#[derive(Debug, Clone, Copy)]
pub struct HoldTracker {
    hold_ts: u64,
    start: Option<(i32, i32)>,
    traveled: bool,
    dwell_on: Option<usize>,
    dwell_ms: u64,
    armed: Option<usize>,
}

/// The tracker's state, as the contracts speak of it.
pub struct TrackerView {
    pub hold_ts: u64,
    pub start: Option<(i32, i32)>,
    pub traveled: bool,
    pub dwell_on: Option<usize>,
    pub dwell_ms: u64,
    pub armed: Option<usize>,
}

/// Has the cursor moved far enough from the start?
pub open spec fn far_enough(start: (i32, i32), cur: (i32, i32)) -> bool {
    let dx = cur.0 - start.0;
    let dy = cur.1 - start.1;
    dx * dx + dy * dy >= MIN_TRAVEL_PHYS_PX * MIN_TRAVEL_PHYS_PX
}

/// Is the hold live: enabled, held, visible and not blocked?
pub open spec fn spec_live(f: TickFacts) -> bool {
    f.enabled && f.modifier_active && f.hud_visible && !f.blocked
}

/// The tracker at the start of a tick: a new hold resets every per-hold
/// latch.
pub open spec fn after_hold_check(t: TrackerView, f: TickFacts) -> TrackerView {
    if f.hold_ts != t.hold_ts {
        TrackerView {
            hold_ts: f.hold_ts,
            start: f.hold_start_cursor,
            traveled: false,
            dwell_on: None,
            dwell_ms: 0,
            armed: None,
        }
    } else {
        t
    }
}

/// The dwell bookkeeping on what the cursor points at now.
pub open spec fn after_dwell(t: TrackerView, hit: Option<usize>, tick_ms: u64) -> TrackerView {
    match hit {
        Some(c) => if t.dwell_on == Some(c) {
            TrackerView {
                dwell_ms: if t.dwell_ms + tick_ms > u64::MAX {
                    u64::MAX
                } else {
                    (t.dwell_ms + tick_ms) as u64
                },
                ..t
            }
        } else {
            TrackerView { dwell_on: Some(c), dwell_ms: tick_ms, ..t }
        },
        None => TrackerView { dwell_on: None, dwell_ms: 0, ..t },
    }
}

/// What the tick wants armed: the chip pointed at, when it is already the
/// armed one or has been pointed at for the dwell.
pub open spec fn desired(t: TrackerView, hit: Option<usize>) -> Option<usize> {
    match hit {
        None => None,
        Some(c) => if t.armed == Some(c) || t.dwell_ms >= DWELL_MS {
            Some(c)
        } else {
            None
        },
    }
}

/// The first half of a tick, as `begin_tick` states it: the step and the
/// tracker after it.
pub open spec fn spec_begin(t0: TrackerView, f: TickFacts) -> (TickStep, TrackerView) {
    let t = after_hold_check(t0, f);
    if t.armed is Some && f.externally_disarmed {
        (TickStep::Done(Verdict::SyncLost), TrackerView { armed: None, ..t })
    } else if !spec_live(f) || f.cursor is None {
        (TickStep::NoAim { live: spec_live(f) }, t)
    } else {
        let cur = f.cursor.unwrap();
        let start = if t.start is None {
            cur
        } else {
            t.start.unwrap()
        };
        let traveled = t.traveled || far_enough(start, cur);
        (
            if traveled && f.has_centre {
                TickStep::Aim { live: true }
            } else {
                TickStep::NoAim { live: true }
            },
            TrackerView { start: Some(start), traveled: traveled, ..t },
        )
    }
}

/// The second half of a tick, as `finish_tick` states it: the verdict and
/// the tracker after it.
pub open spec fn spec_finish(t0: TrackerView, live: bool, hit: Option<usize>, tick_ms: u64) -> (
    Verdict,
    TrackerView,
) {
    let t = after_dwell(t0, hit, tick_ms);
    let d = desired(t, hit);
    match (t.armed, d) {
        (None, None) => (Verdict::NoChange, t),
        (Some(a), Some(b)) => if a == b {
            (Verdict::NoChange, t)
        } else {
            (Verdict::Shift(b), TrackerView { armed: Some(b), ..t })
        },
        (None, Some(b)) => (Verdict::Arm(b), TrackerView { armed: Some(b), ..t }),
        (Some(_), None) => (
            if live {
                Verdict::DisarmClear
            } else {
                Verdict::DisarmKeep
            },
            TrackerView { armed: None, ..t },
        ),
    }
}

/// A whole tick, given what the hit test answered (`hit`, consulted only
/// when the first half asks for it).
pub open spec fn spec_tick(t0: TrackerView, f: TickFacts, hit: Option<usize>, tick_ms: u64) -> (
    Verdict,
    TrackerView,
) {
    let (step, t1) = spec_begin(t0, f);
    match step {
        TickStep::Done(v) => (v, t1),
        TickStep::NoAim { live } => spec_finish(t1, live, None, tick_ms),
        TickStep::Aim { live } => spec_finish(t1, live, hit, tick_ms),
    }
}

impl HoldTracker {
    /// The tracker's state.
    pub closed spec fn view(&self) -> TrackerView {
        TrackerView {
            hold_ts: self.hold_ts,
            start: self.start,
            traveled: self.traveled,
            dwell_on: self.dwell_on,
            dwell_ms: self.dwell_ms,
            armed: self.armed,
        }
    }

    /// A tracker before any hold.
    pub fn new() -> (t: Self)
        ensures
            t.view() == (TrackerView {
                hold_ts: 0,
                start: None,
                traveled: false,
                dwell_on: None,
                dwell_ms: 0,
                armed: None,
            }),
    {
        HoldTracker {
            hold_ts: 0,
            start: None,
            traveled: false,
            dwell_on: None,
            dwell_ms: 0,
            armed: None,
        }
    }

    /// The applied arm was refused (the hold was already aborted): roll the
    /// local state back.
    pub fn cancel_arm(&mut self)
        ensures
            final(self).view() == (TrackerView { armed: None, ..old(self).view() }),
    {
        self.armed = None;
    }

    /// The armed chip.
    pub fn armed(&self) -> (a: Option<usize>)
        ensures
            a == self.view().armed,
    {
        self.armed
    }

    /// The first half of a tick: a new hold resets the tracker; an arm a
    /// gesture consumed is a `SyncLost`; otherwise guards 1, 2 (travel from
    /// the start, the first observed position standing in for a missing
    /// start) and the centre decide whether the cursor is hit-tested.
    pub fn begin_tick(&mut self, f: &TickFacts) -> (step: TickStep)
        ensures
            ({
                let t = after_hold_check(old(self).view(), *f);
                if t.armed is Some && f.externally_disarmed {
                    step == TickStep::Done(Verdict::SyncLost) && final(self).view() == (TrackerView {
                        armed: None,
                        ..t
                    })
                } else if !spec_live(*f) || f.cursor is None {
                    step == (TickStep::NoAim { live: spec_live(*f) }) && final(self).view() == t
                } else {
                    let cur = f.cursor.unwrap();
                    let start = if t.start is None {
                        cur
                    } else {
                        t.start.unwrap()
                    };
                    let traveled = t.traveled || far_enough(start, cur);
                    &&& final(self).view() == (TrackerView {
                        start: Some(start),
                        traveled: traveled,
                        ..t
                    })
                    &&& step == (if traveled && f.has_centre {
                        TickStep::Aim { live: true }
                    } else {
                        TickStep::NoAim { live: true }
                    })
                }
            }),
    {
        if f.hold_ts != self.hold_ts {
            *self = HoldTracker {
                hold_ts: f.hold_ts,
                start: f.hold_start_cursor,
                traveled: false,
                dwell_on: None,
                dwell_ms: 0,
                armed: None,
            };
        }
        if self.armed.is_some() && f.externally_disarmed {
            self.armed = None;
            return TickStep::Done(Verdict::SyncLost);
        }
        let live = f.enabled && f.modifier_active && f.hud_visible && !f.blocked;
        if !live {
            return TickStep::NoAim { live };
        }
        let cur = match f.cursor {
            None => return TickStep::NoAim { live },
            Some(c) => c,
        };
        if self.start.is_none() {
            self.start = Some(cur);
        }
        if !self.traveled {
            let s = match self.start {
                Some(s) => s,
                None => cur,
            };
            let dx = cur.0 as i128 - s.0 as i128;
            let dy = cur.1 as i128 - s.1 as i128;
            proof {
                assert(dx * dx <= 0x1_0000_0000_0000_0000i128) by (nonlinear_arith)
                    requires
                        -0x1_0000_0000 <= dx <= 0x1_0000_0000,
                ;
                assert(dy * dy <= 0x1_0000_0000_0000_0000i128) by (nonlinear_arith)
                    requires
                        -0x1_0000_0000 <= dy <= 0x1_0000_0000,
                ;
                assert(0 <= dx * dx) by (nonlinear_arith);
                assert(0 <= dy * dy) by (nonlinear_arith);
            }
            if dx * dx + dy * dy >= (MIN_TRAVEL_PHYS_PX * MIN_TRAVEL_PHYS_PX) as i128 {
                self.traveled = true;
            }
        }
        if self.traveled && f.has_centre {
            TickStep::Aim { live }
        } else {
            TickStep::NoAim { live }
        }
    }

    /// The second half of a tick: dwell bookkeeping on `hit` (the chip the
    /// cursor points at, `None` for nothing), then the transition. A chip
    /// arms only once it is the armed one already or has been pointed at
    /// for [`DWELL_MS`]; a disarm is `DisarmClear` only while the hold is
    /// live.
    pub fn finish_tick(&mut self, live: bool, hit: Option<usize>, tick_ms: u64) -> (v: Verdict)
        ensures
            ({
                let t = after_dwell(old(self).view(), hit, tick_ms);
                let d = desired(t, hit);
                match (t.armed, d) {
                    (None, None) => v == Verdict::NoChange && final(self).view() == t,
                    (Some(a), Some(b)) => if a == b {
                        v == Verdict::NoChange && final(self).view() == t
                    } else {
                        v == Verdict::Shift(b) && final(self).view() == (TrackerView {
                            armed: Some(b),
                            ..t
                        })
                    },
                    (None, Some(b)) => v == Verdict::Arm(b) && final(self).view() == (TrackerView {
                        armed: Some(b),
                        ..t
                    }),
                    (Some(_), None) => v == (if live {
                        Verdict::DisarmClear
                    } else {
                        Verdict::DisarmKeep
                    }) && final(self).view() == (TrackerView { armed: None, ..t }),
                }
            }),
    {
        match hit {
            Some(c) => {
                if self.dwell_on == Some(c) {
                    self.dwell_ms = self.dwell_ms.saturating_add(tick_ms);
                } else {
                    self.dwell_on = Some(c);
                    self.dwell_ms = tick_ms;
                }
            },
            None => {
                self.dwell_on = None;
                self.dwell_ms = 0;
            },
        }
        let desired: Option<usize> = match hit {
            None => None,
            Some(c) => {
                if self.armed == Some(c) || self.dwell_ms >= DWELL_MS {
                    Some(c)
                } else {
                    None
                }
            },
        };
        match (self.armed, desired) {
            (None, None) => Verdict::NoChange,
            (Some(a), Some(d)) => {
                if a == d {
                    Verdict::NoChange
                } else {
                    self.armed = Some(d);
                    Verdict::Shift(d)
                }
            },
            (None, Some(d)) => {
                self.armed = Some(d);
                Verdict::Arm(d)
            },
            (Some(_), None) => {
                self.armed = None;
                if live {
                    Verdict::DisarmClear
                } else {
                    Verdict::DisarmKeep
                }
            },
        }
    }

    /// One tick: the guards, the hit test and the transition. `hit` is the
    /// hit test: asked with the cursor and the chip armed so far, it answers
    /// the chip the cursor points at. It is asked only on a live hold with a
    /// cursor that has travelled far enough from the hold's start and a
    /// published centre; on every other tick nothing is pointed at.
    ///
    /// The six guards: a chip is armed, or the arm shifts to it, only on a
    /// live hold (enabled, held, visible, not blocked) with a cursor that
    /// moved this hold, a published centre, the travel done, the hit test
    /// naming that chip, and the chip pointed at for [`DWELL_MS`].
    pub fn tick<H>(&mut self, f: &TickFacts, hit: &H, tick_ms: u64) -> (v: Verdict) where
        H: Fn((i32, i32), Option<usize>) -> Option<usize>,

        requires
            forall|c: (i32, i32), a: Option<usize>| #[trigger] hit.requires((c, a)),
        ensures
            exists|h: Option<usize>|
                {
                    &&& (spec_begin(old(self).view(), *f).0 is Aim ==> hit.ensures(
                        (f.cursor.unwrap(), spec_begin(old(self).view(), *f).1.armed),
                        h,
                    ))
                    &&& (v, final(self).view()) == spec_tick(old(self).view(), *f, h, tick_ms)
                },
            ({
                let a = after_hold_check(old(self).view(), *f).armed;
                &&& (v == Verdict::SyncLost <==> (a is Some && f.externally_disarmed))
                &&& (v == Verdict::DisarmClear ==> a is Some && spec_live(*f))
                &&& (v == Verdict::DisarmKeep ==> a is Some && !spec_live(*f))
                &&& (v is Shift ==> a is Some)
                &&& (v is Arm ==> a is None)
                &&& (final(self).view().armed is Some <==> (v is Arm || v is Shift || (v
                    == Verdict::NoChange && a is Some)))
            }),
            v matches Verdict::Arm(k) ==> {
                &&& spec_live(*f)
                &&& f.cursor is Some
                &&& f.has_centre
                &&& final(self).view().traveled
                &&& final(self).view().dwell_on == Some(k)
                &&& final(self).view().dwell_ms >= DWELL_MS
                &&& final(self).view().armed == Some(k)
                &&& hit.ensures((f.cursor.unwrap(), None::<usize>), Some(k))
            },
            v matches Verdict::Shift(k) ==> {
                &&& spec_live(*f)
                &&& f.cursor is Some
                &&& f.has_centre
                &&& final(self).view().traveled
                &&& final(self).view().dwell_on == Some(k)
                &&& final(self).view().dwell_ms >= DWELL_MS
                &&& final(self).view().armed == Some(k)
                &&& hit.ensures(
                    (f.cursor.unwrap(), after_hold_check(old(self).view(), *f).armed),
                    Some(k),
                )
            },
    {
        let ghost t0 = self.view();
        let ghost mut h: Option<usize> = None;
        let step = self.begin_tick(f);
        let ghost t1 = self.view();
        assert(spec_begin(t0, *f) == (step, t1));
        let v = match step {
            TickStep::Done(v) => v,
            TickStep::NoAim { live } => self.finish_tick(live, None, tick_ms),
            TickStep::Aim { live } => {
                let got = match f.cursor {
                    Some(c) => hit(c, self.armed),
                    None => None,
                };
                proof {
                    h = got;
                }
                self.finish_tick(live, got, tick_ms)
            },
        };
        assert((v, self.view()) == spec_tick(t0, *f, h, tick_ms));
        v
    }
}

/// What applying a verdict does: `(emit, refused, aborted after, armed
/// index after)`.
pub open spec fn spec_apply(v: Verdict, aborted: bool, armed: i32) -> (
    Option<Option<usize>>,
    bool,
    bool,
    i32,
) {
    match v {
        Verdict::NoChange => (None, false, aborted, armed),
        Verdict::SyncLost => (Some(None), false, aborted, armed),
        Verdict::Arm(i) => if !aborted {
            (Some(Some(i)), false, true, i as i32)
        } else {
            (None, true, aborted, armed)
        },
        Verdict::Shift(i) => (Some(Some(i)), false, aborted, i as i32),
        Verdict::DisarmClear => (Some(None), false, false, -1i32),
        Verdict::DisarmKeep => (Some(None), false, aborted, -1i32),
    }
}

/// Apply a verdict to the Space-abort flag and the armed index. Returns
/// what to emit (`Some(Some(i))` = highlight chip i, `Some(None)` = clear
/// the highlight, `None` = nothing) and whether an arm was refused.
///
/// An arm claims the abort flag first; if the hold was already aborted the
/// arm is refused and nothing is published. A `DisarmClear` retracts the
/// armed index and clears the abort flag; a `DisarmKeep` retracts the index
/// and leaves the flag to whoever owns it.
pub fn apply_to(v: Verdict, aborted: &mut bool, armed_idx: &mut i32) -> (r: (
    Option<Option<usize>>,
    bool,
))
    ensures
        ({
            let s = spec_apply(v, *old(aborted), *old(armed_idx));
            r == (s.0, s.1) && *final(aborted) == s.2 && *final(armed_idx) == s.3
        }),
{
    match v {
        Verdict::NoChange => (None, false),
        Verdict::SyncLost => (Some(None), false),
        Verdict::Arm(i) => {
            if !*aborted {
                *aborted = true;
                *armed_idx = i as i32;
                (Some(Some(i)), false)
            } else {
                (None, true)
            }
        },
        Verdict::Shift(i) => {
            *armed_idx = i as i32;
            (Some(Some(i)), false)
        },
        Verdict::DisarmClear => {
            *armed_idx = -1;
            *aborted = false;
            (Some(None), false)
        },
        Verdict::DisarmKeep => {
            *armed_idx = -1;
            (Some(None), false)
        },
    }
}

impl PointerState {
    /// Apply a verdict to the Space-abort flag and this state's armed
    /// index, exactly as [`apply_to`] does.
    pub fn apply(&mut self, v: Verdict, aborted: &mut bool) -> (r: (Option<Option<usize>>, bool))
        ensures
            ({
                let s = spec_apply(v, *old(aborted), old(self).view().armed_index);
                &&& r == (s.0, s.1)
                &&& *final(aborted) == s.2
                &&& final(self).view() == (PointerView { armed_index: s.3, ..old(self).view() })
            }),
    {
        proof {
            use_type_invariant(&*self);
        }
        let mut armed = self.armed_index;
        let r = apply_to(v, aborted, &mut armed);
        self.armed_index = armed;
        r
    }
}

/// Arming a hold nobody had aborted and then drifting back out leaves the
/// abort flag down and nothing armed: releasing Space types a space, as it
/// did before the arm.
pub proof fn law_arm_then_drift_out_returns_the_space(i: usize, armed: i32)
    ensures
        ({
            let a = spec_apply(Verdict::Arm(i), false, armed);
            let d = spec_apply(Verdict::DisarmClear, a.2, a.3);
            &&& a.2
            &&& !d.2
            &&& d.3 == -1
        }),
{
}

/// A disarm that is not the user drifting out never touches the abort
/// flag, and an arm into an already-aborted hold is refused and publishes
/// nothing.
pub proof fn law_foreign_aborts_stand(i: usize, aborted: bool, armed: i32)
    ensures
        spec_apply(Verdict::DisarmKeep, aborted, armed).2 == aborted,
        spec_apply(Verdict::Arm(i), true, armed) == (None::<Option<usize>>, true, true, armed),
{
}

/// The tracker after the ticks `ins` from `t0`; each tick is its facts, what
/// the hit test answered, and its length in ms.
pub open spec fn trace_state(t0: TrackerView, ins: Seq<(TickFacts, Option<usize>, u64)>) -> TrackerView
    decreases ins.len(),
{
    if ins.len() == 0 {
        t0
    } else {
        spec_tick(trace_state(t0, ins.drop_last()), ins.last().0, ins.last().1, ins.last().2).1
    }
}

/// The verdict of the last of the ticks `ins` from `t0`.
pub open spec fn last_verdict(t0: TrackerView, ins: Seq<(TickFacts, Option<usize>, u64)>) -> Verdict {
    spec_tick(trace_state(t0, ins.drop_last()), ins.last().0, ins.last().1, ins.last().2).0
}

/// How the `i`-th of the ticks `ins` from `t0` began.
pub open spec fn step_of(t0: TrackerView, ins: Seq<(TickFacts, Option<usize>, u64)>, i: int) -> TickStep {
    spec_begin(trace_state(t0, ins.take(i)), ins[i].0).0
}

/// The `i`-th tick keeps a dwell on `k` going: the hit test was asked and
/// named `k`, or the tick resynced a consumed arm and asked nothing.
pub open spec fn dwell_tick(t0: TrackerView, ins: Seq<(TickFacts, Option<usize>, u64)>, i: int, k: usize) -> bool {
    ||| (step_of(t0, ins, i) is Aim && ins[i].1 == Some(k))
    ||| step_of(t0, ins, i) is Done
}

/// The ms of the ticks `j..n` of `ins` on which the hit test was asked.
pub open spec fn aimed_ms(t0: TrackerView, ins: Seq<(TickFacts, Option<usize>, u64)>, j: int, n: int) -> int
    decreases n - j,
{
    if n <= j {
        0
    } else {
        aimed_ms(t0, ins, j, n - 1) + if step_of(t0, ins, n - 1) is Aim {
            ins[n - 1].2 as int
        } else {
            0
        }
    }
}

/// The ticks from the `j`-th to the last all belong to the last tick's hold
/// and keep a dwell on `k` going.
pub open spec fn pointed_run(t0: TrackerView, ins: Seq<(TickFacts, Option<usize>, u64)>, j: int, k: usize) -> bool {
    &&& 0 <= j <= ins.len()
    &&& forall|i: int|
        j <= i < ins.len() ==> ins[i].0.hold_ts == trace_state(t0, ins).hold_ts && #[trigger] dwell_tick(
            t0,
            ins,
            i,
            k,
        )
}

/// The dwell on `k` that `t0` already held in the same hold, counted when
/// the run reaches back to the first tick.
pub open spec fn carried(t0: TrackerView, ins: Seq<(TickFacts, Option<usize>, u64)>, j: int, k: usize) -> int {
    if j == 0 && t0.hold_ts == trace_state(t0, ins).hold_ts && t0.dwell_on == Some(k) {
        t0.dwell_ms as int
    } else {
        0
    }
}

/// A prefix of the ticks began each of its ticks as the whole run did.
proof fn lemma_prefix_steps(t0: TrackerView, ins: Seq<(TickFacts, Option<usize>, u64)>, m: int, j: int)
    requires
        0 <= j <= m <= ins.len(),
    ensures
        forall|i: int| 0 <= i < m ==> #[trigger] step_of(t0, ins.take(m), i) == step_of(t0, ins, i),
        aimed_ms(t0, ins.take(m), j, m) == aimed_ms(t0, ins, j, m),
    decreases m - j,
{
    assert forall|i: int| 0 <= i < m implies #[trigger] step_of(t0, ins.take(m), i) == step_of(t0, ins, i) by {
        assert(ins.take(m).take(i) =~= ins.take(i));
    }
    if j < m {
        lemma_prefix_steps(t0, ins, m - 1, j);
        lemma_aimed_prefix(t0, ins.take(m), ins, j, m - 1);
    }
}

/// `aimed_ms` over ticks two runs began alike agrees.
proof fn lemma_aimed_prefix(
    t0: TrackerView,
    a: Seq<(TickFacts, Option<usize>, u64)>,
    b: Seq<(TickFacts, Option<usize>, u64)>,
    j: int,
    n: int,
)
    requires
        0 <= j,
        n <= a.len(),
        n <= b.len(),
        forall|i: int| j <= i < n ==> a[i] == b[i] && #[trigger] step_of(t0, a, i) == step_of(t0, b, i),
    ensures
        aimed_ms(t0, a, j, n) == aimed_ms(t0, b, j, n),
    decreases n - j,
{
    if j < n {
        lemma_aimed_prefix(t0, a, b, j, n - 1);
    }
}

/// A run that keeps going through one more tick of the same hold is still a
/// run, and that tick's ms count when the hit test was asked on it.
proof fn lemma_extend_run(t0: TrackerView, ins: Seq<(TickFacts, Option<usize>, u64)>, j: int, k: usize)
    requires
        ins.len() > 0,
        pointed_run(t0, ins.drop_last(), j, k),
        trace_state(t0, ins.drop_last()).hold_ts == trace_state(t0, ins).hold_ts,
        ins.last().0.hold_ts == trace_state(t0, ins).hold_ts,
        dwell_tick(t0, ins, ins.len() - 1, k),
    ensures
        pointed_run(t0, ins, j, k),
        aimed_ms(t0, ins, j, ins.len() as int) == aimed_ms(t0, ins.drop_last(), j, ins.len() - 1) + if step_of(
            t0,
            ins,
            ins.len() - 1,
        ) is Aim {
            ins.last().2 as int
        } else {
            0
        },
{
    let n = ins.len() as int;
    let pre = ins.drop_last();
    assert(ins.take(n - 1) =~= pre);
    lemma_prefix_steps(t0, ins, n - 1, j);
    assert forall|i: int| j <= i < n implies #[trigger] dwell_tick(t0, ins, i, k) by {
        if i < n - 1 {
            assert(pre[i] == ins[i]);
            assert(dwell_tick(t0, pre, i, k));
            assert(step_of(t0, ins.take(n - 1), i) == step_of(t0, ins, i));
        }
    }
    assert forall|i: int| j <= i < n implies #[trigger] ins[i].0.hold_ts == trace_state(t0, ins).hold_ts by {
        if i < n - 1 {
            assert(pre[i] == ins[i]);
            assert(dwell_tick(t0, pre, i, k));
        } else {
            assert(ins[i] == ins.last());
        }
    }
    assert(pointed_run(t0, ins, j, k));
}

/// Whatever the tracker dwells on after a run of ticks, it has dwelt there
/// no longer than the ticks of one run in the current hold on which the hit
/// test named it, plus what `t0` already held when that run reaches back
/// to the start.
#[verifier::rlimit(50)]
proof fn lemma_dwell_run(t0: TrackerView, ins: Seq<(TickFacts, Option<usize>, u64)>)
    ensures
        trace_state(t0, ins).dwell_on matches Some(k) ==> exists|j: int|
            #[trigger] pointed_run(t0, ins, j, k) && trace_state(t0, ins).dwell_ms <= aimed_ms(t0, ins, j, ins.len() as int)
                + carried(t0, ins, j, k),
    decreases ins.len(),
{
    let n = ins.len() as int;
    if n == 0 {
        if let Some(k) = t0.dwell_on {
            assert(pointed_run(t0, ins, 0, k));
        }
    } else {
        let pre = ins.drop_last();
        lemma_dwell_run(t0, pre);
        assert(ins.take(n - 1) =~= pre);
        let s = trace_state(t0, pre);
        let (f, h, ms) = ins.last();
        let t1 = spec_begin(s, f).1;
        let st = trace_state(t0, ins);
        assert(step_of(t0, ins, n - 1) == spec_begin(s, f).0);
        if let Some(k) = st.dwell_on {
            assert(st.hold_ts == f.hold_ts);
            let fresh = spec_begin(s, f).0 is Aim && t1.dwell_on != Some(k);
            if fresh {
                assert(st.dwell_ms == ms);
                assert(aimed_ms(t0, ins, n - 1, n - 1) == 0);
                assert(aimed_ms(t0, ins, n - 1, n) == ms);
                assert(pointed_run(t0, ins, n - 1, k));
            } else {
                assert(s.dwell_on == Some(k) && f.hold_ts == s.hold_ts);
                assert(st.dwell_ms <= s.dwell_ms + if spec_begin(s, f).0 is Aim {
                    ms as int
                } else {
                    0
                });
                let j = choose|j: int|
                    #[trigger] pointed_run(t0, pre, j, k) && s.dwell_ms <= aimed_ms(t0, pre, j, n - 1)
                        + carried(t0, pre, j, k);
                lemma_extend_run(t0, ins, j, k);
                assert(carried(t0, pre, j, k) == carried(t0, ins, j, k));
            }
        }
    }
}

/// The `i`-th of the ticks `ins` from `t0` found the hold live and the
/// cursor far enough from the hold's start point.
pub open spec fn travel_tick(t0: TrackerView, ins: Seq<(TickFacts, Option<usize>, u64)>, i: int) -> bool {
    &&& !(step_of(t0, ins, i) is Done)
    &&& spec_live(ins[i].0)
    &&& ins[i].0.cursor matches Some(c) && trace_state(t0, ins.take(i + 1)).start matches Some(st) && far_enough(
        st,
        c,
    )
}

/// The travel the tracker holds after the ticks `ins` was done in the
/// current hold: on one of its ticks, from the start point the hold has
/// kept since; or `t0` had it already and no tick began another hold.
pub open spec fn travel_done(t0: TrackerView, ins: Seq<(TickFacts, Option<usize>, u64)>) -> bool {
    ||| exists|i: int|
        {
            &&& 0 <= i < ins.len()
            &&& #[trigger] travel_tick(t0, ins, i)
            &&& trace_state(t0, ins.take(i + 1)).start == trace_state(t0, ins).start
            &&& forall|j: int| i <= j < ins.len() ==> #[trigger] ins[j].0.hold_ts == trace_state(t0, ins).hold_ts
        }
    ||| {
        &&& t0.traveled
        &&& forall|j: int| 0 <= j < ins.len() ==> #[trigger] ins[j].0.hold_ts == t0.hold_ts
    }
}

/// The tracker has travelled only as [`travel_done`] says.
#[verifier::rlimit(50)]
proof fn lemma_travel_done(t0: TrackerView, ins: Seq<(TickFacts, Option<usize>, u64)>)
    ensures
        trace_state(t0, ins).traveled ==> travel_done(t0, ins),
    decreases ins.len(),
{
    let n = ins.len() as int;
    if n > 0 {
        let pre = ins.drop_last();
        lemma_travel_done(t0, pre);
        assert(ins.take(n - 1) =~= pre);
        lemma_prefix_steps(t0, ins, n - 1, 0);
        let s = trace_state(t0, pre);
        let f = ins.last().0;
        let st = trace_state(t0, ins);
        assert(step_of(t0, ins, n - 1) == spec_begin(s, f).0);
        assert(ins.take(n) =~= ins);
        assert(st.hold_ts == f.hold_ts);
        if st.traveled {
            let fresh = f.hold_ts != s.hold_ts || !s.traveled;
            if fresh {
                assert(travel_tick(t0, ins, n - 1));
                assert(trace_state(t0, ins.take(n)).start == st.start);
            } else {
                assert(s.traveled && f.hold_ts == s.hold_ts);
                assert(st.start == s.start || s.start is None);
                if exists|i: int|
                    {
                        &&& 0 <= i < pre.len()
                        &&& #[trigger] travel_tick(t0, pre, i)
                        &&& trace_state(t0, pre.take(i + 1)).start == trace_state(t0, pre).start
                        &&& forall|j: int| i <= j < pre.len() ==> #[trigger] pre[j].0.hold_ts == trace_state(t0, pre).hold_ts
                    } {
                    let i = choose|i: int|
                        {
                            &&& 0 <= i < pre.len()
                            &&& #[trigger] travel_tick(t0, pre, i)
                            &&& trace_state(t0, pre.take(i + 1)).start == trace_state(t0, pre).start
                            &&& forall|j: int|
                                i <= j < pre.len() ==> #[trigger] pre[j].0.hold_ts == trace_state(t0, pre).hold_ts
                        };
                    assert(pre.take(i + 1) =~= ins.take(i + 1));
                    assert(pre.take(i) =~= ins.take(i));
                    assert(step_of(t0, ins.take(n - 1), i) == step_of(t0, ins, i));
                    assert(pre[i] == ins[i]);
                    assert(travel_tick(t0, ins, i));
                    assert forall|j: int| i <= j < n implies #[trigger] ins[j].0.hold_ts == st.hold_ts by {
                        if j < n - 1 {
                            assert(pre[j] == ins[j]);
                        } else {
                            assert(ins[j] == ins.last());
                        }
                    }
                } else {
                    assert forall|j: int| 0 <= j < n implies #[trigger] ins[j].0.hold_ts == t0.hold_ts by {
                        if j < n - 1 {
                            assert(pre[j] == ins[j]);
                            assert(pre[j].0.hold_ts == t0.hold_ts);
                        } else {
                            assert(ins[j] == ins.last());
                        }
                    }
                }
            }
        }
    }
}

/// A chip is armed, or the arm shifts to it, only at the end of a run of
/// ticks of the current hold on which the hit test named that chip (ticks
/// that resync a consumed arm aside) lasting at least [`DWELL_MS`] in all,
/// counting what the starting tracker had already dwelt on it in that hold;
/// and only on a tick whose hold is live, with a cursor, a published
/// centre and the travel done as [`travel_done`] says: a tick of this hold
/// found the cursor [`MIN_TRAVEL_PHYS_PX`] from the hold's start point, or
/// the starting tracker had travelled in this hold already.
pub proof fn law_arm_needs_a_dwell(t0: TrackerView, ins: Seq<(TickFacts, Option<usize>, u64)>, k: usize)
    requires
        ins.len() > 0,
        last_verdict(t0, ins) == Verdict::Arm(k) || last_verdict(t0, ins) == Verdict::Shift(k),
    ensures
        step_of(t0, ins, ins.len() - 1) is Aim,
        ins.last().1 == Some(k),
        spec_live(ins.last().0),
        ins.last().0.cursor is Some,
        ins.last().0.has_centre,
        trace_state(t0, ins).traveled,
        travel_done(t0, ins),
        trace_state(t0, ins).armed == Some(k),
        exists|j: int|
            0 <= j < ins.len() && #[trigger] pointed_run(t0, ins, j, k) && aimed_ms(t0, ins, j, ins.len() as int)
                + carried(t0, ins, j, k) >= DWELL_MS,
{
    let n = ins.len() as int;
    let pre = ins.drop_last();
    assert(ins.take(n - 1) =~= pre);
    let s = trace_state(t0, pre);
    let f = ins.last().0;
    assert(step_of(t0, ins, n - 1) == spec_begin(s, f).0);
    lemma_dwell_run(t0, ins);
    lemma_travel_done(t0, ins);
    let st = trace_state(t0, ins);
    assert(st.dwell_on == Some(k) && st.dwell_ms >= DWELL_MS);
    let j = choose|j: int|
        #[trigger] pointed_run(t0, ins, j, k) && st.dwell_ms <= aimed_ms(t0, ins, j, n) + carried(t0, ins, j, k);
    if j == n {
        assert(aimed_ms(t0, ins, n, n) == 0);
        assert(carried(t0, ins, j, k) == 0);
        assert(false);
    }
    assert(0 <= j < n && pointed_run(t0, ins, j, k));
}

/// One aim event per poller tick at most, in ms.
pub const AIM_MIN_GAP_MS: u64 = 16;

/// Below this many hundredths of a degree the cursor has not turned.
pub const AIM_MIN_STEP_CENTIDEG: i64 = 25;

/// The throttle in front of the aim event: at most one per
/// [`AIM_MIN_GAP_MS`], and only when the bearing (in hundredths of a degree)
/// has turned by [`AIM_MIN_STEP_CENTIDEG`] or crossed the dead zone.
#[derive(Debug, Clone, Copy)]
pub struct AimThrottle {
    last_emit_ms: Option<u64>,
    last_sent: Option<Option<i32>>,
}

/// The compass distance between two bearings in hundredths of a degree,
/// folded into `[0, 18000]`.
pub open spec fn centideg_dist(a: i32, b: i32) -> int {
    let d = (a - b) % 36000;
    if d > 18000 {
        36000 - d
    } else {
        d
    }
}

/// Has the aim changed enough since `prev` to be worth an event?
pub open spec fn aim_moved(prev: Option<i32>, key: Option<i32>) -> bool {
    match (prev, key) {
        (None, None) => false,
        (Some(a), Some(b)) => centideg_dist(a, b) >= AIM_MIN_STEP_CENTIDEG,
        _ => true,
    }
}

impl AimThrottle {
    /// The throttle's state: when it last emitted and what it last sent.
    pub closed spec fn view(&self) -> (Option<u64>, Option<Option<i32>>) {
        (self.last_emit_ms, self.last_sent)
    }

    /// It has a last emission time exactly when it has a last aim.
    #[verifier::type_invariant]
    spec fn emitted_together(&self) -> bool {
        self.last_emit_ms is Some <==> self.last_sent is Some
    }

    /// A throttle that has sent nothing.
    pub fn new() -> (t: Self)
        ensures
            t.view() == (None::<u64>, None::<Option<i32>>),
            t.view().0 is Some <==> t.view().1 is Some,
    {
        AimThrottle { last_emit_ms: None, last_sent: None }
    }

    /// A new hold: the first sample of it always goes out.
    pub fn reset(&mut self)
        ensures
            final(self).view() == (None::<u64>, None::<Option<i32>>),
            final(self).view().0 is Some <==> final(self).view().1 is Some,
    {
        *self = AimThrottle { last_emit_ms: None, last_sent: None };
    }

    /// Should the aim `key` (a bearing in hundredths of a degree, `None` for
    /// no direction) go out at `now_ms`? The first sample always does;
    /// later ones only when the aim moved and the gap has passed. Sending
    /// records the time and the aim.
    pub fn offer_key(&mut self, now_ms: u64, key: Option<i32>) -> (send: bool)
        ensures
            send == throttle_sends(old(self).view(), now_ms, key),
            send ==> final(self).view() == (Some(now_ms), Some(key)),
            !send ==> final(self).view() == old(self).view(),
            old(self).view().0 is Some <==> old(self).view().1 is Some,
            final(self).view().0 is Some <==> final(self).view().1 is Some,
    {
        proof {
            use_type_invariant(&*self);
        }
        if let Some(prev) = self.last_sent {
            let moved = match (prev, key) {
                (None, None) => false,
                (Some(a), Some(b)) => {
                    let diff = a as i64 - b as i64;
                    let d = ((diff % 36000) + 36000) % 36000;
                    let d = if d > 18000 {
                        36000 - d
                    } else {
                        d
                    };
                    d >= AIM_MIN_STEP_CENTIDEG
                },
                _ => true,
            };
            if !moved {
                return false;
            }
            if let Some(t) = self.last_emit_ms {
                let gap = if now_ms >= t {
                    now_ms - t
                } else {
                    0
                };
                if gap < AIM_MIN_GAP_MS {
                    return false;
                }
            }
        }
        *self = AimThrottle { last_emit_ms: Some(now_ms), last_sent: Some(key) };
        true
    }
}

impl Default for AimThrottle {
    /// A throttle that has sent nothing.
    fn default() -> (t: Self)
        ensures
            t.view() == (None::<u64>, None::<Option<i32>>),
    {
        Self::new()
    }
}

/// What the keyboard hook knows at a poll, read off its own latches.
#[derive(Clone, Copy, Debug)]
pub struct HookReadings {
    /// Space (or the middle button) is physically held.
    pub held: bool,
    /// Which hold this poll belongs to.
    pub hold_ts: u64,
    /// The ring is on screen and the overlay is usable.
    pub hud_visible: bool,
    /// A stale, own-window or middle hold was reaped since the last poll.
    pub hold_reaped: bool,
}

/// What one poll produced for the page.
#[derive(Clone, Copy, Debug, PartialEq, Eq)]
pub struct WatchOutcome {
    /// The armed chip changed: `Some(Some(i))` armed, `Some(None)` cleared.
    pub pointer: Option<Option<usize>>,
    /// The aim that goes out, in hundredths of a degree (`Some(None)`: no
    /// direction).
    pub aim: Option<Option<i32>>,
}

/// The poller's state across polls.
pub struct Watcher {
    tracker: HoldTracker,
    seen_hold: u64,
    hold_start: Option<(i32, i32)>,
    aim: AimThrottle,
}

/// The poller's state, as the contracts speak of it.
pub struct WatcherView {
    pub tracker: TrackerView,
    pub seen_hold: u64,
    pub hold_start: Option<(i32, i32)>,
    pub aim: (Option<u64>, Option<Option<i32>>),
}

/// The facts a poll hands the tick, read from the snapshot and the hook.
pub open spec fn poll_facts(s: PointerView, r: HookReadings, start: Option<(i32, i32)>) -> TickFacts {
    TickFacts {
        enabled: s.activation_enabled || s.ring_active,
        modifier_active: r.held,
        hud_visible: r.hud_visible,
        blocked: s.hold_blocked,
        hold_ts: r.hold_ts,
        hold_start_cursor: start,
        cursor: if s.cursor_stamp >= r.hold_ts {
            Some(s.cursor)
        } else {
            None
        },
        externally_disarmed: s.armed_index < 0,
        has_centre: s.hud_center_ok,
    }
}

/// The icon ring is the live snapshot and has a tile with a code.
pub open spec fn ring_live(s: PointerView) -> bool {
    s.ring_active && s.ring_count > 0 && s.chip_key_count > 0
}

/// The tracker after a reaped hold cancels its arm.
pub open spec fn reaped(t: TrackerView, r: HookReadings) -> TrackerView {
    if r.hold_reaped {
        TrackerView { armed: None, ..t }
    } else {
        t
    }
}

/// A poll with activation off and nothing armed does nothing more.
pub open spec fn poll_idle(w: WatcherView, s: PointerView, r: HookReadings) -> bool {
    !(s.activation_enabled || s.ring_active) && reaped(w.tracker, r).armed is None
}

/// The hold's start point: latched anew for a hold not seen before.
pub open spec fn poll_start(w: WatcherView, r: HookReadings, cursor_now: Option<(i32, i32)>) -> Option<
    (i32, i32),
> {
    if r.hold_ts != w.seen_hold {
        cursor_now
    } else {
        w.hold_start
    }
}

/// The snapshot the tick reads: a hold not seen before has no chip armed.
pub open spec fn poll_snapshot(w: WatcherView, s: PointerView, r: HookReadings) -> PointerView {
    if r.hold_ts != w.seen_hold {
        PointerView { armed_index: -1i32, ..s }
    } else {
        s
    }
}

/// The aim throttle before the offer: reset for a hold not seen before.
pub open spec fn poll_aim_start(w: WatcherView, r: HookReadings) -> (Option<u64>, Option<Option<i32>>) {
    if r.hold_ts != w.seen_hold {
        (None::<u64>, None::<Option<i32>>)
    } else {
        w.aim
    }
}

/// The published centre of a snapshot.
pub open spec fn snap_centre(s: PointerView) -> Option<(i32, i32)> {
    if s.hud_center_ok {
        Some(s.hud_center)
    } else {
        None
    }
}

/// The cursor of a snapshot, when it moved during the hold `r` reads.
pub open spec fn snap_cursor(s: PointerView, r: HookReadings) -> Option<(i32, i32)> {
    if s.cursor_stamp >= r.hold_ts {
        Some(s.cursor)
    } else {
        None
    }
}

/// `key` is the aim sampled from `centre` and `cursor`: what `aim_key`
/// answered when both are known, no direction otherwise.
pub open spec fn aim_sample<K: Fn((i32, i32), (i32, i32)) -> Option<i32>>(
    centre: Option<(i32, i32)>,
    cursor: Option<(i32, i32)>,
    key: Option<i32>,
    aim_key: K,
) -> bool {
    match (centre, cursor) {
        (Some(c), Some(p)) => aim_key.ensures((c, p), key),
        _ => key is None,
    }
}

/// The throttle in state `t` lets `key` go out at `now_ms`: the first
/// sample always; later ones when the aim moved and the gap has passed.
pub open spec fn throttle_sends(t: (Option<u64>, Option<Option<i32>>), now_ms: u64, key: Option<i32>) -> bool {
    match t.1 {
        None => true,
        Some(prev) => aim_moved(prev, key) && match t.0 {
            None => true,
            Some(at) => now_ms - at >= AIM_MIN_GAP_MS,
        },
    }
}

/// The first aim offered after `new` or `reset` always goes out; after the
/// throttle sent `sent` at `at`, an aim goes out only when it moved from
/// `sent` and [`AIM_MIN_GAP_MS`] have passed since `at`, so no two aims that
/// go out are closer than the gap.
pub proof fn law_throttle_spacing(at: u64, sent: Option<i32>, now_ms: u64, key: Option<i32>)
    ensures
        throttle_sends((None::<u64>, None::<Option<i32>>), now_ms, key),
        throttle_sends((Some(at), Some(sent)), now_ms, key) <==> (aim_moved(sent, key) && now_ms - at
            >= AIM_MIN_GAP_MS),
{
}

/// What goes out: `key`, while the icon ring is live and the throttle
/// lets it through.
pub open spec fn aim_offered(t: (Option<u64>, Option<Option<i32>>), live: bool, now_ms: u64, key: Option<i32>) -> Option<Option<i32>> {
    if live && throttle_sends(t, now_ms, key) {
        Some(key)
    } else {
        None
    }
}

/// The throttle after the offer: it records a sent aim, and is otherwise
/// unchanged.
pub open spec fn aim_after(t: (Option<u64>, Option<Option<i32>>), live: bool, now_ms: u64, key: Option<i32>) -> (Option<u64>, Option<Option<i32>>) {
    if live && throttle_sends(t, now_ms, key) {
        (Some(now_ms), Some(key))
    } else {
        t
    }
}

/// Samples the aim and offers it to the throttle while the icon ring is
/// live.
fn offer_aim<K>(
    aim: &mut AimThrottle,
    live: bool,
    centre: Option<(i32, i32)>,
    cursor: Option<(i32, i32)>,
    aim_key: &K,
    now_ms: u64,
) -> (o: Option<Option<i32>>) where K: Fn((i32, i32), (i32, i32)) -> Option<i32>,

    requires
        forall|c: (i32, i32), p: (i32, i32)| #[trigger] aim_key.requires((c, p)),
    ensures
        exists|key: Option<i32>|
            #[trigger] aim_sample(centre, cursor, key, *aim_key) && o == aim_offered(
                old(aim).view(),
                live,
                now_ms,
                key,
            ) && final(aim).view() == aim_after(old(aim).view(), live, now_ms, key),
{
    let key = match (centre, cursor) {
        (Some(c), Some(p)) => aim_key(c, p),
        _ => None,
    };
    assert(aim_sample(centre, cursor, key, *aim_key));
    if live {
        if aim.offer_key(now_ms, key) {
            Some(key)
        } else {
            None
        }
    } else {
        None
    }
}

/// How a poll settles, given what the hit test answered (`h`): the tick's
/// verdict is applied to the snapshot `s1` and the abort flag `ab0`, giving
/// what is emitted, the flag and the snapshot after; a refused arm leaves
/// the tracker unarmed.
pub open spec fn poll_settles<H: Fn((i32, i32), Option<usize>) -> Option<usize>>(
    t0: TrackerView,
    f: TickFacts,
    h: Option<usize>,
    tick_ms: u64,
    ab0: bool,
    s1: PointerView,
    pointer: Option<Option<usize>>,
    ab1: bool,
    s2: PointerView,
    t2: TrackerView,
    hit: H,
) -> bool {
    let r = spec_tick(t0, f, h, tick_ms);
    let ap = spec_apply(r.0, ab0, s1.armed_index);
    &&& (spec_begin(t0, f).0 is Aim ==> hit.ensures((f.cursor.unwrap(), spec_begin(t0, f).1.armed), h))
    &&& pointer == ap.0
    &&& ab1 == ap.2
    &&& s2 == (PointerView { armed_index: ap.3, ..s1 })
    &&& t2 == (if ap.1 {
        TrackerView { armed: None, ..r.1 }
    } else {
        r.1
    })
}

impl Watcher {
    /// The poller's state.
    pub closed spec fn view(&self) -> WatcherView {
        WatcherView {
            tracker: self.tracker.view(),
            seen_hold: self.seen_hold,
            hold_start: self.hold_start,
            aim: self.aim.view(),
        }
    }

    /// A poller that has seen no hold.
    pub fn new() -> (w: Self)
        ensures
            w.view() == (WatcherView {
                tracker: TrackerView {
                    hold_ts: 0,
                    start: None,
                    traveled: false,
                    dwell_on: None,
                    dwell_ms: 0,
                    armed: None,
                },
                seen_hold: u64::MAX,
                hold_start: None,
                aim: (None::<u64>, None::<Option<i32>>),
            }),
    {
        Watcher {
            tracker: HoldTracker::new(),
            seen_hold: u64::MAX,
            hold_start: None,
            aim: AimThrottle::new(),
        }
    }

    /// One poll. A reaped hold cancels the arm first. With activation off
    /// and nothing armed, the poll does nothing more. A hold not seen before
    /// resets the aim throttle, latches `cursor_now` as the hold's start and
    /// forgets the armed chip. Then the tick runs on the snapshot (`hit` is
    /// its hit test), the aim `aim_key` computes from the centre and the
    /// cursor goes through the throttle while the icon ring is live, and the
    /// verdict is applied to the snapshot and the Space-abort flag; a
    /// refused arm is cancelled.
    #[verifier::rlimit(100)]
    pub fn step<H, K>(
        &mut self,
        state: &mut PointerState,
        aborted: &mut bool,
        r: HookReadings,
        cursor_now: Option<(i32, i32)>,
        hit: &H,
        aim_key: &K,
        tick_ms: u64,
        now_ms: u64,
    ) -> (o: WatchOutcome) where
        H: Fn((i32, i32), Option<usize>) -> Option<usize>,
        K: Fn((i32, i32), (i32, i32)) -> Option<i32>,

        requires
            forall|c: (i32, i32), a: Option<usize>| #[trigger] hit.requires((c, a)),
            forall|c: (i32, i32), p: (i32, i32)| #[trigger] aim_key.requires((c, p)),
        ensures
            poll_idle(old(self).view(), old(state).view(), r) ==> o == (WatchOutcome {
                pointer: None,
                aim: None,
            }),
            poll_idle(old(self).view(), old(state).view(), r) ==> final(state).view() == old(state).view(),
            poll_idle(old(self).view(), old(state).view(), r) ==> *final(aborted) == *old(aborted),
            poll_idle(old(self).view(), old(state).view(), r) ==> final(self).view() == (WatcherView {
                tracker: reaped(old(self).view().tracker, r),
                ..old(self).view()
            }),
            !poll_idle(old(self).view(), old(state).view(), r) ==> final(self).view().seen_hold
                == r.hold_ts,
            !poll_idle(old(self).view(), old(state).view(), r) ==> final(self).view().hold_start
                == poll_start(old(self).view(), r, cursor_now),
            !poll_idle(old(self).view(), old(state).view(), r) ==> exists|h: Option<usize>|
                #[trigger] poll_settles(
                    reaped(old(self).view().tracker, r),
                    poll_facts(
                        poll_snapshot(old(self).view(), old(state).view(), r),
                        r,
                        poll_start(old(self).view(), r, cursor_now),
                    ),
                    h,
                    tick_ms,
                    *old(aborted),
                    poll_snapshot(old(self).view(), old(state).view(), r),
                    o.pointer,
                    *final(aborted),
                    final(state).view(),
                    final(self).view().tracker,
                    *hit,
                ),
            !poll_idle(old(self).view(), old(state).view(), r) ==> exists|key: Option<i32>|
                #[trigger] aim_sample(
                    snap_centre(poll_snapshot(old(self).view(), old(state).view(), r)),
                    snap_cursor(poll_snapshot(old(self).view(), old(state).view(), r), r),
                    key,
                    *aim_key,
                ) && o.aim == aim_offered(
                    poll_aim_start(old(self).view(), r),
                    ring_live(poll_snapshot(old(self).view(), old(state).view(), r)),
                    now_ms,
                    key,
                ) && final(self).view().aim == aim_after(
                    poll_aim_start(old(self).view(), r),
                    ring_live(poll_snapshot(old(self).view(), old(state).view(), r)),
                    now_ms,
                    key,
                ),
    {
        let ghost w0 = self.view();
        let ghost s0 = state.view();
        if r.hold_reaped {
            self.tracker.cancel_arm();
        }
        let on = state.activation_on();
        if !on && self.tracker.armed().is_none() {
            return WatchOutcome { pointer: None, aim: None };
        }
        if r.hold_ts != self.seen_hold {
            self.seen_hold = r.hold_ts;
            self.aim.reset();
            self.hold_start = cursor_now;
            state.forget_armed();
        }
        let cursor = state.cursor_for_hold(r.hold_ts);
        let centre = state.centre();
        let facts = TickFacts {
            enabled: on,
            modifier_active: r.held,
            hud_visible: r.hud_visible,
            blocked: state.hold_blocked(),
            hold_ts: r.hold_ts,
            hold_start_cursor: self.hold_start,
            cursor,
            externally_disarmed: state.armed_index() < 0,
            has_centre: centre.is_some(),
        };
        let ghost t0 = self.tracker.view();
        let v = self.tracker.tick(&facts, hit, tick_ms);
        let ghost t1 = self.tracker.view();
        let ghost h = choose|h: Option<usize>|
            {
                &&& (spec_begin(t0, facts).0 is Aim ==> hit.ensures(
                    (facts.cursor.unwrap(), spec_begin(t0, facts).1.armed),
                    h,
                ))
                &&& (v, t1) == spec_tick(t0, facts, h, tick_ms)
            };
        let live_ring = state.ring_snapshot().len() > 0;
        let aim = offer_aim(&mut self.aim, live_ring, centre, cursor, aim_key, now_ms);
        let ghost s1 = state.view();
        let ghost ab0 = *aborted;
        let (pointer, refused) = state.apply(v, aborted);
        if refused {
            self.tracker.cancel_arm();
        }
        proof {
            assert(facts == poll_facts(s1, r, self.hold_start));
            assert(s1 == poll_snapshot(w0, s0, r));
            assert(self.hold_start == poll_start(w0, r, cursor_now));
            assert(poll_settles(
                t0,
                facts,
                h,
                tick_ms,
                ab0,
                s1,
                pointer,
                *aborted,
                state.view(),
                self.tracker.view(),
                *hit,
            ));
        }
        WatchOutcome { pointer, aim }
    }
}

} // verus!
