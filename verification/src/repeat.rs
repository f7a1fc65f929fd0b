//! Auto-repeat detection for the keyboard hook.
//!
//! The low-level keyboard hook has no "previous key state" flag, so the hook
//! keeps its own: a 256-bit "down already seen since the last up" bitmap,
//! four 64-bit words, set on the first down and cleared on the up. A down
//! whose bit is already set is an auto-repeat.
//!
//! A virtual-key code above 255 cannot occur, but the slot arithmetic masks
//! it to its low byte rather than indexing out of bounds.
use vstd::prelude::*;

verus! {

/// The key a virtual-key code lands on: its low byte.
pub open spec fn key_of(vk: u16) -> int {
    (vk % 256) as int
}

/// Bit `b` of the word `w`.
pub open spec fn bit_set(w: u64, b: int) -> bool {
    (w >> (b as u64)) & 1u64 == 1u64
}

/// How many entries of `s` are `true`.
pub open spec fn count_down(s: Seq<bool>) -> nat
    decreases s.len(),
{
    if s.len() == 0 {
        0
    } else {
        count_down(s.drop_last()) + (if s.last() {
            1nat
        } else {
            0nat
        })
    }
}

/// A 256-bit set of virtual keys, indexed by the key's low byte.
pub struct KeyBitmap {
    words: [u64; 4],
}

proof fn lemma_set_bit(w: u64, j: u64, b: u64)
    by (bit_vector)
    requires
        j < 64,
        b < 64,
    ensures
        ((w | (1u64 << j)) >> b) & 1u64 == (if b == j {
            1u64
        } else {
            (w >> b) & 1u64
        }),
        (w & (1u64 << j) != 0u64) == ((w >> j) & 1u64 == 1u64),
{
}

proof fn lemma_clear_bit(w: u64, j: u64, b: u64)
    by (bit_vector)
    requires
        j < 64,
        b < 64,
    ensures
        ((w & !(1u64 << j)) >> b) & 1u64 == (if b == j {
            0u64
        } else {
            (w >> b) & 1u64
        }),
        (w & (1u64 << j) != 0u64) == ((w >> j) & 1u64 == 1u64),
{
}

proof fn lemma_zero_word(b: u64)
    by (bit_vector)
    requires
        b < 64,
    ensures
        (0u64 >> b) & 1u64 == 0u64,
{
}

proof fn lemma_mask(vk: u16)
    by (bit_vector)
    ensures
        (vk & 0xffu16) == vk % 256,
{
}

/// A sequence of nothing but `false` counts zero.
pub proof fn lemma_all_up_counts_zero(s: Seq<bool>)
    requires
        forall|k: int| 0 <= k < s.len() ==> !s[k],
    ensures
        count_down(s) == 0,
    decreases s.len(),
{
    if s.len() > 0 {
        lemma_all_up_counts_zero(s.drop_last());
    }
}

/// Setting an entry that was `false` adds exactly one; clearing one that was
/// `true` removes exactly one.
pub proof fn lemma_count_update(s: Seq<bool>, k: int, v: bool)
    requires
        0 <= k < s.len(),
    ensures
        count_down(s.update(k, v)) + (if s[k] {
            1int
        } else {
            0int
        }) == count_down(s) + (if v {
            1int
        } else {
            0int
        }),
    decreases s.len(),
{
    if k == s.len() - 1 {
        assert(s.update(k, v).drop_last() =~= s.drop_last());
    } else {
        lemma_count_update(s.drop_last(), k, v);
        assert(s.update(k, v).drop_last() =~= s.drop_last().update(k, v));
    }
}

impl KeyBitmap {
    /// Is bit `b` of word `w` set, where `k = 64 * w + b`?
    pub closed spec fn down_at(self, k: int) -> bool {
        bit_set(self.words@[k / 64], k % 64)
    }

    /// The 256 keys, `true` where the key is recorded down.
    pub closed spec fn view(self) -> Seq<bool> {
        Seq::new(256, |k: int| self.down_at(k))
    }

    /// The view always has one entry per key.
    pub proof fn lemma_view_len(self)
        ensures
            self.view().len() == 256,
    {
    }

    /// An empty bitmap: every key up.
    pub fn new() -> (m: Self)
        ensures
            m.view() == Seq::new(256, |k: int| false),
    {
        let m = KeyBitmap { words: [0u64; 4] };
        assert forall|k: int| 0 <= k < 256 implies !m.down_at(k) by {
            lemma_zero_word((k % 64) as u64);
        }
        assert(m.view() =~= Seq::new(256, |k: int| false));
        m
    }

    /// The word and the bit mask of a key: `(vk & 0xFF) / 64` and
    /// `1 << ((vk & 0xFF) % 64)`.
    fn slot(vk: u16) -> (r: (usize, u64))
        ensures
            r.0 == key_of(vk) / 64,
            r.0 < 4,
            r.1 == 1u64 << ((key_of(vk) % 64) as u64),
    {
        proof {
            lemma_mask(vk);
        }
        let k = (vk & 0xFF) as usize;
        (k / 64, 1u64 << ((k % 64) as u64))
    }

    /// Note a key-down. Returns `true` when the key was ALREADY down: this
    /// event is an auto-repeat.
    pub fn mark_down(&mut self, vk: u16) -> (repeat: bool)
        ensures
            repeat == old(self).view()[key_of(vk)],
            final(self).view() == old(self).view().update(key_of(vk), true),
    {
        let (w, bit) = Self::slot(vk);
        let ghost j = (key_of(vk) % 64) as u64;
        let ghost before = *self;
        let old_word = self.words[w];
        self.words[w] = old_word | bit;
        proof {
            lemma_set_bit(old_word, j, j);
            assert forall|k: int| 0 <= k < 256 implies self.down_at(k) == (if k == key_of(vk) {
                true
            } else {
                before.down_at(k)
            }) by {
                lemma_set_bit(old_word, j, (k % 64) as u64);
            }
            assert(self.view() =~= before.view().update(key_of(vk), true));
        }
        old_word & bit != 0
    }

    /// Note a key-up: the next down of this key is a first press again.
    pub fn mark_up(&mut self, vk: u16)
        ensures
            final(self).view() == old(self).view().update(key_of(vk), false),
    {
        let (w, bit) = Self::slot(vk);
        let ghost j = (key_of(vk) % 64) as u64;
        let ghost before = *self;
        let old_word = self.words[w];
        self.words[w] = old_word & !bit;
        proof {
            assert forall|k: int| 0 <= k < 256 implies self.down_at(k) == (if k == key_of(vk) {
                false
            } else {
                before.down_at(k)
            }) by {
                lemma_clear_bit(old_word, j, (k % 64) as u64);
            }
            assert(self.view() =~= before.view().update(key_of(vk), false));
        }
    }

    /// Is the key currently recorded as down?
    pub fn is_down(&self, vk: u16) -> (down: bool)
        ensures
            down == self.view()[key_of(vk)],
    {
        let (w, bit) = Self::slot(vk);
        proof {
            lemma_set_bit(self.words@[w as int], (key_of(vk) % 64) as u64, 0);
        }
        self.words[w] & bit != 0
    }

    /// Forget everything (hook (re)install).
    pub fn reset(&mut self)
        ensures
            final(self).view() == Seq::new(256, |k: int| false),
    {
        let mut i: usize = 0;
        while i < 4
            invariant
                i <= 4,
                forall|j: int| 0 <= j < i ==> self.words@[j] == 0u64,
            decreases 4 - i,
        {
            self.words[i] = 0;
            i += 1;
        }
        assert forall|k: int| 0 <= k < 256 implies !self.down_at(k) by {
            lemma_zero_word((k % 64) as u64);
        }
        assert(self.view() =~= Seq::new(256, |k: int| false));
    }

    /// How many keys are recorded down (diagnostics): the size of the set
    /// of keys that [`KeyBitmap::is_down`] reports down, at most 256.
    pub fn count(&self) -> (n: u32)
        ensures
            n == count_down(self.view()),
            n == down_keys(self.view()).len(),
            n <= 256,
    {
        let mut n: u32 = 0;
        let mut k: usize = 0;
        while k < 256
            invariant
                k <= 256,
                n == count_down(self.view().take(k as int)),
                n <= k,
            decreases 256 - k,
        {
            let w = self.words[k / 64];
            let b = (k % 64) as u64;
            assert(self.view().take(k + 1).drop_last() =~= self.view().take(k as int));
            if (w >> b) & 1 == 1 {
                n += 1;
            }
            k += 1;
        }
        assert(self.view().take(256) =~= self.view());
        proof {
            lemma_count_is_card(self.view());
        }
        n
    }
}

/// A key-down marked on a fresh or reset bitmap is a first press; a second
/// down of the same key before its up is a repeat; after the up it is a
/// first press again. Keys never disturb one another.
pub proof fn law_repeat_until_up(m: KeyBitmap, vk: u16, other: u16)
    requires
        key_of(vk) != key_of(other),
    ensures
        m.view().update(key_of(vk), true)[key_of(vk)],
        m.view().update(key_of(vk), true).update(key_of(vk), false)[key_of(vk)] == false,
        m.view().update(key_of(vk), true)[key_of(other)] == m.view()[key_of(other)],
        m.view().update(key_of(vk), false)[key_of(other)] == m.view()[key_of(other)],
{
}

/// A reset bitmap counts zero keys down.
pub proof fn law_reset_counts_zero()
    ensures
        count_down(Seq::new(256, |k: int| false)) == 0,
{
    lemma_all_up_counts_zero(Seq::new(256, |k: int| false));
}

/// The keys `s` records down, as a set of key numbers.
pub open spec fn down_keys(s: Seq<bool>) -> Set<int> {
    Set::new(|k: int| 0 <= k < s.len() && s[k])
}

/// `count_down` is the size of the set of keys down, and at most the
/// number of keys.
pub proof fn lemma_count_is_card(s: Seq<bool>)
    ensures
        down_keys(s).finite(),
        count_down(s) == down_keys(s).len(),
        count_down(s) <= s.len(),
    decreases s.len(),
{
    if s.len() == 0 {
        assert(down_keys(s) =~= Set::<int>::empty());
    } else {
        let t = s.drop_last();
        let n = s.len() - 1;
        lemma_count_is_card(t);
        if s.last() {
            assert(down_keys(s) =~= down_keys(t).insert(n));
            assert(!down_keys(t).contains(n));
        } else {
            assert(down_keys(s) =~= down_keys(t));
        }
    }
}

/// Every bitmap has exactly 256 keys, and `count` is the number of keys
/// recorded down: the size of the set of those keys, at most 256.
pub proof fn law_count_is_keys_down(m: KeyBitmap)
    ensures
        m.view().len() == 256,
        down_keys(m.view()).finite(),
        count_down(m.view()) == down_keys(m.view()).len(),
        down_keys(m.view()).len() <= 256,
{
    m.lemma_view_len();
    lemma_count_is_card(m.view());
}

/// A down of a key not yet down adds exactly that key to the keys down and
/// one to the count; a repeat changes neither. An up removes exactly that
/// key and, when it was down, one from the count. Other keys, in the same
/// 64-bit word or another, are untouched.
pub proof fn law_down_and_up_move_one_key(m: KeyBitmap, vk: u16)
    ensures
        ({
            let s = m.view();
            let k = key_of(vk);
            &&& down_keys(s.update(k, true)) == down_keys(s).insert(k)
            &&& down_keys(s.update(k, false)) == down_keys(s).remove(k)
            &&& count_down(s.update(k, true)) == count_down(s) + (if s[k] {
                0int
            } else {
                1int
            })
            &&& count_down(s.update(k, false)) == count_down(s) - (if s[k] {
                1int
            } else {
                0int
            })
        }),
{
    let s = m.view();
    let k = key_of(vk);
    m.lemma_view_len();
    assert(down_keys(s.update(k, true)) =~= down_keys(s).insert(k));
    assert(down_keys(s.update(k, false)) =~= down_keys(s).remove(k));
    lemma_count_update(s, k, true);
    lemma_count_update(s, k, false);
}

impl Default for KeyBitmap {
    /// Every key up, as `new` makes it.
    fn default() -> (m: Self)
        ensures
            m.view() == Seq::new(256, |k: int| false),
    {
        Self::new()
    }
}

} // verus!
