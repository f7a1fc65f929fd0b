//! The parts of the user's configuration the ring reads: profiles, their key
//! bindings, and the stored favourites.
use vstd::prelude::*;

verus! {

/// One key's binding.
#[derive(Debug, Clone, Default)]
pub struct KeyBinding {
    /// The user's own label.
    pub label: Option<String>,
    /// The app (an exe, a `.lnk`, a Store AUMID or a folder) it launches.
    pub app: Option<String>,
    /// The web address it opens.
    pub web_url: Option<String>,
    /// The link's own icon, fetched once when it was bound.
    pub site_icon: Option<String>,
    /// The picker's icon for the app, as base64 PNG.
    pub icon_override: Option<String>,
    /// The action it fires instead of launching something.
    pub action: Option<String>,
    /// The browser profile the app is launched with.
    pub browser_profile_name: Option<String>,
}

impl KeyBinding {
    /// A binding is mapped when it has something to fire: an app, a web
    /// address or an action.
    pub open spec fn spec_is_mapped(self) -> bool {
        self.app is Some || self.web_url is Some || self.action is Some
    }

    /// Does this binding fire anything?
    pub fn is_mapped(&self) -> (b: bool)
        ensures
            b == self.spec_is_mapped(),
    {
        self.app.is_some() || self.web_url.is_some() || self.action.is_some()
    }
}

/// A named set of key bindings.
#[derive(Debug, Clone)]
pub struct Profile {
    pub name: String,
    /// Key name (a letter, or a special's name) to its binding.
    pub bindings: Vec<(String, KeyBinding)>,
}

/// No two bindings of `bs` share a key.
pub open spec fn keys_unique(bs: Seq<(String, KeyBinding)>) -> bool {
    forall|i: int, j: int|
        0 <= i < j < bs.len() ==> (#[trigger] bs[i]).0@ != (#[trigger] bs[j]).0@
}

/// The position of the binding keyed `key`, if any.
pub open spec fn key_position(bs: Seq<(String, KeyBinding)>, key: Seq<char>) -> Option<int> {
    bs.map_values(|e: (String, KeyBinding)| e.0@).index_of_first(key)
}

impl Profile {
    /// The profile's invariant: each key is bound at most once, as in a
    /// map from key to binding.
    pub open spec fn wf(self) -> bool {
        keys_unique(self.bindings@)
    }

    /// A profile with no bindings.
    pub fn new(name: String) -> (p: Self)
        ensures
            p.name@ == name@,
            p.bindings@.len() == 0,
            p.wf(),
    {
        Profile { name, bindings: Vec::new() }
    }

    /// Binds `key`: replaces the binding already keyed so, in its place, or
    /// appends a new one. Each key stays bound at most once.
    pub fn bind(&mut self, key: String, binding: KeyBinding)
        requires
            old(self).wf(),
        ensures
            final(self).wf(),
            final(self).name == old(self).name,
            match key_position(old(self).bindings@, key@) {
                Some(i) => final(self).bindings@ == old(self).bindings@.update(i, (key, binding)),
                None => final(self).bindings@ == old(self).bindings@.push((key, binding)),
            },
    {
        let ghost keys = self.bindings@.map_values(|e: (String, KeyBinding)| e.0@);
        let mut i: usize = 0;
        while i < self.bindings.len()
            invariant
                i <= self.bindings@.len(),
                self.bindings@ == old(self).bindings@,
                self.name == old(self).name,
                keys_unique(old(self).bindings@),
                keys == self.bindings@.map_values(|e: (String, KeyBinding)| e.0@),
                forall|j: int| 0 <= j < i ==> keys[j] != key@,
            decreases self.bindings.len() - i,
        {
            if crate::text::str_eq(self.bindings[i].0.as_str(), key.as_str()) {
                proof {
                    keys.index_of_first_ensures(key@);
                    assert(keys[i as int] == key@);
                    let k = keys.index_of_first(key@).unwrap();
                    assert(!(k < i));
                    assert(!(k > i));
                }
                let ghost before = self.bindings@;
                self.bindings.set(i, (key, binding));
                proof {
                    assert forall|a: int, b: int|
                        0 <= a < b < self.bindings@.len() implies (#[trigger] self.bindings@[a]).0@
                        != (#[trigger] self.bindings@[b]).0@ by {
                        if a == i {
                            assert(before[b].0@ == keys[b]);
                        } else if b == i {
                            assert(before[a].0@ == keys[a]);
                        } else {
                            assert(self.bindings@[a] == before[a]);
                            assert(self.bindings@[b] == before[b]);
                        }
                    }
                }
                return;
            }
            i += 1;
        }
        proof {
            keys.index_of_first_ensures(key@);
        }
        let ghost before = self.bindings@;
        self.bindings.push((key, binding));
        proof {
            assert forall|a: int, b: int|
                0 <= a < b < self.bindings@.len() implies (#[trigger] self.bindings@[a]).0@ != (
                #[trigger] self.bindings@[b]).0@ by {
                if b == before.len() {
                    assert(keys[a] != key@);
                    assert(self.bindings@[a] == before[a]);
                    assert(before[a].0@ == keys[a]);
                } else {
                    assert(self.bindings@[a] == before[a]);
                    assert(self.bindings@[b] == before[b]);
                }
            }
        }
    }
}

/// The configuration the ring reads.
#[derive(Debug, Clone)]
pub struct AppConfig {
    pub profiles: Vec<Profile>,
    pub active_profile: String,
    /// The letters the user ticked as the ring's favourites, in order.
    pub middle_ring_favourites: Vec<String>,
}

impl Default for AppConfig {
    /// No profiles and no favourites.
    fn default() -> (c: Self)
        ensures
            c.profiles@.len() == 0,
            c.active_profile@.len() == 0,
            c.middle_ring_favourites@.len() == 0,
    {
        AppConfig {
            profiles: Vec::new(),
            active_profile: String::new(),
            middle_ring_favourites: Vec::new(),
        }
    }
}

/// The index of the first profile named `name`.
pub open spec fn profile_index(cfg: AppConfig, name: Seq<char>) -> Option<int> {
    cfg.profiles@.map_values(|p: Profile| p.name@).index_of_first(name)
}

/// The first profile named `name`, by index.
pub fn find_profile(cfg: &AppConfig, name: &str) -> (r: Option<usize>)
    ensures
        match profile_index(*cfg, name@) {
            Some(i) => r matches Some(k) && k as int == i,
            None => r is None,
        },
        r matches Some(k) ==> k < cfg.profiles@.len(),
{
    let ghost names = cfg.profiles@.map_values(|p: Profile| p.name@);
    let mut i: usize = 0;
    while i < cfg.profiles.len()
        invariant
            i <= cfg.profiles.len(),
            names == cfg.profiles@.map_values(|p: Profile| p.name@),
            forall|j: int| 0 <= j < i ==> names[j] != name@,
        decreases cfg.profiles.len() - i,
    {
        if crate::text::str_eq(cfg.profiles[i].name.as_str(), name) {
            proof {
                names.index_of_first_ensures(name@);
                assert(names[i as int] == name@);
                let k = names.index_of_first(name@).unwrap();
                assert(!(k < i));
                assert(!(k > i));
            }
            return Some(i);
        }
        i += 1;
    }
    proof {
        names.index_of_first_ensures(name@);
    }
    None
}

} // verus!
