//! The verified core of Spaceadom: the keyboard hook's repeat detection and
//! pointer-activation state, the Guide HUD's boot decision, the packaged and
//! portable data-location rules, the release-notes sanitising, and the
//! middle-button ring's names and favourites.
use vstd::prelude::*;

pub mod boot;
pub mod config;
pub mod icon;
pub mod middle_ring;
pub mod overlay_boot;
pub mod packaged;
pub mod picker;
pub mod pointer;
pub mod portable;
pub mod release_notes;
pub mod repeat;
pub mod text;

verus! {

/// How long an `--autostart` launch waits before creating its windows, in
/// seconds.
pub const AUTOSTART_SETTLE_SECS: u64 = 10;

} // verus!
