//! Is this copy a portable, self-contained build, and if so where does all of
//! its data live?
//!
//! A marker file, `portable.txt`, beside the exe decides portable mode. A
//! packaged (MSIX) process is never portable, marker or not; an unpackaged
//! one with the marker keeps every file under `<exe dir>\data`; everything
//! else uses the roaming default. The filesystem probe and the environment
//! lookup are the caller's; this module is the decision.
use std::path::PathBuf;
use vstd::prelude::*;

verus! {

/// The marker file whose presence beside the exe, and nothing else, decides
/// portable mode.
pub const MARKER_FILE: &'static str = "portable.txt";

/// The sub-folder of the exe's own directory that holds every file a
/// portable copy writes.
pub const PORTABLE_DATA_SUBDIR: &'static str = "data";

/// The boot line's marker: long, lower-case, hyphenated and unique.
pub const BOOT_MARKER: &'static str = "portable-mode-data-root-resolution-spaceadom-marker";

#[verifier::external_type_specification]
#[verifier::external_body]
pub struct ExPathBuf(PathBuf);

/// `Path::join`: `base` with `part` appended as one more component.
pub uninterp spec fn path_join(base: PathBuf, part: Seq<char>) -> PathBuf;

/// `Path::join`.
#[verifier::external_body]
fn join(base: &PathBuf, part: &str) -> (r: PathBuf)
    ensures
        r == path_join(*base, part@),
{
    base.join(part)
}

/// Does this process run portable: unpackaged, with an exe directory, and
/// the marker found in it?
pub open spec fn spec_portable(packaged: bool, has_exe_dir: bool, marker_present: bool) -> bool {
    !packaged && has_exe_dir && marker_present
}

/// The data root: packaged wins, THEN the marker, THEN roaming.
pub fn resolve_root(
    packaged: bool,
    exe_dir: Option<&PathBuf>,
    marker_present: bool,
    roaming: PathBuf,
) -> (root: PathBuf)
    ensures
        match exe_dir {
            Some(dir) => spec_portable(packaged, true, marker_present) ==> root == path_join(
                *dir,
                PORTABLE_DATA_SUBDIR@,
            ),
            None => true,
        },
        !spec_portable(packaged, exe_dir is Some, marker_present) ==> root == roaming,
{
    if !packaged {
        if let Some(dir) = exe_dir {
            if marker_present {
                return join(dir, PORTABLE_DATA_SUBDIR);
            }
        }
    }
    roaming
}

/// The `(is_portable, data root)` pair, computed together so the two can
/// never disagree.
pub fn resolved(
    packaged: bool,
    exe_dir: Option<&PathBuf>,
    marker_present: bool,
    roaming: PathBuf,
) -> (r: (bool, PathBuf))
    ensures
        r.0 == spec_portable(packaged, exe_dir is Some, marker_present),
        r.0 ==> (exe_dir matches Some(dir) && r.1 == path_join(*dir, PORTABLE_DATA_SUBDIR@)),
        !r.0 ==> r.1 == roaming,
{
    let root = resolve_root(packaged, exe_dir, marker_present, roaming);
    let portable = !packaged && marker_present && exe_dir.is_some();
    (portable, root)
}

/// A packaged copy resolves to the roaming default no matter what the marker
/// check says, and so does a process with no exe directory.
pub proof fn law_packaged_always_wins(has_exe_dir: bool, marker_present: bool)
    ensures
        !spec_portable(true, has_exe_dir, marker_present),
        !spec_portable(false, false, marker_present),
{
}

} // verus!
