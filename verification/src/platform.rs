//! Recognising Ableton Live as the frontmost application.  Asking the
//! operating system which application is frontmost is done by the program
//! around the library.

use vstd::prelude::*;
use crate::text::{has_prefix, starts_with};

verus! {

/// Whether an application with this bundle identifier and name is Ableton
/// Live (the suite or a beta).
pub open spec fn ableton_identity(bundle_id: Option<Seq<char>>, name: Option<Seq<char>>) -> bool {
    bundle_id == Some("com.ableton.live"@) || (name is Some && has_prefix(name->0, "Ableton Live"@))
}

/// Whether the frontmost application's identity is Ableton Live.
pub fn is_ableton_identity(bundle_id: Option<&str>, name: Option<&str>) -> (is_live: bool)
    ensures
        is_live == ableton_identity(
            match bundle_id { Some(b) => Some(b@), None => None },
            match name { Some(n) => Some(n@), None => None },
        ),
{
    let bundle_matches = match bundle_id {
        Some(b) => {
            proof { reveal_strlit("com.ableton.live"); }
            let live = "com.ableton.live";
            let same = crate::text::str_equal(b, live);
            same
        },
        None => false,
    };
    if bundle_matches {
        return true;
    }
    match name {
        Some(n) => starts_with(n, "Ableton Live"),
        None => false,
    }
}

/// Whether Ableton Live is the frontmost application, given the bundle
/// identifier and name of the frontmost application; `None` where there is
/// none, or where the platform cannot tell (every platform but macOS).
pub fn ableton_is_frontmost(frontmost: Option<(Option<&str>, Option<&str>)>) -> (is_live: bool)
    ensures
        is_live == match frontmost {
            None => false,
            Some((bundle_id, name)) => ableton_identity(
                match bundle_id { Some(b) => Some(b@), None => None },
                match name { Some(n) => Some(n@), None => None },
            ),
        },
{
    match frontmost {
        None => false,
        Some((bundle_id, name)) => is_ableton_identity(bundle_id, name),
    }
}

} // verus!
