//! How inactive image-occlusion masks are shown.

use vstd::prelude::*;

verus! {

/// How inactive masks appear while answering an image-occlusion card.
#[derive(Debug, Clone, Copy, PartialEq, Eq, Structural)]
pub enum OcclusionMode {
    /// Cover every mask while asking for one. This is the default.
    HideAllGuessOne,
    /// Cover only the mask currently being asked about.
    HideOneGuessOne,
}

impl Default for OcclusionMode {
    /// The default mode: hide all masks, guess one.
    fn default() -> (m: Self)
        ensures
            m == OcclusionMode::HideAllGuessOne,
    {
        OcclusionMode::HideAllGuessOne
    }
}

} // verus!
