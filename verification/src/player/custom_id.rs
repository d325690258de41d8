//! Custom ids of the Now Playing panel's buttons.

use vstd::prelude::*;

verus! {

pub const PAUSE_RESUME: &'static str = "np:pause_resume";

pub const SKIP: &'static str = "np:skip";

pub const LOOP: &'static str = "np:loop";

pub const SEEK_BACK: &'static str = "np:seek_back";

pub const SEEK_FORWARD: &'static str = "np:seek_forward";

pub const SHUFFLE: &'static str = "np:shuffle";

} // verus!
