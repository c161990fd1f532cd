//! The display-server family a wallpaper is painted for.

use crate::error::Error;
use vstd::prelude::*;

verus! {

/// The display-server family the external painting command is chosen for.
///
/// A value of this type is always one of exactly two variants: there is no
/// "unknown" compositor once parsing has succeeded.
#[derive(Clone, Copy, Debug, PartialEq, Eq, Structural)]
pub enum Compositor {
    /// The X11 family, painted with `hsetroot`.
    X11,
    /// The Sway (Wayland) family, painted with `swaybg`.
    Sway,
}

/// The parse of a compositor token: only the exact lowercase tokens `"x11"`
/// and `"sway"` are accepted.
pub open spec fn parse_compositor(s: Seq<char>) -> Result<Compositor, Error> {
    if s == "x11"@ {
        Ok(Compositor::X11)
    } else if s == "sway"@ {
        Ok(Compositor::Sway)
    } else {
        Err(Error::UnsupportedCompositor)
    }
}

impl Compositor {
    /// Parses a compositor token, case-sensitively.
    pub fn from_str(s: &str) -> (r: Result<Compositor, Error>)
        ensures
            r == parse_compositor(s@),
    {
        let t = s.to_owned();
        if t == String::from_str("x11") {
            Ok(Compositor::X11)
        } else if t == String::from_str("sway") {
            proof {
                reveal_strlit("x11");
                reveal_strlit("sway");
            }
            Ok(Compositor::Sway)
        } else {
            Err(Error::UnsupportedCompositor)
        }
    }
}

impl Default for Compositor {
    /// When no compositor is requested, X11 is assumed.
    fn default() -> (r: Self)
        ensures
            r == Compositor::X11,
    {
        Compositor::X11
    }
}

} // verus!
