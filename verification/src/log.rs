//! How log messages look.

use vstd::prelude::*;

verus! {

/// When to color output.
#[derive(Debug, Clone, Copy, PartialEq, Eq, PartialOrd, Ord, Structural)]
pub enum WhenColor {
    Always,
    Never,
    Auto,
}

/// Whether colors are turned on or off, where it is not left to the terminal.
pub open spec fn colors(when: WhenColor) -> Option<bool> {
    match when {
        WhenColor::Always => Some(true),
        WhenColor::Never => Some(false),
        WhenColor::Auto => None,
    }
}

impl WhenColor {
    /// Whether colors are turned on or off. Otherwise it is left to the terminal.
    pub fn ansi(self) -> (r: Option<bool>)
        ensures
            r == colors(self),
            r == (match self {
                WhenColor::Always => Some(true),
                WhenColor::Never => Some(false),
                WhenColor::Auto => None,
            }),
    {
        match self {
            WhenColor::Always => Some(true),
            WhenColor::Never => Some(false),
            WhenColor::Auto => None,
        }
    }
}

/// Colors are on where they are always asked for, off where they never are, and left to the
/// terminal otherwise.
pub proof fn law_colors_are_as_asked(when: WhenColor)
    ensures
        colors(when) == Some(true) <==> when is Always,
        colors(when) == Some(false) <==> when is Never,
        colors(when) is None <==> when is Auto,
{
}

} // verus!
