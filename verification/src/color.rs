//! Display colors for rendered predictions, with the named palette the sign
//! understands.
use vstd::prelude::*;

use crate::text::str_eq;

verus! {

/// An RGB color attached to a prediction for rendering.
#[derive(Clone, Copy, Debug, PartialEq, Eq, Structural)]
pub struct Color {
    pub red: u8,
    pub green: u8,
    pub blue: u8,
}

/// The color a palette name stands for, or `None` for an unknown name.
pub open spec fn color_of_name(s: Seq<char>) -> Option<Color> {
    if s == "YELLOW"@ {
        Some(Color { red: 255, green: 255, blue: 51 })
    } else if s == "RED"@ {
        Some(Color { red: 255, green: 0, blue: 0 })
    } else if s == "GREEN"@ {
        Some(Color { red: 51, green: 153, blue: 51 })
    } else if s == "BLUE"@ {
        Some(Color { red: 0, green: 153, blue: 204 })
    } else if s == "PURPLE"@ {
        Some(Color { red: 163, green: 24, blue: 163 })
    } else {
        None
    }
}

impl Color {
    /// Looks a color up by its palette name.
    pub fn from_str(s: &str) -> (r: Option<Self>)
        ensures
            r == color_of_name(s@),
    {
        if str_eq(s, "YELLOW") {
            Some(Color { red: 255, green: 255, blue: 51 })
        } else if str_eq(s, "RED") {
            Some(Color { red: 255, green: 0, blue: 0 })
        } else if str_eq(s, "GREEN") {
            Some(Color { red: 51, green: 153, blue: 51 })
        } else if str_eq(s, "BLUE") {
            Some(Color { red: 0, green: 153, blue: 204 })
        } else if str_eq(s, "PURPLE") {
            Some(Color { red: 163, green: 24, blue: 163 })
        } else {
            None
        }
    }
}

impl Default for Color {
    /// The fallback color is white.
    fn default() -> (r: Self)
        ensures
            r == (Color { red: 255, green: 255, blue: 255 }),
    {
        Color { red: 255, green: 255, blue: 255 }
    }
}

} // verus!
