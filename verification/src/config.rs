//! Colours of the picker, as one immutable value that the caller builds once
//! and hands to the composer.

use vstd::prelude::*;

verus! {

/// A colour by its red, green and blue parts.
#[derive(Debug, Clone, Copy, PartialEq, Eq, Structural)]
pub struct Rgb {
    pub r: u8,
    pub g: u8,
    pub b: u8,
}

/// The colours that a frame is drawn with.
#[derive(Debug, Clone, Copy, PartialEq, Eq, Structural)]
pub struct Theme {
    pub background: Rgb,
    pub border: Rgb,
    pub text: Rgb,
    pub selection: Rgb,
    pub selection_text: Rgb,
    pub selection_match: Rgb,
    pub prompt: Rgb,
    pub placeholder: Rgb,
}

impl Theme {
    /// The built-in colours.
    pub open spec fn standard() -> Theme {
        Theme {
            background: Rgb { r: 32, g: 19, b: 30 },
            border: Rgb { r: 125, g: 61, b: 82 },
            text: Rgb { r: 242, g: 242, b: 242 },
            selection: Rgb { r: 70, g: 41, b: 65 },
            selection_text: Rgb { r: 242, g: 242, b: 242 },
            selection_match: Rgb { r: 142, g: 64, b: 87 },
            prompt: Rgb { r: 88, g: 110, b: 117 },
            placeholder: Rgb { r: 88, g: 110, b: 117 },
        }
    }
}

impl Default for Theme {
    fn default() -> (theme: Self)
        ensures
            theme == Theme::standard(),
    {
        Theme {
            background: Rgb { r: 32, g: 19, b: 30 },
            border: Rgb { r: 125, g: 61, b: 82 },
            text: Rgb { r: 242, g: 242, b: 242 },
            selection: Rgb { r: 70, g: 41, b: 65 },
            selection_text: Rgb { r: 242, g: 242, b: 242 },
            selection_match: Rgb { r: 142, g: 64, b: 87 },
            prompt: Rgb { r: 88, g: 110, b: 117 },
            placeholder: Rgb { r: 88, g: 110, b: 117 },
        }
    }
}

} // verus!
