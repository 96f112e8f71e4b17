//! The desktop palette.
use vstd::prelude::*;

verus! {

#[derive(Clone, Copy, Debug, PartialEq, Eq, Structural)]
pub struct Color {
    pub r: u8,
    pub g: u8,
    pub b: u8,
}

impl Color {
    pub fn black() -> (c: Self)
        ensures
            c == (Color { r: 0, g: 0, b: 0 }),
    {
        Self { r: 0, g: 0, b: 0 }
    }

    pub fn surface() -> (c: Self)
        ensures
            c == (Color { r: 31, g: 32, b: 31 }),
    {
        Self { r: 31, g: 32, b: 31 }
    }

    pub fn panel() -> (c: Self)
        ensures
            c == (Color { r: 239, g: 237, b: 230 }),
    {
        Self { r: 239, g: 237, b: 230 }
    }

    pub fn panel_alt() -> (c: Self)
        ensures
            c == (Color { r: 219, g: 217, b: 209 }),
    {
        Self { r: 219, g: 217, b: 209 }
    }

    pub fn border() -> (c: Self)
        ensures
            c == (Color { r: 87, g: 88, b: 84 }),
    {
        Self { r: 87, g: 88, b: 84 }
    }

    pub fn text() -> (c: Self)
        ensures
            c == (Color { r: 30, g: 31, b: 30 }),
    {
        Self { r: 30, g: 31, b: 30 }
    }

    pub fn text_inverted() -> (c: Self)
        ensures
            c == (Color { r: 244, g: 242, b: 235 }),
    {
        Self { r: 244, g: 242, b: 235 }
    }

    pub fn text_muted() -> (c: Self)
        ensures
            c == (Color { r: 135, g: 135, b: 128 }),
    {
        Self { r: 135, g: 135, b: 128 }
    }

    pub fn accent() -> (c: Self)
        ensures
            c == (Color { r: 214, g: 167, b: 82 }),
    {
        Self { r: 214, g: 167, b: 82 }
    }

    pub fn accent_dark() -> (c: Self)
        ensures
            c == (Color { r: 142, g: 103, b: 45 }),
    {
        Self { r: 142, g: 103, b: 45 }
    }

    pub fn glass() -> (c: Self)
        ensures
            c == (Color { r: 50, g: 52, b: 50 }),
    {
        Self { r: 50, g: 52, b: 50 }
    }

    pub fn window_dark() -> (c: Self)
        ensures
            c == (Color { r: 20, g: 21, b: 20 }),
    {
        Self { r: 20, g: 21, b: 20 }
    }

    pub fn warning() -> (c: Self)
        ensures
            c == (Color { r: 225, g: 180, b: 93 }),
    {
        Self { r: 225, g: 180, b: 93 }
    }

    pub fn error() -> (c: Self)
        ensures
            c == (Color { r: 218, g: 104, b: 94 }),
    {
        Self { r: 218, g: 104, b: 94 }
    }

    pub fn success() -> (c: Self)
        ensures
            c == (Color { r: 94, g: 176, b: 126 }),
    {
        Self { r: 94, g: 176, b: 126 }
    }


    pub fn rgb(r: u8, g: u8, b: u8) -> (c: Self)
        ensures
            c == (Color { r, g, b }),
    {
        Self { r, g, b }
    }
}

} // verus!
