use vstd::prelude::*;
use crate::color::Color;
use crate::text::same_text;

verus! {

/// The colours of a table picture.
#[derive(Clone, Copy, Debug, PartialEq, Eq, Structural)]
pub struct TableTheme {
    pub bg: Color,
    pub header_bg: Color,
    pub alt_row_bg: Color,
    pub text: Color,
    pub header_text: Color,
    pub border: Color,
}

/// The dark palette.
pub open spec fn dark_palette() -> TableTheme {
    TableTheme {
        bg: Color { r: 43, g: 48, b: 59 },
        header_bg: Color { r: 30, g: 34, b: 42 },
        alt_row_bg: Color { r: 38, g: 43, b: 53 },
        text: Color { r: 192, g: 197, b: 206 },
        header_text: Color { r: 235, g: 203, b: 139 },
        border: Color { r: 65, g: 73, b: 89 },
    }
}

/// The light palette.
pub open spec fn light_palette() -> TableTheme {
    TableTheme {
        bg: Color { r: 255, g: 255, b: 255 },
        header_bg: Color { r: 240, g: 240, b: 240 },
        alt_row_bg: Color { r: 248, g: 248, b: 248 },
        text: Color { r: 51, g: 51, b: 51 },
        header_text: Color { r: 31, g: 31, b: 31 },
        border: Color { r: 200, g: 200, b: 200 },
    }
}

/// The palette that goes by `name`: the light one for `light`, the dark
/// one for every other name.
pub open spec fn palette(name: Seq<char>) -> TableTheme {
    if name == "light"@ {
        light_palette()
    } else {
        dark_palette()
    }
}

/// The background of a code picture whose theme names none.
pub open spec fn fallback_background() -> Color {
    Color { r: 43, g: 48, b: 59 }
}

/// The dark palette.
pub fn dark_theme() -> (t: TableTheme)
    ensures
        t == dark_palette(),
{
    TableTheme {
        bg: Color::new(43, 48, 59),
        header_bg: Color::new(30, 34, 42),
        alt_row_bg: Color::new(38, 43, 53),
        text: Color::new(192, 197, 206),
        header_text: Color::new(235, 203, 139),
        border: Color::new(65, 73, 89),
    }
}

/// The light palette.
pub fn light_theme() -> (t: TableTheme)
    ensures
        t == light_palette(),
{
    TableTheme {
        bg: Color::new(255, 255, 255),
        header_bg: Color::new(240, 240, 240),
        alt_row_bg: Color::new(248, 248, 248),
        text: Color::new(51, 51, 51),
        header_text: Color::new(31, 31, 31),
        border: Color::new(200, 200, 200),
    }
}

/// The palette that goes by `name`. A name that is not known gives the
/// dark palette; that is no failure.
pub fn resolve_theme(name: &str) -> (t: TableTheme)
    ensures
        t == palette(name@),
{
    if same_text(name, "light") {
        light_theme()
    } else {
        dark_theme()
    }
}

/// The background of a code picture: the one that the highlighting theme
/// declares, or the fallback where it declares none.
pub fn code_background(declared: Option<Color>) -> (c: Color)
    ensures
        c == match declared {
            Some(d) => d,
            None => fallback_background(),
        },
{
    match declared {
        Some(d) => d,
        None => Color::new(43, 48, 59),
    }
}

} // verus!
