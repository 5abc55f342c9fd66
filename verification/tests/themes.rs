use text2img::color::Color;
use text2img::error::RenderError;
use text2img::theme::{code_background, dark_theme, light_theme, resolve_theme};

#[test]
fn light_theme_has_its_own_header_background() {
    let light = resolve_theme("light");
    assert_eq!(light.header_bg, Color::new(0xF0, 0xF0, 0xF0));
    assert_ne!(light.header_bg, Color::new(0x1E, 0x22, 0x2A));
    assert_eq!(dark_theme().header_bg, Color::new(0x1E, 0x22, 0x2A));
}

#[test]
fn the_two_palettes() {
    let dark = dark_theme();
    assert_eq!(dark.bg, Color::new(43, 48, 59));
    assert_eq!(dark.header_bg, Color::new(30, 34, 42));
    assert_eq!(dark.alt_row_bg, Color::new(38, 43, 53));
    assert_eq!(dark.text, Color::new(192, 197, 206));
    assert_eq!(dark.header_text, Color::new(235, 203, 139));
    assert_eq!(dark.border, Color::new(65, 73, 89));
    let light = light_theme();
    assert_eq!(light.bg, Color::new(255, 255, 255));
    assert_eq!(light.header_bg, Color::new(240, 240, 240));
    assert_eq!(light.alt_row_bg, Color::new(248, 248, 248));
    assert_eq!(light.text, Color::new(51, 51, 51));
    assert_eq!(light.header_text, Color::new(31, 31, 31));
    assert_eq!(light.border, Color::new(200, 200, 200));
}

#[test]
fn unknown_theme_names_fall_back_to_dark() {
    assert_eq!(resolve_theme("dark"), dark_theme());
    assert_eq!(resolve_theme("light"), light_theme());
    for name in ["", "Light", "LIGHT", "light ", "solarized", "base16-ocean.dark"] {
        assert_eq!(resolve_theme(name), dark_theme(), "{name:?}");
    }
}

#[test]
fn code_background_falls_back_when_the_theme_has_none() {
    assert_eq!(code_background(None), Color::new(43, 48, 59));
    assert_eq!(code_background(Some(Color::new(1, 2, 3))), Color::new(1, 2, 3));
}

#[test]
fn every_error_has_its_message() {
    assert_eq!(RenderError::EmptyTable.message(), "No table found in input");
    assert_eq!(RenderError::ThemeNotFound.message(), "Theme not found");
    assert_eq!(RenderError::HighlightFailed.message(), "Failed to highlight the code");
    assert_eq!(RenderError::CanvasTooLarge.message(), "The picture is too large");
}
