use syntect::util::LinesWithEndings;
use text2img::color::Color;
use text2img::error::RenderError;
use text2img::highlight::highlight;
use text2img::metrics::GlyphMetrics;
use text2img::render::render_code;
use text2img::text::split_lines;

fn line_texts(lines: &[Vec<text2img::lines::StyledSpan>]) -> Vec<String> {
    lines.iter().map(|l| l.iter().map(|s| s.text.as_str()).collect::<String>()).collect()
}

#[test]
fn lines_keep_their_endings() {
    assert_eq!(split_lines(""), Vec::<String>::new());
    assert_eq!(split_lines("a"), vec!["a"]);
    assert_eq!(split_lines("a\n"), vec!["a\n"]);
    assert_eq!(split_lines("a\nb"), vec!["a\n", "b"]);
    assert_eq!(split_lines("\n\nx\r\n"), vec!["\n", "\n", "x\r\n"]);
}

#[test]
fn lines_are_cut_as_the_highlighter_cuts_them() {
    for text in ["", "\n", "foo\nbar\nbaz", "foo\nbar\n", "\n\n\n", "a\r\nb\rc\n", "ünï\ncödé\n🙂"] {
        let expected: Vec<String> = LinesWithEndings::from(text).map(String::from).collect();
        assert_eq!(split_lines(text), expected, "{text:?}");
    }
}

#[test]
fn an_unknown_theme_is_an_error() {
    for name in ["", "dark", "light", "no-such-theme", "base16-ocean.Dark"] {
        assert!(matches!(highlight("x", "rust", name), Err(RenderError::ThemeNotFound)), "{name:?}");
    }
}

#[test]
fn every_built_in_theme_is_known() {
    for name in [
        "base16-ocean.dark",
        "base16-eighties.dark",
        "base16-mocha.dark",
        "base16-ocean.light",
        "InspiredGitHub",
        "Solarized (dark)",
        "Solarized (light)",
    ] {
        assert!(highlight("x = 1\n", "python", name).is_ok(), "{name:?}");
    }
}

#[test]
fn spans_cover_every_line() {
    let code = "fn main() {\n    let x = \"hi\"; // note\n}\n";
    let h = highlight(code, "rust", "base16-ocean.dark").unwrap();
    assert_eq!(line_texts(&h.lines), vec!["fn main() {\n", "    let x = \"hi\"; // note\n", "}\n"]);
    assert!(h.lines[0].len() > 1);
    assert!(h.lines.iter().flatten().all(|s| !s.text.is_empty()));
    let colours: std::collections::BTreeSet<(u8, u8, u8)> =
        h.lines.iter().flatten().map(|s| (s.foreground.r, s.foreground.g, s.foreground.b)).collect();
    assert!(colours.len() > 1);
}

#[test]
fn the_background_comes_from_the_theme() {
    let h = highlight("x", "rust", "base16-ocean.dark").unwrap();
    assert_eq!(h.background, Color::new(0x2b, 0x30, 0x3b));
    let h = highlight("x", "rust", "InspiredGitHub").unwrap();
    assert_eq!(h.background, Color::new(255, 255, 255));
    let h = highlight("x", "rust", "Solarized (dark)").unwrap();
    assert_eq!(h.background, Color::new(0x00, 0x2b, 0x36));
}

#[test]
fn an_unknown_language_is_plain_text() {
    let code = "fn main() {}\nsecond line";
    let plain = highlight(code, "plain", "base16-ocean.dark").unwrap();
    let odd = highlight(code, "no-such-language", "base16-ocean.dark").unwrap();
    assert_eq!(line_texts(&plain.lines), vec!["fn main() {}\n", "second line"]);
    assert_eq!(line_texts(&odd.lines), line_texts(&plain.lines));
    assert!(odd.lines.iter().all(|l| l.len() == 1));
    let rust = highlight(code, "rs", "base16-ocean.dark").unwrap();
    assert!(rust.lines[0].len() > 1);
}

#[test]
fn empty_code_has_no_lines() {
    let h = highlight("", "rust", "base16-ocean.dark").unwrap();
    assert!(h.lines.is_empty());
    let m = GlyphMetrics::new(28, 1, 600, 1000).unwrap();
    let picture = render_code(&h.lines, &m, h.background).unwrap();
    assert_eq!((picture.canvas.width(), picture.canvas.height()), (400, 100));
    assert!(picture.text.is_empty());
}

#[test]
fn highlighted_code_is_laid_out_line_by_line() {
    let code = "let answer = 42;\nprintln!(\"{}\", answer);\n";
    let h = highlight(code, "rust", "base16-ocean.dark").unwrap();
    let m = GlyphMetrics::new(28, 1, 600, 1000).unwrap();
    let picture = render_code(&h.lines, &m, h.background).unwrap();
    assert_eq!(picture.canvas.width(), 64 + (23 * 28 * 600) / 1000);
    assert_eq!(picture.canvas.height(), 2 * 42 + 64);
    let first: String = picture.text.iter().filter(|r| r.y == 32).map(|r| r.text.as_str()).collect();
    let second: String = picture.text.iter().filter(|r| r.y == 74).map(|r| r.text.as_str()).collect();
    assert_eq!(first, "let answer = 42;");
    assert_eq!(second, "println!(\"{}\", answer);");
    let mut before = 0u32;
    for run in picture.text.iter().filter(|r| r.y == 32) {
        assert_eq!(run.x, 32 + (before * 28 * 600) / 1000);
        before += run.text.chars().count() as u32;
    }
    assert_eq!(picture.canvas.pixel(0, 0), Some(h.background));
}

#[test]
fn built_in_syntaxes_have_each_their_own_name() {
    let set = syntect::parsing::SyntaxSet::load_defaults_newlines();
    let names: std::collections::BTreeSet<&str> =
        set.syntaxes().iter().map(|s| s.name.as_str()).collect();
    assert_eq!(names.len(), set.syntaxes().len());
    assert!(names.contains("Plain Text"));
    assert_eq!(set.find_syntax_plain_text().name, "Plain Text");
}

#[test]
fn the_built_in_themes_are_the_seven_listed() {
    let themes = syntect::highlighting::ThemeSet::load_defaults();
    let keys: Vec<&str> = themes.themes.keys().map(|k| k.as_str()).collect();
    assert_eq!(
        keys,
        vec![
            "InspiredGitHub",
            "Solarized (dark)",
            "Solarized (light)",
            "base16-eighties.dark",
            "base16-mocha.dark",
            "base16-ocean.dark",
            "base16-ocean.light",
        ]
    );
    for key in keys {
        assert!(highlight("x", "rust", key).is_ok());
        let declared = themes.themes[key].settings.background.map(|c| Color::new(c.r, c.g, c.b));
        assert_eq!(highlight("x", "rust", key).unwrap().background, declared.unwrap_or(Color::new(43, 48, 59)));
    }
}

#[test]
fn highlighting_is_the_same_every_time() {
    let code = "fn main() {\n    /* a\n       b */ let s = \"x\";\n}\n";
    let spans = |h: &text2img::highlight::Highlighted| -> Vec<Vec<(String, Color)>> {
        h.lines.iter().map(|l| l.iter().map(|s| (s.text.clone(), s.foreground)).collect()).collect()
    };
    let a = highlight(code, "rust", "InspiredGitHub").unwrap();
    let b = highlight(code, "rust", "InspiredGitHub").unwrap();
    assert_eq!(spans(&a), spans(&b));
    assert_eq!(a.background, b.background);
    let c = highlight(code, "Rust", "InspiredGitHub").unwrap();
    assert_eq!(spans(&a), spans(&c));
}
