use text2img::color::Color;
use text2img::error::RenderError;
use text2img::grid::{column_chars_of, column_widths, table_layout};
use text2img::lines::{code_layout, count_line_chars, longest_line_chars, strip_line_end, StyledSpan};
use text2img::metrics::{measure_text_width, GlyphMetrics, MAX_SIDE};
use text2img::table::Table;

fn metrics(size: u32) -> GlyphMetrics {
    GlyphMetrics::new(size, 1, 600, 1000).unwrap()
}

fn span(text: &str, r: u8) -> StyledSpan {
    StyledSpan { text: text.to_string(), foreground: Color::new(r, 0, 0) }
}

fn table(headers: &[&str], rows: &[&[&str]]) -> Table {
    Table {
        headers: headers.iter().map(|c| c.to_string()).collect(),
        rows: rows.iter().map(|r| r.iter().map(|c| c.to_string()).collect()).collect(),
    }
}

#[test]
fn a_font_without_height_has_no_metrics() {
    assert!(GlyphMetrics::new(24, 1, 600, 0).is_none());
    assert!(GlyphMetrics::new(24, 0, 600, 1000).is_none());
    assert_eq!(GlyphMetrics::new(27, 2, 600, 1000).unwrap().denominator(), 2000);
    let m = GlyphMetrics::new(24, 1, 600, 1000).unwrap();
    assert_eq!((m.size_num, m.size_den, m.advance_units, m.height_units), (24, 1, 600, 1000));
    assert_eq!(m.numerator(), 14400);
}

#[test]
fn text_is_measured_by_its_characters() {
    let m = metrics(24);
    assert_eq!(measure_text_width("", &m), 0);
    assert_eq!(measure_text_width("M", &m), 14400);
    assert_eq!(measure_text_width("hello", &m), 72000);
    assert_eq!(measure_text_width("héllo", &m), 72000);
    assert_eq!(m.pixels_of(0), Some(0));
    assert_eq!(m.pixels_of(1), Some(14));
    assert_eq!(m.pixels_of(5), Some(72));
    assert_eq!(m.pixels_of(50), Some(720));
    assert_eq!(m.pixels_of(149_130_808), Some(2_147_483_635));
    assert_eq!(m.pixels_of(149_130_809), None);
    assert_eq!(m.pixels_of(u128::MAX), None);
    let still = GlyphMetrics::new(24, 1, 0, 1000).unwrap();
    assert_eq!(still.pixels_of(u128::MAX), Some(0));
}

#[test]
fn empty_code_has_the_least_canvas() {
    let layout = code_layout(&Vec::new(), &metrics(28)).unwrap();
    assert_eq!(layout.width, 400);
    assert_eq!(layout.height, 100);
    assert!(layout.runs.is_empty());
}

#[test]
fn code_width_follows_the_longest_line() {
    let m = metrics(24);
    let lines = vec![
        vec![span("short\n", 1)],
        vec![span(&"x".repeat(30), 2), span(&"y".repeat(20), 3), span("\n", 4)],
        vec![span("", 5)],
    ];
    let layout = code_layout(&lines, &m).unwrap();
    assert_eq!(layout.width, 784);
    assert_eq!(layout.line_height, 36);
    assert_eq!(layout.height, 3 * 36 + 64);
    assert_eq!(longest_line_chars(&lines), 50);
    assert_eq!(count_line_chars(&lines[0]), 5);
}

#[test]
fn narrow_code_keeps_the_least_width() {
    let m = metrics(24);
    let lines = vec![vec![span(&"x".repeat(23), 1)]];
    assert_eq!(code_layout(&lines, &m).unwrap().width, 400);
    let lines = vec![vec![span(&"x".repeat(24), 1)]];
    assert_eq!(code_layout(&lines, &m).unwrap().width, 409);
}

#[test]
fn line_height_is_rounded_to_the_nearest_pixel() {
    for (size, expected) in [(28u32, 42u64), (24, 36), (27, 41), (1, 2), (0, 0), (13, 20)] {
        let layout = code_layout(&Vec::new(), &metrics(size)).unwrap();
        assert_eq!(layout.line_height, expected, "size {size}");
    }
}

#[test]
fn spans_are_placed_from_left_to_right() {
    let m = metrics(24);
    let lines = vec![
        vec![span("fn", 1), span(" ", 2), span("main", 3), span("() {\r\n", 4)],
        vec![span("", 5), span("\n", 6)],
        vec![span("}", 7)],
    ];
    let layout = code_layout(&lines, &m).unwrap();
    let runs: Vec<(u32, u32, u8, &str)> =
        layout.runs.iter().map(|r| (r.x, r.y, r.color.r, r.text.as_str())).collect();
    assert_eq!(
        runs,
        vec![
            (32, 32, 1, "fn"),
            (32 + 28, 32, 2, " "),
            (32 + 43, 32, 3, "main"),
            (32 + 100, 32, 4, "() {"),
            (32, 32 + 72, 7, "}"),
        ]
    );
}

#[test]
fn line_ends_are_stripped() {
    let stripped = |s: &str| strip_line_end(s).into_iter().collect::<String>();
    assert_eq!(stripped("abc\r\n"), "abc");
    assert_eq!(stripped("abc\n\n\n"), "abc");
    assert_eq!(stripped("abc\r\r\n"), "abc");
    assert_eq!(stripped("a\n\r"), "a\n");
    assert_eq!(stripped("a b "), "a b ");
    assert_eq!(stripped("\n"), "");
    assert_eq!(stripped(""), "");
}

#[test]
fn code_that_is_too_large_is_refused() {
    let m = GlyphMetrics::new(4_000_000, 1, 600, 1000).unwrap();
    let lines = vec![vec![span(&"x".repeat(1000), 1)]];
    assert!(matches!(code_layout(&lines, &m), Err(RenderError::CanvasTooLarge)));
    let m = GlyphMetrics::new(u32::MAX, 1, 0, 1).unwrap();
    let lines = vec![vec![span("x", 1)]];
    assert!(matches!(code_layout(&lines, &m), Err(RenderError::CanvasTooLarge)));
    let none: Vec<Vec<StyledSpan>> = Vec::new();
    let layout = code_layout(&none, &m).unwrap();
    assert_eq!((layout.width, layout.height), (400, 100));
    assert_eq!(layout.line_height, 6_442_450_943);
    assert_eq!(MAX_SIDE, 2_147_483_647);
}

#[test]
fn two_by_two_table_geometry() {
    let t = table(&["a", "b"], &[&["1", "2"]]);
    let layout = table_layout(&t, &metrics(24)).unwrap();
    assert_eq!(layout.width, 141);
    assert_eq!(layout.height, 128);
    assert_eq!(layout.band_height, 48);
    assert_eq!(layout.tops, vec![16, 64, 112]);
    assert_eq!(layout.edges, vec![16, 70, 124]);
}

#[test]
fn columns_are_as_wide_as_their_widest_cell() {
    let t = table(&["id", "description", ""], &[&["1234567", "x"], &["1", "", "abc", "ignored and long"], &[]]);
    assert_eq!(column_chars_of(&t, 0), 7);
    assert_eq!(column_chars_of(&t, 1), 11);
    assert_eq!(column_chars_of(&t, 2), 3);
    let layout = table_layout(&t, &metrics(20)).unwrap();
    assert_eq!(layout.edges, vec![16, 16 + 40 + 84, 16 + 80 + 216, 16 + 120 + 252]);
    assert_eq!(layout.width, 16 + 120 + 252 + 16);
    assert_eq!(layout.band_height, 44);
    assert_eq!(layout.height, 4 * 44 + 32);
}

#[test]
fn short_rows_do_not_shift_columns() {
    let full = table(&["a", "bb", "ccc"], &[&["1", "2", "3"], &["x", "", ""]]);
    let short = table(&["a", "bb", "ccc"], &[&["1", "2", "3"], &["x"]]);
    let m = metrics(24);
    let a = table_layout(&full, &m).unwrap();
    let b = table_layout(&short, &m).unwrap();
    assert_eq!(a.edges, b.edges);
    assert_eq!((a.width, a.height), (b.width, b.height));
}

#[test]
fn a_table_without_rows_is_a_header_grid() {
    let t = table(&["only"], &[]);
    let layout = table_layout(&t, &metrics(24)).unwrap();
    assert_eq!(layout.tops, vec![16, 64]);
    assert_eq!(layout.height, 48 + 32);
    assert_eq!(layout.edges, vec![16, 16 + 40 + 57]);
    assert_eq!(layout.width, 16 + 40 + 58 + 16);
}

#[test]
fn a_table_that_is_too_large_is_refused() {
    let t = table(&["a"], &[]);
    let m = GlyphMetrics::new(u32::MAX, 1, 600, 1000).unwrap();
    assert!(matches!(table_layout(&t, &m), Err(RenderError::CanvasTooLarge)));
    let wide = table(&[&"w".repeat(200)], &[]);
    let m = GlyphMetrics::new(20_000_000, 1, 600, 1000).unwrap();
    assert!(matches!(table_layout(&wide, &m), Err(RenderError::CanvasTooLarge)));
}

#[test]
fn column_widths_cover_every_cell() {
    let t = table(&["id", "description", ""], &[&["1234567", "x"], &["1", "", "abc", "ignored and long"], &[]]);
    let m = metrics(24);
    let widths = column_widths(&t, &m);
    assert_eq!(widths, vec![7 * 14400 + 40000, 11 * 14400 + 40000, 3 * 14400 + 40000]);
    for (j, w) in widths.iter().enumerate() {
        assert!(*w >= measure_text_width(&t.headers[j], &m) + 40000);
        for row in &t.rows {
            if let Some(cell) = row.get(j) {
                assert!(*w >= measure_text_width(cell, &m) + 40000);
            }
        }
    }
}

#[test]
fn every_cell_fits_between_its_grid_lines() {
    let t = table(&["id", "description", ""], &[&["1234567", "x"], &["1", "", "abc", "ignored and long"], &[]]);
    for (size, units, height) in [(24u32, 600u16, 1000u16), (20, 1233, 2048), (31, 601, 1319), (7, 1, 3)] {
        let m = GlyphMetrics::new(size, 1, units, height).unwrap();
        let layout = table_layout(&t, &m).unwrap();
        for j in 0..t.headers.len() {
            let fits = |text: &str| {
                let px = m.pixels_of(text.chars().count() as u128).unwrap();
                layout.edges[j] + 20 + px + 20 <= layout.edges[j + 1]
            };
            assert!(fits(&t.headers[j]));
            for row in &t.rows {
                if let Some(cell) = row.get(j) {
                    assert!(fits(cell));
                }
            }
        }
        assert!(layout.edges[t.headers.len()] + 16 <= layout.width);
    }
}

#[test]
fn every_span_fits_into_the_picture() {
    let lines = vec![
        vec![span("fn", 1), span(" ", 2), span("main", 3), span("() {\r\n", 4)],
        vec![span("    let value = compute(1, 2, 3);\n", 5)],
        vec![span("}", 7)],
    ];
    for (size, units, height) in [(24u32, 600u16, 1000u16), (28, 1233, 2048), (31, 601, 1319)] {
        let m = GlyphMetrics::new(size, 1, units, height).unwrap();
        let layout = code_layout(&lines, &m).unwrap();
        for run in &layout.runs {
            let px = m.pixels_of(run.text.chars().count() as u128).unwrap();
            assert!(run.x + px + 32 <= layout.width);
            assert!(run.y as u64 + layout.line_height + 32 <= layout.height as u64);
        }
    }
}

#[test]
fn a_font_size_may_be_a_fraction() {
    let m = GlyphMetrics::new(27, 2, 600, 1000).unwrap();
    assert_eq!(m.pixels_of(10), Some(81));
    assert_eq!(measure_text_width("ab", &m), 2 * 27 * 600);
    let lines = vec![vec![span(&"x".repeat(50), 1)], vec![span("y", 2)]];
    let layout = code_layout(&lines, &m).unwrap();
    assert_eq!(layout.line_height, 20);
    assert_eq!(layout.width, 64 + 405);
    assert_eq!(layout.height, 2 * 20 + 64);
    let t = table(&["a", "b"], &[&["1", "2"], &["3", "4"], &["5", "6"]]);
    let layout = table_layout(&t, &m).unwrap();
    assert_eq!(layout.band_height, 37);
    assert_eq!(layout.tops, vec![16, 53, 91, 128, 166]);
    assert_eq!(layout.height, 182);
    assert_eq!(layout.edges, vec![16, 64, 112]);
    assert_eq!(layout.width, 129);
    let quarter = GlyphMetrics::new(97, 4, 600, 1000).unwrap();
    let layout = table_layout(&t, &quarter).unwrap();
    assert_eq!(layout.tops, vec![16, 64, 112, 160, 209]);
    assert_eq!(layout.height, 225);
}

#[test]
fn line_height_is_rounded_for_fractions_too() {
    for (num, den, expected) in [(27u32, 2u16, 20u64), (53, 4, 20), (55, 4, 21), (1, 3, 1), (1, 4, 0), (26, 2, 20)] {
        let m = GlyphMetrics::new(num, den, 600, 1000).unwrap();
        let layout = code_layout(&Vec::new(), &m).unwrap();
        assert_eq!(layout.line_height, expected, "{num}/{den}");
    }
}
