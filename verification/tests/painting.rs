use image::{Rgb, RgbImage};
use imageproc::drawing::{draw_filled_rect_mut, draw_line_segment_mut};
use imageproc::rect::Rect;
use text2img::canvas::Canvas;
use text2img::color::Color;
use text2img::draw::FilledRect;
use text2img::grid::table_layout;
use text2img::lines::StyledSpan;
use text2img::metrics::GlyphMetrics;
use text2img::render::{paint, render_code, render_table, table_shapes, table_text};
use text2img::table::Table;
use text2img::theme::{dark_theme, light_theme, TableTheme};

fn rgb(c: Color) -> Rgb<u8> {
    Rgb([c.r, c.g, c.b])
}

fn rect(left: u32, top: u32, width: u32, height: u32, color: Color) -> FilledRect {
    FilledRect { left, top, width, height, color }
}

fn table(headers: &[&str], rows: &[&[&str]]) -> Table {
    Table {
        headers: headers.iter().map(|c| c.to_string()).collect(),
        rows: rows.iter().map(|r| r.iter().map(|c| c.to_string()).collect()).collect(),
    }
}

/// The background of a table picture, painted with floating-point
/// positions and line segments.
fn painted_with_floats(t: &Table, font_size: f32, advance: f32, theme: &TableTheme) -> RgbImage {
    let cell_pad_x: f32 = 20.0;
    let cell_pad_y: f32 = 12.0;
    let row_height = font_size + cell_pad_y * 2.0;
    let outer_pad: f32 = 16.0;
    let mut col_widths: Vec<f32> =
        t.headers.iter().map(|h| h.chars().count() as f32 * advance).collect();
    for row in &t.rows {
        for (j, cell) in row.iter().enumerate() {
            if j < col_widths.len() {
                let w = cell.chars().count() as f32 * advance;
                if w > col_widths[j] {
                    col_widths[j] = w;
                }
            }
        }
    }
    for w in col_widths.iter_mut() {
        *w += cell_pad_x * 2.0;
    }
    let total_width = col_widths.iter().sum::<f32>() + outer_pad * 2.0;
    let total_rows = 1 + t.rows.len();
    let total_height = total_rows as f32 * row_height + outer_pad * 2.0;
    let mut img =
        RgbImage::from_pixel(total_width.ceil() as u32, total_height.ceil() as u32, rgb(theme.bg));
    draw_filled_rect_mut(
        &mut img,
        Rect::at(outer_pad as i32, outer_pad as i32)
            .of_size(total_width as u32 - outer_pad as u32 * 2, row_height as u32),
        rgb(theme.header_bg),
    );
    for i in 0..t.rows.len() {
        if i % 2 == 1 {
            let y = outer_pad + (i as f32 + 1.0) * row_height;
            draw_filled_rect_mut(
                &mut img,
                Rect::at(outer_pad as i32, y as i32)
                    .of_size(total_width as u32 - outer_pad as u32 * 2, row_height as u32),
                rgb(theme.alt_row_bg),
            );
        }
    }
    for i in 0..=total_rows {
        let y = outer_pad + i as f32 * row_height;
        draw_line_segment_mut(
            &mut img,
            (outer_pad, y),
            (total_width - outer_pad, y),
            rgb(theme.border),
        );
    }
    let mut x = outer_pad;
    for i in 0..=t.headers.len() {
        let bot_y = outer_pad + total_rows as f32 * row_height;
        draw_line_segment_mut(&mut img, (x, outer_pad), (x, bot_y), rgb(theme.border));
        if i < t.headers.len() {
            x += col_widths[i];
        }
    }
    img
}

#[test]
fn a_new_canvas_is_all_one_colour() {
    let c = Canvas::new(5, 3, Color::new(9, 8, 7)).unwrap();
    assert_eq!((c.width(), c.height()), (5, 3));
    assert_eq!(c.pixel(0, 0), Some(Color::new(9, 8, 7)));
    assert_eq!(c.pixel(4, 2), Some(Color::new(9, 8, 7)));
    assert_eq!(c.pixel(5, 2), None);
    assert_eq!(c.pixel(4, 3), None);
    let bytes = c.into_bytes();
    assert_eq!(bytes.len(), 45);
    assert!(bytes.chunks(3).all(|p| p == [9, 8, 7]));
}

#[test]
fn a_canvas_without_pixels_cannot_be_made() {
    assert!(Canvas::new(0, 10, Color::new(0, 0, 0)).is_none());
    assert!(Canvas::new(10, 0, Color::new(0, 0, 0)).is_none());
    assert!(Canvas::new(u32::MAX, 1, Color::new(0, 0, 0)).is_none());
    assert!(Canvas::new(1, 2_147_483_648, Color::new(0, 0, 0)).is_none());
    assert!(Canvas::new(2_147_483_647, 2_147_483_647, Color::new(0, 0, 0)).is_none());
    assert!(paint(0, 0, Color::new(0, 0, 0), &Vec::new()).is_none());
}

#[test]
fn a_rectangle_is_filled_row_by_row() {
    let bg = Color::new(1, 1, 1);
    let ink = Color::new(200, 100, 50);
    let mut c = Canvas::new(6, 5, bg).unwrap();
    c.fill_rect(rect(2, 1, 3, 2, ink));
    for y in 0..5 {
        for x in 0..6 {
            let inside = (2..5).contains(&x) && (1..3).contains(&y);
            assert_eq!(c.pixel(x, y), Some(if inside { ink } else { bg }), "({x}, {y})");
        }
    }
    let bytes = c.into_bytes();
    assert_eq!(&bytes[3 * (6 + 2)..3 * (6 + 2) + 3], &[200, 100, 50]);
    assert_eq!(&bytes[0..3], &[1, 1, 1]);
}

#[test]
fn rectangles_are_clipped_to_the_canvas() {
    let bg = Color::new(0, 0, 0);
    let ink = Color::new(255, 255, 255);
    let mut c = Canvas::new(4, 4, bg).unwrap();
    c.fill_rect(rect(2, 3, u32::MAX, u32::MAX, ink));
    c.fill_rect(rect(4, 0, 1, 1, ink));
    c.fill_rect(rect(0, 4, 1, 1, ink));
    c.fill_rect(rect(0, 0, 0, 4, ink));
    c.fill_rect(rect(0, 0, 4, 0, ink));
    c.fill_rect(rect(u32::MAX, u32::MAX, 1, 1, ink));
    for y in 0..4 {
        for x in 0..4 {
            let inside = x >= 2 && y == 3;
            assert_eq!(c.pixel(x, y), Some(if inside { ink } else { bg }), "({x}, {y})");
        }
    }
}

#[test]
fn later_shapes_lie_over_earlier_ones() {
    let a = Color::new(10, 0, 0);
    let b = Color::new(0, 20, 0);
    let shapes = vec![rect(0, 0, 3, 3, a), rect(1, 1, 3, 3, b)];
    let c = paint(4, 4, Color::new(0, 0, 0), &shapes).unwrap();
    assert_eq!(c.pixel(0, 0), Some(a));
    assert_eq!(c.pixel(1, 1), Some(b));
    assert_eq!(c.pixel(2, 2), Some(b));
    assert_eq!(c.pixel(3, 3), Some(b));
    assert_eq!(c.pixel(3, 0), Some(Color::new(0, 0, 0)));
}

#[test]
fn painting_agrees_with_the_drawing_crate() {
    let shapes = vec![
        rect(0, 0, 7, 2, Color::new(1, 2, 3)),
        rect(3, 1, 10, 10, Color::new(4, 5, 6)),
        rect(8, 0, 1, 6, Color::new(7, 8, 9)),
    ];
    let mut expected = RgbImage::from_pixel(9, 6, Rgb([0, 0, 0]));
    for s in &shapes {
        draw_filled_rect_mut(
            &mut expected,
            Rect::at(s.left as i32, s.top as i32).of_size(s.width, s.height),
            rgb(s.color),
        );
    }
    let c = paint(9, 6, Color::new(0, 0, 0), &shapes).unwrap();
    assert_eq!(c.into_bytes(), expected.into_raw());
}

#[test]
fn two_by_two_table_shapes() {
    let t = table(&["a", "b"], &[&["1", "2"]]);
    let m = GlyphMetrics::new(24, 1, 600, 1000).unwrap();
    let theme = dark_theme();
    let layout = table_layout(&t, &m).unwrap();
    let shapes = table_shapes(&layout, &theme);
    assert_eq!(
        shapes,
        vec![
            rect(16, 16, 108, 48, theme.header_bg),
            rect(16, 16, 109, 1, theme.border),
            rect(16, 64, 109, 1, theme.border),
            rect(16, 112, 109, 1, theme.border),
            rect(16, 16, 1, 97, theme.border),
            rect(70, 16, 1, 97, theme.border),
            rect(124, 16, 1, 97, theme.border),
        ]
    );
    let text: Vec<(u32, u32, Color, String)> =
        table_text(&t, &layout, &theme).into_iter().map(|r| (r.x, r.y, r.color, r.text)).collect();
    assert_eq!(
        text,
        vec![
            (36, 28, theme.header_text, "a".to_string()),
            (90, 28, theme.header_text, "b".to_string()),
            (36, 76, theme.text, "1".to_string()),
            (90, 76, theme.text, "2".to_string()),
        ]
    );
}

#[test]
fn every_second_data_row_is_striped() {
    let t = table(&["k"], &[&["0"], &["1"], &["2"], &["3"], &["4"]]);
    let m = GlyphMetrics::new(20, 1, 600, 1000).unwrap();
    let theme = light_theme();
    let layout = table_layout(&t, &m).unwrap();
    let shapes = table_shapes(&layout, &theme);
    let stripes: Vec<&FilledRect> =
        shapes.iter().filter(|s| s.color == theme.alt_row_bg).collect();
    assert_eq!(stripes.len(), 2);
    assert_eq!((stripes[0].top, stripes[0].height), (16 + 2 * 44, 44));
    assert_eq!((stripes[1].top, stripes[1].height), (16 + 4 * 44, 44));
    assert_eq!(shapes.len(), 1 + 2 + 7 + 2);
    let picture = render_table(&t, &m, &theme).unwrap();
    let x = layout.edges[0] + 5;
    assert_eq!(picture.canvas.pixel(x, 16 + 22), Some(theme.header_bg));
    assert_eq!(picture.canvas.pixel(x, 16 + 44 + 22), Some(theme.bg));
    assert_eq!(picture.canvas.pixel(x, 16 + 2 * 44 + 22), Some(theme.alt_row_bg));
    assert_eq!(picture.canvas.pixel(x, 16 + 3 * 44 + 22), Some(theme.bg));
    assert_eq!(picture.canvas.pixel(x, 16 + 4 * 44 + 22), Some(theme.alt_row_bg));
    assert_eq!(picture.canvas.pixel(x, 16 + 5 * 44 + 22), Some(theme.bg));
    assert_eq!(picture.canvas.pixel(x, 16 + 2 * 44), Some(theme.border));
    assert_eq!(picture.canvas.pixel(16, 16 + 22), Some(theme.border));
    assert_eq!(picture.canvas.pixel(3, 3), Some(theme.bg));
}

#[test]
fn table_background_agrees_with_float_painting() {
    let tables = [
        table(&["a", "b"], &[&["1", "2"]]),
        table(&["Name", "Quantity", "Note"], &[&["nut", "3"], &["bolt", "12", "m4x20", "extra"], &[], &["washer", "100", "-"]]),
        table(&["only"], &[]),
    ];
    for t in &tables {
        for (num, den, units, height) in [
            (24u32, 1u16, 600u16, 1000u16),
            (20, 1, 1233, 2048),
            (31, 1, 600, 1320),
            (27, 2, 600, 1000),
            (97, 4, 1233, 2048),
            (111, 8, 1024, 2048),
        ] {
            for theme in [dark_theme(), light_theme()] {
                let m = GlyphMetrics::new(num, den, units, height).unwrap();
                let picture = render_table(t, &m, &theme).unwrap();
                let size = num as f32 / den as f32;
                let advance = size / height as f32 * units as f32;
                let expected = painted_with_floats(t, size, advance, &theme);
                assert_eq!(picture.canvas.width(), expected.width());
                assert_eq!(picture.canvas.height(), expected.height());
                assert_eq!(picture.canvas.into_bytes(), expected.into_raw());
            }
        }
    }
}

#[test]
fn short_rows_leave_their_last_cells_blank() {
    let t = table(&["a", "bb", "ccc"], &[&["1", "2", "3"], &["x"], &["p", "q", "r", "s"]]);
    let m = GlyphMetrics::new(24, 1, 600, 1000).unwrap();
    let theme = dark_theme();
    let picture = render_table(&t, &m, &theme).unwrap();
    let layout = table_layout(&t, &m).unwrap();
    let at = |text: &str| -> Vec<(u32, u32)> {
        picture.text.iter().filter(|r| r.text == text).map(|r| (r.x, r.y)).collect()
    };
    assert_eq!(picture.text.len(), 3 + 3 + 1 + 3);
    assert_eq!(at("x"), vec![(layout.edges[0] + 20, 16 + 2 * 48 + 12)]);
    assert_eq!(at("1"), vec![(layout.edges[0] + 20, 16 + 48 + 12)]);
    assert_eq!(at("3"), vec![(layout.edges[2] + 20, 16 + 48 + 12)]);
    assert_eq!(at("r"), vec![(layout.edges[2] + 20, 16 + 3 * 48 + 12)]);
    assert!(at("s").is_empty());
}

#[test]
fn rendering_twice_gives_the_same_picture() {
    let t = table(&["Name", "Quantity"], &[&["nut", "3"], &["bolt", "12"]]);
    let m = GlyphMetrics::new(24, 1, 600, 1000).unwrap();
    let a = render_table(&t, &m, &dark_theme()).unwrap();
    let b = render_table(&t, &m, &dark_theme()).unwrap();
    let texts = |p: &text2img::render::Picture| -> Vec<(u32, u32, Color, String)> {
        p.text.iter().map(|r| (r.x, r.y, r.color, r.text.clone())).collect()
    };
    assert_eq!(texts(&a), texts(&b));
    assert_eq!(a.canvas.into_bytes(), b.canvas.into_bytes());
}

#[test]
fn empty_code_is_an_empty_canvas() {
    let bg = Color::new(43, 48, 59);
    let m = GlyphMetrics::new(28, 1, 600, 1000).unwrap();
    let picture = render_code(&Vec::new(), &m, bg).unwrap();
    assert_eq!((picture.canvas.width(), picture.canvas.height()), (400, 100));
    assert!(picture.text.is_empty());
    let bytes = picture.canvas.into_bytes();
    assert_eq!(bytes.len(), 400 * 100 * 3);
    assert!(bytes.chunks(3).all(|p| p == [43, 48, 59]));
}

#[test]
fn code_is_rendered_on_its_background() {
    let bg = Color::new(0, 43, 54);
    let m = GlyphMetrics::new(28, 1, 1233, 2048).unwrap();
    let lines = vec![
        vec![
            StyledSpan { text: "let".to_string(), foreground: Color::new(1, 1, 1) },
            StyledSpan { text: " x = 1;\n".to_string(), foreground: Color::new(2, 2, 2) },
        ],
        vec![StyledSpan { text: "x".repeat(40), foreground: Color::new(3, 3, 3) }],
    ];
    let picture = render_code(&lines, &m, bg).unwrap();
    assert_eq!(picture.canvas.width(), 64 + 674);
    assert_eq!(picture.canvas.height(), 2 * 42 + 64);
    let runs: Vec<(u32, u32, &str)> =
        picture.text.iter().map(|r| (r.x, r.y, r.text.as_str())).collect();
    assert_eq!(runs, vec![(32, 32, "let"), (32 + 50, 32, " x = 1;"), (32, 74, &"x".repeat(40))]);
    assert_eq!(picture.canvas.pixel(0, 0), Some(bg));
    assert_eq!(picture.canvas.pixel(737, 147), Some(bg));
}

#[test]
fn every_shape_lies_in_the_canvas() {
    let t = table(&["Name", "Quantity", "Note"], &[&["nut", "3"], &["bolt", "12", "m4x20"], &["washer"]]);
    for (size, units, height) in [(24u32, 600u16, 1000u16), (20, 1233, 2048), (9, 1, 7)] {
        let m = GlyphMetrics::new(size, 1, units, height).unwrap();
        let layout = table_layout(&t, &m).unwrap();
        for s in table_shapes(&layout, &dark_theme()) {
            assert!(s.width > 0 && s.height > 0);
            assert!(s.left + s.width <= layout.width);
            assert!(s.top + s.height <= layout.height);
        }
    }
}
