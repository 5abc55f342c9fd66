use vstd::prelude::*;
use vstd::math::min;
use crate::canvas::{
    canvas_bytes, canvas_height, canvas_width, painted, size_allowed, solid, Canvas,
};
use crate::color::Color;
use crate::draw::{FilledRect, TextRun, TextRunView};
use crate::error::RenderError;
use crate::grid::{
    grid_of, lemma_blank_cell_keeps_grid, lemma_edges_ordered, lemma_rows_ordered, table_height, table_layout, table_width, Grid, TableLayout,
    with_blank_cell, CELL_PAD_X, CELL_PAD_Y, OUTER_PAD,
};
use crate::lines::{
    code_height, code_layout, code_runs, code_width, lemma_empty_code_layout, SpanView,
    StyledSpan, MIN_HEIGHT, MIN_WIDTH,
};
use crate::metrics::{GlyphMetrics, MAX_SIDE};
use crate::table::{Table, TableView};
use crate::theme::TableTheme;

verus! {

/// The background of the header row: from the left of the grid to its
/// right, one row high.
pub open spec fn header_band(g: Grid, th: TableTheme) -> FilledRect {
    FilledRect {
        left: OUTER_PAD,
        top: OUTER_PAD,
        width: (g.right() - OUTER_PAD) as u32,
        height: g.band as u32,
        color: th.header_bg,
    }
}

/// The background of the data row with index `2 * k + 1`: every second
/// data row, from the second on, has the alternate colour.
pub open spec fn stripe(g: Grid, th: TableTheme, k: int) -> FilledRect {
    FilledRect {
        left: OUTER_PAD,
        top: g.tops[2 * k + 2] as u32,
        width: (g.right() - OUTER_PAD) as u32,
        height: g.band as u32,
        color: th.alt_row_bg,
    }
}

/// The grid line above row `i`, one pixel thick, from the first grid
/// column to the last, both taken in. With `i` the number of rows it is
/// the line below the last row.
pub open spec fn row_line(g: Grid, th: TableTheme, i: int) -> FilledRect {
    FilledRect {
        left: OUTER_PAD,
        top: g.tops[i] as u32,
        width: (g.right() - OUTER_PAD + 1) as u32,
        height: 1,
        color: th.border,
    }
}

/// The grid line at the left of column `j`, one pixel thick, from the top
/// of the grid to its bottom, both taken in. With `j` the number of
/// columns it is the line at the right of the last column.
pub open spec fn column_line(g: Grid, th: TableTheme, j: int) -> FilledRect {
    FilledRect {
        left: g.edges[j] as u32,
        top: OUTER_PAD,
        width: 1,
        height: (g.bottom() - OUTER_PAD + 1) as u32,
        color: th.border,
    }
}

/// The alternate backgrounds of the data rows, from the top down.
pub open spec fn stripes(g: Grid, th: TableTheme) -> Seq<FilledRect> {
    Seq::new((g.rows() / 2) as nat, |k: int| stripe(g, th, k))
}

/// The horizontal grid lines, from the top down: one more than there are
/// rows, the header row counted.
pub open spec fn row_lines(g: Grid, th: TableTheme) -> Seq<FilledRect> {
    Seq::new(g.tops.len(), |i: int| row_line(g, th, i))
}

/// The vertical grid lines, from left to right: one more than there are
/// columns.
pub open spec fn column_lines(g: Grid, th: TableTheme) -> Seq<FilledRect> {
    Seq::new(g.edges.len(), |j: int| column_line(g, th, j))
}

/// Everything that is filled on the background of a table picture, in the
/// order in which it is filled: the header background, the alternate row
/// backgrounds, the horizontal grid lines, the vertical grid lines.
pub open spec fn grid_shapes(g: Grid, th: TableTheme) -> Seq<FilledRect> {
    seq![header_band(g, th)] + stripes(g, th) + row_lines(g, th) + column_lines(g, th)
}

/// The texts of the header cells, each at the cell padding from the top
/// left corner of its cell.
pub open spec fn header_runs(t: TableView, g: Grid, th: TableTheme) -> Seq<TextRunView> {
    Seq::new(
        t.headers.len(),
        |j: int|
            TextRunView {
                x: g.edges[j] + CELL_PAD_X,
                y: OUTER_PAD + CELL_PAD_Y,
                color: th.header_text,
                text: t.headers[j],
            },
    )
}

/// The texts of the cells of data row `i`, each at the cell padding from
/// the top left corner of its cell. A row gives no text for a column that
/// it has no cell for, and none for a cell beyond the last column.
pub open spec fn row_runs(t: TableView, g: Grid, th: TableTheme, i: int) -> Seq<TextRunView> {
    Seq::new(
        min(t.rows[i].len() as int, t.headers.len() as int) as nat,
        |j: int|
            TextRunView {
                x: g.edges[j] + CELL_PAD_X,
                y: g.tops[i + 1] + CELL_PAD_Y,
                color: th.text,
                text: t.rows[i][j],
            },
    )
}

/// The texts of the first `n` data rows, row after row.
pub open spec fn body_runs(t: TableView, g: Grid, th: TableTheme, n: int) -> Seq<TextRunView>
    decreases n,
{
    if n <= 0 {
        Seq::empty()
    } else {
        body_runs(t, g, th, n - 1) + row_runs(t, g, th, n - 1)
    }
}

/// All the texts of a table picture: the header cells, then the data rows.
pub open spec fn table_runs(t: TableView, g: Grid, th: TableTheme) -> Seq<TextRunView> {
    header_runs(t, g, th) + body_runs(t, g, th, t.rows.len() as int)
}

/// The bytes of the background of a table picture: the canvas in the
/// theme's background with the grid's shapes filled on it.
pub open spec fn table_pixels(t: TableView, m: GlyphMetrics, th: TableTheme) -> Seq<u8> {
    let g = grid_of(t, m);
    painted(solid(g.width, g.height, th.bg), g.width, grid_shapes(g, th))
}

/// A picture that is ready but for its text: the canvas with everything
/// that is filled, and the texts that are to be drawn on it, in order.
pub struct Picture {
    pub canvas: Canvas,
    pub text: Vec<TextRun>,
}

/// Whether `p` is the picture of table `t` with metrics `m` in theme `th`.
pub open spec fn is_table_picture(t: TableView, m: GlyphMetrics, th: TableTheme, p: Picture) -> bool {
    &&& p.canvas.wf()
    &&& canvas_width(p.canvas) == table_width(t, m)
    &&& canvas_height(p.canvas) == table_height(t, m)
    &&& canvas_bytes(p.canvas) == table_pixels(t, m, th)
    &&& p.text.deep_view() == table_runs(t, grid_of(t, m), th)
}

/// Whether `p` is the picture of the code `lines` with metrics `m` on the
/// background `bg`.
pub open spec fn is_code_picture(
    lines: Seq<Seq<SpanView>>,
    m: GlyphMetrics,
    bg: Color,
    p: Picture,
) -> bool {
    &&& p.canvas.wf()
    &&& canvas_width(p.canvas) == code_width(lines, m)
    &&& canvas_height(p.canvas) == code_height(lines, m)
    &&& canvas_bytes(p.canvas) == solid(code_width(lines, m), code_height(lines, m), bg)
    &&& p.text.deep_view() == code_runs(lines, m)
}

/// The shapes of a table picture, in the order in which they are filled.
pub fn table_shapes(layout: &TableLayout, theme: &TableTheme) -> (shapes: Vec<FilledRect>)
    requires
        layout@.wf(),
    ensures
        shapes@ == grid_shapes(layout@, *theme),
{
    let ghost g = layout@;
    let ghost th = *theme;
    let columns: usize = layout.edges.len() - 1;
    let right: u32 = layout.edges[columns];
    let rows: usize = layout.tops.len() - 2;
    let band: u32 = layout.band_height;
    proof {
        lemma_edges_ordered(g, 0);
        lemma_rows_ordered(g, 0);
        assert(g.right() == right);
    }
    let mut shapes: Vec<FilledRect> = Vec::new();
    shapes.push(
        FilledRect {
            left: OUTER_PAD,
            top: OUTER_PAD,
            width: right - OUTER_PAD,
            height: band,
            color: theme.header_bg,
        },
    );
    proof {
        assert(shapes@ =~= seq![header_band(g, th)] + Seq::new(0, |k: int| stripe(g, th, k)));
    }
    let mut i: usize = 0;
    while i < rows
        invariant
            i <= rows,
            g == layout@,
            th == *theme,
            g.wf(),
            rows == g.rows(),
            rows + 2 == layout.tops.len(),
            band == g.band,
            right == g.right(),
            right >= OUTER_PAD,
            shapes@ == seq![header_band(g, th)] + Seq::new((i / 2) as nat, |k: int| stripe(g, th, k)),
        decreases rows - i,
    {
        if i % 2 == 1 {
            let top: u32 = layout.tops[i + 1];
            let ghost before = shapes@;
            shapes.push(
                FilledRect {
                    left: OUTER_PAD,
                    top,
                    width: right - OUTER_PAD,
                    height: band,
                    color: theme.alt_row_bg,
                },
            );
            proof {
                let k = (i / 2) as int;
                assert(2 * k + 2 == i + 1);
                assert(shapes@ == before.push(stripe(g, th, k)));
                assert(shapes@ =~= seq![header_band(g, th)] + Seq::new(
                    ((i + 1) / 2) as nat,
                    |k: int| stripe(g, th, k),
                ));
            }
        }
        i += 1;
    }
    let ghost first = seq![header_band(g, th)] + stripes(g, th);
    proof {
        assert(shapes@ == first);
        assert(shapes@ =~= first + Seq::new(0, |i: int| row_line(g, th, i)));
    }
    let mut i: usize = 0;
    while i < layout.tops.len()
        invariant
            i <= layout.tops.len(),
            g == layout@,
            th == *theme,
            g.wf(),
            right == g.right(),
            right >= OUTER_PAD,
            right + OUTER_PAD <= MAX_SIDE,
            shapes@ == first + Seq::new(i as nat, |i: int| row_line(g, th, i)),
        decreases layout.tops.len() - i,
    {
        let ghost before = shapes@;
        shapes.push(
            FilledRect {
                left: OUTER_PAD,
                top: layout.tops[i],
                width: right - OUTER_PAD + 1,
                height: 1,
                color: theme.border,
            },
        );
        proof {
            assert(shapes@ == before.push(row_line(g, th, i as int)));
            assert(shapes@ =~= first + Seq::new((i + 1) as nat, |i: int| row_line(g, th, i)));
        }
        i += 1;
    }
    let ghost second = first + row_lines(g, th);
    proof {
        lemma_rows_ordered(g, g.rows() + 1);
        assert(shapes@ == second);
        assert(shapes@ =~= second + Seq::new(0, |j: int| column_line(g, th, j)));
    }
    let tall: u32 = layout.tops[rows + 1] - OUTER_PAD + 1;
    let mut j: usize = 0;
    while j <= columns
        invariant
            j <= columns + 1,
            columns + 1 == layout.edges.len(),
            g == layout@,
            th == *theme,
            g.wf(),
            tall == g.bottom() - OUTER_PAD + 1,
            shapes@ == second + Seq::new(j as nat, |j: int| column_line(g, th, j)),
        decreases columns + 1 - j,
    {
        let ghost before = shapes@;
        shapes.push(
            FilledRect {
                left: layout.edges[j],
                top: OUTER_PAD,
                width: 1,
                height: tall,
                color: theme.border,
            },
        );
        proof {
            assert(shapes@ == before.push(column_line(g, th, j as int)));
            assert(shapes@ =~= second + Seq::new((j + 1) as nat, |j: int| column_line(g, th, j)));
        }
        j += 1;
    }
    proof {
        assert(shapes@ == second + column_lines(g, th));
    }
    shapes
}

/// The texts of a table picture, in the order in which they are drawn.
pub fn table_text(table: &Table, layout: &TableLayout, theme: &TableTheme) -> (runs: Vec<TextRun>)
    requires
        layout@.wf(),
        layout.edges.len() == table.headers.len() + 1,
        layout.tops.len() == table.rows.len() + 2,
    ensures
        runs.deep_view() == table_runs(table@, layout@, *theme),
{
    let ghost g = layout@;
    let ghost t = table@;
    let ghost th = *theme;
    let columns = table.headers.len();
    let mut runs: Vec<TextRun> = Vec::new();
    let mut j: usize = 0;
    while j < columns
        invariant
            j <= columns,
            columns == table.headers.len(),
            layout.edges.len() == columns + 1,
            g == layout@,
            t == table@,
            th == *theme,
            g.wf(),
            runs.len() == j,
            forall|k: int| 0 <= k < j ==> (#[trigger] runs@[k])@ == header_runs(t, g, th)[k],
        decreases columns - j,
    {
        proof {
            lemma_edges_ordered(g, j as int);
        }
        runs.push(
            TextRun {
                x: layout.edges[j] + CELL_PAD_X,
                y: OUTER_PAD + CELL_PAD_Y,
                color: theme.header_text,
                text: table.headers[j].clone(),
            },
        );
        j += 1;
    }
    proof {
        assert(runs.deep_view() =~= header_runs(t, g, th) + body_runs(t, g, th, 0));
    }
    let mut i: usize = 0;
    while i < table.rows.len()
        invariant
            i <= table.rows.len(),
            columns == table.headers.len(),
            layout.edges.len() == columns + 1,
            layout.tops.len() == table.rows.len() + 2,
            g == layout@,
            t == table@,
            th == *theme,
            g.wf(),
            runs.deep_view() == header_runs(t, g, th) + body_runs(t, g, th, i as int),
        decreases table.rows.len() - i,
    {
        let row = &table.rows[i];
        let cells: usize = if row.len() < columns {
            row.len()
        } else {
            columns
        };
        proof {
            lemma_rows_ordered(g, i + 1);
            assert(t.rows[i as int] == row.deep_view());
        }
        let y: u32 = layout.tops[i + 1] + CELL_PAD_Y;
        let ghost start = runs.deep_view();
        let mut j: usize = 0;
        while j < cells
            invariant
                j <= cells,
                cells <= columns,
                cells <= row.len(),
                cells == min(t.rows[i as int].len() as int, t.headers.len() as int),
                i < table.rows.len(),
                row == &table.rows[i as int],
                columns == table.headers.len(),
                layout.edges.len() == columns + 1,
                g == layout@,
                t == table@,
                th == *theme,
                g.wf(),
                y == g.tops[i + 1] + CELL_PAD_Y,
                runs.deep_view() == start + row_runs(t, g, th, i as int).take(j as int),
            decreases cells - j,
        {
            proof {
                lemma_edges_ordered(g, j as int);
                assert(t.rows[i as int] == row.deep_view());
            }
            let ghost before = runs.deep_view();
            let run = TextRun {
                x: layout.edges[j] + CELL_PAD_X,
                y,
                color: theme.text,
                text: row[j].clone(),
            };
            runs.push(run);
            proof {
                assert(runs.deep_view() =~= before.push(run@));
                assert(run@ == row_runs(t, g, th, i as int)[j as int]);
                assert(runs.deep_view() =~= start + row_runs(t, g, th, i as int).take(j + 1));
            }
            j += 1;
        }
        proof {
            assert(row_runs(t, g, th, i as int).take(cells as int) =~= row_runs(
                t,
                g,
                th,
                i as int,
            ));
            assert(runs.deep_view() =~= header_runs(t, g, th) + body_runs(t, g, th, i + 1));
        }
        i += 1;
    }
    runs
}

/// A canvas in one colour with `shapes` filled on it one after the other,
/// where a canvas of that size can be made.
pub fn paint(width: u32, height: u32, background: Color, shapes: &Vec<FilledRect>) -> (c: Option<
    Canvas,
>)
    ensures
        c is Some <==> size_allowed(width as int, height as int),
        c is Some ==> {
            &&& c->0.wf()
            &&& canvas_width(c->0) == width
            &&& canvas_height(c->0) == height
            &&& canvas_bytes(c->0) == painted(
                solid(width as int, height as int, background),
                width as int,
                shapes@,
            )
        },
{
    let mut canvas = match Canvas::new(width, height, background) {
        Some(c) => c,
        None => {
            return None;
        },
    };
    let mut k: usize = 0;
    while k < shapes.len()
        invariant
            k <= shapes.len(),
            canvas.wf(),
            canvas_width(canvas) == width,
            canvas_height(canvas) == height,
            canvas_bytes(canvas) == painted(
                solid(width as int, height as int, background),
                width as int,
                shapes@.take(k as int),
            ),
        decreases shapes.len() - k,
    {
        proof {
            assert(shapes@.take(k + 1).drop_last() =~= shapes@.take(k as int));
        }
        canvas.fill_rect(shapes[k]);
        k += 1;
    }
    proof {
        assert(shapes@.take(k as int) =~= shapes@);
    }
    Some(canvas)
}

/// Renders a table, all but its text: lays it out, fills the canvas with
/// the theme's background, then the header background, the alternate row
/// backgrounds and the grid lines, and lists the texts of the cells with
/// their places. Fails where no canvas of the table's size can be made.
pub fn render_table(table: &Table, metrics: &GlyphMetrics, theme: &TableTheme) -> (r: Result<
    Picture,
    RenderError,
>)
    requires
        table.wf(),
        metrics.wf(),
    ensures
        r is Ok <==> size_allowed(table_width(table@, *metrics), table_height(table@, *metrics)),
        r is Err ==> r->Err_0 == RenderError::CanvasTooLarge,
        r is Ok ==> is_table_picture(table@, *metrics, *theme, r->Ok_0),
{
    let layout = match table_layout(table, metrics) {
        Ok(l) => l,
        Err(e) => {
            return Err(RenderError::CanvasTooLarge);
        },
    };
    proof {
        assert(layout@.edges.len() == layout.edges.len());
        assert(layout@.tops.len() == layout.tops.len());
    }
    let shapes = table_shapes(&layout, theme);
    let canvas = match paint(layout.width, layout.height, theme.bg, &shapes) {
        Some(c) => c,
        None => {
            return Err(RenderError::CanvasTooLarge);
        },
    };
    let text = table_text(table, &layout, theme);
    Ok(Picture { canvas, text })
}

/// Renders highlighted code, all but its text: lays it out, fills the
/// canvas with the background, and lists the texts of the spans with their
/// places and colours. Fails where no canvas of the code's size can be
/// made.
pub fn render_code(lines: &Vec<Vec<StyledSpan>>, metrics: &GlyphMetrics, background: Color) -> (r:
    Result<Picture, RenderError>)
    requires
        metrics.wf(),
    ensures
        r is Ok <==> size_allowed(
            code_width(lines.deep_view(), *metrics),
            code_height(lines.deep_view(), *metrics),
        ),
        r is Err ==> r->Err_0 == RenderError::CanvasTooLarge,
        r is Ok ==> is_code_picture(lines.deep_view(), *metrics, background, r->Ok_0),
{
    let layout = match code_layout(lines, metrics) {
        Ok(l) => l,
        Err(e) => {
            return Err(RenderError::CanvasTooLarge);
        },
    };
    let canvas = match Canvas::new(layout.width, layout.height, background) {
        Some(c) => c,
        None => {
            return Err(RenderError::CanvasTooLarge);
        },
    };
    Ok(Picture { canvas, text: layout.runs })
}

/// Rendering is a function of its input: two pictures of the same table
/// with the same metrics in the same theme have the same size, the same
/// bytes and the same texts at the same places.
pub proof fn lemma_table_picture_unique(
    t: TableView,
    m: GlyphMetrics,
    th: TableTheme,
    a: Picture,
    b: Picture,
)
    requires
        is_table_picture(t, m, th, a),
        is_table_picture(t, m, th, b),
    ensures
        canvas_width(a.canvas) == canvas_width(b.canvas),
        canvas_height(a.canvas) == canvas_height(b.canvas),
        canvas_bytes(a.canvas) == canvas_bytes(b.canvas),
        a.text.deep_view() == b.text.deep_view(),
{
}

/// Rendering is a function of its input: two pictures of the same code
/// with the same metrics on the same background have the same size, the
/// same bytes and the same texts at the same places.
pub proof fn lemma_code_picture_unique(
    lines: Seq<Seq<SpanView>>,
    m: GlyphMetrics,
    bg: Color,
    a: Picture,
    b: Picture,
)
    requires
        is_code_picture(lines, m, bg, a),
        is_code_picture(lines, m, bg, b),
    ensures
        canvas_width(a.canvas) == canvas_width(b.canvas),
        canvas_height(a.canvas) == canvas_height(b.canvas),
        canvas_bytes(a.canvas) == canvas_bytes(b.canvas),
        a.text.deep_view() == b.text.deep_view(),
{
}

/// The picture of no code at all has the least size, is all background,
/// and has no text.
pub proof fn lemma_empty_code_picture(m: GlyphMetrics, bg: Color, p: Picture)
    requires
        m.wf(),
        is_code_picture(Seq::empty(), m, bg, p),
    ensures
        canvas_width(p.canvas) == MIN_WIDTH,
        canvas_height(p.canvas) == MIN_HEIGHT,
        canvas_bytes(p.canvas) == solid(MIN_WIDTH as int, MIN_HEIGHT as int, bg),
        p.text.len() == 0,
{
    lemma_empty_code_layout(m);
    assert(p.text.deep_view().len() == p.text.len());
}

/// A data row gives one text for each of its cells that has a column,
/// and the text of its cell in column `j` starts where the header text of
/// that column starts, however many cells the row has.
pub proof fn lemma_row_text_stays_in_column(t: TableView, g: Grid, th: TableTheme, i: int, j: int)
    requires
        0 <= i < t.rows.len(),
        0 <= j < t.rows[i].len(),
        j < t.headers.len(),
    ensures
        row_runs(t, g, th, i).len() == min(t.rows[i].len() as int, t.headers.len() as int),
        row_runs(t, g, th, i)[j].x == g.edges[j] + CELL_PAD_X,
        row_runs(t, g, th, i)[j].x == header_runs(t, g, th)[j].x,
        row_runs(t, g, th, i)[j].text == t.rows[i][j],
{
}

/// A row with fewer cells than the table has columns is painted as if its
/// missing cells were there and empty: with a blank cell at the end of a
/// row the picture has the same size and the same bytes.
pub proof fn lemma_blank_cell_keeps_pixels(t: TableView, m: GlyphMetrics, th: TableTheme, i: int)
    requires
        0 <= i < t.rows.len(),
    ensures
        table_width(with_blank_cell(t, i), m) == table_width(t, m),
        table_height(with_blank_cell(t, i), m) == table_height(t, m),
        table_pixels(with_blank_cell(t, i), m, th) == table_pixels(t, m, th),
{
    lemma_blank_cell_keeps_grid(t, m, i);
    assert(grid_of(with_blank_cell(t, i), m).width == grid_of(t, m).width);
    assert(grid_of(with_blank_cell(t, i), m).height == grid_of(t, m).height);
}

/// Everything that is filled lies in the picture: the header background,
/// every alternate row background and every grid line of a well-formed
/// grid has a width and a height and does not reach beyond the canvas.
pub proof fn lemma_shapes_inside(g: Grid, th: TableTheme, k: int, i: int, j: int)
    requires
        g.wf(),
    ensures
        header_band(g, th).inside(g.width, g.height),
        header_band(g, th).width > 0 && header_band(g, th).height > 0,
        0 <= k < g.rows() / 2 ==> stripe(g, th, k).inside(g.width, g.height),
        0 <= i <= g.rows() + 1 ==> row_line(g, th, i).inside(g.width, g.height),
        0 <= j <= g.columns() ==> column_line(g, th, j).inside(g.width, g.height),
{
    lemma_edges_ordered(g, 0);
    lemma_rows_ordered(g, 0);
    if 0 <= k < g.rows() / 2 {
        lemma_rows_ordered(g, 2 * k + 2);
    }
    if 0 <= i <= g.rows() + 1 {
        lemma_rows_ordered(g, i);
    }
    if 0 <= j <= g.columns() {
        lemma_edges_ordered(g, j);
    }
}

} // verus!
