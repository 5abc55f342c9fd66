use vstd::prelude::*;
use vstd::arithmetic::div_mod::{
    lemma_div_is_ordered, lemma_div_pos_is_pos, lemma_hoist_over_denominator,
};
use vstd::arithmetic::mul::{lemma_mul_inequality, lemma_mul_nonnegative};
use vstd::math::max;
use crate::error::RenderError;
use crate::metrics::{
    lemma_denominator_positive, lemma_div_superadditive, GlyphMetrics, MAX_SIDE,
};
use crate::table::{Table, TableView};
use crate::text::char_count;

verus! {

/// The blank space between the side of a cell and its text, in pixels.
pub const CELL_PAD_X: u32 = 20;

/// The blank space between the top of a cell and its text, and below the
/// text, in pixels.
pub const CELL_PAD_Y: u32 = 12;

/// The blank margin round the grid, in pixels.
pub const OUTER_PAD: u32 = 16;

/// The number of characters in cell `j` of `row`; a cell that the row does
/// not have counts as empty.
pub open spec fn cell_chars(row: Seq<Seq<char>>, j: int) -> nat {
    if 0 <= j < row.len() {
        row[j].len()
    } else {
        0
    }
}

/// The number of characters in the longest cell that `rows` have in
/// column `j`.
pub open spec fn widest_cell(rows: Seq<Seq<Seq<char>>>, j: int) -> nat
    decreases rows.len(),
{
    if rows.len() == 0 {
        0
    } else {
        max(widest_cell(rows.drop_last(), j) as int, cell_chars(rows.last(), j) as int) as nat
    }
}

/// The number of characters in the longest cell of column `j`, the header
/// cell among them.
pub open spec fn column_chars(t: TableView, j: int) -> nat {
    max(cell_chars(t.headers, j) as int, widest_cell(t.rows, j) as int) as nat
}

/// The width of column `j` in sub-pixels: its longest cell and the cell
/// padding on both sides.
pub open spec fn column_width(t: TableView, m: GlyphMetrics, j: int) -> int {
    m.measure(column_chars(t, j) as int) + 2 * CELL_PAD_X * m.advance_den()
}

/// Where column `j` starts, in sub-pixels from the left of the picture:
/// the outer padding and the widths of the columns before it. With `j` the
/// number of columns this is where the grid ends.
pub open spec fn column_start(t: TableView, m: GlyphMetrics, j: int) -> int
    decreases j,
{
    if j <= 0 {
        OUTER_PAD * m.advance_den()
    } else {
        column_start(t, m, j - 1) + column_width(t, m, j - 1)
    }
}

/// The pixel column of the grid line at the left of column `j`.
pub open spec fn column_edge(t: TableView, m: GlyphMetrics, j: int) -> int {
    column_start(t, m, j) / m.advance_den()
}

/// The width of the picture of a table: all the columns and the outer
/// padding on both sides, rounded up to whole pixels.
pub open spec fn table_width(t: TableView, m: GlyphMetrics) -> int {
    let d = m.advance_den();
    (column_start(t, m, t.headers.len() as int) + OUTER_PAD * d + d - 1) / d
}

/// The height of every row, the header row too, in sub-pixels of which
/// `size_den` make one pixel: the font size and the cell padding above and
/// below.
pub open spec fn row_height(m: GlyphMetrics) -> int {
    m.size_num + 2 * CELL_PAD_Y * m.size_den
}

/// Where row `i` starts, in sub-pixels from the top of the picture: the
/// outer padding and the rows above it. The header row is row 0; with `i`
/// the number of rows this is where the grid ends.
pub open spec fn row_start(m: GlyphMetrics, i: int) -> int {
    OUTER_PAD * m.size_den + i * row_height(m)
}

/// The pixel row of the grid line above row `i`.
pub open spec fn row_top(m: GlyphMetrics, i: int) -> int {
    row_start(m, i) / (m.size_den as int)
}

/// The whole pixels of the height of a row: as high as the background of
/// a row is filled.
pub open spec fn band_height(m: GlyphMetrics) -> int {
    row_height(m) / (m.size_den as int)
}

/// The height of the picture of a table: the header row, the data rows and
/// the outer padding above and below, rounded up to whole pixels.
pub open spec fn table_height(t: TableView, m: GlyphMetrics) -> int {
    let d = m.size_den as int;
    (row_start(m, 1 + t.rows.len() as int) + OUTER_PAD * d + d - 1) / d
}

/// Whether the picture of a table is no larger than a canvas can be.
pub open spec fn table_fits(t: TableView, m: GlyphMetrics) -> bool {
    table_width(t, m) <= MAX_SIDE && table_height(t, m) <= MAX_SIDE
}

/// The geometry of a table picture. `edges` holds the pixel column of
/// every vertical grid line, from the left of the first column to the
/// right of the last. `tops` holds the pixel row of every horizontal grid
/// line, from the top of the header row to the bottom of the last row.
/// The background of a row is filled `band_height` pixels high.
#[derive(Clone, Debug)]
pub struct TableLayout {
    pub width: u32,
    pub height: u32,
    pub band_height: u32,
    pub tops: Vec<u32>,
    pub edges: Vec<u32>,
}

/// What a `TableLayout` stands for: the same geometry in unbounded numbers.
pub struct Grid {
    pub width: int,
    pub height: int,
    pub band: int,
    pub tops: Seq<int>,
    pub edges: Seq<int>,
}

impl Grid {
    /// The number of columns.
    pub open spec fn columns(&self) -> int {
        self.edges.len() - 1
    }

    /// The number of data rows.
    pub open spec fn rows(&self) -> int {
        self.tops.len() - 2
    }

    /// The pixel column where the grid ends.
    pub open spec fn right(&self) -> int {
        self.edges[self.columns()]
    }

    /// The pixel row of the top of row `i`, the header row being row 0.
    pub open spec fn row_top(&self, i: int) -> int {
        self.tops[i]
    }

    /// The pixel row where the grid ends.
    pub open spec fn bottom(&self) -> int {
        self.tops[self.rows() + 1]
    }

    /// The grid has a column and a row, it starts at the outer padding,
    /// every column has room for the cell padding, every row for its band,
    /// the band for the padding above and below, and the picture holds the
    /// grid and the outer padding round it.
    pub open spec fn wf(&self) -> bool {
        &&& self.edges.len() >= 2
        &&& self.edges[0] == OUTER_PAD
        &&& forall|j: int|
            0 <= j < self.columns() ==> #[trigger] self.edges[j] + 2 * CELL_PAD_X <= self.edges[j
                + 1]
        &&& self.right() + OUTER_PAD <= self.width <= MAX_SIDE
        &&& self.tops.len() >= 2
        &&& self.tops[0] == OUTER_PAD
        &&& forall|i: int|
            0 <= i <= self.rows() ==> #[trigger] self.tops[i] + self.band <= self.tops[i + 1]
        &&& self.band >= 2 * CELL_PAD_Y
        &&& self.bottom() + OUTER_PAD <= self.height <= MAX_SIDE
    }
}

impl View for TableLayout {
    type V = Grid;

    open spec fn view(&self) -> Grid {
        Grid {
            width: self.width as int,
            height: self.height as int,
            band: self.band_height as int,
            tops: Seq::new(self.tops@.len(), |i: int| self.tops@[i] as int),
            edges: Seq::new(self.edges@.len(), |j: int| self.edges@[j] as int),
        }
    }
}

/// The geometry of the picture of table `t` with metrics `m`.
pub open spec fn grid_of(t: TableView, m: GlyphMetrics) -> Grid {
    Grid {
        width: table_width(t, m),
        height: table_height(t, m),
        band: band_height(m),
        tops: Seq::new(t.rows.len() + 2, |i: int| row_top(m, i)),
        edges: Seq::new(t.headers.len() + 1, |j: int| column_edge(t, m, j)),
    }
}

/// In a well-formed grid the rows lie one below the other: no grid line
/// lies above the first or below the last, and below the top of every row
/// there is room for its band.
pub proof fn lemma_rows_ordered(g: Grid, i: int)
    requires
        g.wf(),
        0 <= i <= g.rows() + 1,
    ensures
        OUTER_PAD <= g.tops[i] <= g.bottom(),
        i <= g.rows() ==> g.tops[i] + g.band <= g.bottom(),
        g.bottom() + OUTER_PAD <= MAX_SIDE,
        g.band <= MAX_SIDE,
{
    lemma_rows_from_top(g, i);
    lemma_rows_to_bottom(g, i);
    lemma_rows_to_bottom(g, 0);
}

/// In a well-formed grid no grid line lies below the last, and every row
/// has its band above the last grid line.
pub proof fn lemma_rows_to_bottom(g: Grid, i: int)
    requires
        g.wf(),
        0 <= i <= g.rows() + 1,
    ensures
        g.tops[i] <= g.bottom(),
        i <= g.rows() ==> g.tops[i] + g.band <= g.bottom(),
    decreases g.rows() + 1 - i,
{
    if i <= g.rows() {
        lemma_rows_to_bottom(g, i + 1);
        assert(g.tops[i] + g.band <= g.tops[i + 1]);
    }
}

/// In a well-formed grid no grid line lies above the first.
pub proof fn lemma_rows_from_top(g: Grid, i: int)
    requires
        g.wf(),
        0 <= i <= g.rows() + 1,
    ensures
        OUTER_PAD <= g.tops[i],
    decreases i,
{
    if i > 0 {
        lemma_rows_from_top(g, i - 1);
        assert(g.tops[i - 1] + g.band <= g.tops[i - 1 + 1]);
    }
}

/// In a well-formed grid no grid line lies to the right of the last one,
/// and the first column has room for the cell padding.
pub proof fn lemma_edges_ordered(g: Grid, j: int)
    requires
        g.wf(),
        0 <= j <= g.columns(),
    ensures
        OUTER_PAD <= g.edges[j] <= g.right(),
        OUTER_PAD + 2 * CELL_PAD_X <= g.right(),
    decreases g.columns() - j,
{
    if j < g.columns() {
        lemma_edges_ordered(g, j + 1);
    }
    lemma_edges_from_left(g, j);
    lemma_edges_from_left(g, 1);
    lemma_edges_from_left(g, g.columns());
}

/// In a well-formed grid every grid line after the first lies at least the
/// cell padding, on both sides, to the right of the first.
pub proof fn lemma_edges_from_left(g: Grid, j: int)
    requires
        g.wf(),
        0 <= j <= g.columns(),
    ensures
        j == 0 ==> g.edges[j] == OUTER_PAD,
        j > 0 ==> OUTER_PAD + 2 * CELL_PAD_X <= g.edges[j],
    decreases j,
{
    if j > 0 {
        lemma_edges_from_left(g, j - 1);
        assert(g.edges[j - 1] + 2 * CELL_PAD_X <= g.edges[j - 1 + 1]);
    }
}

/// The longest cell of a column is at least as long as each of its cells.
pub proof fn lemma_widest_cell_bounds(rows: Seq<Seq<Seq<char>>>, j: int, i: int)
    requires
        0 <= i < rows.len(),
    ensures
        cell_chars(rows[i], j) <= widest_cell(rows, j),
    decreases rows.len(),
{
    if i < rows.len() - 1 {
        lemma_widest_cell_bounds(rows.drop_last(), j, i);
    }
}

/// A column is at least as wide as its header cell with the cell padding
/// on both sides, and at least as wide as every cell that a row has in it,
/// padded likewise.
pub proof fn lemma_column_width_covers(t: TableView, m: GlyphMetrics, j: int, i: int)
    requires
        m.wf(),
        0 <= j < t.headers.len(),
    ensures
        column_width(t, m, j) >= m.measure(t.headers[j].len() as int) + 2 * CELL_PAD_X
            * m.advance_den(),
        0 <= i < t.rows.len() && j < t.rows[i].len() ==> column_width(t, m, j) >= m.measure(
            t.rows[i][j].len() as int,
        ) + 2 * CELL_PAD_X * m.advance_den(),
{
    lemma_mul_inequality(t.headers[j].len() as int, column_chars(t, j) as int, m.advance_num());
    if 0 <= i < t.rows.len() && j < t.rows[i].len() {
        lemma_widest_cell_bounds(t.rows, j, i);
        lemma_mul_inequality(
            t.rows[i][j].len() as int,
            column_chars(t, j) as int,
            m.advance_num(),
        );
    }
}

/// Every column is at least as wide as the cell padding on both sides.
pub proof fn lemma_column_width_min(t: TableView, m: GlyphMetrics, j: int)
    requires
        m.wf(),
    ensures
        column_width(t, m, j) >= 2 * CELL_PAD_X * m.advance_den(),
{
    lemma_mul_nonnegative(column_chars(t, j) as int, m.advance_num());
}

/// Columns start from left to right.
pub proof fn lemma_column_start_monotone(t: TableView, m: GlyphMetrics, j: int, k: int)
    requires
        m.wf(),
        0 <= j <= k,
    ensures
        OUTER_PAD * m.advance_den() <= column_start(t, m, j) <= column_start(t, m, k),
    decreases k,
{
    if j < k {
        lemma_column_start_monotone(t, m, j, k - 1);
        lemma_column_width_min(t, m, k - 1);
    } else if j > 0 {
        lemma_column_start_monotone(t, m, j - 1, j - 1);
        lemma_column_width_min(t, m, j - 1);
    }
}

/// The number of characters in the longest cell of column `j`.
pub fn column_chars_of(table: &Table, j: usize) -> (n: usize)
    requires
        j < table.headers.len(),
    ensures
        n == column_chars(table@, j as int),
{
    let ghost rows = table.rows.deep_view();
    let mut n: usize = char_count(table.headers[j].as_str());
    let mut i: usize = 0;
    while i < table.rows.len()
        invariant
            i <= table.rows.len(),
            rows == table.rows.deep_view(),
            n == max(
                cell_chars(table.headers.deep_view(), j as int) as int,
                widest_cell(rows.take(i as int), j as int) as int,
            ),
        decreases table.rows.len() - i,
    {
        let row = &table.rows[i];
        proof {
            assert(rows.take(i + 1).drop_last() =~= rows.take(i as int));
            assert(rows.take(i + 1).last() == row.deep_view());
        }
        if j < row.len() {
            let c = char_count(row[j].as_str());
            if c > n {
                n = c;
            }
        }
        i += 1;
    }
    proof {
        assert(rows.take(i as int) =~= rows);
    }
    n
}

/// No column is wider than this many sub-pixels: a cell has no more
/// characters than a string can hold.
pub const WIDEST_COLUMN: u128 = 0x1_0000_0000_0000_0000_0000_0000_0000;

/// The width of every column in sub-pixels, of which `advance_den()` make
/// one pixel: the longest cell of the column and the cell padding on both
/// sides.
pub fn column_widths(table: &Table, metrics: &GlyphMetrics) -> (widths: Vec<u128>)
    ensures
        widths.len() == table.headers.len(),
        forall|j: int|
            0 <= j < widths.len() ==> #[trigger] widths@[j] == column_width(table@, *metrics, j),
        forall|j: int| 0 <= j < widths.len() ==> #[trigger] widths@[j] <= WIDEST_COLUMN,
{
    let n: u128 = metrics.numerator() as u128;
    let d: u128 = metrics.denominator() as u128;
    let mut widths: Vec<u128> = Vec::new();
    let mut j: usize = 0;
    while j < table.headers.len()
        invariant
            j <= table.headers.len(),
            n == metrics.advance_num(),
            n <= 0xffff_ffff * 0xffff,
            d == metrics.advance_den(),
            d <= 0xffff * 0xffff,
            widths.len() == j,
            forall|k: int|
                0 <= k < j ==> #[trigger] widths@[k] == column_width(table@, *metrics, k),
            forall|k: int| 0 <= k < j ==> #[trigger] widths@[k] <= WIDEST_COLUMN,
        decreases table.headers.len() - j,
    {
        let chars: u128 = column_chars_of(table, j) as u128;
        assert(chars * n <= 0xffff_ffff_ffff_ffff * (0xffff_ffff * 0xffff)) by (nonlinear_arith)
            requires
                chars <= 0xffff_ffff_ffff_ffff,
                n <= 0xffff_ffff * 0xffff,
        ;
        let text: u128 = chars * n;
        let pad: u128 = 2 * (CELL_PAD_X as u128);
        assert(pad == 40);
        let padding: u128 = pad * d;
        assert(text + padding <= WIDEST_COLUMN);
        widths.push(text + padding);
        j += 1;
    }
    widths
}

/// Lays out a table: the size of its picture and the place of every grid
/// line. Fails where the picture would be larger than `MAX_SIDE` either
/// way.
pub fn table_layout(table: &Table, metrics: &GlyphMetrics) -> (r: Result<TableLayout, RenderError>)
    requires
        table.wf(),
        metrics.wf(),
    ensures
        r is Ok <==> table_fits(table@, *metrics),
        r is Err ==> r->Err_0 == RenderError::CanvasTooLarge,
        r is Ok ==> r->Ok_0@ == grid_of(table@, *metrics) && r->Ok_0@.wf(),
{
    let ghost t = table@;
    let ghost m = *metrics;
    let columns = table.headers.len();
    let n: u128 = metrics.numerator() as u128;
    let d: u128 = metrics.denominator() as u128;
    let unit: u128 = metrics.size_den as u128;
    let pad: u128 = 2 * (CELL_PAD_Y as u128);
    assert(pad == 24);
    let row_h: u128 = metrics.size_num as u128 + pad * unit;
    let count: u128 = table.rows.len() as u128 + 1;
    let limit: u128 = (MAX_SIDE as u128 + 1) * unit;
    let mut tops: Vec<u32> = Vec::new();
    tops.push(OUTER_PAD);
    let mut top: u128 = (OUTER_PAD as u128) * unit;
    let mut i: u128 = 0;
    proof {
        assert((OUTER_PAD * unit) / (unit as int) == OUTER_PAD as int) by (nonlinear_arith)
            requires
                unit > 0,
        ;
        assert(0 * row_height(m) == 0);
        lemma_hoist_over_denominator(m.size_num as int, 2 * CELL_PAD_Y, unit as nat);
        lemma_div_pos_is_pos(m.size_num as int, unit as int);
    }
    while i < count
        invariant
            i <= count,
            count == table.rows.len() + 1,
            t == table@,
            m == *metrics,
            m.wf(),
            unit == m.size_den,
            row_h == row_height(m),
            row_h <= 0xffff_ffff + 48 * 0xffff,
            limit == (MAX_SIDE + 1) * unit,
            limit <= 0x8000_0000 * 0xffff,
            top == row_start(m, i as int),
            top < limit,
            tops.len() == i + 1,
            forall|k: int| 0 <= k <= i ==> #[trigger] tops@[k] == row_top(m, k),
            forall|k: int| 0 <= k < i ==> #[trigger] tops@[k] + band_height(m) <= tops@[k + 1],
        decreases count - i,
    {
        let next: u128 = top + row_h;
        proof {
            assert((i + 1) * row_height(m) == i * row_height(m) + row_height(m))
                by (nonlinear_arith);
            assert(0 <= i * row_height(m)) by (nonlinear_arith)
                requires
                    0 <= i,
                    0 <= row_height(m),
            ;
            lemma_div_superadditive(top as int, row_h as int, unit as int);
        }
        if next >= limit {
            proof {
                lemma_mul_inequality(i + 1, count as int, row_height(m));
                let whole = row_start(m, count as int) + OUTER_PAD * unit + unit - 1;
                lemma_div_is_ordered(limit as int, whole, unit as int);
                assert(limit as int / (unit as int) == MAX_SIDE + 1) by (nonlinear_arith)
                    requires
                        limit == (MAX_SIDE + 1) * unit,
                        unit > 0,
                ;
            }
            return Err(RenderError::CanvasTooLarge);
        }
        proof {
            lemma_div_is_ordered(next as int, limit as int - 1, unit as int);
            assert((limit as int - 1) / (unit as int) <= MAX_SIDE) by (nonlinear_arith)
                requires
                    limit == (MAX_SIDE + 1) * unit,
                    unit > 0,
            ;
        }
        tops.push((next / unit) as u32);
        top = next;
        i += 1;
    }
    let whole_height: u128 = top + (OUTER_PAD as u128) * unit + unit - 1;
    let tall: u128 = whole_height / unit;
    proof {
        lemma_hoist_over_denominator(top as int, OUTER_PAD as int, unit as nat);
        lemma_div_is_ordered(top + OUTER_PAD * unit, whole_height as int, unit as int);
    }
    if tall > MAX_SIDE as u128 {
        return Err(RenderError::CanvasTooLarge);
    }
    let band: u128 = row_h / unit;
    proof {
        assert(tops@[0] + band_height(m) <= tops@[0int + 1]);
    }
    let cap: u128 = (MAX_SIDE as u128 + 1) * d;
    assert(cap <= 0x8000_0000 * (0xffff * 0xffff)) by (nonlinear_arith)
        requires
            cap == 0x8000_0000 * d,
            d <= 0xffff * 0xffff,
    ;
    let widths = column_widths(table, metrics);
    let mut edges: Vec<u32> = Vec::new();
    edges.push(OUTER_PAD);
    let mut start: u128 = (OUTER_PAD as u128) * d;
    let mut j: usize = 0;
    proof {
        assert((OUTER_PAD * d) / (d as int) == OUTER_PAD as int) by (nonlinear_arith)
            requires
                d > 0,
        ;
    }
    while j < columns
        invariant
            j <= columns,
            columns == table.headers.len(),
            t == table@,
            m == *metrics,
            m.wf(),
            n == m.advance_num(),
            n <= 0xffff_ffff * 0xffff,
            d == m.advance_den(),
            cap == (MAX_SIDE + 1) * d,
            cap <= 0x8000_0000 * (0xffff * 0xffff),
            d <= 0xffff * 0xffff,
            d >= 1,
            widths.len() == columns,
            forall|k: int| 0 <= k < columns ==> #[trigger] widths@[k] == column_width(t, m, k),
            forall|k: int| 0 <= k < columns ==> #[trigger] widths@[k] <= WIDEST_COLUMN,
            start == column_start(t, m, j as int),
            start < cap,
            edges.len() == j + 1,
            forall|k: int| 0 <= k <= j ==> #[trigger] edges@[k] == column_edge(t, m, k),
            forall|k: int| 0 <= k < j ==> #[trigger] edges@[k] + 2 * CELL_PAD_X <= edges@[k + 1],
        decreases columns - j,
    {
        let wide: u128 = widths[j];
        proof {
            lemma_mul_nonnegative(column_chars(t, j as int) as int, n as int);
        }
        let next: u128 = start + wide;
        proof {
            assert(next == column_start(t, m, j + 1));
            lemma_hoist_over_denominator(start as int, 2 * CELL_PAD_X, d as nat);
            lemma_div_is_ordered(start + 2 * CELL_PAD_X * d, next as int, d as int);
        }
        if next >= cap {
            proof {
                lemma_column_start_monotone(t, m, j + 1, columns as int);
                let whole = column_start(t, m, columns as int) + OUTER_PAD * d + d - 1;
                lemma_div_is_ordered(cap as int, whole, d as int);
                assert(cap as int / (d as int) == MAX_SIDE + 1) by (nonlinear_arith)
                    requires
                        cap == (MAX_SIDE + 1) * d,
                        d > 0,
                ;
            }
            return Err(RenderError::CanvasTooLarge);
        }
        proof {
            lemma_div_is_ordered(next as int, cap as int - 1, d as int);
            assert((cap as int - 1) / (d as int) <= MAX_SIDE) by (nonlinear_arith)
                requires
                    cap == (MAX_SIDE + 1) * d,
                    d > 0,
            ;
        }
        edges.push((next / d) as u32);
        start = next;
        j += 1;
    }
    let whole: u128 = start + (OUTER_PAD as u128) * d + d - 1;
    let wide: u128 = whole / d;
    proof {
        lemma_hoist_over_denominator(start as int, OUTER_PAD as int, d as nat);
        lemma_div_is_ordered(start + OUTER_PAD * d, whole as int, d as int);
    }
    if wide > MAX_SIDE as u128 {
        return Err(RenderError::CanvasTooLarge);
    }
    let layout = TableLayout {
        width: wide as u32,
        height: tall as u32,
        band_height: band as u32,
        tops,
        edges,
    };
    proof {
        assert(layout@.edges =~= grid_of(t, m).edges);
        assert(layout@.tops =~= grid_of(t, m).tops);
    }
    Ok(layout)
}

/// Table `t` with one more cell, an empty one, at the end of row `i`.
pub open spec fn with_blank_cell(t: TableView, i: int) -> TableView {
    TableView { headers: t.headers, rows: t.rows.update(i, t.rows[i].push(Seq::empty())) }
}

/// A row that is changed without changing the length of its cell in
/// column `j` leaves the longest cell of that column as long as it was.
pub proof fn lemma_widest_cell_update(
    rows: Seq<Seq<Seq<char>>>,
    i: int,
    row: Seq<Seq<char>>,
    j: int,
)
    requires
        0 <= i < rows.len(),
        cell_chars(row, j) == cell_chars(rows[i], j),
    ensures
        widest_cell(rows.update(i, row), j) == widest_cell(rows, j),
    decreases rows.len(),
{
    let changed = rows.update(i, row);
    if i == rows.len() - 1 {
        assert(changed.drop_last() =~= rows.drop_last());
    } else {
        lemma_widest_cell_update(rows.drop_last(), i, row, j);
        assert(changed.drop_last() =~= rows.drop_last().update(i, row));
    }
}

/// A blank cell at the end of a row moves no column.
pub proof fn lemma_blank_cell_keeps_columns(t: TableView, m: GlyphMetrics, i: int, j: int)
    requires
        0 <= i < t.rows.len(),
    ensures
        column_chars(with_blank_cell(t, i), j) == column_chars(t, j),
        column_width(with_blank_cell(t, i), m, j) == column_width(t, m, j),
        column_start(with_blank_cell(t, i), m, j) == column_start(t, m, j),
        column_edge(with_blank_cell(t, i), m, j) == column_edge(t, m, j),
    decreases j,
{
    lemma_widest_cell_update(t.rows, i, t.rows[i].push(Seq::empty()), j);
    if j > 0 {
        lemma_blank_cell_keeps_columns(t, m, i, j - 1);
    }
}

/// A row with fewer cells than the table has columns is laid out as if
/// its missing cells were there and empty: a blank cell at the end of a
/// row leaves the whole geometry of the picture as it was.
pub proof fn lemma_blank_cell_keeps_grid(t: TableView, m: GlyphMetrics, i: int)
    requires
        0 <= i < t.rows.len(),
    ensures
        grid_of(with_blank_cell(t, i), m) == grid_of(t, m),
{
    let u = with_blank_cell(t, i);
    lemma_blank_cell_keeps_columns(t, m, i, t.headers.len() as int);
    assert forall|j: int| 0 <= j <= t.headers.len() implies column_edge(u, m, j) == column_edge(
        t,
        m,
        j,
    ) by {
        lemma_blank_cell_keeps_columns(t, m, i, j);
    }
    assert(grid_of(u, m).edges =~= grid_of(t, m).edges);
    assert(grid_of(u, m).tops =~= grid_of(t, m).tops);
}

/// Text of no more characters than the longest cell of column `j` fits
/// into the column: from the grid line at the left of the column, the
/// cell padding, the text and the cell padding again reach no further
/// than the next grid line.
pub proof fn lemma_text_fits_column(t: TableView, m: GlyphMetrics, j: int, chars: int)
    requires
        m.wf(),
        0 <= j,
        0 <= chars <= column_chars(t, j),
    ensures
        column_edge(t, m, j) + CELL_PAD_X + m.pixels(chars) + CELL_PAD_X <= column_edge(
            t,
            m,
            j + 1,
        ),
{
    let d = m.advance_den();
    let start = column_start(t, m, j);
    lemma_denominator_positive(m);
    lemma_column_start_monotone(t, m, j, j);
    lemma_mul_nonnegative(chars, m.advance_num());
    lemma_mul_inequality(chars, column_chars(t, j) as int, m.advance_num());
    lemma_div_superadditive(start, m.measure(chars), d);
    lemma_hoist_over_denominator(start + m.measure(chars), 2 * CELL_PAD_X, d as nat);
    lemma_div_is_ordered(
        start + m.measure(chars) + 2 * CELL_PAD_X * d,
        column_start(t, m, j + 1),
        d,
    );
}

/// Every cell fits into its column. The text of a header cell, and the
/// text of every cell that a row has in a column, lies between the grid
/// lines of the column with the cell padding on both sides.
pub proof fn lemma_cells_fit_columns(t: TableView, m: GlyphMetrics, j: int, i: int)
    requires
        m.wf(),
        0 <= j < t.headers.len(),
    ensures
        column_edge(t, m, j) + CELL_PAD_X + m.pixels(t.headers[j].len() as int) + CELL_PAD_X
            <= column_edge(t, m, j + 1),
        0 <= i < t.rows.len() && j < t.rows[i].len() ==> column_edge(t, m, j) + CELL_PAD_X
            + m.pixels(t.rows[i][j].len() as int) + CELL_PAD_X <= column_edge(t, m, j + 1),
{
    lemma_text_fits_column(t, m, j, t.headers[j].len() as int);
    if 0 <= i < t.rows.len() && j < t.rows[i].len() {
        lemma_widest_cell_bounds(t.rows, j, i);
        lemma_text_fits_column(t, m, j, t.rows[i][j].len() as int);
    }
}

} // verus!
