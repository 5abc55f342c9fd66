use vstd::prelude::*;
use vstd::arithmetic::div_mod::lemma_hoist_over_denominator;
use vstd::arithmetic::mul::lemma_mul_inequality;
use vstd::math::max;
use crate::color::Color;
use crate::draw::{TextRun, TextRunView};
use crate::error::RenderError;
use crate::metrics::{
    lemma_denominator_positive, lemma_pixels_monotone, lemma_pixels_superadditive,
    GlyphMetrics, MAX_SIDE,
};
use crate::text::{chars_of, slice_chars, string_of};

verus! {

/// The blank margin round the code, in pixels.
pub const PADDING: u32 = 32;

/// The least width of a code picture, in pixels.
pub const MIN_WIDTH: u32 = 400;

/// The least height of a code picture, in pixels.
pub const MIN_HEIGHT: u32 = 100;

/// A run of text in one colour, as a highlighter hands it out. The last
/// span of a line may end in the line's terminator.
#[derive(Clone, Debug)]
pub struct StyledSpan {
    pub text: String,
    pub foreground: Color,
}

/// What a `StyledSpan` stands for.
pub struct SpanView {
    pub text: Seq<char>,
    pub foreground: Color,
}

impl View for StyledSpan {
    type V = SpanView;

    open spec fn view(&self) -> SpanView {
        SpanView { text: self.text@, foreground: self.foreground }
    }
}

impl DeepView for StyledSpan {
    type V = SpanView;

    open spec fn deep_view(&self) -> SpanView {
        self@
    }
}

/// `s` without every `c` at its end.
pub open spec fn trim_trailing(s: Seq<char>, c: char) -> Seq<char>
    decreases s.len(),
{
    if s.len() > 0 && s.last() == c {
        trim_trailing(s.drop_last(), c)
    } else {
        s
    }
}

/// The text of a span as it is measured and drawn: without the line feeds
/// at its end, and then without the carriage returns at its end.
pub open spec fn stripped(text: Seq<char>) -> Seq<char> {
    trim_trailing(trim_trailing(text, '\n'), '\r')
}

/// The number of characters that a line draws.
pub open spec fn chars_in(line: Seq<SpanView>) -> nat
    decreases line.len(),
{
    if line.len() == 0 {
        0
    } else {
        chars_in(line.drop_last()) + stripped(line.last().text).len()
    }
}

/// The number of characters in the longest of `lines`.
pub open spec fn longest_line(lines: Seq<Seq<SpanView>>) -> nat
    decreases lines.len(),
{
    if lines.len() == 0 {
        0
    } else {
        max(longest_line(lines.drop_last()) as int, chars_in(lines.last()) as int) as nat
    }
}

/// The distance from one line of code to the next: one and a half times
/// the font size, rounded to the nearest pixel, a half upwards.
pub open spec fn line_height(m: GlyphMetrics) -> int {
    (3 * m.size_num + m.size_den) / (2 * m.size_den)
}

/// The width of the picture of `lines`: the longest line and the padding
/// on both sides, in whole pixels, and at least `MIN_WIDTH`.
pub open spec fn code_width(lines: Seq<Seq<SpanView>>, m: GlyphMetrics) -> int {
    max(
        (m.measure(longest_line(lines) as int) + 2 * PADDING * m.advance_den()) / m.advance_den(),
        MIN_WIDTH as int,
    )
}

/// The height of the picture of `lines`: all the lines and the padding
/// above and below, and at least `MIN_HEIGHT`.
pub open spec fn code_height(lines: Seq<Seq<SpanView>>, m: GlyphMetrics) -> int {
    max(lines.len() * line_height(m) + 2 * PADDING, MIN_HEIGHT as int)
}

/// Whether the picture of `lines` is no larger than a canvas can be.
pub open spec fn code_fits(lines: Seq<Seq<SpanView>>, m: GlyphMetrics) -> bool {
    code_width(lines, m) <= MAX_SIDE && code_height(lines, m) <= MAX_SIDE
}

/// The text runs of one line whose top is at `y`. Each span that still
/// has text once it is stripped gives one run; it starts where the spans
/// before it end.
pub open spec fn line_runs(line: Seq<SpanView>, m: GlyphMetrics, y: int) -> Seq<TextRunView>
    decreases line.len(),
{
    if line.len() == 0 {
        Seq::empty()
    } else {
        let before = line_runs(line.drop_last(), m, y);
        let text = stripped(line.last().text);
        if text.len() == 0 {
            before
        } else {
            before.push(
                TextRunView {
                    x: PADDING + m.pixels(chars_in(line.drop_last()) as int),
                    y,
                    color: line.last().foreground,
                    text,
                },
            )
        }
    }
}

/// The text runs of all the lines, from the first line to the last.
pub open spec fn code_runs(lines: Seq<Seq<SpanView>>, m: GlyphMetrics) -> Seq<TextRunView>
    decreases lines.len(),
{
    if lines.len() == 0 {
        Seq::empty()
    } else {
        code_runs(lines.drop_last(), m) + line_runs(
            lines.last(),
            m,
            PADDING + (lines.len() - 1) * line_height(m),
        )
    }
}

/// The geometry of a code picture: its size, the distance between lines,
/// and where each piece of text goes.
pub struct CodeLayout {
    pub width: u32,
    pub height: u32,
    pub line_height: u64,
    pub runs: Vec<TextRun>,
}

/// A prefix of a line draws no more characters than the line.
pub proof fn lemma_chars_in_prefix(line: Seq<SpanView>, k: int)
    requires
        0 <= k <= line.len(),
    ensures
        chars_in(line.take(k)) <= chars_in(line),
    decreases line.len(),
{
    if k == line.len() {
        assert(line.take(k) =~= line);
    } else {
        lemma_chars_in_prefix(line.drop_last(), k);
        assert(line.drop_last().take(k) =~= line.take(k));
    }
}

/// No line draws more characters than the longest.
pub proof fn lemma_longest_line_bounds(lines: Seq<Seq<SpanView>>, i: int)
    requires
        0 <= i < lines.len(),
    ensures
        chars_in(lines[i]) <= longest_line(lines),
    decreases lines.len(),
{
    if i < lines.len() - 1 {
        lemma_longest_line_bounds(lines.drop_last(), i);
    }
}

/// The text of a span as it is drawn.
pub fn strip_line_end(text: &str) -> (t: Vec<char>)
    ensures
        t@ == stripped(text@),
{
    let s = chars_of(text);
    let mut hi: usize = s.len();
    proof {
        assert(s@.subrange(0, hi as int) =~= s@);
    }
    while hi > 0 && s[hi - 1] == '\n'
        invariant
            hi <= s.len(),
            trim_trailing(s@, '\n') == trim_trailing(s@.subrange(0, hi as int), '\n'),
        decreases hi,
    {
        proof {
            assert(s@.subrange(0, hi as int).drop_last() =~= s@.subrange(0, hi - 1));
        }
        hi -= 1;
    }
    let ghost mid = s@.subrange(0, hi as int);
    while hi > 0 && s[hi - 1] == '\r'
        invariant
            hi <= s.len(),
            trim_trailing(mid, '\r') == trim_trailing(s@.subrange(0, hi as int), '\r'),
        decreases hi,
    {
        proof {
            assert(s@.subrange(0, hi as int).drop_last() =~= s@.subrange(0, hi - 1));
        }
        hi -= 1;
    }
    slice_chars(&s, 0, hi)
}

/// The number of characters that `line` draws.
pub fn count_line_chars(line: &Vec<StyledSpan>) -> (n: u128)
    ensures
        n == chars_in(line.deep_view()),
{
    let ghost spans = line.deep_view();
    let mut n: u128 = 0;
    let mut k: usize = 0;
    while k < line.len()
        invariant
            k <= line.len(),
            spans == line.deep_view(),
            n == chars_in(spans.take(k as int)),
            n <= k * usize::MAX,
        decreases line.len() - k,
    {
        let t = strip_line_end(line[k].text.as_str());
        proof {
            assert(spans.take(k + 1).drop_last() =~= spans.take(k as int));
            assert(spans.take(k + 1).last() == line@[k as int]@);
            assert((k + 1) * usize::MAX <= 0xffff_ffff_ffff_ffff * 0xffff_ffff_ffff_ffff)
                by (nonlinear_arith)
                requires
                    k + 1 <= 0xffff_ffff_ffff_ffff,
                    usize::MAX <= 0xffff_ffff_ffff_ffff,
            ;
            assert((k + 1) * usize::MAX == k * usize::MAX + usize::MAX) by (nonlinear_arith);
        }
        n = n + t.len() as u128;
        k += 1;
    }
    proof {
        assert(spans.take(k as int) =~= spans);
    }
    n
}

/// The number of characters in the longest of `lines`.
pub fn longest_line_chars(lines: &Vec<Vec<StyledSpan>>) -> (n: u128)
    ensures
        n == longest_line(lines.deep_view()),
{
    let ghost all = lines.deep_view();
    let mut n: u128 = 0;
    let mut i: usize = 0;
    while i < lines.len()
        invariant
            i <= lines.len(),
            all == lines.deep_view(),
            n == longest_line(all.take(i as int)),
        decreases lines.len() - i,
    {
        let c = count_line_chars(&lines[i]);
        proof {
            assert(all.take(i + 1).drop_last() =~= all.take(i as int));
            assert(all.take(i + 1).last() == lines@[i as int].deep_view());
        }
        if c > n {
            n = c;
        }
        i += 1;
    }
    proof {
        assert(all.take(i as int) =~= all);
    }
    n
}

/// Appends to `runs` the text runs of one line whose top is at `y`.
fn push_line_runs(line: &Vec<StyledSpan>, metrics: &GlyphMetrics, y: u32, runs: &mut Vec<TextRun>)
    requires
        metrics.wf(),
        PADDING + metrics.pixels(chars_in(line.deep_view()) as int) <= MAX_SIDE,
    ensures
        final(runs).deep_view() == old(runs).deep_view() + line_runs(
            line.deep_view(),
            *metrics,
            y as int,
        ),
{
    let ghost start = runs.deep_view();
    let ghost spans = line.deep_view();
    let mut before: u128 = 0;
    let mut k: usize = 0;
    proof {
        assert(start + line_runs(spans.take(0), *metrics, y as int) =~= start);
    }
    while k < line.len()
        invariant
            k <= line.len(),
            metrics.wf(),
            spans == line.deep_view(),
            PADDING + metrics.pixels(chars_in(spans) as int) <= MAX_SIDE,
            before == chars_in(spans.take(k as int)),
            before <= k * usize::MAX,
            runs.deep_view() == start + line_runs(spans.take(k as int), *metrics, y as int),
        decreases line.len() - k,
    {
        let t = strip_line_end(line[k].text.as_str());
        proof {
            assert(spans.take(k + 1).drop_last() =~= spans.take(k as int));
            assert(spans.take(k + 1).last() == line@[k as int]@);
            assert((k + 1) * usize::MAX <= 0xffff_ffff_ffff_ffff * 0xffff_ffff_ffff_ffff)
                by (nonlinear_arith)
                requires
                    k + 1 <= 0xffff_ffff_ffff_ffff,
                    usize::MAX <= 0xffff_ffff_ffff_ffff,
            ;
            assert((k + 1) * usize::MAX == k * usize::MAX + usize::MAX) by (nonlinear_arith);
            lemma_chars_in_prefix(spans, k as int);
            lemma_pixels_monotone(*metrics, before as int, chars_in(spans) as int);
        }
        if t.len() > 0 {
            let px = metrics.pixels_of(before);
            let x: u32 = match px {
                Some(p) => PADDING + p,
                None => PADDING,
            };
            let ghost old_runs = runs.deep_view();
            let run = TextRun { x, y, color: line[k].foreground, text: string_of(&t) };
            runs.push(run);
            proof {
                assert(runs.deep_view() =~= old_runs.push(run@));
                assert(runs.deep_view() =~= start + line_runs(
                    spans.take(k + 1),
                    *metrics,
                    y as int,
                ));
            }
        }
        before = before + t.len() as u128;
        k += 1;
    }
    proof {
        assert(spans.take(k as int) =~= spans);
    }
}

/// Lays out highlighted code: the size of the picture and the place of
/// every piece of text. The picture is as wide as the longest line and as
/// tall as all the lines, with `PADDING` on every side, and never smaller
/// than `MIN_WIDTH` by `MIN_HEIGHT`. Fails where it would be larger than
/// `MAX_SIDE` either way.
pub fn code_layout(lines: &Vec<Vec<StyledSpan>>, metrics: &GlyphMetrics) -> (r: Result<
    CodeLayout,
    RenderError,
>)
    requires
        metrics.wf(),
    ensures
        r is Ok <==> code_fits(lines.deep_view(), *metrics),
        r is Err ==> r->Err_0 == RenderError::CanvasTooLarge,
        r is Ok ==> ({
            let l = r->Ok_0;
            &&& l.width == code_width(lines.deep_view(), *metrics)
            &&& l.height == code_height(lines.deep_view(), *metrics)
            &&& l.line_height == line_height(*metrics)
            &&& l.runs.deep_view() == code_runs(lines.deep_view(), *metrics)
        }),
{
    let ghost all = lines.deep_view();
    let over: u64 = 3 * (metrics.size_num as u64) + metrics.size_den as u64;
    let under: u64 = 2 * (metrics.size_den as u64);
    let step: u64 = over / under;
    assert(step <= over) by (nonlinear_arith)
        requires
            step == over / under,
            under >= 1,
    ;
    let longest = longest_line_chars(lines);
    proof {
        lemma_denominator_positive(*metrics);
        lemma_hoist_over_denominator(
            metrics.measure(longest as int),
            2 * PADDING,
            metrics.advance_den() as nat,
        );
    }
    let text_width: u32 = match metrics.pixels_of(longest) {
        Some(p) => p,
        None => {
            return Err(RenderError::CanvasTooLarge);
        },
    };
    if text_width > MAX_SIDE - 2 * PADDING {
        return Err(RenderError::CanvasTooLarge);
    }
    let width: u32 = if text_width + 2 * PADDING > MIN_WIDTH {
        text_width + 2 * PADDING
    } else {
        MIN_WIDTH
    };
    let count: u128 = lines.len() as u128;
    assert(count * step <= 0xffff_ffff_ffff_ffff * 0x4_0000_0000) by (nonlinear_arith)
        requires
            count <= 0xffff_ffff_ffff_ffff,
            step <= 0x4_0000_0000,
    ;
    let tall: u128 = count * (step as u128) + 2 * (PADDING as u128);
    if tall > MAX_SIDE as u128 {
        return Err(RenderError::CanvasTooLarge);
    }
    let height: u32 = if tall > MIN_HEIGHT as u128 {
        tall as u32
    } else {
        MIN_HEIGHT
    };
    let mut runs: Vec<TextRun> = Vec::new();
    let mut i: usize = 0;
    while i < lines.len()
        invariant
            i <= lines.len(),
            metrics.wf(),
            all == lines.deep_view(),
            step == line_height(*metrics),
            count == lines.len(),
            count * step + 2 * PADDING <= MAX_SIDE,
            PADDING + metrics.pixels(longest_line(all) as int) <= MAX_SIDE,
            runs.deep_view() == code_runs(all.take(i as int), *metrics),
        decreases lines.len() - i,
    {
        proof {
            assert(all.take(i + 1).drop_last() =~= all.take(i as int));
            assert(all.take(i + 1).last() == lines@[i as int].deep_view());
            lemma_mul_inequality(i as int, count as int, step as int);
            lemma_longest_line_bounds(all, i as int);
            lemma_pixels_monotone(
                *metrics,
                chars_in(all[i as int]) as int,
                longest_line(all) as int,
            );
        }
        let y: u32 = (PADDING as u64 + (i as u64) * step) as u32;
        push_line_runs(&lines[i], metrics, y, &mut runs);
        i += 1;
    }
    proof {
        assert(all.take(i as int) =~= all);
    }
    Ok(CodeLayout { width, height, line_height: step, runs })
}

/// A picture of no code at all has the least size and no text.
pub proof fn lemma_empty_code_layout(m: GlyphMetrics)
    requires
        m.wf(),
    ensures
        code_width(Seq::empty(), m) == MIN_WIDTH,
        code_height(Seq::empty(), m) == MIN_HEIGHT,
        code_runs(Seq::empty(), m) == Seq::<TextRunView>::empty(),
        code_fits(Seq::empty(), m),
{
    let d = m.advance_den();
    assert(m.measure(0) == 0) by (nonlinear_arith)
        requires
            m.measure(0) == 0 * m.advance_num(),
    ;
    lemma_denominator_positive(m);
    lemma_hoist_over_denominator(0, 2 * PADDING, d as nat);
    assert(0int / d == 0);
    assert(0 * line_height(m) == 0);
}

/// Every span fits into the picture. From the left padding, the spans
/// before it and the span itself leave room for the right padding; and
/// below the line of the span there is room for the bottom padding.
pub proof fn lemma_span_fits_picture(lines: Seq<Seq<SpanView>>, m: GlyphMetrics, i: int, k: int)
    requires
        m.wf(),
        0 <= i < lines.len(),
        0 <= k < lines[i].len(),
    ensures
        PADDING + m.pixels(chars_in(lines[i].take(k)) as int) + m.pixels(
            stripped(lines[i][k].text).len() as int,
        ) + PADDING <= code_width(lines, m),
        PADDING + (i + 1) * line_height(m) + PADDING <= code_height(lines, m),
{
    let line = lines[i];
    let before = chars_in(line.take(k)) as int;
    let own = stripped(line[k].text).len() as int;
    assert(line.take(k + 1).drop_last() =~= line.take(k));
    assert(line.take(k + 1).last() == line[k]);
    assert(chars_in(line.take(k + 1)) == before + own);
    lemma_chars_in_prefix(line, k + 1);
    lemma_longest_line_bounds(lines, i);
    lemma_pixels_superadditive(m, before, own);
    lemma_pixels_monotone(m, before + own, longest_line(lines) as int);
    lemma_denominator_positive(m);
    lemma_hoist_over_denominator(
        m.measure(longest_line(lines) as int),
        2 * PADDING,
        m.advance_den() as nat,
    );
    lemma_mul_inequality(i + 1, lines.len() as int, line_height(m));
}

} // verus!
