use vstd::prelude::*;
use vstd::arithmetic::div_mod::{
    lemma_div_is_ordered, lemma_div_multiples_vanish, lemma_div_pos_is_pos,
    lemma_fundamental_div_mod, lemma_mod_bound,
};
use vstd::arithmetic::mul::{
    lemma_mul_inequality, lemma_mul_is_distributive_add_other_way, lemma_mul_nonnegative,
};
use crate::text::char_count;

verus! {

/// The largest width or height, in pixels, that a canvas may have.
pub const MAX_SIDE: u32 = 2147483647;

/// The width of one character cell of a fixed-width font at one size.
///
/// The font size is the fraction `size_num / size_den` of a pixel, so that
/// a size such as 13.5 is 27 / 2. The font gives the advance of its
/// reference glyph and its own height (ascent less descent) in font
/// units; every character is then `size * advance_units / height_units`
/// pixels wide. The quotients are kept exact: widths and heights are sums
/// of such fractions and are rounded only where a pixel position is
/// taken.
#[derive(Clone, Copy, Debug, PartialEq, Eq, Structural)]
pub struct GlyphMetrics {
    pub size_num: u32,
    pub size_den: u16,
    pub advance_units: u16,
    pub height_units: u16,
}

impl GlyphMetrics {
    /// The metrics are usable when neither the denominator of the size nor
    /// the font's height is zero.
    pub open spec fn wf(&self) -> bool {
        self.size_den > 0 && self.height_units > 0
    }

    /// The numerator of the advance width, in pixels.
    pub open spec fn advance_num(&self) -> int {
        self.size_num * self.advance_units
    }

    /// The denominator of the advance width.
    pub open spec fn advance_den(&self) -> int {
        self.size_den * self.height_units
    }

    /// The width of `chars` characters as a count of sub-pixels, of which
    /// `advance_den()` make one pixel.
    pub open spec fn measure(&self, chars: int) -> int {
        chars * self.advance_num()
    }

    /// The whole pixels that `chars` characters cover.
    pub open spec fn pixels(&self, chars: int) -> int {
        self.measure(chars) / self.advance_den()
    }

    /// Metrics for a font whose reference glyph advances by `advance_units`
    /// and whose height is `height_units`, at `size_num / size_den` pixels.
    /// A size without denominator and a font without height have no
    /// metrics.
    pub fn new(size_num: u32, size_den: u16, advance_units: u16, height_units: u16) -> (m: Option<
        GlyphMetrics,
    >)
        ensures
            m is Some <==> size_den > 0 && height_units > 0,
            m is Some ==> m->0 == (GlyphMetrics {
                size_num,
                size_den,
                advance_units,
                height_units,
            }),
            m is Some ==> m->0.wf(),
    {
        if size_den == 0 || height_units == 0 {
            None
        } else {
            Some(GlyphMetrics { size_num, size_den, advance_units, height_units })
        }
    }

    /// The advance denominator as a machine integer.
    pub fn denominator(&self) -> (d: u64)
        ensures
            d == self.advance_den(),
            d <= 0xffff * 0xffff,
            self.wf() ==> d >= 1,
    {
        let s: u64 = self.size_den as u64;
        let h: u64 = self.height_units as u64;
        assert(s * h <= 0xffff * 0xffff) by (nonlinear_arith)
            requires
                s <= 0xffff,
                h <= 0xffff,
        ;
        assert(s >= 1 && h >= 1 ==> s * h >= 1) by (nonlinear_arith);
        s * h
    }

    /// The advance numerator as a machine integer.
    pub fn numerator(&self) -> (n: u64)
        ensures
            n == self.advance_num(),
            n <= 0xffff_ffff * 0xffff,
    {
        let p: u64 = self.size_num as u64;
        let a: u64 = self.advance_units as u64;
        assert(p * a <= 0xffff_ffff * 0xffff) by (nonlinear_arith)
            requires
                p <= 0xffff_ffff,
                a <= 0xffff,
        ;
        p * a
    }

    /// The whole pixels that `chars` characters cover, where that is no more
    /// than `MAX_SIDE`.
    pub fn pixels_of(&self, chars: u128) -> (px: Option<u32>)
        requires
            self.wf(),
        ensures
            px is Some <==> self.pixels(chars as int) <= MAX_SIDE,
            px is Some ==> px->0 == self.pixels(chars as int),
    {
        let n: u128 = self.numerator() as u128;
        let d: u128 = self.denominator() as u128;
        if n == 0 {
            assert(chars * 0 == 0);
            assert(0int / (d as int) == 0);
            return Some(0);
        }
        assert(0x8000_0000 * d <= 0x8000_0000 * (0xffff * 0xffff)) by (nonlinear_arith)
            requires
                d <= 0xffff * 0xffff,
        ;
        let cap: u128 = (MAX_SIDE as u128 + 1) * d;
        if chars >= cap {
            proof {
                lemma_mul_inequality(1, n as int, chars as int);
                assert(cap as int <= (chars as int) * (n as int));
                lemma_div_is_ordered(cap as int, (chars as int) * (n as int), d as int);
                assert(cap as int / (d as int) == MAX_SIDE + 1) by (nonlinear_arith)
                    requires
                        cap == (MAX_SIDE + 1) * d,
                        d > 0,
                ;
            }
            return None;
        }
        assert(chars * n <= 0x8000_0000 * (0xffff * 0xffff) * (0xffff_ffff * 0xffff))
            by (nonlinear_arith)
            requires
                chars <= 0x8000_0000 * (0xffff * 0xffff),
                n <= 0xffff_ffff * 0xffff,
        ;
        let q: u128 = chars * n / d;
        if q > MAX_SIDE as u128 {
            None
        } else {
            Some(q as u32)
        }
    }
}

/// The width of `text` in sub-pixels: its number of characters times the
/// advance numerator.
pub fn measure_text_width(text: &str, metrics: &GlyphMetrics) -> (w: u128)
    ensures
        w == metrics.measure(text@.len() as int),
{
    let n: u128 = char_count(text) as u128;
    let a: u128 = metrics.numerator() as u128;
    assert(n * a <= 0xffff_ffff_ffff_ffff * (0xffff_ffff * 0xffff)) by (nonlinear_arith)
        requires
            n <= 0xffff_ffff_ffff_ffff,
            a <= 0xffff_ffff * 0xffff,
    ;
    n * a
}

/// The advance of usable metrics has a denominator.
pub proof fn lemma_denominator_positive(m: GlyphMetrics)
    requires
        m.wf(),
    ensures
        m.advance_den() >= 1,
{
    assert(m.size_den * m.height_units >= 1) by (nonlinear_arith)
        requires
            m.size_den >= 1,
            m.height_units >= 1,
    ;
}

/// More characters never cover fewer pixels.
pub proof fn lemma_pixels_monotone(m: GlyphMetrics, a: int, b: int)
    requires
        m.wf(),
        0 <= a <= b,
    ensures
        0 <= m.pixels(a) <= m.pixels(b),
{
    lemma_denominator_positive(m);
    lemma_mul_nonnegative(a, m.advance_num());
    lemma_mul_inequality(a, b, m.advance_num());
    lemma_div_pos_is_pos(m.measure(a), m.advance_den());
    lemma_div_is_ordered(m.measure(a), m.measure(b), m.advance_den());
}

/// The whole parts of two quotients are together no more than the whole
/// part of the quotient of the sum.
pub proof fn lemma_div_superadditive(x: int, y: int, d: int)
    requires
        0 <= x,
        0 <= y,
        0 < d,
    ensures
        x / d + y / d <= (x + y) / d,
{
    let q = x / d + y / d;
    lemma_fundamental_div_mod(x, d);
    lemma_fundamental_div_mod(y, d);
    lemma_mod_bound(x, d);
    lemma_mod_bound(y, d);
    assert(d * q == d * (x / d) + d * (y / d)) by (nonlinear_arith)
        requires
            q == x / d + y / d,
    ;
    lemma_div_multiples_vanish(q, d);
    lemma_div_is_ordered(d * q, x + y, d);
}

/// Two texts side by side cover at least as many whole pixels as the two
/// cover apart.
pub proof fn lemma_pixels_superadditive(m: GlyphMetrics, a: int, b: int)
    requires
        m.wf(),
        0 <= a,
        0 <= b,
    ensures
        m.pixels(a) + m.pixels(b) <= m.pixels(a + b),
{
    lemma_denominator_positive(m);
    lemma_mul_nonnegative(a, m.advance_num());
    lemma_mul_nonnegative(b, m.advance_num());
    lemma_mul_is_distributive_add_other_way(m.advance_num(), a, b);
    lemma_div_superadditive(m.measure(a), m.measure(b), m.advance_den());
}

} // verus!
