//! Color verification: canonical pixel conversion, dominant-color palette
//! extraction, nearest named color, and the dwell-time/timeout state machine
//! that decides whether a target color persists on a sink's output.
//!
//! The clock is simulated: polls happen at multiples of the source's frame
//! interval, and the frames a poll would sample are given as a trace, so the
//! whole decision runs without wall-clock delay.

use vstd::prelude::*;
use crate::errors::EngineError;
use crate::sampler::{Frame, PixelFormat};
use crate::value::{eq_ignore_case, spec_eq_ci};

verus! {

/// One pixel in the canonical four-channel representation.
#[derive(Debug, Clone, Copy, PartialEq, Eq, Structural)]
pub struct Rgba {
    pub r: u8,
    pub g: u8,
    pub b: u8,
    pub a: u8,
}

/// The canonical reading of pixel `i` of a frame: the layout's bytes mapped
/// to red, green, blue and alpha, with an opaque alpha where the layout has
/// none.
pub open spec fn spec_pixel(f: Frame, i: int) -> Rgba {
    let base = i * f.format.spec_bytes_per_pixel();
    match f.format {
        PixelFormat::Rgba => Rgba {
            r: f.data@[base],
            g: f.data@[base + 1],
            b: f.data@[base + 2],
            a: f.data@[base + 3],
        },
        PixelFormat::Bgra => Rgba {
            r: f.data@[base + 2],
            g: f.data@[base + 1],
            b: f.data@[base],
            a: f.data@[base + 3],
        },
        PixelFormat::Rgb => Rgba {
            r: f.data@[base],
            g: f.data@[base + 1],
            b: f.data@[base + 2],
            a: 255,
        },
    }
}

/// The whole frame in canonical form, at native resolution.
pub open spec fn spec_pixels(f: Frame) -> Seq<Rgba> {
    Seq::new(f.spec_pixel_count() as nat, |i: int| spec_pixel(f, i))
}

/// Converts a frame's pixel data to the canonical four-channel form.
pub fn to_rgba(f: &Frame) -> (pixels: Vec<Rgba>)
    requires
        f.wf(),
    ensures
        pixels@ == spec_pixels(*f),
{
    let bpp = f.format.bytes_per_pixel();
    let len = f.data.len();
    let count = len / bpp;
    proof {
        assert(f.data@.len() == f.spec_pixel_count() * f.format.spec_bytes_per_pixel());
        assert(len as int / bpp as int == f.spec_pixel_count()) by (nonlinear_arith)
            requires
                len == f.spec_pixel_count() * bpp,
                bpp == f.format.spec_bytes_per_pixel(),
                3 <= bpp <= 4,
                f.spec_pixel_count() >= 0,
        ;
    }
    let mut pixels: Vec<Rgba> = Vec::new();
    let mut i: usize = 0;
    let mut base: usize = 0;
    while i < count
        invariant
            i <= count,
            base == i * f.format.spec_bytes_per_pixel(),
            count == f.spec_pixel_count(),
            len == f.data@.len(),
            f.wf(),
            f.format.spec_bytes_per_pixel() == (match f.format {
                PixelFormat::Rgba => 4int,
                PixelFormat::Bgra => 4int,
                PixelFormat::Rgb => 3int,
            }),
            pixels@ =~= spec_pixels(*f).take(i as int),
        decreases count - i,
    {
        proof {
            assert((i + 1) * f.format.spec_bytes_per_pixel() <= count
                * f.format.spec_bytes_per_pixel()) by (nonlinear_arith)
                requires
                    i + 1 <= count,
                    f.format.spec_bytes_per_pixel() >= 3,
            ;
            assert(count * f.format.spec_bytes_per_pixel() == len);
        }
        let px = match f.format {
            PixelFormat::Rgba => Rgba {
                r: f.data[base],
                g: f.data[base + 1],
                b: f.data[base + 2],
                a: f.data[base + 3],
            },
            PixelFormat::Bgra => Rgba {
                r: f.data[base + 2],
                g: f.data[base + 1],
                b: f.data[base],
                a: f.data[base + 3],
            },
            PixelFormat::Rgb => Rgba {
                r: f.data[base],
                g: f.data[base + 1],
                b: f.data[base + 2],
                a: 255,
            },
        };
        proof {
            assert(px == spec_pixel(*f, i as int));
            assert(spec_pixels(*f).take(i + 1).drop_last() =~= spec_pixels(*f).take(i as int));
        }
        pixels.push(px);
        let step = match f.format {
            PixelFormat::Rgba => 4,
            PixelFormat::Bgra => 4,
            PixelFormat::Rgb => 3,
        };
        base = base + step;
        i = i + 1;
    }
    proof {
        assert(spec_pixels(*f).take(count as int) =~= spec_pixels(*f));
    }
    pixels
}

/// The fixed quantization of the palette extraction: the low bits of each
/// channel are dropped, and alpha is discarded, so that near-identical shades
/// pool into one bucket.
pub open spec fn spec_quantize(c: Rgba) -> Rgba {
    Rgba { r: c.r & 0xf0u8, g: c.g & 0xf0u8, b: c.b & 0xf0u8, a: 255 }
}

/// Quantizes one canonical pixel.
pub fn quantize(c: Rgba) -> (q: Rgba)
    ensures
        q == spec_quantize(c),
{
    Rgba { r: c.r & 0xf0u8, g: c.g & 0xf0u8, b: c.b & 0xf0u8, a: 255 }
}

/// The quantized canonical pixels of a frame: what the palette is built from.
pub open spec fn spec_qpixels(f: Frame) -> Seq<Rgba> {
    spec_pixels(f).map_values(|c: Rgba| spec_quantize(c))
}

/// Quantizes a whole frame's canonical pixels.
pub fn quantize_all(pixels: &Vec<Rgba>) -> (q: Vec<Rgba>)
    ensures
        q@ == pixels@.map_values(|c: Rgba| spec_quantize(c)),
{
    let count = pixels.len();
    let mut q: Vec<Rgba> = Vec::new();
    let mut i: usize = 0;
    while i < count
        invariant
            i <= count,
            count == pixels@.len(),
            q@ =~= pixels@.map_values(|c: Rgba| spec_quantize(c)).take(i as int),
        decreases count - i,
    {
        q.push(quantize(pixels[i]));
        proof {
            let mapped = pixels@.map_values(|c: Rgba| spec_quantize(c));
            assert(q@ =~= mapped.take(i + 1));
        }
        i = i + 1;
    }
    proof {
        let mapped = pixels@.map_values(|c: Rgba| spec_quantize(c));
        assert(mapped.take(count as int) =~= mapped);
    }
    q
}

/// The named colors a palette entry can be mapped to.
#[derive(Debug, Clone, Copy, PartialEq, Eq, Structural)]
pub enum NamedColor {
    Red,
    Green,
    Blue,
    Yellow,
    Cyan,
    Magenta,
    White,
    Black,
}

impl NamedColor {
    /// The reference point of the named color in canonical form.
    pub open spec fn spec_rgba(self) -> Rgba {
        match self {
            NamedColor::Red => Rgba { r: 255, g: 0, b: 0, a: 255 },
            NamedColor::Green => Rgba { r: 0, g: 255, b: 0, a: 255 },
            NamedColor::Blue => Rgba { r: 0, g: 0, b: 255, a: 255 },
            NamedColor::Yellow => Rgba { r: 255, g: 255, b: 0, a: 255 },
            NamedColor::Cyan => Rgba { r: 0, g: 255, b: 255, a: 255 },
            NamedColor::Magenta => Rgba { r: 255, g: 0, b: 255, a: 255 },
            NamedColor::White => Rgba { r: 255, g: 255, b: 255, a: 255 },
            NamedColor::Black => Rgba { r: 0, g: 0, b: 0, a: 255 },
        }
    }

    /// The reference point of the named color in canonical form.
    pub fn rgba(self) -> (c: Rgba)
        ensures
            c == self.spec_rgba(),
    {
        match self {
            NamedColor::Red => Rgba { r: 255, g: 0, b: 0, a: 255 },
            NamedColor::Green => Rgba { r: 0, g: 255, b: 0, a: 255 },
            NamedColor::Blue => Rgba { r: 0, g: 0, b: 255, a: 255 },
            NamedColor::Yellow => Rgba { r: 255, g: 255, b: 0, a: 255 },
            NamedColor::Cyan => Rgba { r: 0, g: 255, b: 255, a: 255 },
            NamedColor::Magenta => Rgba { r: 255, g: 0, b: 255, a: 255 },
            NamedColor::White => Rgba { r: 255, g: 255, b: 255, a: 255 },
            NamedColor::Black => Rgba { r: 0, g: 0, b: 0, a: 255 },
        }
    }
}

/// The fixed table of named colors, in tie-break order: an earlier entry wins
/// a distance tie.
pub open spec fn spec_color_table() -> Seq<NamedColor> {
    seq![
        NamedColor::Red,
        NamedColor::Green,
        NamedColor::Blue,
        NamedColor::Yellow,
        NamedColor::Cyan,
        NamedColor::Magenta,
        NamedColor::White,
        NamedColor::Black,
    ]
}

/// The fixed table of named colors, in tie-break order.
pub fn color_table() -> (t: Vec<NamedColor>)
    ensures
        t@ == spec_color_table(),
{
    let mut t: Vec<NamedColor> = Vec::new();
    t.push(NamedColor::Red);
    t.push(NamedColor::Green);
    t.push(NamedColor::Blue);
    t.push(NamedColor::Yellow);
    t.push(NamedColor::Cyan);
    t.push(NamedColor::Magenta);
    t.push(NamedColor::White);
    t.push(NamedColor::Black);
    proof {
        assert(t@ =~= spec_color_table());
    }
    t
}

/// Squared distance between a pixel and a named color's reference point, over
/// the three color channels.
pub open spec fn spec_dist(c: Rgba, n: NamedColor) -> int {
    let t = n.spec_rgba();
    (c.r - t.r) * (c.r - t.r) + (c.g - t.g) * (c.g - t.g) + (c.b - t.b) * (c.b - t.b)
}

/// Squared distance between a pixel and a named color's reference point.
pub fn dist(c: Rgba, n: NamedColor) -> (d: u32)
    ensures
        d as int == spec_dist(c, n),
{
    let t = n.rgba();
    let dr: i32 = c.r as i32 - t.r as i32;
    let dg: i32 = c.g as i32 - t.g as i32;
    let db: i32 = c.b as i32 - t.b as i32;
    proof {
        assert(dr * dr + dg * dg + db * db <= 3 * 255 * 255) by (nonlinear_arith)
            requires
                -255 <= dr <= 255,
                -255 <= dg <= 255,
                -255 <= db <= 255,
        ;
        assert(dr * dr >= 0) by (nonlinear_arith);
        assert(dg * dg >= 0) by (nonlinear_arith);
        assert(db * db >= 0) by (nonlinear_arith);
    }
    (dr * dr + dg * dg + db * db) as u32
}

/// The named color nearest to `c` among the first `k` table entries, the
/// earliest winning ties.
pub open spec fn spec_nearest_upto(c: Rgba, k: int) -> NamedColor
    decreases k when 1 <= k <= spec_color_table().len()
{
    if k <= 1 {
        spec_color_table()[0]
    } else {
        let prev = spec_nearest_upto(c, k - 1);
        if spec_dist(c, spec_color_table()[k - 1]) < spec_dist(c, prev) {
            spec_color_table()[k - 1]
        } else {
            prev
        }
    }
}

/// The named color nearest to `c`, the earliest table entry winning ties.
pub open spec fn spec_nearest(c: Rgba) -> NamedColor {
    spec_nearest_upto(c, spec_color_table().len() as int)
}

/// Maps a pixel to its nearest named color.
pub fn nearest_named(c: Rgba) -> (n: NamedColor)
    ensures
        n == spec_nearest(c),
{
    let table = color_table();
    let count = table.len();
    let mut best = table[0];
    let mut best_d = dist(c, best);
    let mut k: usize = 1;
    while k < count
        invariant
            1 <= k <= count,
            count == spec_color_table().len(),
            table@ == spec_color_table(),
            best == spec_nearest_upto(c, k as int),
            best_d as int == spec_dist(c, best),
        decreases count - k,
    {
        let cand = table[k];
        let d = dist(c, cand);
        if d < best_d {
            best = cand;
            best_d = d;
        }
        k = k + 1;
    }
    best
}

/// The fixed palette size of the extraction.
pub const PALETTE_SIZE: usize = 4;

/// How often `c` occurs among the first `n` elements of `s`.
pub open spec fn count_upto(s: Seq<Rgba>, c: Rgba, n: int) -> int
    decreases n when 0 <= n <= s.len()
{
    if n <= 0 {
        0
    } else {
        count_upto(s, c, n - 1) + if s[n - 1] == c {
            1int
        } else {
            0int
        }
    }
}

/// An occurrence count never exceeds the number of elements counted.
pub proof fn lemma_count_upto_bounds(s: Seq<Rgba>, c: Rgba, n: int)
    requires
        0 <= n <= s.len(),
    ensures
        0 <= count_upto(s, c, n) <= n,
    decreases n,
{
    if n > 0 {
        lemma_count_upto_bounds(s, c, n - 1);
    }
}

/// The distinct elements of the first `n` elements of `s`, in order of first
/// appearance.
pub open spec fn distinct_upto(s: Seq<Rgba>, n: int) -> Seq<Rgba>
    decreases n when 0 <= n <= s.len()
{
    if n <= 0 {
        Seq::empty()
    } else {
        let d = distinct_upto(s, n - 1);
        if d.contains(s[n - 1]) {
            d
        } else {
            d.push(s[n - 1])
        }
    }
}

/// A first-appearance distinct list never repeats an element.
pub proof fn lemma_distinct_upto_nodup(s: Seq<Rgba>, n: int)
    requires
        0 <= n <= s.len(),
    ensures
        forall|j1: int, j2: int|
            0 <= j1 < j2 < distinct_upto(s, n).len() ==> distinct_upto(s, n)[j1] != distinct_upto(
                s,
                n,
            )[j2],
    decreases n,
{
    if n > 0 {
        lemma_distinct_upto_nodup(s, n - 1);
        let d1 = distinct_upto(s, n - 1);
        let d = distinct_upto(s, n);
        if !d1.contains(s[n - 1]) {
            assert forall|j1: int, j2: int| 0 <= j1 < j2 < d.len() implies d[j1] != d[j2] by {
                if j2 == d.len() - 1 {
                    assert(d[j1] == d1[j1]);
                    if d1[j1] == s[n - 1] {
                        assert(d1.contains(s[n - 1]));
                    }
                }
            }
        }
    }
}

/// An element outside the distinct list of a prefix does not occur in that
/// prefix.
pub proof fn lemma_absent_zero_count(s: Seq<Rgba>, y: Rgba, n: int)
    requires
        0 <= n <= s.len(),
        !distinct_upto(s, n).contains(y),
    ensures
        count_upto(s, y, n) == 0,
    decreases n,
{
    if n > 0 {
        let d1 = distinct_upto(s, n - 1);
        let d = distinct_upto(s, n);
        if d1.contains(y) {
            let j = choose|j: int| 0 <= j < d1.len() && d1[j] == y;
            assert(d[j] == y);
            assert(d.contains(y));
        }
        if s[n - 1] == y {
            if d1.contains(s[n - 1]) {
                assert(d1.contains(y));
            } else {
                assert(d[d1.len() as int] == s[n - 1]);
                assert(d.contains(y));
            }
        }
        lemma_absent_zero_count(s, y, n - 1);
    }
}

/// The bucket list the palette is chosen from: each distinct quantized color
/// of `s`, in order of first appearance, with its occurrence count.
pub open spec fn spec_counts(s: Seq<Rgba>) -> Seq<(Rgba, usize)> {
    let d = distinct_upto(s, s.len() as int);
    Seq::new(d.len(), |k: int| (d[k], count_upto(s, d[k], s.len() as int) as usize))
}

/// Builds the bucket list of a quantized pixel sequence.
pub fn count_colors(q: &Vec<Rgba>) -> (counts: Vec<(Rgba, usize)>)
    ensures
        counts@ == spec_counts(q@),
{
    let total = q.len();
    let mut counts: Vec<(Rgba, usize)> = Vec::new();
    let mut i: usize = 0;
    while i < total
        invariant
            i <= total,
            total == q@.len(),
            counts@.map_values(|p: (Rgba, usize)| p.0) =~= distinct_upto(q@, i as int),
            forall|k: int| 0 <= k < counts@.len() ==> (#[trigger] counts@[k]).1 == count_upto(
                q@,
                counts@[k].0,
                i as int,
            ),
        decreases total - i,
    {
        let x = q[i];
        let buckets = counts.len();
        let mut k: usize = 0;
        let mut found: Option<usize> = None;
        while k < buckets
            invariant
                k <= buckets,
                buckets == counts@.len(),
                match found {
                    Some(idx) => idx < buckets && counts@[idx as int].0 == x,
                    None => forall|j: int| 0 <= j < k ==> (#[trigger] counts@[j]).0 != x,
                },
                found is Some ==> (found matches Some(idx) && idx < k),
            decreases buckets - k,
        {
            if found.is_none() && counts[k].0 == x {
                found = Some(k);
            }
            k = k + 1;
        }
        let ghost d_old = distinct_upto(q@, i as int);
        let ghost keys_old = counts@.map_values(|p: (Rgba, usize)| p.0);
        match found {
            Some(idx) => {
                proof {
                    assert(keys_old[idx as int] == counts@[idx as int].0);
                    assert(d_old.contains(x)) by {
                        assert(d_old[idx as int] == x);
                    }
                    assert(distinct_upto(q@, i + 1) =~= d_old);
                    lemma_count_upto_bounds(q@, x, i as int);
                    lemma_distinct_upto_nodup(q@, i as int);
                    assert forall|j: int|
                        0 <= j < counts@.len() && j != idx as int implies (#[trigger] counts@[j]).0
                        != x by {
                        assert(keys_old[j] == counts@[j].0);
                        assert(keys_old[idx as int] == x);
                    }
                }
                let pair = counts[idx];
                counts[idx] = (pair.0, pair.1 + 1);
                proof {
                    assert(counts@.map_values(|p: (Rgba, usize)| p.0) =~= keys_old);
                }
            },
            None => {
                proof {
                    assert forall|j: int| 0 <= j < d_old.len() implies d_old[j] != x by {
                        assert(keys_old[j] == counts@[j].0);
                    }
                    assert(!d_old.contains(x));
                    assert(distinct_upto(q@, i + 1) =~= d_old.push(x));
                    lemma_count_upto_bounds(q@, x, i as int);
                    lemma_absent_zero_count(q@, x, i as int);
                }
                counts.push((x, 1));
                proof {
                    assert(counts@.map_values(|p: (Rgba, usize)| p.0) =~= keys_old.push(x));
                }
            },
        }
        proof {
            assert(counts@.map_values(|p: (Rgba, usize)| p.0) =~= distinct_upto(q@, i + 1));
        }
        i = i + 1;
    }
    proof {
        let d = distinct_upto(q@, total as int);
        assert(counts@.len() == d.len());
        assert forall|k: int| 0 <= k < counts@.len() implies counts@[k] == spec_counts(q@)[k] by {
            assert(counts@.map_values(|p: (Rgba, usize)| p.0)[k] == counts@[k].0);
            lemma_count_upto_bounds(q@, counts@[k].0, total as int);
        }
        assert(counts@ =~= spec_counts(q@));
    }
    counts
}

/// A first-appearance distinct list of a non-empty prefix is non-empty, and
/// never longer than the prefix.
pub proof fn lemma_distinct_upto_len(s: Seq<Rgba>, n: int)
    requires
        0 <= n <= s.len(),
    ensures
        distinct_upto(s, n).len() <= n,
        n >= 1 ==> distinct_upto(s, n).len() >= 1,
    decreases n,
{
    if n > 0 {
        lemma_distinct_upto_len(s, n - 1);
    }
}

/// The bucket with the highest count among the first `n`, the earliest
/// winning ties.
pub open spec fn best_upto(cands: Seq<(Rgba, usize)>, n: int) -> int
    decreases n when 1 <= n <= cands.len()
{
    if n <= 1 {
        0
    } else {
        let b = best_upto(cands, n - 1);
        if cands[n - 1].1 > cands[b].1 {
            n - 1
        } else {
            b
        }
    }
}

/// The best bucket index lies among those examined.
pub proof fn lemma_best_upto_in_range(cands: Seq<(Rgba, usize)>, n: int)
    requires
        1 <= n <= cands.len(),
    ensures
        0 <= best_upto(cands, n) < n,
    decreases n,
{
    if n > 1 {
        lemma_best_upto_in_range(cands, n - 1);
    }
}

/// The best bucket's count is at least every examined bucket's count.
pub proof fn lemma_best_upto_max(cands: Seq<(Rgba, usize)>, n: int)
    requires
        1 <= n <= cands.len(),
    ensures
        forall|m: int| 0 <= m < n ==> (#[trigger] cands[m]).1 <= cands[best_upto(cands, n)].1,
    decreases n,
{
    if n > 1 {
        lemma_best_upto_max(cands, n - 1);
    }
}

/// The palette drawn from a bucket list: `k` rounds of taking the
/// highest-count bucket out, the earliest winning ties.
pub open spec fn spec_select(cands: Seq<(Rgba, usize)>, k: int) -> Seq<Rgba>
    decreases k when k >= 0 via spec_select_decreases
{
    if k <= 0 || cands.len() == 0 {
        Seq::empty()
    } else {
        let b = best_upto(cands, cands.len() as int);
        seq![cands[b].0] + spec_select(cands.remove(b), k - 1)
    }
}

#[via_fn]
proof fn spec_select_decreases(cands: Seq<(Rgba, usize)>, k: int) {
    if !(k <= 0 || cands.len() == 0) {
        lemma_best_upto_in_range(cands, cands.len() as int);
    }
}

/// The dominant-color palette of a quantized pixel sequence.
pub open spec fn spec_palette(s: Seq<Rgba>) -> Seq<Rgba> {
    spec_select(spec_counts(s), PALETTE_SIZE as int)
}

/// Extracts the dominant-color palette: the fixed number of most frequent
/// quantized colors, most frequent first, first appearance winning ties.
pub fn extract_palette(q: &Vec<Rgba>) -> (palette: Vec<Rgba>)
    ensures
        palette@ == spec_palette(q@),
{
    let mut counts = count_colors(q);
    let ghost counts0 = counts@;
    let mut palette: Vec<Rgba> = Vec::new();
    let mut round: usize = 0;
    while round < PALETTE_SIZE && counts.len() > 0
        invariant
            round <= PALETTE_SIZE,
            round == palette@.len(),
            spec_select(counts0, PALETTE_SIZE as int) == palette@ + spec_select(
                counts@,
                PALETTE_SIZE - round,
            ),
        decreases PALETTE_SIZE - round,
    {
        let buckets = counts.len();
        let mut b: usize = 0;
        let mut n: usize = 1;
        while n < buckets
            invariant
                1 <= n <= buckets,
                buckets == counts@.len(),
                b as int == best_upto(counts@, n as int),
                b < n,
            decreases buckets - n,
        {
            if counts[n].1 > counts[b].1 {
                b = n;
            }
            n = n + 1;
        }
        proof {
            lemma_best_upto_in_range(counts@, counts@.len() as int);
        }
        let pick = counts[b].0;
        let ghost counts_before = counts@;
        counts.remove(b);
        palette.push(pick);
        proof {
            assert(spec_select(counts_before, PALETTE_SIZE - round) =~= seq![pick]
                + spec_select(counts@, PALETTE_SIZE - round - 1));
            assert(palette@ + spec_select(counts@, PALETTE_SIZE - (round + 1)) =~= palette@
                .drop_last() + (seq![pick] + spec_select(counts@, PALETTE_SIZE - round - 1)));
        }
        round = round + 1;
    }
    proof {
        if counts@.len() == 0 {
            assert(spec_select(counts@, PALETTE_SIZE - round) =~= Seq::<Rgba>::empty());
        } else {
            assert(round == PALETTE_SIZE);
            assert(spec_select(counts@, 0) =~= Seq::<Rgba>::empty());
        }
        assert(palette@ =~= palette@ + Seq::<Rgba>::empty());
    }
    palette
}

/// Law: the palette's first entry is a dominant color. No color occurs in
/// the quantized pixels more often than the head of the palette does.
pub proof fn lemma_palette_head_dominates(s: Seq<Rgba>, c: Rgba)
    requires
        1 <= s.len() <= usize::MAX,
    ensures
        spec_palette(s).len() >= 1,
        count_upto(s, c, s.len() as int) <= count_upto(s, spec_palette(s)[0], s.len() as int),
{
    let n = s.len() as int;
    let cands = spec_counts(s);
    let d = distinct_upto(s, n);
    lemma_distinct_upto_len(s, n);
    lemma_best_upto_in_range(cands, cands.len() as int);
    lemma_best_upto_max(cands, cands.len() as int);
    let b = best_upto(cands, cands.len() as int);
    let head = cands[b].0;
    assert(spec_palette(s) == seq![head] + spec_select(cands.remove(b), PALETTE_SIZE - 1));
    assert(spec_palette(s)[0] == head);
    assert(head == d[b]);
    lemma_count_upto_bounds(s, d[b], n);
    assert(cands[b].1 == count_upto(s, d[b], n));
    if count_upto(s, c, n) > 0 {
        if !d.contains(c) {
            lemma_absent_zero_count(s, c, n);
        }
        let m = choose|m: int| 0 <= m < d.len() && d[m] == c;
        lemma_count_upto_bounds(s, c, n);
        assert(cands[m].1 == count_upto(s, c, n));
        assert(cands[m].1 <= cands[b].1);
    } else {
        lemma_count_upto_bounds(s, c, n);
    }
}

/// Whether some entry of the frame's dominant-color palette maps to the
/// expected named color.
pub open spec fn spec_frame_matches(f: Frame, expected: NamedColor) -> bool {
    exists|i: int|
        0 <= i < spec_palette(spec_qpixels(f)).len() && spec_nearest(
            #[trigger] spec_palette(spec_qpixels(f))[i],
        ) == expected
}

/// Decides whether a frame shows the expected color: canonical conversion,
/// quantization, palette extraction, and a nearest-named-color check on each
/// palette entry.
pub fn frame_matches(f: &Frame, expected: NamedColor) -> (r: bool)
    requires
        f.wf(),
    ensures
        r == spec_frame_matches(*f, expected),
{
    let pixels = to_rgba(f);
    let q = quantize_all(&pixels);
    proof {
        assert(q@ == spec_qpixels(*f));
    }
    let palette = extract_palette(&q);
    let count = palette.len();
    let mut i: usize = 0;
    while i < count
        invariant
            i <= count,
            count == palette@.len(),
            palette@ == spec_palette(spec_qpixels(*f)),
            forall|j: int| 0 <= j < i ==> spec_nearest(#[trigger] palette@[j]) != expected,
        decreases count - i,
    {
        let n = nearest_named(palette[i]);
        if n == expected {
            return true;
        }
        i = i + 1;
    }
    false
}

/// The named color a textual color name designates, compared ignoring ASCII
/// case, or `None` for a name outside the table.
pub open spec fn spec_parse_color(s: Seq<char>) -> Option<NamedColor> {
    if spec_eq_ci(s, "red"@) {
        Some(NamedColor::Red)
    } else if spec_eq_ci(s, "green"@) {
        Some(NamedColor::Green)
    } else if spec_eq_ci(s, "blue"@) {
        Some(NamedColor::Blue)
    } else if spec_eq_ci(s, "yellow"@) {
        Some(NamedColor::Yellow)
    } else if spec_eq_ci(s, "cyan"@) {
        Some(NamedColor::Cyan)
    } else if spec_eq_ci(s, "magenta"@) {
        Some(NamedColor::Magenta)
    } else if spec_eq_ci(s, "white"@) {
        Some(NamedColor::White)
    } else if spec_eq_ci(s, "black"@) {
        Some(NamedColor::Black)
    } else {
        None
    }
}

/// Parses a textual color name, ignoring ASCII case.
pub fn parse_color_name(s: &str) -> (r: Option<NamedColor>)
    ensures
        r == spec_parse_color(s@),
{
    if eq_ignore_case(s, "red") {
        Some(NamedColor::Red)
    } else if eq_ignore_case(s, "green") {
        Some(NamedColor::Green)
    } else if eq_ignore_case(s, "blue") {
        Some(NamedColor::Blue)
    } else if eq_ignore_case(s, "yellow") {
        Some(NamedColor::Yellow)
    } else if eq_ignore_case(s, "cyan") {
        Some(NamedColor::Cyan)
    } else if eq_ignore_case(s, "magenta") {
        Some(NamedColor::Magenta)
    } else if eq_ignore_case(s, "white") {
        Some(NamedColor::White)
    } else if eq_ignore_case(s, "black") {
        Some(NamedColor::Black)
    } else {
        None
    }
}

/// The polling interval the source's frame rate dictates, floored at one
/// millisecond so that time always advances. A zero rate has no interval and
/// is rejected before this is asked.
pub open spec fn spec_interval(fps: u32) -> u64 {
    if fps >= 1000 {
        1
    } else {
        (1000u32 / fps) as u64
    }
}

/// How one color verification ended: the target color had dwelled long
/// enough at the given elapsed time, or the deadline passed first.
#[derive(Debug, Clone, Copy, PartialEq, Eq, Structural)]
pub enum VerifyOutcome {
    Pass { at: u64 },
    TimedOut { at: u64 },
}

/// Whether poll `i` of the trace samples a frame showing the expected color.
/// A poll past the end of the trace, or one that samples nothing, misses.
pub open spec fn match_at(samples: Seq<Option<Frame>>, expected: NamedColor, i: int) -> bool {
    0 <= i < samples.len() && (samples[i] matches Some(f) && spec_frame_matches(f, expected))
}

/// The dwell-time state machine over a sampled trace. Poll `i` happens at
/// `now == i * interval`; `fm` is the time the first matching poll was seen.
///
/// At each poll: a match arms the dwell start if it was unset, and passes as
/// soon as the time since the dwell start reaches the dwell; then the
/// deadline is checked; then one interval passes. The dwell start is armed
/// once and never cleared by a miss: matches need not be contiguous.
pub open spec fn spec_verify(
    samples: Seq<Option<Frame>>,
    expected: NamedColor,
    interval: u64,
    dwell: u64,
    timeout: u64,
    i: nat,
    now: u64,
    fm: Option<u64>,
) -> VerifyOutcome
    decreases timeout + interval - now
        when interval >= 1 && now == i * interval && now <= timeout + interval && timeout
            + interval <= u64::MAX && (fm matches Some(t) ==> t <= now)
{
    let matched = match_at(samples, expected, i as int);
    let fm2 = if matched && fm is None {
        Some(now)
    } else {
        fm
    };
    if matched && (fm2 matches Some(t) && now - t >= dwell) {
        VerifyOutcome::Pass { at: now }
    } else if now >= timeout {
        VerifyOutcome::TimedOut { at: now }
    } else {
        spec_verify(samples, expected, interval, dwell, timeout, i + 1, (now + interval) as u64, fm2)
    }
}

/// Runs the color verification over a sampled trace: `samples[i]` is the
/// frame the sink retains at poll `i`, polls being one source frame interval
/// apart. Succeeds, with the elapsed time, once the expected color has been
/// seen and the dwell time has passed since it was first seen; fails with a
/// timeout naming the sink once the deadline is reached first. A source
/// frame rate of zero has no poll interval and is a configuration error.
pub fn verify_color(
    samples: &Vec<Option<Frame>>,
    fps: u32,
    expected: NamedColor,
    dwell_ms: u64,
    timeout_ms: u64,
    sink_name: &str,
) -> (r: Result<u64, EngineError>)
    requires
        timeout_ms + 1000 <= u64::MAX,
        forall|i: int| 0 <= i < samples@.len() ==> (#[trigger] samples@[i] matches Some(f)
            ==> f.wf()),
    ensures
        fps == 0 ==> r == Err::<u64, EngineError>(EngineError::ZeroFrameRate),
        fps > 0 ==> match r {
            Ok(at) => spec_verify(
                samples@,
                expected,
                spec_interval(fps),
                dwell_ms,
                timeout_ms,
                0,
                0,
                None,
            ) == (VerifyOutcome::Pass { at }),
            Err(e) => e matches EngineError::VerificationTimeout { element, elapsed_ms }
                && element@ == sink_name@ && spec_verify(
                samples@,
                expected,
                spec_interval(fps),
                dwell_ms,
                timeout_ms,
                0,
                0,
                None,
            ) == (VerifyOutcome::TimedOut { at: elapsed_ms }),
        },
{
    if fps == 0 {
        return Err(EngineError::ZeroFrameRate);
    }
    let interval: u64 = if fps >= 1000 {
        1
    } else {
        (1000u32 / fps) as u64
    };
    let ghost iv = spec_interval(fps);
    proof {
        if fps < 1000 {
            assert(1000int / (fps as int) >= 1) by (nonlinear_arith)
                requires
                    1 <= fps < 1000,
            ;
            assert(1000int / (fps as int) <= 1000) by (nonlinear_arith)
                requires
                    1 <= fps,
            ;
        }
    }
    let mut i: u64 = 0;
    let mut now: u64 = 0;
    let mut fm: Option<u64> = None;
    loop
        invariant
            fps > 0,
            interval == iv,
            iv == spec_interval(fps),
            1 <= interval <= 1000,
            timeout_ms + 1000 <= u64::MAX,
            now == i * interval,
            i <= now || i == 0,
            now < timeout_ms + interval,
            fm matches Some(t) ==> t <= now,
            forall|k: int| 0 <= k < samples@.len() ==> (#[trigger] samples@[k] matches Some(f)
                ==> f.wf()),
            spec_verify(samples@, expected, iv, dwell_ms, timeout_ms, 0, 0, None) == spec_verify(
                samples@,
                expected,
                iv,
                dwell_ms,
                timeout_ms,
                i as nat,
                now,
                fm,
            ),
        decreases timeout_ms + interval - now,
    {
        let len = samples.len();
        let matched = if i < (len as u64) {
            match &samples[i as usize] {
                Some(f) => frame_matches(f, expected),
                None => false,
            }
        } else {
            false
        };
        proof {
            assert(matched == match_at(samples@, expected, i as int));
        }
        if matched && fm.is_none() {
            fm = Some(now);
        }
        let passed = match fm {
            Some(t) => matched && now - t >= dwell_ms,
            None => false,
        };
        if passed {
            return Ok(now);
        }
        if now >= timeout_ms {
            return Err(
                EngineError::VerificationTimeout {
                    element: sink_name.to_owned(),
                    elapsed_ms: now,
                },
            );
        }
        proof {
            assert((i + 1) * interval == i * interval + interval) by (nonlinear_arith);
        }
        i = i + 1;
        now = now + interval;
    }
}

/// Run of the dwell machine over a trace whose every poll matches, with the
/// dwell armed at time zero: it passes exactly at poll `k`, the first poll at
/// or past the dwell.
proof fn lemma_match_run(
    samples: Seq<Option<Frame>>,
    expected: NamedColor,
    interval: u64,
    dwell: u64,
    timeout: u64,
    i: nat,
    now: u64,
    fm: Option<u64>,
    k: nat,
)
    requires
        1 <= interval,
        timeout + interval <= u64::MAX,
        dwell <= timeout,
        now == i * interval,
        i <= k,
        k * interval >= dwell,
        k > 0 ==> (k - 1) * interval < dwell,
        k < samples.len(),
        forall|j: int| 0 <= j < samples.len() ==> match_at(samples, expected, j),
        i == 0 ==> fm is None,
        i > 0 ==> fm == Some(0u64),
    ensures
        spec_verify(samples, expected, interval, dwell, timeout, i, now, fm) == (
        VerifyOutcome::Pass { at: (k * interval) as u64 }),
    decreases k - i,
{
    assert(i * interval <= k * interval) by (nonlinear_arith)
        requires
            i <= k,
            interval >= 1,
    ;
    assert(k * interval <= timeout + interval) by (nonlinear_arith)
        requires
            k > 0 ==> (k - 1) * interval < dwell,
            dwell <= timeout,
            interval >= 1,
    ;
    assert(match_at(samples, expected, i as int));
    let fm2 = if fm is None {
        Some(now)
    } else {
        fm
    };
    assert(fm2 == Some(0u64)) by {
        if fm is None {
            if i > 0 {
            } else {
                assert(now == 0);
            }
        }
    }
    if i == k {
        assert(now - 0 >= dwell);
    } else {
        assert(i * interval <= (k - 1) * interval) by (nonlinear_arith)
            requires
                i <= k - 1,
                interval >= 1,
        ;
        assert(now < dwell);
        assert(now < timeout);
        assert((i + 1) * interval == i * interval + interval) by (nonlinear_arith);
        lemma_match_run(
            samples,
            expected,
            interval,
            dwell,
            timeout,
            i + 1,
            (now + interval) as u64,
            fm2,
            k,
        );
    }
}

/// Law: against a source that shows the expected color from the start and
/// continuously thereafter, verification succeeds exactly when the elapsed
/// time first reaches the dwell, and never before: the pass time lies in
/// `[dwell, dwell + interval)`.
pub proof fn lemma_continuous_match_passes_at_dwell(
    samples: Seq<Option<Frame>>,
    expected: NamedColor,
    interval: u64,
    dwell: u64,
    timeout: u64,
)
    requires
        1 <= interval,
        timeout + interval <= u64::MAX,
        dwell <= timeout,
        samples.len() >= 1,
        dwell <= (samples.len() - 1) * interval,
        timeout <= (samples.len() - 1) * interval,
        forall|j: int| 0 <= j < samples.len() ==> match_at(samples, expected, j),
    ensures
        ({
            let r = spec_verify(samples, expected, interval, dwell, timeout, 0, 0, None);
            r matches VerifyOutcome::Pass { at } && dwell <= at && at < dwell + interval
        }),
{
    let k = ((dwell + interval - 1) / (interval as int)) as nat;
    assert(k * interval >= dwell && (k > 0 ==> (k - 1) * interval < dwell)) by (nonlinear_arith)
        requires
            k == (dwell + interval - 1) / (interval as int),
            interval >= 1,
            dwell >= 0,
    ;
    assert(k * interval < dwell + interval) by (nonlinear_arith)
        requires
            k == (dwell + interval - 1) / (interval as int),
            interval >= 1,
            dwell >= 0,
    ;
    assert(k < samples.len()) by (nonlinear_arith)
        requires
            k * interval >= dwell,
            k * interval < dwell + interval,
            dwell <= (samples.len() - 1) * interval,
            interval >= 1,
            samples.len() >= 1,
    ;
    lemma_match_run(samples, expected, interval, dwell, timeout, 0, 0, None, k);
}

/// Run of the dwell machine over a trace with no matching poll: the dwell is
/// never armed and it times out at the first poll at or past the deadline.
proof fn lemma_no_match_run(
    samples: Seq<Option<Frame>>,
    expected: NamedColor,
    interval: u64,
    dwell: u64,
    timeout: u64,
    i: nat,
    now: u64,
)
    requires
        1 <= interval,
        timeout + interval <= u64::MAX,
        now == i * interval,
        now < timeout + interval,
        forall|j: int| !match_at(samples, expected, j),
    ensures
        ({
            let r = spec_verify(samples, expected, interval, dwell, timeout, i, now, None);
            r matches VerifyOutcome::TimedOut { at } && timeout <= at && at < timeout + interval
        }),
    decreases timeout + interval - now,
{
    assert(!match_at(samples, expected, i as int));
    if now >= timeout {
    } else {
        assert((i + 1) * interval == i * interval + interval) by (nonlinear_arith);
        lemma_no_match_run(samples, expected, interval, dwell, timeout, i + 1, (now
            + interval) as u64);
    }
}

/// Law: against a source that never shows the expected color, verification
/// fails with a timeout at or just past the deadline, and not earlier: the
/// reported elapsed time lies in `[timeout, timeout + interval)`.
pub proof fn lemma_never_match_times_out(
    samples: Seq<Option<Frame>>,
    expected: NamedColor,
    interval: u64,
    dwell: u64,
    timeout: u64,
)
    requires
        1 <= interval,
        timeout + interval <= u64::MAX,
        forall|j: int| !match_at(samples, expected, j),
    ensures
        ({
            let r = spec_verify(samples, expected, interval, dwell, timeout, 0, 0, None);
            r matches VerifyOutcome::TimedOut { at } && timeout <= at && at < timeout + interval
        }),
{
    lemma_no_match_run(samples, expected, interval, dwell, timeout, 0, 0);
}

/// Run of the dwell machine toward a matching poll `k` whose distance from an
/// earlier matching poll `j` covers the dwell: it passes no later than `k`,
/// whatever the polls between `j` and `k` showed.
proof fn lemma_rearm_run(
    samples: Seq<Option<Frame>>,
    expected: NamedColor,
    interval: u64,
    dwell: u64,
    timeout: u64,
    i: nat,
    now: u64,
    fm: Option<u64>,
    j: nat,
    k: nat,
)
    requires
        1 <= interval,
        timeout + interval <= u64::MAX,
        now == i * interval,
        i <= k,
        j < k,
        k < samples.len(),
        match_at(samples, expected, j as int),
        match_at(samples, expected, k as int),
        (k - j) * interval >= dwell,
        (k - 1) * interval < timeout,
        fm matches Some(t) ==> t <= now,
        i > j ==> (fm matches Some(t) && t <= j * interval),
    ensures
        ({
            let r = spec_verify(samples, expected, interval, dwell, timeout, i, now, fm);
            r matches VerifyOutcome::Pass { at } && at <= k * interval
        }),
    decreases k - i,
{
    assert(i * interval <= k * interval) by (nonlinear_arith)
        requires
            i <= k,
            interval >= 1,
    ;
    assert(now <= timeout + interval) by (nonlinear_arith)
        requires
            now == i * interval,
            i <= k,
            (k - 1) * interval < timeout,
            interval >= 1,
            k >= 1,
    ;
    let matched = match_at(samples, expected, i as int);
    let fm2 = if matched && fm is None {
        Some(now)
    } else {
        fm
    };
    if i == k {
        assert(fm2 matches Some(t) && t <= j * interval);
        assert(k * interval - j * interval >= dwell) by (nonlinear_arith)
            requires
                (k - j) * interval >= dwell,
                j < k,
                interval >= 1,
        ;
        assert(matched);
    } else {
        if matched && (fm2 matches Some(t) && now - t >= dwell) {
        } else {
            assert(i * interval <= (k - 1) * interval) by (nonlinear_arith)
                requires
                    i <= k - 1,
                    interval >= 1,
            ;
            assert(now < timeout);
            assert((i + 1) * interval == i * interval + interval) by (nonlinear_arith);
            assert(i + 1 > j ==> (fm2 matches Some(t) && t <= j * interval)) by {
                if i + 1 > j {
                    assert(i >= j);
                    if i == j {
                        assert(matched);
                        assert(now == j * interval);
                    }
                }
            }
            lemma_rearm_run(
                samples,
                expected,
                interval,
                dwell,
                timeout,
                i + 1,
                (now + interval) as u64,
                fm2,
                j,
                k,
            );
        }
    }
}

/// Law: the dwell start is armed once and never cleared by a miss. If the
/// expected color shows at poll `j` and again at poll `k`, the dwell apart,
/// and the deadline has not struck by `k`, verification passes no later than
/// `k` — misses between `j` and `k` do not reset the dwell.
pub proof fn lemma_miss_does_not_reset_dwell(
    samples: Seq<Option<Frame>>,
    expected: NamedColor,
    interval: u64,
    dwell: u64,
    timeout: u64,
    j: nat,
    k: nat,
)
    requires
        1 <= interval,
        timeout + interval <= u64::MAX,
        j < k,
        k < samples.len(),
        match_at(samples, expected, j as int),
        match_at(samples, expected, k as int),
        (k - j) * interval >= dwell,
        (k - 1) * interval < timeout,
    ensures
        ({
            let r = spec_verify(samples, expected, interval, dwell, timeout, 0, 0, None);
            r matches VerifyOutcome::Pass { at } && at <= k * interval
        }),
{
    lemma_rearm_run(samples, expected, interval, dwell, timeout, 0, 0, None, j, k);
}

} // verus!
