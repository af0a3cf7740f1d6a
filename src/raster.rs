use vstd::prelude::*;

verus! {

/// One laid-out glyph of a line: its pixel bounding box, in a frame whose
/// origin is the top-left corner of the line (the baseline lies at the
/// ascent), and, row by row, which pixels of that box are ink.
pub struct Glyph {
    pub min_x: i32,
    pub min_y: i32,
    pub max_x: i32,
    pub max_y: i32,
    pub ink: Vec<bool>,
}

impl Glyph {
    pub open spec fn box_width(&self) -> int {
        self.max_x - self.min_x
    }

    pub open spec fn box_height(&self) -> int {
        self.max_y - self.min_y
    }

    pub open spec fn wf(&self) -> bool {
        &&& self.min_x <= self.max_x
        &&& self.min_y <= self.max_y
        &&& self.ink@.len() == self.box_width() * self.box_height()
    }
}

/// A shaped line laid out with one font at one size: the font's rounded
/// ascent and descent, and the glyphs that have a pixel box, left to right.
pub struct GlyphRun {
    pub ascent: i32,
    pub descent: i32,
    pub glyphs: Vec<Glyph>,
}

pub open spec fn glyphs_wf(gs: Seq<Glyph>) -> bool {
    forall|i: int| 0 <= i < gs.len() ==> (#[trigger] gs[i]).wf()
}

impl GlyphRun {
    pub open spec fn wf(&self) -> bool {
        glyphs_wf(self.glyphs@)
    }
}

/// How many times a line is painted, and at which offsets.
#[derive(Debug, Clone, Copy, PartialEq, Eq, Structural)]
pub enum Stroke {
    /// One pass.
    Single,
    /// A second pass one pixel to the right.
    Double,
    /// Passes at one and two pixels to the right and one pixel down.
    Quad,
}

pub open spec fn stroke_offsets(s: Stroke) -> Seq<(int, int)> {
    match s {
        Stroke::Single => seq![(0int, 0int)],
        Stroke::Double => seq![(0int, 0int), (1int, 0int)],
        Stroke::Quad => seq![(0int, 0int), (1int, 0int), (2int, 0int), (0int, 1int)],
    }
}

/// Whether glyph `g`, moved right by `ox` and down by `oy`, inks pixel `(x, y)`.
pub open spec fn glyph_covers(g: Glyph, ox: int, oy: int, x: int, y: int) -> bool {
    let gx = x - ox - g.min_x;
    let gy = y - oy - g.min_y;
    &&& 0 <= gx < g.box_width()
    &&& 0 <= gy < g.box_height()
    &&& g.ink@[gy * g.box_width() + gx]
}

pub open spec fn run_covers(gs: Seq<Glyph>, ox: int, oy: int, x: int, y: int) -> bool {
    exists|i: int| 0 <= i < gs.len() && glyph_covers(#[trigger] gs[i], ox, oy, x, y)
}

/// Whether any pass of `stroke` over the line placed at `(ox, 0)` inks `(x, y)`.
pub open spec fn stroke_covers(gs: Seq<Glyph>, stroke: Stroke, ox: int, x: int, y: int) -> bool {
    exists|k: int|
        0 <= k < stroke_offsets(stroke).len() && run_covers(
            gs,
            ox + (#[trigger] stroke_offsets(stroke)[k]).0,
            stroke_offsets(stroke)[k].1,
            x,
            y,
        )
}

/// The rightmost right edge among the glyphs' boxes, never below zero:
/// trailing advance space does not count.
pub open spec fn tight_width_of(gs: Seq<Glyph>) -> int
    decreases gs.len(),
{
    if gs.len() == 0 {
        0
    } else {
        let rest = tight_width_of(gs.drop_last());
        if gs.last().max_x > rest {
            gs.last().max_x as int
        } else {
            rest
        }
    }
}

proof fn lemma_tight_width_nonneg(gs: Seq<Glyph>)
    ensures
        0 <= tight_width_of(gs),
    decreases gs.len(),
{
    if gs.len() > 0 {
        lemma_tight_width_nonneg(gs.drop_last());
    }
}

/// Line height from the font's ascent and descent, at least 30 pixels.
pub open spec fn line_height_of(ascent: int, descent: int) -> int {
    if ascent - descent < 30 {
        30
    } else {
        ascent - descent
    }
}

/// A monochrome pixel grid, `rows[y][x]` true for ink.
pub struct Bitmap {
    pub width: u32,
    pub height: u32,
    pub rows: Vec<Vec<bool>>,
}

impl Bitmap {
    pub open spec fn wf(&self) -> bool {
        &&& self.rows@.len() == self.height
        &&& forall|y: int| 0 <= y < self.height ==> (#[trigger] self.rows@[y])@.len() == self.width
    }

    pub open spec fn ink(&self, x: int, y: int) -> bool {
        self.rows@[y]@[x]
    }
}

impl View for Bitmap {
    type V = Seq<Seq<bool>>;

    open spec fn view(&self) -> Seq<Seq<bool>> {
        self.rows@.map_values(|r: Vec<bool>| r@)
    }
}

/// The `width` by `height` grid of the line `gs` painted with `stroke` at `(ox, 0)`.
pub open spec fn line_pixels(gs: Seq<Glyph>, stroke: Stroke, ox: int, width: nat, height: nat) -> Seq<
    Seq<bool>,
> {
    Seq::new(height, |y: int| Seq::new(width, |x: int| stroke_covers(gs, stroke, ox, x, y)))
}

/// `p` with every pixel left of column `left` cleared.
pub open spec fn clipped_pixels(p: Seq<Seq<bool>>, left: int) -> Seq<Seq<bool>> {
    Seq::new(p.len(), |y: int| Seq::new(p[y].len(), |x: int| x >= left && p[y][x]))
}

/// Pixel-wise union of two grids of the same shape.
pub open spec fn union_pixels(p: Seq<Seq<bool>>, q: Seq<Seq<bool>>) -> Seq<Seq<bool>> {
    Seq::new(p.len(), |y: int| Seq::new(p[y].len(), |x: int| p[y][x] || q[y][x]))
}

proof fn lemma_index_in_box(gx: int, gy: int, w: int, h: int)
    requires
        0 <= gx < w,
        0 <= gy < h,
    ensures
        0 <= gy * w + gx < w * h,
{
    assert(gy * w + gx < w * h) by (nonlinear_arith)
        requires
            0 <= gx < w,
            0 <= gy < h,
    ;
    assert(0 <= gy * w) by (nonlinear_arith)
        requires
            0 <= gy,
            0 <= w,
    ;
}

fn glyph_covers_at(g: &Glyph, ox: i64, oy: i64, x: i64, y: i64) -> (r: bool)
    requires
        g.wf(),
        -0x2_0000_0000 <= ox <= 0x2_0000_0000,
        -0x2_0000_0000 <= oy <= 0x2_0000_0000,
        -0x2_0000_0000 <= x <= 0x2_0000_0000,
        -0x2_0000_0000 <= y <= 0x2_0000_0000,
    ensures
        r == glyph_covers(*g, ox as int, oy as int, x as int, y as int),
{
    let gx = x - ox - g.min_x as i64;
    let gy = y - oy - g.min_y as i64;
    let bw = g.max_x as i64 - g.min_x as i64;
    let bh = g.max_y as i64 - g.min_y as i64;
    if gx < 0 || gx >= bw || gy < 0 || gy >= bh {
        return false;
    }
    proof {
        lemma_index_in_box(gx as int, gy as int, bw as int, bh as int);
    }
    let n = g.ink.len();
    let gyu = gy as u64;
    let bwu = bw as u64;
    let gxu = gx as u64;
    assert(gyu * bwu + gxu < n) by {
        assert(n as int == bw * bh);
        assert(gyu as int == gy && bwu as int == bw && gxu as int == gx);
    }
    let idx = gyu * bwu + gxu;
    g.ink[idx as usize]
}

fn run_covers_at(gs: &Vec<Glyph>, ox: i64, oy: i64, x: i64, y: i64) -> (r: bool)
    requires
        glyphs_wf(gs@),
        -0x2_0000_0000 <= ox <= 0x2_0000_0000,
        -0x2_0000_0000 <= oy <= 0x2_0000_0000,
        -0x2_0000_0000 <= x <= 0x2_0000_0000,
        -0x2_0000_0000 <= y <= 0x2_0000_0000,
    ensures
        r == run_covers(gs@, ox as int, oy as int, x as int, y as int),
{
    let mut i: usize = 0;
    while i < gs.len()
        invariant
            i <= gs@.len(),
            glyphs_wf(gs@),
            -0x2_0000_0000 <= ox <= 0x2_0000_0000,
            -0x2_0000_0000 <= oy <= 0x2_0000_0000,
            -0x2_0000_0000 <= x <= 0x2_0000_0000,
            -0x2_0000_0000 <= y <= 0x2_0000_0000,
            forall|j: int|
                0 <= j < i ==> !glyph_covers(#[trigger] gs@[j], ox as int, oy as int, x as int, y as int),
        decreases gs@.len() - i,
    {
        assert(gs@[i as int].wf());
        if glyph_covers_at(&gs[i], ox, oy, x, y) {
            return true;
        }
        i = i + 1;
    }
    false
}

fn stroke_covers_at(gs: &Vec<Glyph>, stroke: Stroke, ox: i64, x: i64, y: i64) -> (r: bool)
    requires
        glyphs_wf(gs@),
        -0x1_0000_0000 <= ox <= 0x1_0000_0000,
        -0x1_0000_0000 <= x <= 0x1_0000_0000,
        -0x1_0000_0000 <= y <= 0x1_0000_0000,
    ensures
        r == stroke_covers(gs@, stroke, ox as int, x as int, y as int),
{
    let ghost offs = stroke_offsets(stroke);
    let a = run_covers_at(gs, ox, 0, x, y);
    let r = match stroke {
        Stroke::Single => a,
        Stroke::Double => a || run_covers_at(gs, ox + 1, 0, x, y),
        Stroke::Quad => a || run_covers_at(gs, ox + 1, 0, x, y) || run_covers_at(gs, ox + 2, 0, x, y)
            || run_covers_at(gs, ox, 1, x, y),
    };
    proof {
        if r {
            match stroke {
                Stroke::Single => {
                    assert(offs[0] == (0int, 0int));
                },
                Stroke::Double => {
                    assert(offs[0] == (0int, 0int));
                    assert(offs[1] == (1int, 0int));
                },
                Stroke::Quad => {
                    assert(offs[0] == (0int, 0int));
                    assert(offs[1] == (1int, 0int));
                    assert(offs[2] == (2int, 0int));
                    assert(offs[3] == (0int, 1int));
                },
            }
        }
    }
    r
}

/// Paints the line `gs` with `stroke` at horizontal offset `ox` onto a blank
/// `width` by `height` canvas; ink falling outside the canvas is dropped.
pub fn paint_line(width: u32, height: u32, gs: &Vec<Glyph>, stroke: Stroke, ox: i64) -> (r: Bitmap)
    requires
        glyphs_wf(gs@),
        -0x1_0000_0000 <= ox <= 0x1_0000_0000,
    ensures
        r.wf(),
        r.width == width,
        r.height == height,
        forall|x: int, y: int|
            0 <= x < width && 0 <= y < height ==> #[trigger] r.ink(x, y) == stroke_covers(
                gs@,
                stroke,
                ox as int,
                x,
                y,
            ),
        r@ == line_pixels(gs@, stroke, ox as int, width as nat, height as nat),
{
    let mut rows: Vec<Vec<bool>> = Vec::new();
    let mut y: u32 = 0;
    while y < height
        invariant
            y <= height,
            glyphs_wf(gs@),
            -0x1_0000_0000 <= ox <= 0x1_0000_0000,
            rows@.len() == y,
            forall|r: int| 0 <= r < y ==> (#[trigger] rows@[r])@.len() == width,
            forall|c: int, r: int|
                0 <= c < width && 0 <= r < y ==> #[trigger] rows@[r]@[c] == stroke_covers(
                    gs@,
                    stroke,
                    ox as int,
                    c,
                    r,
                ),
        decreases height - y,
    {
        let mut row: Vec<bool> = Vec::new();
        let mut x: u32 = 0;
        while x < width
            invariant
                x <= width,
                y < height,
                glyphs_wf(gs@),
                -0x1_0000_0000 <= ox <= 0x1_0000_0000,
                row@.len() == x,
                forall|c: int|
                    0 <= c < x ==> #[trigger] row@[c] == stroke_covers(
                        gs@,
                        stroke,
                        ox as int,
                        c,
                        y as int,
                    ),
            decreases width - x,
        {
            let v = stroke_covers_at(gs, stroke, ox, x as i64, y as i64);
            row.push(v);
            x = x + 1;
        }
        rows.push(row);
        y = y + 1;
    }
    let r = Bitmap { width, height, rows };
    assert forall|yy: int| 0 <= yy < height implies #[trigger] r@[yy] =~= line_pixels(
        gs@,
        stroke,
        ox as int,
        width as nat,
        height as nat,
    )[yy] by {
        assert(r@[yy] == r.rows@[yy]@);
    }
    assert(r@ =~= line_pixels(gs@, stroke, ox as int, width as nat, height as nat));
    r
}

/// The pixel-wise union of two bitmaps of the same size.
pub fn overlay(a: &Bitmap, b: &Bitmap) -> (r: Bitmap)
    requires
        a.wf(),
        b.wf(),
        a.width == b.width,
        a.height == b.height,
    ensures
        r.wf(),
        r.width == a.width,
        r.height == a.height,
        forall|x: int, y: int|
            0 <= x < a.width && 0 <= y < a.height ==> #[trigger] r.ink(x, y) == (a.ink(x, y) || b.ink(
                x,
                y,
            )),
        r@ == union_pixels(a@, b@),
{
    let mut rows: Vec<Vec<bool>> = Vec::new();
    let mut y: u32 = 0;
    while y < a.height
        invariant
            a.wf(),
            b.wf(),
            a.width == b.width,
            a.height == b.height,
            y <= a.height,
            rows@.len() == y,
            forall|r: int| 0 <= r < y ==> (#[trigger] rows@[r])@.len() == a.width,
            forall|c: int, r: int|
                0 <= c < a.width && 0 <= r < y ==> #[trigger] rows@[r]@[c] == (a.ink(c, r) || b.ink(c, r)),
        decreases a.height - y,
    {
        let mut row: Vec<bool> = Vec::new();
        let mut x: u32 = 0;
        let ra = &a.rows[y as usize];
        let rb = &b.rows[y as usize];
        assert(ra@.len() == a.width && rb@.len() == a.width);
        while x < a.width
            invariant
                x <= a.width,
                ra@.len() == a.width,
                rb@.len() == a.width,
                *ra == a.rows@[y as int],
                *rb == b.rows@[y as int],
                row@.len() == x,
                forall|c: int| 0 <= c < x ==> #[trigger] row@[c] == (ra@[c] || rb@[c]),
            decreases a.width - x,
        {
            row.push(ra[x as usize] || rb[x as usize]);
            x = x + 1;
        }
        rows.push(row);
        y = y + 1;
    }
    let r = Bitmap { width: a.width, height: a.height, rows };
    assert forall|yy: int| 0 <= yy < a.height implies #[trigger] r@[yy] =~= union_pixels(a@, b@)[yy] by {
        assert(r@[yy] == r.rows@[yy]@);
        assert(a@[yy] == a.rows@[yy]@);
        assert(b@[yy] == b.rows@[yy]@);
    }
    assert(r@ =~= union_pixels(a@, b@));
    r
}

/// The rightmost right edge among the glyphs' pixel boxes (zero for an
/// empty line, and never below zero).
pub fn tight_width(gs: &Vec<Glyph>) -> (r: u32)
    ensures
        r as int == tight_width_of(gs@),
        r <= i32::MAX,
{
    let mut m: i32 = 0;
    let mut i: usize = 0;
    while i < gs.len()
        invariant
            i <= gs@.len(),
            0 <= m,
            m as int == tight_width_of(gs@.subrange(0, i as int)),
        decreases gs@.len() - i,
    {
        assert(gs@.subrange(0, i + 1).drop_last() =~= gs@.subrange(0, i as int));
        if gs[i].max_x > m {
            m = gs[i].max_x;
        }
        i = i + 1;
    }
    assert(gs@.subrange(0, i as int) =~= gs@);
    m as u32
}

/// Height of the line's canvas: ascent minus descent, at least 30 pixels.
pub fn line_height(run: &GlyphRun) -> (r: u32)
    ensures
        r as int == line_height_of(run.ascent as int, run.descent as int),
{
    let d = run.ascent as i64 - run.descent as i64;
    if d < 30 {
        30
    } else {
        d as u32
    }
}

/// Width of a tight line canvas: the glyphs plus `pad` on each side, at least 2.
pub open spec fn padded_width(text_w: int, pad: int) -> int {
    if text_w + 2 * pad < 2 {
        2
    } else {
        text_w + 2 * pad
    }
}

/// The tight canvas of a line: `padded_width` wide, line height tall.
pub open spec fn tight_line(run: GlyphRun, pad: int, stroke: Stroke) -> Seq<Seq<bool>> {
    line_pixels(
        run.glyphs@,
        stroke,
        pad,
        padded_width(tight_width_of(run.glyphs@), pad) as nat,
        line_height_of(run.ascent as int, run.descent as int) as nat,
    )
}

/// Paints a line on a canvas as wide as its ink plus `pad_lr` on each side
/// and as tall as its line height, the glyphs starting `pad_lr` from the left.
pub fn rasterize_line(run: &GlyphRun, pad_lr: u32, stroke: Stroke) -> (r: Bitmap)
    requires
        run.wf(),
        pad_lr <= 0x3fff_ffff,
    ensures
        r.wf(),
        r.width == padded_width(tight_width_of(run.glyphs@), pad_lr as int),
        r.height == line_height_of(run.ascent as int, run.descent as int),
        forall|x: int, y: int|
            0 <= x < r.width && 0 <= y < r.height ==> #[trigger] r.ink(x, y) == stroke_covers(
                run.glyphs@,
                stroke,
                pad_lr as int,
                x,
                y,
            ),
        r@ == tight_line(*run, pad_lr as int, stroke),
{
    let text_w = tight_width(&run.glyphs);
    let padded = text_w as u64 + 2 * pad_lr as u64;
    let w: u32 = if padded < 2 {
        2
    } else {
        padded as u32
    };
    let h = line_height(run);
    paint_line(w, h, &run.glyphs, stroke, pad_lr as i64)
}

/// A tight line painted twice for boldness (the second pass one pixel right).
pub fn render_arabic_line_tight_1bit(run: &GlyphRun, pad_lr: u32) -> (r: Bitmap)
    requires
        run.wf(),
        pad_lr <= 0x3fff_ffff,
    ensures
        r.wf(),
        r.width == padded_width(tight_width_of(run.glyphs@), pad_lr as int),
        r.height == line_height_of(run.ascent as int, run.descent as int),
        forall|x: int, y: int|
            0 <= x < r.width && 0 <= y < r.height ==> #[trigger] r.ink(x, y) == stroke_covers(
                run.glyphs@,
                Stroke::Double,
                pad_lr as int,
                x,
                y,
            ),
        r@ == tight_line(*run, pad_lr as int, Stroke::Double),
{
    rasterize_line(run, pad_lr, Stroke::Double)
}

/// Gap kept between the price and the name.
pub const MIN_GAP: u32 = 10;

/// Left margin before the price.
pub const PRICE_LEFT_PAD: u32 = 5;

/// Room left for the name once the price and its margins are reserved.
pub open spec fn name_room(max_width: int, price_w: int) -> int {
    if max_width - (price_w + MIN_GAP + PRICE_LEFT_PAD) < 0 {
        0
    } else {
        max_width - (price_w + MIN_GAP + PRICE_LEFT_PAD)
    }
}

/// The width the name is given: its own, cut down to the room left.
pub open spec fn name_width(max_width: int, price_w: int, name_w: int) -> int {
    if name_w < name_room(max_width, price_w) {
        name_w
    } else {
        name_room(max_width, price_w)
    }
}

/// Column where the name starts: right-aligned against the canvas edge.
pub open spec fn name_start(max_width: int, price_w: int, name_w: int) -> int {
    max_width - name_width(max_width, price_w, name_w)
}

pub open spec fn price_stroke(bold: bool) -> Stroke {
    if bold {
        Stroke::Double
    } else {
        Stroke::Single
    }
}

/// Ink of the name-and-price line at `(x, y)`.
pub open spec fn name_price_ink(
    name: Seq<Glyph>,
    price: Seq<Glyph>,
    max_width: int,
    bold: bool,
    x: int,
    y: int,
) -> bool {
    let start = name_start(max_width, tight_width_of(price), tight_width_of(name));
    stroke_covers(price, price_stroke(bold), PRICE_LEFT_PAD as int, x, y) || (x >= start
        && stroke_covers(name, price_stroke(bold), start, x, y))
}

/// The name-and-price grid, `max_width` wide and `height` tall.
pub open spec fn name_price_pixels(
    name: Seq<Glyph>,
    price: Seq<Glyph>,
    max_width: int,
    bold: bool,
    height: nat,
) -> Seq<Seq<bool>> {
    union_pixels(
        line_pixels(price, price_stroke(bold), PRICE_LEFT_PAD as int, max_width as nat, height),
        clipped_pixels(
            line_pixels(
                name,
                price_stroke(bold),
                name_start(max_width, tight_width_of(price), tight_width_of(name)),
                max_width as nat,
                height,
            ),
            name_start(max_width, tight_width_of(price), tight_width_of(name)),
        ),
    )
}

/// `img` with every pixel left of column `left` cleared.
pub fn clip_left(img: &Bitmap, left: u64) -> (r: Bitmap)
    requires
        img.wf(),
    ensures
        r.wf(),
        r.width == img.width,
        r.height == img.height,
        forall|x: int, y: int|
            0 <= x < img.width && 0 <= y < img.height ==> #[trigger] r.ink(x, y) == (x >= left
                && img.ink(x, y)),
        r@ == clipped_pixels(img@, left as int),
{
    let mut rows: Vec<Vec<bool>> = Vec::new();
    let mut y: u32 = 0;
    while y < img.height
        invariant
            img.wf(),
            y <= img.height,
            rows@.len() == y,
            forall|r: int| 0 <= r < y ==> (#[trigger] rows@[r])@.len() == img.width,
            forall|c: int, r: int|
                0 <= c < img.width && 0 <= r < y ==> #[trigger] rows@[r]@[c] == (c >= left
                    && img.ink(c, r)),
        decreases img.height - y,
    {
        let mut row: Vec<bool> = Vec::new();
        let mut x: u32 = 0;
        let src = &img.rows[y as usize];
        assert(src@.len() == img.width);
        while x < img.width
            invariant
                x <= img.width,
                src@.len() == img.width,
                *src == img.rows@[y as int],
                row@.len() == x,
                forall|c: int| 0 <= c < x ==> #[trigger] row@[c] == (c >= left && src@[c]),
            decreases img.width - x,
        {
            row.push(x as u64 >= left && src[x as usize]);
            x = x + 1;
        }
        rows.push(row);
        y = y + 1;
    }
    let r = Bitmap { width: img.width, height: img.height, rows };
    assert forall|yy: int| 0 <= yy < img.height implies #[trigger] r@[yy] =~= clipped_pixels(
        img@,
        left as int,
    )[yy] by {
        assert(r@[yy] == r.rows@[yy]@);
        assert(img@[yy] == img.rows@[yy]@);
    }
    assert(r@ =~= clipped_pixels(img@, left as int));
    r
}

/// One line `max_width` wide holding the price on the left, `PRICE_LEFT_PAD`
/// from the edge, and the name right-aligned. The price's width is reserved
/// first; a name that does not fit in what remains (less `MIN_GAP`) is
/// placed as if it were only as wide as that room, and is clipped by the
/// canvas edge; no name ink falls left of the column where the name starts.
/// Both lines come from one font at one size; the line height is taken from
/// the price's metrics. With `bold` both are painted twice, the second pass
/// one pixel to the right.
pub fn render_name_price_space_between(
    name: &GlyphRun,
    price: &GlyphRun,
    max_width: u32,
    bold: bool,
) -> (r: Bitmap)
    requires
        name.wf(),
        price.wf(),
    ensures
        r.wf(),
        r.width == max_width,
        r.height == line_height_of(price.ascent as int, price.descent as int),
        forall|x: int, y: int|
            0 <= x < r.width && 0 <= y < r.height ==> #[trigger] r.ink(x, y) == name_price_ink(
                name.glyphs@,
                price.glyphs@,
                max_width as int,
                bold,
                x,
                y,
            ),
        r@ == name_price_pixels(
            name.glyphs@,
            price.glyphs@,
            max_width as int,
            bold,
            line_height_of(price.ascent as int, price.descent as int) as nat,
        ),
{
    let price_w = tight_width(&price.glyphs);
    let name_w_full = tight_width(&name.glyphs);
    let reserved = price_w as u64 + MIN_GAP as u64 + PRICE_LEFT_PAD as u64;
    let available: u64 = if (max_width as u64) < reserved {
        0
    } else {
        max_width as u64 - reserved
    };
    let name_w: u64 = if (name_w_full as u64) < available {
        name_w_full as u64
    } else {
        available
    };
    let name_x = max_width as u64 - name_w;
    let h = line_height(price);
    let stroke = if bold {
        Stroke::Double
    } else {
        Stroke::Single
    };
    let price_img = paint_line(max_width, h, &price.glyphs, stroke, PRICE_LEFT_PAD as i64);
    let name_img = paint_line(max_width, h, &name.glyphs, stroke, name_x as i64);
    let name_clipped = clip_left(&name_img, name_x);
    overlay(&price_img, &name_clipped)
}

/// The name-and-price line is exactly `max_width` wide; every price pixel
/// that falls on the canvas stays ink whatever the name is; left of the
/// column where the name starts, the line holds the price's ink and nothing
/// else; and that column never lies inside the room reserved for the price,
/// its left margin and the gap: where that room fits, the name starts at or
/// after its end.
pub proof fn lemma_price_has_priority(
    name: Seq<Glyph>,
    price: Seq<Glyph>,
    max_width: nat,
    bold: bool,
    height: nat,
)
    ensures
        ({
            let px = name_price_pixels(name, price, max_width as int, bold, height);
            &&& px.len() == height
            &&& forall|y: int| 0 <= y < height ==> (#[trigger] px[y]).len() == max_width
            &&& forall|x: int, y: int|
                0 <= x < max_width && 0 <= y < height && stroke_covers(
                    price,
                    price_stroke(bold),
                    PRICE_LEFT_PAD as int,
                    x,
                    y,
                ) ==> #[trigger] px[y][x]
            &&& forall|x: int, y: int|
                0 <= x < max_width && 0 <= y < height && x < name_start(
                    max_width as int,
                    tight_width_of(price),
                    tight_width_of(name),
                ) ==> #[trigger] px[y][x] == stroke_covers(
                    price,
                    price_stroke(bold),
                    PRICE_LEFT_PAD as int,
                    x,
                    y,
                )
        }),
        tight_width_of(price) + MIN_GAP + PRICE_LEFT_PAD <= max_width ==> name_start(
            max_width as int,
            tight_width_of(price),
            tight_width_of(name),
        ) >= tight_width_of(price) + MIN_GAP + PRICE_LEFT_PAD,
        0 <= name_start(max_width as int, tight_width_of(price), tight_width_of(name)) <= max_width,
{
    lemma_tight_width_nonneg(name);
    lemma_tight_width_nonneg(price);
}

/// Rotates 90 degrees clockwise: the new pixel `(x, y)` is the old pixel
/// `(y, height - 1 - x)`.
pub fn rotate90(img: &Bitmap) -> (r: Bitmap)
    requires
        img.wf(),
    ensures
        r.wf(),
        r.width == img.height,
        r.height == img.width,
        forall|x: int, y: int|
            0 <= x < r.width && 0 <= y < r.height ==> #[trigger] r.ink(x, y) == img.ink(
                y,
                img.height - 1 - x,
            ),
{
    let mut rows: Vec<Vec<bool>> = Vec::new();
    let mut y: u32 = 0;
    while y < img.width
        invariant
            img.wf(),
            y <= img.width,
            rows@.len() == y,
            forall|r: int| 0 <= r < y ==> (#[trigger] rows@[r])@.len() == img.height,
            forall|c: int, r: int|
                0 <= c < img.height && 0 <= r < y ==> #[trigger] rows@[r]@[c] == img.ink(
                    r,
                    img.height - 1 - c,
                ),
        decreases img.width - y,
    {
        let mut row: Vec<bool> = Vec::new();
        let mut x: u32 = 0;
        while x < img.height
            invariant
                img.wf(),
                y < img.width,
                x <= img.height,
                row@.len() == x,
                forall|c: int| 0 <= c < x ==> #[trigger] row@[c] == img.ink(y as int, img.height - 1 - c),
            decreases img.height - x,
        {
            let src_row = &img.rows[(img.height - 1 - x) as usize];
            assert(src_row@.len() == img.width);
            row.push(src_row[y as usize]);
            x = x + 1;
        }
        rows.push(row);
        y = y + 1;
    }
    Bitmap { width: img.height, height: img.width, rows }
}

} // verus!
