use vstd::prelude::*;

use crate::color::{storage_of, BWRColor};
use crate::framebuffer::{in_bounds, BWRDisplay};

verus! {

/// A surface that one component draws on, row by row; pixels never drawn
/// stay transparent.
pub struct Canvas {
    width: u32,
    height: u32,
    pixels: Vec<Option<BWRColor>>,
}

/// A framebuffer after one pixel is written at (`x`, `y`), as `draw_pixel` writes it.
pub open spec fn place(d: BWRDisplay, fb: Seq<u8>, x: int, y: int, c: BWRColor) -> Seq<u8> {
    if in_bounds(d.spec_width(), d.spec_height(), x, y) {
        fb.update(d.index_of(x, y), storage_of(c))
    } else {
        fb
    }
}

/// A framebuffer after the first `k` canvas pixels, of a canvas `cw` pixels
/// wide, are written with the canvas's corner at (`ox`, `oy`).
pub open spec fn composited(
    d: BWRDisplay,
    fb: Seq<u8>,
    cp: Seq<Option<BWRColor>>,
    cw: nat,
    ox: int,
    oy: int,
    k: nat,
) -> Seq<u8>
    decreases k,
{
    if k == 0 || cw == 0 {
        fb
    } else {
        let prev = composited(d, fb, cp, cw, ox, oy, (k - 1) as nat);
        let i = k - 1;
        match cp[i] {
            Some(c) => place(d, prev, ox + i % (cw as int), oy + i / (cw as int), c),
            None => prev,
        }
    }
}

/// Compositing changes pixels, never the framebuffer's size.
pub proof fn lemma_composited_len(
    d: BWRDisplay,
    fb: Seq<u8>,
    cp: Seq<Option<BWRColor>>,
    cw: nat,
    ox: int,
    oy: int,
    k: nat,
)
    requires
        d.wf(),
        fb.len() == d.pixels().len(),
    ensures
        composited(d, fb, cp, cw, ox, oy, k).len() == fb.len(),
    decreases k,
{
    if k > 0 && cw > 0 {
        lemma_composited_len(d, fb, cp, cw, ox, oy, (k - 1) as nat);
        let i = k - 1;
        let x = ox + i % (cw as int);
        let y = oy + i / (cw as int);
        if in_bounds(d.spec_width(), d.spec_height(), x, y) {
            d.lemma_index_injective(x, y, x, y);
        }
    }
}

/// A canvas pixel painted at position `i` shows on the display once the
/// canvas is composited, wherever it lands on the drawing: no other pixel of
/// the same canvas lands on the same place.
pub proof fn lemma_composited_keeps(
    d: BWRDisplay,
    fb: Seq<u8>,
    cp: Seq<Option<BWRColor>>,
    cw: nat,
    ox: int,
    oy: int,
    k: nat,
    i: int,
)
    requires
        d.wf(),
        fb.len() == d.pixels().len(),
        cw > 0,
        0 <= i < k <= cp.len(),
        cp[i] is Some,
        in_bounds(d.spec_width(), d.spec_height(), ox + i % (cw as int), oy + i / (cw as int)),
    ensures
        composited(d, fb, cp, cw, ox, oy, k)[d.index_of(ox + i % (cw as int), oy + i / (cw as int))]
            == storage_of(cp[i]->Some_0),
    decreases k,
{
    let xi = ox + i % (cw as int);
    let yi = oy + i / (cw as int);
    let j = k - 1;
    let prev = composited(d, fb, cp, cw, ox, oy, j as nat);
    lemma_composited_len(d, fb, cp, cw, ox, oy, j as nat);
    d.lemma_index_injective(xi, yi, xi, yi);
    let idx = d.index_of(xi, yi);
    let xj = ox + j % (cw as int);
    let yj = oy + j / (cw as int);
    let now = composited(d, fb, cp, cw, ox, oy, k);
    assert(now == match cp[j] {
        Some(c) => place(d, prev, xj, yj, c),
        None => prev,
    });
    if j == i {
        assert(xj == xi && yj == yi);
        assert(now == prev.update(idx, storage_of(cp[i]->Some_0)));
        assert(0 <= idx < prev.len());
        assert(now[idx] == storage_of(cp[i]->Some_0));
    }
    if j > i {
        lemma_composited_keeps(d, fb, cp, cw, ox, oy, j as nat, i);
        if cp[j] is Some && in_bounds(d.spec_width(), d.spec_height(), xj, yj) {
            vstd::arithmetic::div_mod::lemma_fundamental_div_mod(i, cw as int);
            vstd::arithmetic::div_mod::lemma_fundamental_div_mod(j, cw as int);
            assert((xi, yi) != (xj, yj));
            d.lemma_index_injective(xi, yi, xj, yj);
            d.lemma_index_injective(xj, yj, xi, yi);
            assert(now == prev.update(d.index_of(xj, yj), storage_of(cp[j]->Some_0)));
            assert(now[idx] == prev[idx]);
        } else {
            assert(now == prev);
        }
        assert(now[idx] == storage_of(cp[i]->Some_0));
    }
}

impl Canvas {
    /// The pixel count matches the size.
    pub closed spec fn wf(&self) -> bool {
        self.pixels@.len() == self.width * self.height
    }

    pub closed spec fn spec_width(&self) -> nat {
        self.width as nat
    }

    pub closed spec fn spec_height(&self) -> nat {
        self.height as nat
    }

    /// The pixels, row by row.
    pub closed spec fn cells(&self) -> Seq<Option<BWRColor>> {
        self.pixels@
    }

    /// A transparent canvas of `width` by `height` pixels.
    pub fn new(width: u32, height: u32) -> (r: Canvas)
        requires
            width * height <= usize::MAX,
        ensures
            r.wf(),
            r.spec_width() == width,
            r.spec_height() == height,
            r.cells() == Seq::new((width * height) as nat, |i: int| None::<BWRColor>),
    {
        let total: usize = (width as usize) * (height as usize);
        let mut pixels: Vec<Option<BWRColor>> = Vec::new();
        let mut i: usize = 0;
        while i < total
            invariant
                0 <= i <= total,
                pixels@ == Seq::new(i as nat, |j: int| None::<BWRColor>),
            decreases total - i,
        {
            pixels.push(None);
            assert(pixels@ =~= Seq::new((i + 1) as nat, |j: int| None::<BWRColor>));
            i = i + 1;
        }
        Canvas { width, height, pixels }
    }

    /// The canvas's size: width and height.
    pub fn size(&self) -> (r: (u32, u32))
        ensures
            r.0 == self.spec_width(),
            r.1 == self.spec_height(),
    {
        (self.width, self.height)
    }

    /// Paints one pixel; a coordinate off the canvas is dropped.
    pub fn set_pixel(&mut self, x: i32, y: i32, color: BWRColor)
        requires
            old(self).wf(),
        ensures
            final(self).wf(),
            final(self).spec_width() == old(self).spec_width(),
            final(self).spec_height() == old(self).spec_height(),
            final(self).cells() == (if in_bounds(
                old(self).spec_width(),
                old(self).spec_height(),
                x as int,
                y as int,
            ) {
                old(self).cells().update(y * old(self).spec_width() + x, Some(color))
            } else {
                old(self).cells()
            }),
    {
        if x < 0 || y < 0 || x as u32 >= self.width || y as u32 >= self.height {
            return;
        }
        let w = self.width as usize;
        let n = self.pixels.len();
        proof {
            assert((y as int) * (w as int) + (x as int) < n as int) by (nonlinear_arith)
                requires
                    0 <= x < w,
                    0 <= y < self.height,
                    n == (w as int) * (self.height as int),
            ;
        }
        let index: usize = (y as usize) * w + (x as usize);
        self.pixels.set(index, Some(color));
    }

    /// The pixel at (`x`, `y`): nothing where it is transparent or off the canvas.
    pub fn get_pixel(&self, x: u32, y: u32) -> (r: Option<BWRColor>)
        requires
            self.wf(),
        ensures
            r == (if x < self.spec_width() && y < self.spec_height() {
                self.cells()[y * self.spec_width() + x]
            } else {
                None
            }),
    {
        if x >= self.width || y >= self.height {
            return None;
        }
        let w = self.width as usize;
        let n = self.pixels.len();
        proof {
            assert((y as int) * (w as int) + (x as int) < n as int) by (nonlinear_arith)
                requires
                    x < w,
                    y < self.height,
                    n == (w as int) * (self.height as int),
            ;
        }
        self.pixels[(y as usize) * w + (x as usize)]
    }

    /// Draws the canvas onto a display with its corner at (`ox`, `oy`):
    /// every painted pixel is written, transparent ones leave the display as it was.
    pub fn place_at(&self, display: &mut BWRDisplay, ox: i64, oy: i64)
        requires
            self.wf(),
            old(display).wf(),
            old(display).spec_width() <= i32::MAX,
            old(display).spec_height() <= i32::MAX,
        ensures
            final(display).wf(),
            final(display).spec_width() == old(display).spec_width(),
            final(display).spec_height() == old(display).spec_height(),
            final(display).spec_columns() == old(display).spec_columns(),
            final(display).spec_buffer_height() == old(display).spec_buffer_height(),
            final(display).spec_rotate() == old(display).spec_rotate(),
            final(display).spec_flip() == old(display).spec_flip(),
            final(display).pixels() == composited(
                *old(display),
                old(display).pixels(),
                self.cells(),
                self.spec_width(),
                ox as int,
                oy as int,
                self.cells().len(),
            ),
    {
        let n = self.pixels.len();
        let w = self.width as usize;
        if w == 0 {
            return;
        }
        let mut i: usize = 0;
        while i < n
            invariant
                self.wf(),
                n == self.pixels@.len(),
                w == self.width,
                w > 0,
                0 <= i <= n,
                display.wf(),
                display.spec_width() == old(display).spec_width(),
                display.spec_height() == old(display).spec_height(),
                display.spec_columns() == old(display).spec_columns(),
                display.spec_buffer_height() == old(display).spec_buffer_height(),
                display.spec_rotate() == old(display).spec_rotate(),
                display.spec_flip() == old(display).spec_flip(),
                old(display).spec_width() <= i32::MAX,
                old(display).spec_height() <= i32::MAX,
                display.pixels() == composited(
                    *old(display),
                    old(display).pixels(),
                    self.cells(),
                    w as nat,
                    ox as int,
                    oy as int,
                    i as nat,
                ),
            decreases n - i,
        {
            let ghost prev = display.pixels();
            match self.pixels[i] {
                Some(c) => {
                    let cx: i128 = (i % w) as i128;
                    let cy: i128 = (i / w) as i128;
                    let x: i128 = ox as i128 + cx;
                    let y: i128 = oy as i128 + cy;
                    if x >= 0 && y >= 0 && x <= i32::MAX as i128 && y <= i32::MAX as i128 {
                        display.draw_pixel(x as i32, y as i32, c);
                        assert(display.pixels() == place(*old(display), prev, x as int, y as int, c));
                    } else {
                        assert(!in_bounds(old(display).spec_width(), old(display).spec_height(), x as int, y as int));
                    }
                    assert(x == ox + (i as int) % (w as int) && y == oy + (i as int) / (w as int));
                },
                None => {},
            }
            assert(display.pixels() == composited(
                *old(display),
                old(display).pixels(),
                self.cells(),
                w as nat,
                ox as int,
                oy as int,
                (i + 1) as nat,
            ));
            i = i + 1;
        }
    }
}

} // verus!
