use vstd::prelude::*;

use crate::color::{storage_of, BWRColor};
use crate::eink::round_up8;

verus! {

/// How a panel is mounted relative to the drawing's coordinates.
#[derive(Clone, Copy, Debug, PartialEq, Eq, Structural)]
pub enum DisplayRotation {
    Zero,
    Rotate90,
    Rotate180,
    Rotate270,
}

/// Mirroring applied on top of the rotation.
#[derive(Clone, Copy, Debug, PartialEq, Eq, Structural)]
pub enum DisplayFlip {
    NoFlip,
    Horizontal,
    Vertical,
}

/// Whether the panel's axes are swapped against the drawing's.
pub open spec fn swaps_axes(r: DisplayRotation) -> bool {
    r == DisplayRotation::Rotate90 || r == DisplayRotation::Rotate270
}

/// Whether both axes are mirrored about the centre: at 180 degrees.
pub open spec fn turns_over(r: DisplayRotation) -> bool {
    r == DisplayRotation::Rotate180
}

/// Number of physical columns of a panel drawn as `w` by `h`.
pub open spec fn columns_of(w: nat, h: nat, r: DisplayRotation) -> nat {
    if swaps_axes(r) {
        h
    } else {
        w
    }
}

/// Number of physical rows of a panel drawn as `w` by `h`.
pub open spec fn rows_of(w: nat, h: nat, r: DisplayRotation) -> nat {
    if swaps_axes(r) {
        w
    } else {
        h
    }
}

/// Whether a drawing coordinate lies on a `w` by `h` drawing.
pub open spec fn in_bounds(w: nat, h: nat, x: int, y: int) -> bool {
    0 <= x < w && 0 <= y < h
}

/// The physical (column, row) that drawing coordinate (`x`, `y`) lands on:
/// first both axes are mirrored for 180 degrees, then the flip is
/// applied, then the axes are swapped for 90 and 270 degrees.
pub open spec fn target_of(
    w: nat,
    h: nat,
    r: DisplayRotation,
    f: DisplayFlip,
    x: int,
    y: int,
) -> (int, int) {
    let (x1, y1) = if turns_over(r) {
        (w - 1 - x, h - 1 - y)
    } else {
        (x, y)
    };
    let (x2, y2) = match f {
        DisplayFlip::Horizontal => (w - 1 - x1, y1),
        DisplayFlip::Vertical => (x1, h - 1 - y1),
        DisplayFlip::NoFlip => (x1, y1),
    };
    if swaps_axes(r) {
        (y2, x2)
    } else {
        (x2, y2)
    }
}

/// A drawing coordinate that lies on the drawing lands on the panel, and an
/// unrotated, unflipped write to the physical coordinate that it maps to lands
/// at that same physical place.
pub proof fn lemma_rotation_lands_like_plain_write(
    w: nat,
    h: nat,
    r: DisplayRotation,
    f: DisplayFlip,
    x: int,
    y: int,
)
    requires
        in_bounds(w, h, x, y),
    ensures
        in_bounds(
            columns_of(w, h, r),
            rows_of(w, h, r),
            target_of(w, h, r, f, x, y).0,
            target_of(w, h, r, f, x, y).1,
        ),
        target_of(
            columns_of(w, h, r),
            rows_of(w, h, r),
            DisplayRotation::Zero,
            DisplayFlip::NoFlip,
            target_of(w, h, r, f, x, y).0,
            target_of(w, h, r, f, x, y).1,
        ) == target_of(w, h, r, f, x, y),
{
}

/// Bit `j` of a packed byte, most significant first.
pub open spec fn bit(b: u8, j: int) -> bool {
    (b >> ((7 - j) as u8)) & 1u8 == 1u8
}

/// The colour that a pair of plane bits stands for: a red bit is `Red`; otherwise a
/// clear black-plane bit is `On` (the plane is stored inverted) and a set one `Off`.
pub open spec fn decode(black_bit: bool, red_bit: bool) -> u8 {
    if red_bit {
        2
    } else if black_bit {
        0
    } else {
        1
    }
}

/// `black` and `red` are the two planes of `fb`: pixel `p` is bit `p % 8` of
/// byte `p / 8`; the black bit is set unless the pixel is `On`, the red bit
/// is set where it is `Red`.
pub open spec fn packs(fb: Seq<u8>, black: Seq<u8>, red: Seq<u8>) -> bool {
    &&& black.len() * 8 == fb.len()
    &&& red.len() * 8 == fb.len()
    &&& forall|p: int|
        0 <= p < fb.len() ==> (bit(#[trigger] black[p / 8], p % 8) == (fb[p] != 1) && bit(
            red[p / 8],
            p % 8,
        ) == (fb[p] == 2))
}

/// The pixels that two planes of `n` pixels stand for.
pub open spec fn unpacked(black: Seq<u8>, red: Seq<u8>, n: nat) -> Seq<u8> {
    Seq::new(n, |p: int| decode(bit(black[p / 8], p % 8), bit(red[p / 8], p % 8)))
}

/// Unpacking the two planes of a framebuffer gives the framebuffer back, for
/// the black plane and the red plane alike.
pub proof fn lemma_pack_round_trip(fb: Seq<u8>, black: Seq<u8>, red: Seq<u8>)
    requires
        packs(fb, black, red),
        forall|p: int| 0 <= p < fb.len() ==> #[trigger] fb[p] <= 2,
    ensures
        unpacked(black, red, fb.len()) == fb,
{
    assert forall|p: int| 0 <= p < fb.len() implies #[trigger] unpacked(black, red, fb.len())[p]
        == fb[p] by {
        assert(bit(black[p / 8], p % 8) == (fb[p] != 1));
    }
    assert(unpacked(black, red, fb.len()) =~= fb);
}

proof fn lemma_set_bit(b: u8, j: u8, k: u8)
    requires
        j < 8,
        k < 8,
    ensures
        ((b | (0x80u8 >> j)) >> (7 - k) as u8) & 1u8 == (if k == j {
            1u8
        } else {
            (b >> (7 - k) as u8) & 1u8
        }),
{
    assert(((b | (0x80u8 >> j)) >> (7 - k) as u8) & 1u8 == (if k == j {
        1u8
    } else {
        (b >> (7 - k) as u8) & 1u8
    })) by (bit_vector)
        requires
            j < 8,
            k < 8,
    ;
}

proof fn lemma_zero_bits(k: u8)
    requires
        k < 8,
    ensures
        (0u8 >> (7 - k) as u8) & 1u8 == 0u8,
{
    assert((0u8 >> (7 - k) as u8) & 1u8 == 0u8) by (bit_vector)
        requires
            k < 8,
    ;
}

/// Packs eight flags into a byte, the first in the most significant bit.
fn pack_byte(fb: &Vec<u8>, start: usize, on_value: u8, set_when_equal: bool) -> (r: u8)
    requires
        start + 8 <= fb.len(),
    ensures
        forall|k: int|
            0 <= k < 8 ==> bit(r, k) == ((fb@[start + k] == on_value) == set_when_equal),
{
    let mut byte: u8 = 0;
    let mut j: u8 = 0;
    proof {
        assert forall|k: int| 0 <= k < 8 implies !bit(byte, k) by {
            lemma_zero_bits(k as u8);
        }
    }
    while j < 8
        invariant
            start + 8 <= fb.len(),
            0 <= j <= 8,
            forall|k: int|
                0 <= k < j ==> bit(byte, k) == ((fb@[start + k] == on_value) == set_when_equal),
            forall|k: int| j <= k < 8 ==> !bit(byte, k),
        decreases 8 - j,
    {
        let v = fb[start + j as usize];
        if (v == on_value) == set_when_equal {
            let old_byte = byte;
            byte = byte | (0x80u8 >> j);
            proof {
                assert forall|k: int| 0 <= k < 8 implies bit(byte, k) == (if k == j {
                    true
                } else {
                    bit(old_byte, k)
                }) by {
                    lemma_set_bit(old_byte, j, k as u8);
                }
            }
        }
        j = j + 1;
    }
    byte
}

/// A panel's framebuffer, one storage value per pixel, laid out column by
/// column with each column `buffer_height` pixels tall.
pub struct BWRDisplay {
    framebuffer: Vec<u8>,
    width: u32,
    height: u32,
    columns: u32,
    buffer_height: u32,
    rotate: DisplayRotation,
    flip: DisplayFlip,
}

impl BWRDisplay {
    /// The framebuffer's invariant: its size matches the panel's physical
    /// geometry and every pixel holds a colour's storage value.
    pub closed spec fn wf(&self) -> bool {
        &&& self.columns == columns_of(self.width as nat, self.height as nat, self.rotate)
        &&& self.buffer_height == round_up8(
            rows_of(self.width as nat, self.height as nat, self.rotate),
        )
        &&& self.framebuffer@.len() == self.columns * self.buffer_height
        &&& self.columns * self.buffer_height <= u32::MAX
        &&& forall|p: int| 0 <= p < self.framebuffer@.len() ==> #[trigger] self.framebuffer@[p] <= 2
    }

    pub closed spec fn pixels(&self) -> Seq<u8> {
        self.framebuffer@
    }

    pub closed spec fn spec_width(&self) -> nat {
        self.width as nat
    }

    pub closed spec fn spec_height(&self) -> nat {
        self.height as nat
    }

    pub closed spec fn spec_columns(&self) -> nat {
        self.columns as nat
    }

    pub closed spec fn spec_buffer_height(&self) -> nat {
        self.buffer_height as nat
    }

    pub closed spec fn spec_rotate(&self) -> DisplayRotation {
        self.rotate
    }

    pub closed spec fn spec_flip(&self) -> DisplayFlip {
        self.flip
    }

    /// Where drawing coordinate (`x`, `y`) is stored, if it lies on the drawing.
    pub open spec fn index_of(&self, x: int, y: int) -> int {
        let t = target_of(
            self.spec_width(),
            self.spec_height(),
            self.spec_rotate(),
            self.spec_flip(),
            x,
            y,
        );
        t.0 * self.spec_buffer_height() + t.1
    }

    /// Each point of the drawing is stored inside the framebuffer, and
    /// distinct points are stored at distinct places.
    pub proof fn lemma_index_injective(&self, x1: int, y1: int, x2: int, y2: int)
        requires
            self.wf(),
            in_bounds(self.spec_width(), self.spec_height(), x1, y1),
            in_bounds(self.spec_width(), self.spec_height(), x2, y2),
        ensures
            0 <= self.index_of(x1, y1) < self.pixels().len(),
            (x1, y1) != (x2, y2) ==> self.index_of(x1, y1) != self.index_of(x2, y2),
    {
        let w = self.width as nat;
        let h = self.height as nat;
        lemma_rotation_lands_like_plain_write(w, h, self.rotate, self.flip, x1, y1);
        lemma_rotation_lands_like_plain_write(w, h, self.rotate, self.flip, x2, y2);
        let t = target_of(w, h, self.rotate, self.flip, x1, y1);
        let u = target_of(w, h, self.rotate, self.flip, x2, y2);
        let bh = self.buffer_height as int;
        let c = self.columns as int;
        assert(t.1 < bh && u.1 < bh);
        assert(0 <= t.0 * bh + t.1 < c * bh) by (nonlinear_arith)
            requires
                0 <= t.0 < c,
                0 <= t.1 < bh,
        ;
        if (x1, y1) != (x2, y2) {
            assert(t != u);
            assert(t.0 * bh + t.1 != u.0 * bh + u.1) by (nonlinear_arith)
                requires
                    t != u,
                    0 <= t.1 < bh,
                    0 <= u.1 < bh,
            {
                if t.0 == u.0 {
                } else if t.0 < u.0 {
                    assert(t.0 * bh + bh <= u.0 * bh);
                } else {
                    assert(u.0 * bh + bh <= t.0 * bh);
                }
            }
        }
    }

    /// A cleared framebuffer for a `width` by `height` drawing, mounted as given.
    pub fn new(width: u32, height: u32, rotate: DisplayRotation, flip: DisplayFlip) -> (r:
        BWRDisplay)
        requires
            columns_of(width as nat, height as nat, rotate) * round_up8(
                rows_of(width as nat, height as nat, rotate),
            ) <= u32::MAX,
            rows_of(width as nat, height as nat, rotate) <= u32::MAX - 7,
        ensures
            r.wf(),
            r.spec_width() == width,
            r.spec_height() == height,
            r.spec_rotate() == rotate,
            r.spec_flip() == flip,
            r.spec_columns() == columns_of(width as nat, height as nat, rotate),
            r.spec_buffer_height() == round_up8(rows_of(width as nat, height as nat, rotate)),
            r.pixels().len() == r.spec_columns() * r.spec_buffer_height(),
            r.pixels() == Seq::new(r.pixels().len(), |p: int| 0u8),
    {
        let swapped = match rotate {
            DisplayRotation::Rotate90 | DisplayRotation::Rotate270 => true,
            _ => false,
        };
        let columns: u32 = if swapped { height } else { width };
        let rows: u32 = if swapped { width } else { height };
        let buffer_height: u32 = if rows % 8 != 0 { rows + 8 - rows % 8 } else { rows };
        let total: u32 = columns * buffer_height;
        let mut framebuffer: Vec<u8> = Vec::new();
        let mut i: u32 = 0;
        while i < total
            invariant
                0 <= i <= total,
                framebuffer@ == Seq::new(i as nat, |p: int| 0u8),
            decreases total - i,
        {
            framebuffer.push(0u8);
            assert(framebuffer@ =~= Seq::new((i + 1) as nat, |p: int| 0u8));
            i = i + 1;
        }
        BWRDisplay { framebuffer, width, height, columns, buffer_height, rotate, flip }
    }

    /// The drawing's size: width and height.
    pub fn size(&self) -> (r: (u32, u32))
        ensures
            r.0 == self.spec_width(),
            r.1 == self.spec_height(),
    {
        (self.width, self.height)
    }

    /// Height of the framebuffer's columns, a multiple of 8.
    pub fn buffer_height(&self) -> (r: u32)
        ensures
            r == self.spec_buffer_height(),
    {
        self.buffer_height
    }

    /// Number of physical columns.
    pub fn columns(&self) -> (r: u32)
        ensures
            r == self.spec_columns(),
    {
        self.columns
    }

    /// The stored pixels.
    pub fn raw(&self) -> (r: &Vec<u8>)
        ensures
            r@ == self.pixels(),
    {
        &self.framebuffer
    }

    /// Writes one pixel at drawing coordinate (`x`, `y`); a coordinate off the
    /// drawing is dropped without error.
    pub fn draw_pixel(&mut self, x: i32, y: i32, color: BWRColor)
        requires
            old(self).wf(),
        ensures
            final(self).wf(),
            final(self).spec_width() == old(self).spec_width(),
            final(self).spec_height() == old(self).spec_height(),
            final(self).spec_columns() == old(self).spec_columns(),
            final(self).spec_buffer_height() == old(self).spec_buffer_height(),
            final(self).spec_rotate() == old(self).spec_rotate(),
            final(self).spec_flip() == old(self).spec_flip(),
            final(self).pixels() == (if in_bounds(
                old(self).spec_width(),
                old(self).spec_height(),
                x as int,
                y as int,
            ) {
                old(self).pixels().update(old(self).index_of(x as int, y as int), storage_of(color))
            } else {
                old(self).pixels()
            }),
    {
        if x < 0 || y < 0 || x as u32 >= self.width || y as u32 >= self.height {
            return;
        }
        let w = self.width;
        let h = self.height;
        let mut cx: u32 = x as u32;
        let mut cy: u32 = y as u32;
        match self.rotate {
            DisplayRotation::Rotate180 => {
                cx = w - 1 - cx;
                cy = h - 1 - cy;
            },
            _ => {},
        }
        match self.flip {
            DisplayFlip::Horizontal => {
                cx = w - 1 - cx;
            },
            DisplayFlip::Vertical => {
                cy = h - 1 - cy;
            },
            DisplayFlip::NoFlip => {},
        }
        match self.rotate {
            DisplayRotation::Rotate90 | DisplayRotation::Rotate270 => {
                let t = cx;
                cx = cy;
                cy = t;
            },
            _ => {},
        }
        proof {
            lemma_rotation_lands_like_plain_write(
                w as nat,
                h as nat,
                self.rotate,
                self.flip,
                x as int,
                y as int,
            );
            let t = target_of(w as nat, h as nat, self.rotate, self.flip, x as int, y as int);
            assert(cx == t.0 && cy == t.1);
            assert(cx < self.columns && cy < self.buffer_height);
            assert(cx * self.buffer_height + cy < self.columns * self.buffer_height) by (nonlinear_arith)
                requires
                    cx < self.columns,
                    cy < self.buffer_height,
            ;
        }
        let index: u32 = cx * self.buffer_height + cy;
        self.framebuffer.set(index as usize, color.into_storage());
    }

    /// Sets every pixel to one colour.
    pub fn clear(&mut self, color: BWRColor)
        requires
            old(self).wf(),
        ensures
            final(self).wf(),
            final(self).spec_width() == old(self).spec_width(),
            final(self).spec_height() == old(self).spec_height(),
            final(self).spec_columns() == old(self).spec_columns(),
            final(self).spec_buffer_height() == old(self).spec_buffer_height(),
            final(self).spec_rotate() == old(self).spec_rotate(),
            final(self).spec_flip() == old(self).spec_flip(),
            final(self).pixels() == Seq::new(old(self).pixels().len(), |p: int| storage_of(color)),
    {
        let v = color.into_storage();
        let n = self.framebuffer.len();
        let mut i: usize = 0;
        while i < n
            invariant
                self.wf(),
                n == self.framebuffer@.len(),
                self.width == old(self).width,
                self.height == old(self).height,
                self.columns == old(self).columns,
                self.buffer_height == old(self).buffer_height,
                self.rotate == old(self).rotate,
                self.flip == old(self).flip,
                n == old(self).framebuffer@.len(),
                v == storage_of(color),
                0 <= i <= n,
                forall|p: int| 0 <= p < i ==> #[trigger] self.framebuffer@[p] == v,
            decreases n - i,
        {
            self.framebuffer.set(i, v);
            i = i + 1;
        }
        assert(self.framebuffer@ =~= Seq::new(n as nat, |p: int| storage_of(color)));
    }

    /// The bytes of a region of a packed plane: `w` columns from column `x`,
    /// and the rows from `y` on, `h` of them, in whole bytes; column by column.
    pub fn partial_buffer(&self, plane: &[u8], x: u32, y: u32, w: u32, h: u32) -> (r: Vec<u8>)
        requires
            self.wf(),
            plane@.len() * 8 == self.spec_columns() * self.spec_buffer_height(),
            x + w <= self.spec_columns(),
            y / 8 + h / 8 <= self.spec_buffer_height() / 8,
        ensures
            r@.len() == w * (h / 8),
            forall|i: int|
                0 <= i < r@.len() ==> #[trigger] r@[i] == plane@[(i / ((h / 8) as int) + x) * ((
                self.spec_buffer_height() / 8) as int) + i % ((h / 8) as int) + (y / 8) as int],
    {
        let hb: u32 = h / 8;
        let bhb: u32 = self.buffer_height / 8;
        let yb: u32 = y / 8;
        proof {
            assert(bhb * 8 == self.buffer_height);
            assert((w as int) * (hb as int) <= (self.columns as int) * (bhb as int)) by (nonlinear_arith)
                requires
                    x + w <= self.columns,
                    yb + hb <= bhb,
            ;
            assert((self.columns as int) * (bhb as int) * 8 == (self.columns as int) * (self.buffer_height as int)) by (nonlinear_arith)
                requires
                    bhb * 8 == self.buffer_height,
            ;
            assert((self.columns as int) * (bhb as int) <= u32::MAX) by (nonlinear_arith)
                requires
                    bhb * 8 == self.buffer_height,
                    (self.columns as int) * (self.buffer_height as int) <= u32::MAX,
            ;
        }
        let total: u32 = w * hb;
        let mut r: Vec<u8> = Vec::new();
        let mut i: u32 = 0;
        while i < total
            invariant
                self.wf(),
                hb == h / 8,
                bhb == self.buffer_height / 8,
                bhb * 8 == self.buffer_height,
                yb == y / 8,
                yb + hb <= bhb,
                x + w <= self.columns,
                total == w * hb,
                plane@.len() == (self.columns as int) * (bhb as int),
                (self.columns as int) * (bhb as int) <= u32::MAX,
                0 <= i <= total,
                r@.len() == i,
                forall|k: int|
                    0 <= k < i ==> #[trigger] r@[k] == plane@[(k / (hb as int) + x) * (bhb as int) + k
                        % (hb as int) + yb],
            decreases total - i,
        {
            let tx: u32 = i / hb;
            let ty: u32 = i % hb;
            proof {
                assert(tx < w && ty < hb) by (nonlinear_arith)
                    requires
                        i < total,
                        total == w * hb,
                        tx == i / hb,
                        ty == i % hb,
                        hb > 0,
                ;
                assert(((tx + x) as int) * (bhb as int) + ((ty + yb) as int) < (self.columns as int)
                    * (bhb as int)) by (nonlinear_arith)
                    requires
                        tx + x < self.columns,
                        ty + yb < bhb,
                ;
            }
            let index: u32 = (tx + x) * bhb + ty + yb;
            r.push(plane[index as usize]);
            i = i + 1;
        }
        r
    }

    /// The framebuffer as the panel takes it: a black plane (stored inverted)
    /// and a red plane, one bit per pixel, eight pixels of a column per byte.
    pub fn get_fixed_buffer(&self) -> (r: (Vec<u8>, Vec<u8>))
        requires
            self.wf(),
        ensures
            packs(self.pixels(), r.0@, r.1@),
    {
        let total: u32 = self.columns * self.buffer_height;
        let n: u32 = total / 8;
        proof {
            assert(self.buffer_height % 8 == 0);
            let c = self.columns as int;
            let bh = self.buffer_height as int;
            assert(total % 8 == 0) by (nonlinear_arith)
                requires
                    total == c * bh,
                    bh % 8 == 0,
                    c >= 0,
                    bh >= 0,
            {
                assert(c * bh == c * (bh / 8) * 8);
            }
        }
        let mut black: Vec<u8> = Vec::new();
        let mut red: Vec<u8> = Vec::new();
        let mut i: u32 = 0;
        while i < n
            invariant
                self.wf(),
                n * 8 == self.framebuffer@.len(),
                0 <= i <= n,
                black@.len() == i,
                red@.len() == i,
                forall|p: int|
                    0 <= p < i * 8 ==> (bit(#[trigger] black@[p / 8], p % 8) == (
                    self.framebuffer@[p] != 1) && bit(red@[p / 8], p % 8) == (self.framebuffer@[p]
                        == 2)),
            decreases n - i,
        {
            let start: usize = (i as usize) * 8;
            let b = pack_byte(&self.framebuffer, start, 1u8, false);
            let rb = pack_byte(&self.framebuffer, start, 2u8, true);
            let ghost old_black = black@;
            let ghost old_red = red@;
            black.push(b);
            red.push(rb);
            proof {
                assert forall|p: int|
                    0 <= p < (i + 1) * 8 implies (bit(#[trigger] black@[p / 8], p % 8) == (
                self.framebuffer@[p] != 1) && bit(red@[p / 8], p % 8) == (self.framebuffer@[p] == 2)) by {
                    if p >= i * 8 {
                        assert(p / 8 == i);
                        let k = p % 8;
                        assert(p == start + k);
                        assert(black@[p / 8] == b);
                        assert(red@[p / 8] == rb);
                    } else {
                        assert(p / 8 < i);
                        assert(black@[p / 8] == old_black[p / 8]);
                        assert(red@[p / 8] == old_red[p / 8]);
                        assert(bit(old_black[p / 8], p % 8) == (self.framebuffer@[p] != 1));
                    }
                }
            }
            i = i + 1;
        }
        (black, red)
    }
}

/// Rebuilds the pixels of `n` bytes of each plane from a black plane and a red plane.
pub fn unpack(black: &[u8], red: &[u8]) -> (r: Vec<u8>)
    requires
        black@.len() == red@.len(),
        black@.len() * 8 <= usize::MAX,
    ensures
        r@ == unpacked(black@, red@, black@.len() * 8),
{
    let n: usize = black.len() * 8;
    let mut r: Vec<u8> = Vec::new();
    let mut p: usize = 0;
    while p < n
        invariant
            n == black@.len() * 8,
            black@.len() == red@.len(),
            0 <= p <= n,
            r@ == unpacked(black@, red@, p as nat),
        decreases n - p,
    {
        let byte = p / 8;
        let j: u8 = (p % 8) as u8;
        let bb: bool = (black[byte] >> (7 - j)) & 1u8 == 1u8;
        let rb: bool = (red[byte] >> (7 - j)) & 1u8 == 1u8;
        let v: u8 = if rb {
            2
        } else if bb {
            0
        } else {
            1
        };
        r.push(v);
        assert(r@ =~= unpacked(black@, red@, (p + 1) as nat));
        p = p + 1;
    }
    r
}

} // verus!
