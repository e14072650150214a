use vstd::prelude::*;

verus! {

/// Width of a dialog's bar, in pixels.
pub const BAR_WIDTH: u32 = 155;

/// Height of a dialog's bar, in pixels.
pub const BAR_HEIGHT: u32 = 60;

/// Side of a workspace dot, in pixels.
pub const DOT_SIZE: u32 = 20;

/// Gap between workspace dots, in pixels.
pub const DOT_SPACING: u32 = 10;

/// Width of the active workspace's pill: two dots and the gap between them.
pub const PILL_WIDTH: u32 = 50;

/// Where a dialog draws on its canvas.
#[derive(Clone, Copy, Debug, PartialEq, Eq, Structural)]
pub struct BarLayout {
    /// Left edge of the bar.
    pub x: i64,
    /// Top edge of the bar.
    pub y: i64,
    /// Centre of the icon, left of the bar.
    pub icon_x: i64,
    pub icon_y: i64,
}

/// Half of what is left of `total` after `part`, or 0 if `part` does not fit.
pub open spec fn centred(total: nat, part: nat) -> int {
    if part <= total {
        (total - part) / 2
    } else {
        0
    }
}

/// The layout of a dialog on a `w` by `h` canvas: the bar centred
/// vertically and shifted 30 pixels right of centre, the icon 40 pixels left
/// of the bar, halfway down.
pub fn bar_layout(w: u32, h: u32) -> (r: BarLayout)
    ensures
        r.x == centred(w as nat, BAR_WIDTH as nat) + 30,
        r.y == centred(h as nat, BAR_HEIGHT as nat),
        r.icon_x == r.x - 40,
        r.icon_y == h / 2,
{
    let x: i64 = if BAR_WIDTH <= w { ((w - BAR_WIDTH) / 2) as i64 } else { 0 } + 30;
    let y: i64 = if BAR_HEIGHT <= h { ((h - BAR_HEIGHT) / 2) as i64 } else { 0 };
    BarLayout { x, y, icon_x: x - 40, icon_y: (h / 2) as i64 }
}

/// How much of a bar `width` pixels wide is filled for a value of
/// `percent`; values above 100 fill it.
pub fn bar_fill(width: u32, percent: u64) -> (r: u32)
    ensures
        r == (if percent >= 100 {
            width as int
        } else {
            (width * percent) / 100
        }),
        r <= width,
{
    if percent >= 100 {
        width
    } else {
        proof {
            assert((width as int) * (percent as int) <= (width as int) * 100) by (nonlinear_arith)
                requires
                    percent < 100,
            ;
            assert((width as int) * 100 <= (u32::MAX as int) * 100) by (nonlinear_arith)
                requires
                    width <= u32::MAX,
            ;
        }
        let filled: u64 = (width as u64) * percent / 100;
        filled as u32
    }
}

/// One mark of the workspace indicator.
#[derive(Clone, Copy, Debug, PartialEq, Eq, Structural)]
pub struct Dot {
    pub x: i64,
    pub y: i64,
    pub width: u32,
    /// The active workspace's mark, drawn as a filled pill.
    pub active: bool,
}

/// Width of the indicator for `count` workspaces, one of them active.
pub open spec fn dots_width(count: nat) -> nat {
    if count == 0 {
        0
    } else {
        (PILL_WIDTH + (count - 1) * (DOT_SIZE + DOT_SPACING)) as nat
    }
}

/// Left edge of mark `i`: marks follow each other with a gap between them,
/// and the pill is wider than a dot.
pub open spec fn dot_x(start: int, active: u64, i: int) -> int {
    start + i * (DOT_SIZE + DOT_SPACING) + if active < i {
        PILL_WIDTH - DOT_SIZE
    } else {
        0int
    }
}

/// The marks of a workspace indicator centred on a `w` by `h` area: one per
/// workspace, left to right, the active one as a pill.
pub fn workspace_dots(w: u32, h: u32, active: u64, count: u32) -> (r: Vec<Dot>)
    ensures
        r@.len() == count,
        forall|i: int|
            0 <= i < count ==> #[trigger] r@[i] == (Dot {
                x: dot_x(centred(w as nat, dots_width(count as nat)), active, i) as i64,
                y: centred(h as nat, DOT_SIZE as nat) as i64,
                width: if i == active {
                    PILL_WIDTH
                } else {
                    DOT_SIZE
                },
                active: i == active,
            }),
{
    proof {
        assert(((count as int) - 1) * 30 <= (u32::MAX as int) * 30) by (nonlinear_arith)
            requires
                count <= u32::MAX,
        ;
    }
    let total: u64 = if count == 0 {
        0
    } else {
        PILL_WIDTH as u64 + (count as u64 - 1) * (DOT_SIZE + DOT_SPACING) as u64
    };
    let start: i64 = if total <= w as u64 { ((w as u64 - total) / 2) as i64 } else { 0 };
    let y: i64 = if DOT_SIZE <= h { ((h - DOT_SIZE) / 2) as i64 } else { 0 };
    let mut r: Vec<Dot> = Vec::new();
    let mut x: i64 = start;
    let mut i: u32 = 0;
    while i < count
        invariant
            0 <= i <= count,
            total == dots_width(count as nat),
            start == centred(w as nat, dots_width(count as nat)),
            0 <= start <= u32::MAX,
            y == centred(h as nat, DOT_SIZE as nat),
            x == dot_x(start as int, active, i as int),
            r@.len() == i,
            forall|k: int|
                0 <= k < i ==> #[trigger] r@[k] == (Dot {
                    x: dot_x(start as int, active, k) as i64,
                    y: y,
                    width: if k == active {
                        PILL_WIDTH
                    } else {
                        DOT_SIZE
                    },
                    active: k == active,
                }),
        decreases count - i,
    {
        let is_active = i as u64 == active;
        let width: u32 = if is_active { PILL_WIDTH } else { DOT_SIZE };
        r.push(Dot { x, y, width, active: is_active });
        x = x + width as i64 + DOT_SPACING as i64;
        i = i + 1;
    }
    r
}

} // verus!
