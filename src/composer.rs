use vstd::prelude::*;

use itertools::Itertools;

use crate::canvas::{composited, lemma_composited_keeps, lemma_composited_len, Canvas};
use crate::color::storage_of;
use crate::framebuffer::in_bounds;
use crate::components::{area_of, priority, Component, DisplayAreaType};
use crate::framebuffer::BWRDisplay;
use crate::state::ApplicationState;

verus! {

/// Component `i` is drawn before component `j`: higher priority first, ties
/// in registration order.
pub open spec fn ranks_before(p: Seq<u32>, i: int, j: int) -> bool {
    p[i] > p[j] || (p[i] == p[j] && i < j)
}

/// `r` is the order in which the components with priorities `p` are drawn,
/// where `modal[i]` tells whether component `i` is a dialog: every component
/// with a nonzero priority, best ranked first, up to and including the first
/// dialog, and nothing after it.
pub open spec fn is_draw_order(p: Seq<u32>, modal: Seq<bool>, r: Seq<usize>) -> bool {
    &&& forall|k: int| 0 <= k < r.len() ==> #[trigger] r[k] < p.len() && p[r[k] as int] > 0
    &&& forall|k: int, l: int|
        0 <= k < l < r.len() ==> ranks_before(p, #[trigger] r[k] as int, #[trigger] r[l] as int)
    &&& forall|k: int| 0 <= k < r.len() - 1 ==> !modal[#[trigger] r[k] as int]
    &&& forall|i: int|
        #![trigger p[i]]
        0 <= i < p.len() && p[i] > 0 && !r.contains(i as usize) ==> r.len() > 0 && modal[r.last() as int]
            && ranks_before(p, r.last() as int, i)
}

/// Nothing ranked below a dialog is drawn in the same pass.
pub proof fn lemma_modal_occludes(p: Seq<u32>, modal: Seq<bool>, r: Seq<usize>, k: int, i: int)
    requires
        is_draw_order(p, modal, r),
        modal.len() == p.len(),
        p.len() <= usize::MAX,
        0 <= k < r.len(),
        modal[r[k] as int],
        0 <= i < p.len(),
        ranks_before(p, r[k] as int, i),
    ensures
        !r.contains(i as usize),
{
    if k < r.len() - 1 {
        assert(!modal[r[k] as int]);
    }
    assert(k == r.len() - 1);
    if r.contains(i as usize) {
        let l = choose|l: int| 0 <= l < r.len() && r[l] == i as usize;
        assert(r[l] as int == i);
        if l < k {
            assert(ranks_before(p, r[l] as int, r[k] as int));
        }
    }
}

/// Orders items by descending priority: an item with a higher priority comes first.
fn by_priority_desc(a: &(u32, usize), b: &(u32, usize)) -> (r: core::cmp::Ordering)
    ensures
        r == (if a.0 > b.0 {
            core::cmp::Ordering::Less
        } else if a.0 < b.0 {
            core::cmp::Ordering::Greater
        } else {
            core::cmp::Ordering::Equal
        }),
{
    if a.0 > b.0 {
        core::cmp::Ordering::Less
    } else if a.0 < b.0 {
        core::cmp::Ordering::Greater
    } else {
        core::cmp::Ordering::Equal
    }
}

/// Relies on itertools' `Itertools::sorted_by`, a stable sort (it collects
/// and calls `slice::sort_by`): the items come out by descending priority,
/// and items of equal priority keep their order, which here is ascending index.
#[verifier::external_body]
fn sort_by_priority(items: Vec<(u32, usize)>) -> (r: Vec<(u32, usize)>)
    requires
        forall|i: int, j: int| 0 <= i < j < items@.len() ==> items@[i].1 < items@[j].1,
    ensures
        r@.len() == items@.len(),
        forall|x: (u32, usize)| r@.contains(x) <==> items@.contains(x),
        forall|i: int, j: int|
            0 <= i < j < r@.len() ==> r@[i].0 > r@[j].0 || (r@[i].0 == r@[j].0 && r@[i].1
                < r@[j].1),
{
    items.into_iter().sorted_by(|a, b| by_priority_desc(a, b)).collect()
}

/// The order in which components with priorities `p` are drawn; `modal[i]`
/// tells whether component `i` is a dialog.
pub fn draw_order(p: &Vec<u32>, modal: &Vec<bool>) -> (r: Vec<usize>)
    requires
        p@.len() == modal@.len(),
    ensures
        is_draw_order(p@, modal@, r@),
{
    let n = p.len();
    let mut items: Vec<(u32, usize)> = Vec::new();
    let mut i: usize = 0;
    while i < n
        invariant
            n == p@.len(),
            0 <= i <= n,
            forall|k: int| 0 <= k < items@.len() ==> #[trigger] items@[k].1 < i,
            forall|k: int| 0 <= k < items@.len() ==> items@[k].0 == p@[#[trigger] items@[k].1 as int],
            forall|k: int| 0 <= k < items@.len() ==> #[trigger] items@[k].0 > 0,
            forall|a: int, b: int| 0 <= a < b < items@.len() ==> items@[a].1 < items@[b].1,
            forall|j: int| 0 <= j < i && p@[j] > 0 ==> items@.contains((p@[j], j as usize)),
        decreases n - i,
    {
        if p[i] > 0 {
            let ghost before = items@;
            items.push((p[i], i));
            proof {
                assert forall|j: int| 0 <= j < i + 1 && p@[j] > 0 implies items@.contains(
                    (p@[j], j as usize),
                ) by {
                    if j < i {
                        let k = choose|k: int| 0 <= k < before.len() && before[k] == (p@[j], j as usize);
                        assert(items@[k] == before[k]);
                    } else {
                        assert(items@[items@.len() - 1] == (p@[j], j as usize));
                    }
                }
            }
        }
        i = i + 1;
    }
    let ghost unsorted = items@;
    let sorted = sort_by_priority(items);
    proof {
        assert forall|k: int| 0 <= k < sorted@.len() implies #[trigger] sorted@[k].1 < n
            && sorted@[k].0 == p@[sorted@[k].1 as int] && sorted@[k].0 > 0 by {
            assert(sorted@.contains(sorted@[k]));
            let m = choose|m: int| 0 <= m < unsorted.len() && unsorted[m] == sorted@[k];
            assert(unsorted[m].1 < n);
        }
    }
    let m = sorted.len();
    let mut r: Vec<usize> = Vec::new();
    let mut q: usize = 0;
    let mut stopped = false;
    while q < m && !stopped
        invariant
            n == p@.len(),
            n == modal@.len(),
            m == sorted@.len(),
            0 <= q <= m,
            r@.len() == q,
            forall|k: int| 0 <= k < q ==> #[trigger] r@[k] == sorted@[k].1,
            forall|k: int| 0 <= k < sorted@.len() ==> #[trigger] sorted@[k].1 < n
                && sorted@[k].0 == p@[sorted@[k].1 as int] && sorted@[k].0 > 0,
            forall|a: int, b: int|
                0 <= a < b < sorted@.len() ==> sorted@[a].0 > sorted@[b].0 || (sorted@[a].0
                    == sorted@[b].0 && sorted@[a].1 < sorted@[b].1),
            forall|k: int| 0 <= k < q - 1 ==> !modal@[#[trigger] r@[k] as int],
            stopped ==> q > 0 && modal@[r@[q - 1] as int],
            !stopped && q > 0 ==> !modal@[r@[q - 1] as int],
        decreases m - q,
    {
        let idx = sorted[q].1;
        r.push(idx);
        if modal[idx] {
            stopped = true;
        }
        q = q + 1;
    }
    proof {
        assert forall|k: int| 0 <= k < r@.len() implies #[trigger] r@[k] < p@.len() && p@[r@[k] as int]
            > 0 by {
            assert(r@[k] == sorted@[k].1);
        }
        assert forall|k: int, l: int| 0 <= k < l < r@.len() implies ranks_before(
            p@,
            #[trigger] r@[k] as int,
            #[trigger] r@[l] as int,
        ) by {
            assert(sorted@[k].0 > sorted@[l].0 || (sorted@[k].0 == sorted@[l].0 && sorted@[k].1
                < sorted@[l].1));
        }
        assert forall|j: int|
            #![trigger p@[j]]
            0 <= j < p@.len() && p@[j] > 0 && !r@.contains(j as usize) implies r@.len() > 0
            && modal@[r@.last() as int] && ranks_before(p@, r@.last() as int, j) by {
            assert(unsorted.contains((p@[j], j as usize)));
            assert(sorted@.contains((p@[j], j as usize)));
            let s = choose|s: int| 0 <= s < sorted@.len() && sorted@[s] == (p@[j], j as usize);
            if s < q {
                assert(r@[s] == j as usize);
                assert(r@.contains(j as usize));
            }
            assert(s >= q);
            assert(q < m);
            assert(stopped);
            let last = (q - 1) as int;
            assert(sorted@[last].0 > sorted@[s].0 || (sorted@[last].0 == sorted@[s].0
                && sorted@[last].1 < sorted@[s].1));
        }
    }
    r
}

/// Positions of the components on `display`, in registration order.
pub open spec fn on_display(cs: Seq<Component>, display: u8) -> Seq<int>
    decreases cs.len(),
{
    if cs.len() == 0 {
        Seq::empty()
    } else if cs.last().display == display {
        on_display(cs.drop_last(), display).push(cs.len() - 1)
    } else {
        on_display(cs.drop_last(), display)
    }
}

/// Which components to draw on `display` in a pass over state `st` at time
/// `now`, and in what order: positions in `cs` of the components on that
/// display, ranked as `draw_order` ranks them.
pub fn compose_order(cs: &Vec<Component>, display: u8, st: &ApplicationState, now: u64) -> (r: (
    Vec<usize>,
    Vec<usize>,
))
    requires
        st.wf(),
    ensures
        r.0@.len() == on_display(cs@, display).len(),
        forall|k: int| 0 <= k < r.0@.len() ==> #[trigger] r.0@[k] as int == on_display(cs@, display)[k],
        is_draw_order(
            Seq::new(r.0@.len(), |k: int| priority(cs@[r.0@[k] as int], *st, now)),
            Seq::new(r.0@.len(), |k: int| area_of(cs@[r.0@[k] as int]) == DisplayAreaType::Dialog),
            r.1@,
        ),
{
    let n = cs.len();
    let mut members: Vec<usize> = Vec::new();
    let mut prios: Vec<u32> = Vec::new();
    let mut modal: Vec<bool> = Vec::new();
    let mut i: usize = 0;
    while i < n
        invariant
            st.wf(),
            n == cs@.len(),
            0 <= i <= n,
            members@.len() == on_display(cs@.subrange(0, i as int), display).len(),
            forall|k: int| 0 <= k < members@.len() ==> #[trigger] members@[k] as int == on_display(
                cs@.subrange(0, i as int),
                display,
            )[k],
            forall|k: int| 0 <= k < members@.len() ==> #[trigger] members@[k] < i,
            prios@.len() == members@.len(),
            modal@.len() == members@.len(),
            forall|k: int| 0 <= k < members@.len() ==> #[trigger] prios@[k] == priority(
                cs@[members@[k] as int],
                *st,
                now,
            ),
            forall|k: int| 0 <= k < members@.len() ==> #[trigger] modal@[k] == (area_of(
                cs@[members@[k] as int],
            ) == DisplayAreaType::Dialog),
        decreases n - i,
    {
        proof {
            assert(cs@.subrange(0, i + 1).drop_last() =~= cs@.subrange(0, i as int));
        }
        if cs[i].display == display {
            members.push(i);
            prios.push(cs[i].get_z_index(st, now));
            let is_dialog = match cs[i].get_type() {
                DisplayAreaType::Dialog => true,
                _ => false,
            };
            modal.push(is_dialog);
        }
        i = i + 1;
    }
    proof {
        assert(cs@.subrange(0, n as int) =~= cs@);
    }
    let order = draw_order(&prios, &modal);
    proof {
        assert(prios@ =~= Seq::new(members@.len(), |k: int| priority(cs@[members@[k] as int], *st, now)));
        assert(modal@ =~= Seq::new(
            members@.len(),
            |k: int| area_of(cs@[members@[k] as int]) == DisplayAreaType::Dialog,
        ));
    }
    (members, order)
}

/// Distance from the top of the display to the row of icons.
pub const ICON_ROW_TOP: i64 = 10;

/// Sum of the icon widths among `kinds`.
pub open spec fn icons_width(kinds: Seq<DisplayAreaType>) -> int
    decreases kinds.len(),
{
    if kinds.len() == 0 {
        0
    } else {
        icons_width(kinds.drop_last()) + match kinds.last() {
            DisplayAreaType::Icon(w, _) => w as int,
            _ => 0,
        }
    }
}

/// Where each canvas goes when the canvases of `kinds` are placed in order
/// on a display `width` pixels wide: full-display canvases at the origin,
/// rectangles at their own corner, and icons left to right in a row centred
/// on the display, `ICON_ROW_TOP` from its top.
pub open spec fn placement(kinds: Seq<DisplayAreaType>, width: nat, k: int) -> (int, int) {
    let total = icons_width(kinds);
    let start = if total <= width {
        (width - total) / 2
    } else {
        0
    };
    match kinds[k] {
        DisplayAreaType::Fullscreen => (0, 0),
        DisplayAreaType::Dialog => (0, 0),
        DisplayAreaType::DisplayArea(rect) => (rect.x as int, rect.y as int),
        DisplayAreaType::Icon(_, _) => (start + icons_width(kinds.subrange(0, k)), ICON_ROW_TOP as int),
    }
}

/// Where to place each canvas, given their area kinds in compositing order.
pub fn placements(kinds: &Vec<DisplayAreaType>, width: u32) -> (r: Vec<(i64, i64)>)
    requires
        kinds@.len() <= i32::MAX,
    ensures
        r@.len() == kinds@.len(),
        forall|k: int| 0 <= k < r@.len() ==> (#[trigger] r@[k].0 as int, r@[k].1 as int) == placement(
            kinds@,
            width as nat,
            k,
        ),
{
    let n = kinds.len();
    let mut total: i64 = 0;
    let mut i: usize = 0;
    while i < n
        invariant
            n == kinds@.len(),
            n <= i32::MAX,
            0 <= i <= n,
            total == icons_width(kinds@.subrange(0, i as int)),
            0 <= total <= i * (u32::MAX as int),
        decreases n - i,
    {
        proof {
            assert(kinds@.subrange(0, i + 1).drop_last() =~= kinds@.subrange(0, i as int));
            assert(i * (u32::MAX as int) + u32::MAX as int == (i + 1) * (u32::MAX as int)) by (nonlinear_arith);
            assert((i + 1) * (u32::MAX as int) <= (i32::MAX as int) * (u32::MAX as int)) by (nonlinear_arith)
                requires
                    i + 1 <= i32::MAX,
            ;
        }
        match kinds[i] {
            DisplayAreaType::Icon(w, _) => {
                total = total + w as i64;
            },
            _ => {},
        }
        i = i + 1;
    }
    proof {
        assert(kinds@.subrange(0, n as int) =~= kinds@);
    }
    let start: i64 = if total <= width as i64 {
        (width as i64 - total) / 2
    } else {
        0
    };
    let mut r: Vec<(i64, i64)> = Vec::new();
    let mut cursor: i64 = start;
    let mut j: usize = 0;
    while j < n
        invariant
            n == kinds@.len(),
            n <= i32::MAX,
            0 <= j <= n,
            total == icons_width(kinds@),
            start == (if total <= width { (width - total) / 2 } else { 0int }),
            0 <= start <= u32::MAX,
            0 <= total <= n * (u32::MAX as int),
            cursor == start + icons_width(kinds@.subrange(0, j as int)),
            0 <= icons_width(kinds@.subrange(0, j as int)) <= j * (u32::MAX as int),
            r@.len() == j,
            forall|k: int| 0 <= k < j ==> (#[trigger] r@[k].0 as int, r@[k].1 as int) == placement(
                kinds@,
                width as nat,
                k,
            ),
        decreases n - j,
    {
        proof {
            assert(kinds@.subrange(0, j + 1).drop_last() =~= kinds@.subrange(0, j as int));
            assert(j * (u32::MAX as int) + u32::MAX as int == (j + 1) * (u32::MAX as int)) by (nonlinear_arith);
            assert((j + 1) * (u32::MAX as int) <= (i32::MAX as int) * (u32::MAX as int)) by (nonlinear_arith)
                requires
                    j + 1 <= i32::MAX,
            ;
        }
        let pos: (i64, i64) = match kinds[j] {
            DisplayAreaType::Fullscreen => (0, 0),
            DisplayAreaType::Dialog => (0, 0),
            DisplayAreaType::DisplayArea(rect) => (rect.x as i64, rect.y as i64),
            DisplayAreaType::Icon(w, _) => {
                let p = (cursor, ICON_ROW_TOP);
                cursor = cursor + w as i64;
                p
            },
        };
        r.push(pos);
        j = j + 1;
    }
    r
}

/// The size of the canvas a component of area kind `kind` draws on, on a
/// display of `w` by `h`: an icon's own size, the whole display for full-display
/// kinds, and a rectangle's size.
pub open spec fn canvas_size_of(kind: DisplayAreaType, w: u32, h: u32) -> (u32, u32) {
    match kind {
        DisplayAreaType::Icon(iw, ih) => (iw, ih),
        DisplayAreaType::Fullscreen => (w, h),
        DisplayAreaType::Dialog => (w, h),
        DisplayAreaType::DisplayArea(rect) => (rect.width, rect.height),
    }
}

/// The size of the canvas for a component of area kind `kind` on a `w` by `h` display.
pub fn canvas_size(kind: DisplayAreaType, w: u32, h: u32) -> (r: (u32, u32))
    ensures
        r == canvas_size_of(kind, w, h),
{
    match kind {
        DisplayAreaType::Icon(iw, ih) => (iw, ih),
        DisplayAreaType::Fullscreen => (w, h),
        DisplayAreaType::Dialog => (w, h),
        DisplayAreaType::DisplayArea(rect) => (rect.width, rect.height),
    }
}

/// The area kinds in compositing order: the reverse of drawing order.
pub open spec fn back_to_front(kinds: Seq<DisplayAreaType>) -> Seq<DisplayAreaType> {
    Seq::new(kinds.len(), |j: int| kinds[kinds.len() - 1 - j])
}

/// A framebuffer after the first `j` canvases, taken back to front, are
/// composited at their placements on a display `width` pixels wide.
pub open spec fn layered(
    d: BWRDisplay,
    fb: Seq<u8>,
    cs: Seq<Canvas>,
    kinds: Seq<DisplayAreaType>,
    width: nat,
    j: nat,
) -> Seq<u8>
    decreases j,
{
    if j == 0 {
        fb
    } else {
        let prev = layered(d, fb, cs, kinds, width, (j - 1) as nat);
        let c = cs[cs.len() - j];
        let pos = placement(back_to_front(kinds), width, j - 1);
        composited(d, prev, c.cells(), c.spec_width(), pos.0, pos.1, c.cells().len())
    }
}

proof fn lemma_composited_geometry(
    d1: BWRDisplay,
    d2: BWRDisplay,
    fb: Seq<u8>,
    cp: Seq<Option<crate::color::BWRColor>>,
    cw: nat,
    ox: int,
    oy: int,
    k: nat,
)
    requires
        d1.spec_width() == d2.spec_width(),
        d1.spec_height() == d2.spec_height(),
        d1.spec_buffer_height() == d2.spec_buffer_height(),
        d1.spec_rotate() == d2.spec_rotate(),
        d1.spec_flip() == d2.spec_flip(),
    ensures
        composited(d1, fb, cp, cw, ox, oy, k) == composited(d2, fb, cp, cw, ox, oy, k),
    decreases k,
{
    if k > 0 && cw > 0 {
        lemma_composited_geometry(d1, d2, fb, cp, cw, ox, oy, (k - 1) as nat);
    }
}

/// Composites the canvases of one pass onto a display. `canvases` and
/// `kinds` come in drawing order, best ranked first; they are composited in
/// the reverse order, each at its placement, so that the best ranked canvas
/// ends on top.
pub fn composite_pass(display: &mut BWRDisplay, canvases: &Vec<Canvas>, kinds: &Vec<DisplayAreaType>)
    requires
        old(display).wf(),
        old(display).spec_width() <= i32::MAX,
        old(display).spec_height() <= i32::MAX,
        canvases@.len() == kinds@.len(),
        kinds@.len() <= i32::MAX,
        forall|i: int| 0 <= i < canvases@.len() ==> #[trigger] canvases@[i].wf(),
    ensures
        final(display).wf(),
        final(display).spec_width() == old(display).spec_width(),
        final(display).spec_height() == old(display).spec_height(),
        final(display).spec_columns() == old(display).spec_columns(),
        final(display).spec_buffer_height() == old(display).spec_buffer_height(),
        final(display).spec_rotate() == old(display).spec_rotate(),
        final(display).spec_flip() == old(display).spec_flip(),
        final(display).pixels() == layered(
            *old(display),
            old(display).pixels(),
            canvases@,
            kinds@,
            old(display).spec_width(),
            canvases@.len(),
        ),
{
    let n = kinds.len();
    let mut order: Vec<DisplayAreaType> = Vec::new();
    let mut j: usize = 0;
    while j < n
        invariant
            n == kinds@.len(),
            0 <= j <= n,
            order@ =~= back_to_front(kinds@).subrange(0, j as int),
        decreases n - j,
    {
        order.push(kinds[n - 1 - j]);
        j = j + 1;
    }
    assert(order@ =~= back_to_front(kinds@));
    let (width, _) = display.size();
    let positions = placements(&order, width);
    let mut j: usize = 0;
    while j < n
        invariant
            n == kinds@.len(),
            n == canvases@.len(),
            n <= i32::MAX,
            0 <= j <= n,
            positions@.len() == n,
            order@ == back_to_front(kinds@),
            width == old(display).spec_width(),
            forall|k: int| 0 <= k < n ==> (#[trigger] positions@[k].0 as int, positions@[k].1 as int)
                == placement(order@, width as nat, k),
            forall|i: int| 0 <= i < canvases@.len() ==> #[trigger] canvases@[i].wf(),
            display.wf(),
            display.spec_width() == old(display).spec_width(),
            display.spec_height() == old(display).spec_height(),
            display.spec_columns() == old(display).spec_columns(),
            display.spec_buffer_height() == old(display).spec_buffer_height(),
            display.spec_rotate() == old(display).spec_rotate(),
            display.spec_flip() == old(display).spec_flip(),
            old(display).spec_width() <= i32::MAX,
            old(display).spec_height() <= i32::MAX,
            display.pixels() == layered(
                *old(display),
                old(display).pixels(),
                canvases@,
                kinds@,
                width as nat,
                j as nat,
            ),
        decreases n - j,
    {
        let ghost before = *display;
        let c = &canvases[n - 1 - j];
        let (x, y) = positions[j];
        c.place_at(display, x, y);
        proof {
            lemma_composited_geometry(
                before,
                *old(display),
                before.pixels(),
                c.cells(),
                c.spec_width(),
                x as int,
                y as int,
                c.cells().len(),
            );
        }
        j = j + 1;
    }
}

proof fn lemma_layered_len(
    d: BWRDisplay,
    fb: Seq<u8>,
    cs: Seq<Canvas>,
    kinds: Seq<DisplayAreaType>,
    width: nat,
    j: nat,
)
    requires
        d.wf(),
        fb.len() == d.pixels().len(),
        j <= cs.len(),
    ensures
        layered(d, fb, cs, kinds, width, j).len() == fb.len(),
    decreases j,
{
    if j > 0 {
        lemma_layered_len(d, fb, cs, kinds, width, (j - 1) as nat);
        let c = cs[cs.len() - j];
        let pos = placement(back_to_front(kinds), width, j - 1);
        lemma_composited_len(
            d,
            layered(d, fb, cs, kinds, width, (j - 1) as nat),
            c.cells(),
            c.spec_width(),
            pos.0,
            pos.1,
            c.cells().len(),
        );
    }
}

/// Where pixel `i` of the best-ranked canvas of a pass lands on the drawing.
pub open spec fn top_pixel_at(cs: Seq<Canvas>, kinds: Seq<DisplayAreaType>, width: nat, i: int) -> (
    int,
    int,
) {
    let pos = placement(back_to_front(kinds), width, cs.len() - 1);
    let cw = cs[0].spec_width() as int;
    (pos.0 + i % cw, pos.1 + i / cw)
}

/// The best-ranked canvas of a pass is composited last and ends on top:
/// wherever it painted a pixel that lands on the drawing, the display shows
/// that pixel's colour, whatever the canvases beneath it drew there.
pub proof fn lemma_best_ranked_on_top(
    d: BWRDisplay,
    cs: Seq<Canvas>,
    kinds: Seq<DisplayAreaType>,
    i: int,
)
    requires
        d.wf(),
        cs.len() > 0,
        cs.len() == kinds.len(),
        cs[0].spec_width() > 0,
        0 <= i < cs[0].cells().len(),
        cs[0].cells()[i] is Some,
        in_bounds(
            d.spec_width(),
            d.spec_height(),
            top_pixel_at(cs, kinds, d.spec_width(), i).0,
            top_pixel_at(cs, kinds, d.spec_width(), i).1,
        ),
    ensures
        layered(d, d.pixels(), cs, kinds, d.spec_width(), cs.len())[d.index_of(
            top_pixel_at(cs, kinds, d.spec_width(), i).0,
            top_pixel_at(cs, kinds, d.spec_width(), i).1,
        )] == storage_of(cs[0].cells()[i]->Some_0),
{
    let n = cs.len();
    let width = d.spec_width();
    let prev = layered(d, d.pixels(), cs, kinds, width, (n - 1) as nat);
    lemma_layered_len(d, d.pixels(), cs, kinds, width, (n - 1) as nat);
    let c = cs[0];
    let pos = placement(back_to_front(kinds), width, n - 1);
    lemma_composited_keeps(
        d,
        prev,
        c.cells(),
        c.spec_width(),
        pos.0,
        pos.1,
        c.cells().len(),
        i,
    );
}

/// What a render pass draws, given the components' priorities `p` and
/// whether each is a dialog: the pass draws exactly the components of
/// `order`, best ranked first. No component of priority 0 is drawn, equal
/// priorities keep registration order, a higher priority is drawn before a
/// lower one, and once a dialog is drawn nothing ranked below it is.
pub proof fn lemma_render_pass(p: Seq<u32>, modal: Seq<bool>, order: Seq<usize>)
    requires
        is_draw_order(p, modal, order),
        p.len() == modal.len(),
        p.len() <= usize::MAX,
    ensures
        forall|i: int| 0 <= i < p.len() && p[i] == 0 ==> !order.contains(i as usize),
        forall|k: int, l: int|
            0 <= k < l < order.len() && p[order[k] as int] == p[order[l] as int] ==> order[k]
                < order[l],
        forall|k: int, l: int|
            0 <= k < l < order.len() ==> p[order[k] as int] >= p[order[l] as int],
        forall|k: int, i: int|
            0 <= k < order.len() && modal[order[k] as int] && 0 <= i < p.len() && ranks_before(
                p,
                order[k] as int,
                i,
            ) ==> !order.contains(i as usize),
{
    assert forall|i: int| 0 <= i < p.len() && p[i] == 0 implies !order.contains(i as usize) by {
        if order.contains(i as usize) {
            let k = choose|k: int| 0 <= k < order.len() && order[k] == i as usize;
            assert(p[order[k] as int] > 0);
        }
    }
    assert forall|k: int, l: int|
        0 <= k < l < order.len() && p[order[k] as int] == p[order[l] as int] implies order[k]
        < order[l] by {
        assert(ranks_before(p, order[k] as int, order[l] as int));
    }
    assert forall|k: int, l: int| 0 <= k < l < order.len() implies p[order[k] as int] >= p[order[l] as int] by {
        assert(ranks_before(p, order[k] as int, order[l] as int));
    }
    assert forall|k: int, i: int|
        0 <= k < order.len() && modal[order[k] as int] && 0 <= i < p.len() && ranks_before(
            p,
            order[k] as int,
            i,
        ) implies !order.contains(i as usize) by {
        lemma_modal_occludes(p, modal, order, k, i);
    }
}

} // verus!
