use vstd::prelude::*;

use crate::components::{needs_refresh, priority, CHANGED_PRIORITY, Component, ComponentKind};
use crate::state::{same_opt, same_value};
use crate::state::ApplicationState;

verus! {

/// Some component among the first `n` that is on display `d` needs a redraw on `st`.
pub open spec fn dirty_upto(cs: Seq<Component>, st: ApplicationState, d: int, n: int) -> bool {
    exists|i: int| 0 <= i < n && #[trigger] cs[i].display == d && needs_refresh(cs[i], st)
}

/// Display `d` must be redrawn after a state change: a component on it asks for it.
pub open spec fn dirty_on(cs: Seq<Component>, st: ApplicationState, d: int) -> bool {
    dirty_upto(cs, st, d, cs.len() as int)
}

/// After a state change, which of `display_count` displays must be redrawn.
pub fn mark_dirty(cs: &Vec<Component>, st: &ApplicationState, display_count: usize) -> (r: Vec<
    bool,
>)
    requires
        st.wf(),
    ensures
        r@.len() == display_count,
        forall|d: int| 0 <= d < display_count ==> #[trigger] r@[d] == dirty_on(cs@, *st, d),
{
    let mut r: Vec<bool> = Vec::new();
    let mut d: usize = 0;
    while d < display_count
        invariant
            0 <= d <= display_count,
            r@.len() == d,
            forall|k: int| 0 <= k < d ==> !#[trigger] r@[k],
        decreases display_count - d,
    {
        r.push(false);
        d = d + 1;
    }
    let n = cs.len();
    let mut i: usize = 0;
    while i < n
        invariant
            st.wf(),
            n == cs@.len(),
            0 <= i <= n,
            r@.len() == display_count,
            forall|k: int| 0 <= k < display_count ==> #[trigger] r@[k] == dirty_upto(cs@, *st, k, i as int),
        decreases n - i,
    {
        let target = cs[i].display as usize;
        let hit = cs[i].needs_refresh(st);
        if target < display_count && hit {
            r.set(target, true);
        }
        proof {
            assert forall|k: int| 0 <= k < display_count implies #[trigger] r@[k] == dirty_upto(
                cs@,
                *st,
                k,
                i + 1,
            ) by {
                if dirty_upto(cs@, *st, k, i + 1) && !dirty_upto(cs@, *st, k, i as int) {
                    let j = choose|j: int|
                        0 <= j < i + 1 && #[trigger] cs@[j].display == k && needs_refresh(cs@[j], *st);
                    assert(j == i);
                }
                if k == target && hit {
                    assert(cs@[i as int].display == k && needs_refresh(cs@[i as int], *st));
                }
            }
        }
        i = i + 1;
    }
    r
}

/// Converts elapsed deadlines into redraws: a display whose deadline is at or
/// before `now` is marked for redraw and its deadline cleared; the others are
/// left as they are.
pub fn expire_deadlines(deadlines: &mut Vec<Option<u64>>, dirty: &mut Vec<bool>, now: u64)
    requires
        old(deadlines)@.len() == old(dirty)@.len(),
    ensures
        final(deadlines)@.len() == old(deadlines)@.len(),
        final(dirty)@.len() == old(dirty)@.len(),
        forall|d: int|
            0 <= d < old(deadlines)@.len() ==> #[trigger] final(deadlines)@[d] == (match old(
                deadlines,
            )@[d] {
                Some(t) => if now >= t {
                    None
                } else {
                    Some(t)
                },
                None => None,
            }),
        forall|d: int|
            0 <= d < old(dirty)@.len() ==> #[trigger] final(dirty)@[d] == (old(dirty)@[d] || match old(
                deadlines,
            )@[d] {
                Some(t) => now >= t,
                None => false,
            }),
{
    let n = deadlines.len();
    let mut i: usize = 0;
    while i < n
        invariant
            n == deadlines@.len(),
            n == dirty@.len(),
            n == old(deadlines)@.len(),
            0 <= i <= n,
            forall|d: int|
                0 <= d < i ==> #[trigger] deadlines@[d] == (match old(deadlines)@[d] {
                    Some(t) => if now >= t {
                        None
                    } else {
                        Some(t)
                    },
                    None => None,
                }),
            forall|d: int| i <= d < n ==> #[trigger] deadlines@[d] == old(deadlines)@[d],
            forall|d: int|
                0 <= d < i ==> #[trigger] dirty@[d] == (old(dirty)@[d] || match old(deadlines)@[d] {
                    Some(t) => now >= t,
                    None => false,
                }),
            forall|d: int| i <= d < n ==> #[trigger] dirty@[d] == old(dirty)@[d],
        decreases n - i,
    {
        match deadlines[i] {
            Some(t) => {
                if now >= t {
                    deadlines.set(i, None);
                    dirty.set(i, true);
                }
            },
            None => {},
        }
        i = i + 1;
    }
}

/// The deadline after a drawn component reports when it wants to be drawn
/// again: the nearer of the two, or whichever is present.
pub fn arm_deadline(current: Option<u64>, wake: Option<u64>) -> (r: Option<u64>)
    ensures
        r == (match (current, wake) {
            (Some(c), Some(w)) => Some(if w < c {
                w
            } else {
                c
            }),
            (Some(c), None) => Some(c),
            (None, w) => w,
        }),
{
    match (current, wake) {
        (Some(c), Some(w)) => Some(if w < c { w } else { c }),
        (Some(c), None) => Some(c),
        (None, w) => w,
    }
}

/// A dialog that last drew the value `st` holds under its key: once a single
/// update gives the key a different value, the dialog's priority is 100 and
/// its display is marked for redraw; before the update it asks for no redraw,
/// and once it has closed its priority is 0.
pub proof fn lemma_changed_value_marks_host(
    cs: Seq<Component>,
    i: int,
    st: ApplicationState,
    updated: ApplicationState,
    now: u64,
)
    requires
        0 <= i < cs.len(),
        cs[i].kind matches ComponentKind::BarDialog { property, old_value, .. } && old_value
            == st.value_of(property@) && updated.value_of(property@) is Some && !same_opt(
            st.value_of(property@),
            updated.value_of(property@),
        ),
    ensures
        priority(cs[i], updated, now) == CHANGED_PRIORITY,
        needs_refresh(cs[i], updated),
        dirty_on(cs, updated, cs[i].display as int),
        !needs_refresh(cs[i], st),
        cs[i].kind matches ComponentKind::BarDialog { property, close_at, .. } && (st.value_of(
            property@,
        ) is Some && now >= close_at ==> priority(cs[i], st, now) == 0),
{
    if let ComponentKind::BarDialog { property, old_value, .. } = cs[i].kind {
        if let Some(v) = st.value_of(property@) {
            lemma_same_value_reflexive(v);
        }
    }
    assert(cs[i].display == cs[i].display as int && needs_refresh(cs[i], updated));
}

proof fn lemma_same_value_reflexive(v: crate::state::StateValueType)
    ensures
        same_value(v, v),
{
}

} // verus!
