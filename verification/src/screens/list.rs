//! Scroll/selection state shared by the list-based screens.

use vstd::prelude::*;

verus! {

/// Selection and first visible row of a list.
#[derive(Debug, Clone, Copy, Default, PartialEq, Eq, Structural)]
pub struct ListState {
    pub selected: usize,
    pub scroll: usize,
}

/// `a` reduced by one, not below zero.
pub open spec fn dec_sat(a: usize) -> usize {
    if a == 0 {
        0
    } else {
        (a - 1) as usize
    }
}

/// The selection after moving down in a list of `n` items.
pub open spec fn moved_down(selected: usize, n: usize) -> usize {
    if n == 0 {
        selected
    } else if selected + 1 < n {
        (selected + 1) as usize
    } else {
        (n - 1) as usize
    }
}

/// The state after [`ListState::clamp`] to `n` items.
pub open spec fn clamped(s: ListState, n: usize) -> ListState {
    if n == 0 {
        ListState { selected: 0, scroll: 0 }
    } else if s.selected < n {
        s
    } else {
        ListState { selected: (n - 1) as usize, ..s }
    }
}

/// The first visible row after [`ListState::keep_visible`] with `visible`
/// rows.
pub open spec fn visible_scroll(s: ListState, visible: usize) -> int {
    if s.selected < s.scroll {
        s.selected as int
    } else if s.selected >= s.scroll + visible {
        s.selected + 1 - visible
    } else {
        s.scroll as int
    }
}

impl ListState {
    /// Move the selection one row up (stops at the first row).
    pub fn move_up(&mut self)
        ensures
            final(self).selected == dec_sat(old(self).selected),
            final(self).scroll == old(self).scroll,
    {
        self.selected = if self.selected == 0 {
            0
        } else {
            self.selected - 1
        };
    }

    /// Move the selection one row down in a list of `item_count` items
    /// (stops at the last row; an empty list leaves it unchanged).
    pub fn move_down(&mut self, item_count: usize)
        requires
            item_count > 0 ==> old(self).selected < usize::MAX,
        ensures
            final(self).selected == moved_down(old(self).selected, item_count),
            final(self).scroll == old(self).scroll,
    {
        if item_count == 0 {
            return;
        }
        let next = self.selected + 1;
        self.selected = if next < item_count - 1 {
            next
        } else {
            item_count - 1
        };
    }

    /// Clamp `selected` to `[0, item_count)` without moving it, so a list
    /// that shrank (or grew) does not leave the selection out of range.
    pub fn clamp(&mut self, item_count: usize)
        ensures
            *final(self) == clamped(*old(self), item_count),
    {
        if item_count == 0 {
            self.selected = 0;
            self.scroll = 0;
        } else {
            self.selected = if self.selected < item_count - 1 {
                self.selected
            } else {
                item_count - 1
            };
        }
    }

    /// Keep `selected` visible within a viewport of `visible` rows.
    pub fn keep_visible(&mut self, visible: usize)
        requires
            visible > 0 || old(self).selected < usize::MAX,
        ensures
            final(self).selected == old(self).selected,
            final(self).scroll == visible_scroll(*old(self), visible),
    {
        if self.selected < self.scroll {
            self.scroll = self.selected;
        } else if self.selected - self.scroll >= visible {
            self.scroll = if visible > 0 {
                self.selected - (visible - 1)
            } else {
                self.selected + 1
            };
        }
    }
}

/// Clamping leaves a selection that is already inside the list where it is,
/// and in any case leaves it inside the list (or at zero for an empty list).
pub proof fn lemma_clamp_bounds(s: ListState, n: usize)
    ensures
        n == 0 ==> clamped(s, n).selected == 0 && clamped(s, n).scroll == 0,
        n > 0 ==> clamped(s, n).selected < n,
        s.selected < n ==> clamped(s, n) == s,
{
}

/// Clamping twice to the same length is the same as clamping once.
pub proof fn lemma_clamp_idempotent(s: ListState, n: usize)
    ensures
        clamped(clamped(s, n), n) == clamped(s, n),
{
}

/// Moving down and then up returns to the same row whenever there was a row
/// below; moving down never leaves a non-empty list.
pub proof fn lemma_down_then_up(selected: usize, n: usize)
    requires
        selected + 1 < n,
    ensures
        dec_sat(moved_down(selected, n)) == selected,
{
}

/// Moving down stays inside a non-empty list when starting inside it.
pub proof fn lemma_down_in_range(selected: usize, n: usize)
    requires
        selected < n,
    ensures
        moved_down(selected, n) < n,
        selected <= moved_down(selected, n),
{
}

/// After keeping the selection visible in a viewport of `visible > 0` rows,
/// the selected row lies inside the viewport.
pub proof fn lemma_keep_visible_shows_selection(s: ListState, visible: usize)
    requires
        visible > 0,
    ensures
        visible_scroll(s, visible) <= s.selected < visible_scroll(s, visible) + visible,
{
}

} // verus!
