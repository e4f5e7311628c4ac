//! Keyboard focus over a fixed number of widgets.
use vstd::prelude::*;

verus! {

/// Which of `count` widgets has the focus.
pub struct Focus {
    count: usize,
    selected: usize,
}

impl Focus {
    /// The number of widgets.
    pub closed spec fn count(&self) -> nat {
        self.count as nat
    }

    /// The focused widget.
    pub closed spec fn index(&self) -> nat {
        self.selected as nat
    }

    /// Focus on the first of `count` widgets.
    pub fn new(count: usize) -> (r: Focus)
        ensures
            r.count() == count,
            r.index() == 0,
    {
        Focus { count, selected: 0 }
    }

    /// Moves the focus to the next widget, from the last back to the first.
    pub fn cycle(&mut self)
        requires
            old(self).count() > 0,
            old(self).index() < old(self).count(),
        ensures
            final(self).count() == old(self).count(),
            final(self).index() == (old(self).index() + 1) % old(self).count(),
    {
        let next = self.selected + 1;
        if next == self.count {
            assert((next as int) % (self.count as int) == 0) by (nonlinear_arith)
                requires
                    next == self.count,
                    next > 0,
            ;
            self.selected = 0;
        } else {
            assert((next as int) % (self.count as int) == next) by (nonlinear_arith)
                requires
                    0 <= next < self.count,
            ;
            self.selected = next;
        }
    }

    pub fn selected(&self) -> (r: usize)
        ensures
            r == self.index(),
    {
        self.selected
    }

    pub fn is_selected(&self, index: usize) -> (r: bool)
        ensures
            r == (index == self.index()),
    {
        self.selected == index
    }

    /// `a` where widget `index` has the focus, else `b`.
    pub fn choose_at<T>(&self, index: usize, a: T, b: T) -> (r: T)
        ensures
            r == if index == self.index() {
                a
            } else {
                b
            },
    {
        if self.is_selected(index) {
            a
        } else {
            b
        }
    }
}

} // verus!
