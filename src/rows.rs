use vstd::prelude::*;
use vstd::arithmetic::div_mod::{
    lemma_fundamental_div_mod,
    lemma_mod_add_multiples_vanish,
    lemma_mod_sub_multiples_vanish,
};

use crate::cell_state::CellState;

verus! {

/// A read-only window over a row-major buffer that hands out one row of
/// `width` cells at a time, from the front and, independently, from the back.
pub struct Rows<'a> {
    all_rows: &'a [CellState],
    cursor: usize,
    reverse_cursor: usize,
    width: usize,
    length: usize,
}

/// Of two multiples `a < b` of `w`, the next multiple after `a` is at most `b`.
proof fn lemma_next_multiple(a: int, b: int, w: int)
    requires
        w > 0,
        0 <= a < b,
        a % w == 0,
        b % w == 0,
    ensures
        a + w <= b,
{
    lemma_fundamental_div_mod(a, w);
    lemma_fundamental_div_mod(b, w);
    let qa = a / w;
    let qb = b / w;
    assert(a + w <= b) by (nonlinear_arith)
        requires
            a == w * qa,
            b == w * qb,
            a < b,
            w > 0,
    ;
}

impl<'a> Rows<'a> {
    /// The buffer the window reads.
    pub closed spec fn data(&self) -> Seq<CellState> {
        self.all_rows@
    }

    /// The number of cells in each row.
    pub closed spec fn row_width(&self) -> nat {
        self.width as nat
    }

    /// Where the next row from the front starts.
    pub closed spec fn front(&self) -> nat {
        self.cursor as nat
    }

    /// Where the next row from the back ends.
    pub closed spec fn back(&self) -> nat {
        self.reverse_cursor as nat
    }

    pub closed spec fn wf(&self) -> bool {
        &&& self.width > 0
        &&& self.length == self.all_rows@.len()
        &&& self.length % self.width == 0
        &&& self.cursor <= self.length
        &&& self.cursor % self.width == 0
        &&& self.reverse_cursor <= self.length
        &&& self.reverse_cursor % self.width == 0
    }

    /// A fresh window over `rows`, cut into rows of `width` cells.
    pub fn new(rows: &'a [CellState], width: usize) -> (r: Rows<'a>)
        requires
            width > 0,
            rows@.len() % (width as nat) == 0,
        ensures
            r.wf(),
            r.data() == rows@,
            r.row_width() == width,
            r.front() == 0,
            r.back() == rows@.len(),
    {
        Rows { all_rows: rows, width, cursor: 0, reverse_cursor: rows.len(), length: rows.len() }
    }

    /// The number of cells in each row.
    pub fn width(&self) -> (r: usize)
        ensures
            r == self.row_width(),
    {
        self.width
    }

    /// The number of cells in the whole buffer.
    pub fn length(&self) -> (r: usize)
        requires
            self.wf(),
        ensures
            r == self.data().len(),
    {
        self.length
    }

    /// The next row from the front, or `None` once the front reaches the end.
    pub fn next(&mut self) -> (r: Option<&'a [CellState]>)
        requires
            old(self).wf(),
        ensures
            final(self).wf(),
            final(self).data() == old(self).data(),
            final(self).row_width() == old(self).row_width(),
            final(self).back() == old(self).back(),
            r is None <==> old(self).front() >= old(self).data().len(),
            r is None ==> final(self).front() == old(self).front(),
            old(self).front() < old(self).data().len() ==> {
                &&& old(self).front() + old(self).row_width() <= old(self).data().len()
                &&& final(self).front() == old(self).front() + old(self).row_width()
                &&& r.is_some()
                &&& r.unwrap()@ == old(self).data().subrange(
                    old(self).front() as int,
                    final(self).front() as int,
                )
            },
    {
        if self.cursor != self.length {
            proof {
                lemma_next_multiple(self.cursor as int, self.length as int, self.width as int);
                lemma_mod_add_multiples_vanish(self.cursor as int, self.width as int);
            }
            let start_i = self.cursor;
            self.cursor = self.cursor + self.width;
            Some(vstd::slice::slice_subrange(self.all_rows, start_i, self.cursor))
        } else {
            None
        }
    }

    /// The next row from the back, or `None` once the back reaches the start.
    pub fn next_back(&mut self) -> (r: Option<&'a [CellState]>)
        requires
            old(self).wf(),
        ensures
            final(self).wf(),
            final(self).data() == old(self).data(),
            final(self).row_width() == old(self).row_width(),
            final(self).front() == old(self).front(),
            r is None <==> old(self).back() == 0,
            r is None ==> final(self).back() == 0,
            old(self).back() > 0 ==> {
                &&& old(self).back() >= old(self).row_width()
                &&& final(self).back() == old(self).back() - old(self).row_width()
                &&& r.is_some()
                &&& r.unwrap()@ == old(self).data().subrange(
                    final(self).back() as int,
                    old(self).back() as int,
                )
            },
    {
        if self.reverse_cursor != 0 {
            proof {
                lemma_next_multiple(0, self.reverse_cursor as int, self.width as int);
                lemma_mod_sub_multiples_vanish(self.reverse_cursor as int, self.width as int);
            }
            let end_i = self.reverse_cursor;
            self.reverse_cursor = self.reverse_cursor - self.width;
            Some(vstd::slice::slice_subrange(self.all_rows, self.reverse_cursor, end_i))
        } else {
            None
        }
    }
}

impl<'a> Clone for Rows<'a> {
    /// A fresh window over the same buffer: both cursors start over.
    fn clone(&self) -> (r: Self)
        ensures
            self.wf() ==> r.wf(),
            r.data() == self.data(),
            r.row_width() == self.row_width(),
            r.front() == 0,
            r.back() == self.data().len(),
    {
        Rows {
            all_rows: self.all_rows,
            cursor: 0,
            reverse_cursor: self.all_rows.len(),
            width: self.width,
            length: self.all_rows.len(),
        }
    }
}

} // verus!
