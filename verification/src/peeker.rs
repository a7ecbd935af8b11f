use vstd::prelude::*;

verus! {

/// A cursor over a fixed sequence of items with one item of lookahead.
/// `peek` reads the item under the cursor without moving it; `next` reads
/// it and advances. Both also report the item's index.
#[derive(Debug)]
pub struct Peeker<T: Copy> {
    pub items: Vec<T>,
    pub iter_idx: usize,
}

impl<T: Copy> Peeker<T> {
    /// The items the cursor ranges over.
    pub open spec fn items_spec(&self) -> Seq<T> {
        self.items@
    }

    /// The cursor position: the index of the next item to be returned.
    pub open spec fn pos_spec(&self) -> int {
        self.iter_idx as int
    }

    /// How many items are left from the cursor to the end.
    pub open spec fn remaining_spec(&self) -> int {
        self.items_spec().len() - self.pos_spec()
    }

    /// The cursor never stands past the end of the items.
    pub open spec fn wf(&self) -> bool {
        self.iter_idx <= self.items@.len()
    }

    /// A fresh cursor over `items`, standing at the first item.
    pub fn new(items: Vec<T>) -> (p: Peeker<T>)
        ensures
            p.wf(),
            p.items_spec() == items@,
            p.pos_spec() == 0,
    {
        Peeker { items, iter_idx: 0 }
    }

    /// All items, regardless of the cursor.
    pub fn all(&self) -> (r: &Vec<T>)
        ensures
            r@ == self.items_spec(),
    {
        &self.items
    }

    /// The item under the cursor and its index, without advancing; `None`
    /// at the end.
    pub fn peek(&self) -> (r: Option<(T, usize)>)
        ensures
            self.pos_spec() < self.items_spec().len() ==> r == Some(
                (self.items_spec()[self.pos_spec()], self.pos_spec() as usize),
            ),
            self.pos_spec() >= self.items_spec().len() ==> r is None,
    {
        if self.iter_idx < self.items.len() {
            Some((self.items[self.iter_idx], self.iter_idx))
        } else {
            None
        }
    }

    /// The item `k` places past the cursor and its index, without
    /// advancing; `None` when that stands past the end.
    pub fn peek_ahead(&self, k: usize) -> (r: Option<(T, usize)>)
        ensures
            self.pos_spec() + k < self.items_spec().len() ==> r == Some(
                (self.items_spec()[self.pos_spec() + k], (self.pos_spec() + k) as usize),
            ),
            self.pos_spec() + k >= self.items_spec().len() ==> r is None,
    {
        let n = self.items.len();
        if k < n && self.iter_idx < n - k {
            let idx = self.iter_idx + k;
            Some((self.items[idx], idx))
        } else {
            None
        }
    }

    /// The cursor position.
    pub fn pos(&self) -> (p: usize)
        ensures
            p as int == self.pos_spec(),
    {
        self.iter_idx
    }

    /// The item under the cursor and its index, advancing past it; `None`
    /// at the end, leaving the cursor in place.
    pub fn next(&mut self) -> (r: Option<(T, usize)>)
        requires
            old(self).wf(),
        ensures
            final(self).wf(),
            final(self).items_spec() == old(self).items_spec(),
            old(self).pos_spec() < old(self).items_spec().len() ==> {
                &&& r == Some(
                    (old(self).items_spec()[old(self).pos_spec()], old(self).pos_spec() as usize),
                )
                &&& final(self).pos_spec() == old(self).pos_spec() + 1
            },
            old(self).pos_spec() >= old(self).items_spec().len() ==> {
                &&& r is None
                &&& final(self).pos_spec() == old(self).pos_spec()
            },
    {
        if self.iter_idx < self.items.len() {
            let idx = self.iter_idx;
            self.iter_idx = idx + 1;
            Some((self.items[idx], idx))
        } else {
            None
        }
    }
}

} // verus!
