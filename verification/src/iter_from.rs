//! Sequence-walking helpers behind rotation-invariant equality testing:
//! flattening a list of lists, and walking a list from a chosen element
//! around to its start.

use vstd::prelude::*;

verus! {

/// The concatenation of a sequence of integer sequences, front to back.
pub open spec fn flatten_all(s: Seq<Seq<i64>>) -> Seq<i64>
    decreases s.len(),
{
    if s.len() == 0 {
        Seq::empty()
    } else {
        s.first() + flatten_all(s.drop_first())
    }
}

/// The sequence views of a list of integer lists.
pub open spec fn views_of(outer: Seq<Vec<i64>>) -> Seq<Seq<i64>> {
    outer.map_values(|v: Vec<i64>| v@)
}

/// A hand-rolled flattening walk over a list of integer lists: yields every
/// element of every inner list, in order.
pub struct Flatten {
    pub outer: Vec<Vec<i64>>,
    pub outer_index: usize,
    pub inner_index: usize,
}

impl Flatten {
    /// The walk's position is within range.
    pub open spec fn wf(self) -> bool {
        &&& self.outer_index <= self.outer@.len()
        &&& self.outer_index < self.outer@.len() ==> self.inner_index
            <= self.outer@[self.outer_index as int]@.len()
        &&& self.outer_index == self.outer@.len() ==> self.inner_index == 0
    }

    /// The elements not yet yielded, in order.
    pub open spec fn remaining(self) -> Seq<i64> {
        if self.outer_index == self.outer@.len() {
            Seq::empty()
        } else {
            self.outer@[self.outer_index as int]@.skip(self.inner_index as int) + flatten_all(
                views_of(self.outer@).skip(self.outer_index as int + 1),
            )
        }
    }

    /// A flattening walk over `outer`, positioned at its first element.
    pub fn new(outer: Vec<Vec<i64>>) -> (r: Flatten)
        ensures
            r.wf(),
            r.remaining() == flatten_all(views_of(outer@)),
    {
        let r = Flatten { outer, outer_index: 0, inner_index: 0 };
        proof {
            if r.outer@.len() > 0 {
                assert(views_of(r.outer@).first() == r.outer@[0]@);
                assert(views_of(r.outer@).skip(1) =~= views_of(r.outer@).drop_first());
                assert(r.outer@[0]@.skip(0) =~= r.outer@[0]@);
            } else {
                assert(flatten_all(views_of(r.outer@)) =~= Seq::<i64>::empty());
            }
        }
        r
    }

    /// The next element of the flattened walk, or `None` at its end.
    #[verifier::loop_isolation(false)]
    pub fn next(&mut self) -> (r: Option<i64>)
        requires
            old(self).wf(),
        ensures
            final(self).wf(),
            old(self).remaining().len() == 0 ==> r is None && final(self).remaining()
                == old(self).remaining(),
            old(self).remaining().len() > 0 ==> (r matches Some(v) && v == old(
                self,
            ).remaining().first()) && final(self).remaining() == old(self).remaining().drop_first(),
    {
        loop
            invariant
                self.wf(),
                self.outer@ == old(self).outer@,
                self.remaining() == old(self).remaining(),
            decreases self.outer@.len() - self.outer_index,
        {
            if self.outer_index >= self.outer.len() {
                return None;
            }
            let cur_len = self.outer[self.outer_index].len();
            if self.inner_index < cur_len {
                let ghost before = *self;
                let v = self.outer[self.outer_index][self.inner_index];
                self.inner_index = self.inner_index + 1;
                proof {
                    let cur = self.outer@[self.outer_index as int]@;
                    assert(cur.skip(before.inner_index as int) =~= seq![v] + cur.skip(
                        self.inner_index as int,
                    ));
                    assert(before.remaining().first() == v);
                    assert(self.remaining() =~= before.remaining().drop_first());
                }
                return Some(v);
            } else {
                let ghost before = *self;
                self.outer_index = self.outer_index + 1;
                self.inner_index = 0;
                proof {
                    let views = views_of(self.outer@);
                    let tail = views.skip(before.outer_index as int + 1);
                    let cur = self.outer@[before.outer_index as int]@;
                    assert(cur.skip(before.inner_index as int) =~= Seq::<i64>::empty());
                    if (self.outer_index as int) < self.outer@.len() {
                        assert(tail.first() == self.outer@[self.outer_index as int]@);
                        assert(tail.drop_first() =~~= views.skip(self.outer_index as int + 1));
                        assert(self.outer@[self.outer_index as int]@.skip(0) =~= self.outer@[
                            self.outer_index as int
                        ]@);
                        assert(flatten_all(tail) == tail.first() + flatten_all(tail.drop_first()));
                        assert(before.remaining() =~= self.remaining());
                    } else {
                        assert(tail.len() == 0);
                        assert(before.remaining() =~= self.remaining());
                    }
                }
            }
        }
    }
}

/// Collections that offer a hand-rolled flattening walk.
pub trait IteratorExt: Sized {
    /// The flattened contents, in walk order.
    spec fn flat_view(self) -> Seq<i64>;

    /// A flattening walk over this collection.
    fn our_flatten(self) -> (r: Flatten)
        ensures
            r.wf(),
            r.remaining() == self.flat_view(),
    ;
}

impl IteratorExt for Vec<Vec<i64>> {
    open spec fn flat_view(self) -> Seq<i64> {
        flatten_all(views_of(self@))
    }

    fn our_flatten(self) -> (r: Flatten) {
        Flatten::new(self)
    }
}

/// The least index holding `x` in `s`, or `s.len()` when `x` is absent.
pub open spec fn first_index_of(s: Seq<i64>, x: i64) -> int
    decreases s.len(),
{
    if s.len() == 0 {
        0
    } else if s.first() == x {
        0
    } else {
        1 + first_index_of(s.drop_first(), x)
    }
}

/// A prefix free of `x` that ends on `x` pins `first_index_of` down.
proof fn lemma_first_index_found(s: Seq<i64>, x: i64, i: int)
    requires
        0 <= i < s.len(),
        forall|j: int| 0 <= j < i ==> s[j] != x,
        s[i] == x,
    ensures
        first_index_of(s, x) == i,
    decreases i,
{
    if i > 0 {
        lemma_first_index_found(s.drop_first(), x, i - 1);
    }
}

/// A sequence free of `x` gives `first_index_of` its length.
proof fn lemma_first_index_absent(s: Seq<i64>, x: i64)
    requires
        forall|j: int| 0 <= j < s.len() ==> s[j] != x,
    ensures
        first_index_of(s, x) == s.len(),
    decreases s.len(),
{
    if s.len() > 0 {
        lemma_first_index_absent(s.drop_first(), x);
    }
}

/// A walk over an integer list that starts at the first occurrence of a
/// chosen element and wraps around to cover the skipped prefix; with the
/// element absent, it walks the list in its given order.
pub struct IterFrom {
    pub items: Vec<i64>,
    pub start: usize,
    pub emitted: usize,
}

impl IterFrom {
    /// The walk's position is within range.
    pub open spec fn wf(self) -> bool {
        self.start <= self.items@.len() && self.emitted <= self.items@.len()
    }

    /// The full cyclic order the walk yields.
    pub open spec fn rotated(self) -> Seq<i64> {
        self.items@.skip(self.start as int) + self.items@.take(self.start as int)
    }

    /// How many elements the walk has yielded so far.
    pub open spec fn yielded(self) -> int {
        self.emitted as int
    }

    /// A walk over `items` from the first occurrence of `from_item`.
    pub fn new(items: Vec<i64>, from_item: i64) -> (r: IterFrom)
        ensures
            r.wf(),
            r.items@ == items@,
            r.yielded() == 0,
            r.start as int == if first_index_of(items@, from_item) < items@.len() {
                first_index_of(items@, from_item)
            } else {
                0
            },
    {
        let n = items.len();
        let mut k: usize = 0;
        let mut start: usize = 0;
        let mut found = false;
        while k < n
            invariant
                0 <= k <= n,
                n == items@.len(),
                !found ==> start == 0 && (forall|j: int| 0 <= j < k ==> items@[j] != from_item),
                found ==> 0 <= start < n && items@[start as int] == from_item && (forall|j: int|
                    0 <= j < start ==> items@[j] != from_item),
            decreases n - k,
        {
            if !found && items[k] == from_item {
                start = k;
                found = true;
            }
            k = k + 1;
        }
        proof {
            if found {
                lemma_first_index_found(items@, from_item, start as int);
            } else {
                lemma_first_index_absent(items@, from_item);
            }
        }
        IterFrom { items, start, emitted: 0 }
    }

    /// The next element of the wrapped walk, or `None` once every element
    /// has been yielded.
    pub fn next(&mut self) -> (r: Option<i64>)
        requires
            old(self).wf(),
        ensures
            final(self).wf(),
            final(self).items@ == old(self).items@,
            final(self).start == old(self).start,
            old(self).yielded() < old(self).rotated().len() ==> (r matches Some(v) && v == old(
                self,
            ).rotated()[old(self).yielded()]) && final(self).yielded() == old(self).yielded() + 1,
            old(self).yielded() >= old(self).rotated().len() ==> r is None && final(self).yielded()
                == old(self).yielded(),
    {
        let n = self.items.len();
        if self.emitted >= n {
            return None;
        }
        let wrap = n - self.start;
        let idx = if self.emitted < wrap {
            self.start + self.emitted
        } else {
            self.emitted - wrap
        };
        let v = self.items[idx];
        proof {
            assert(self.rotated()[self.emitted as int] == v);
        }
        self.emitted = self.emitted + 1;
        Some(v)
    }
}

/// Collections that offer a walk starting from a chosen element.
pub trait IteratorFrom: Sized {
    /// The contents, in their given order.
    spec fn seq_view(self) -> Seq<i64>;

    /// A walk from the first occurrence of `from_item`, wrapping around to
    /// cover the skipped prefix.
    fn from(self, from_item: i64) -> (r: IterFrom)
        ensures
            r.wf(),
            r.items@ == self.seq_view(),
            r.yielded() == 0,
            r.start as int == if first_index_of(self.seq_view(), from_item)
                < self.seq_view().len() {
                first_index_of(self.seq_view(), from_item)
            } else {
                0
            },
    ;
}

impl IteratorFrom for Vec<i64> {
    open spec fn seq_view(self) -> Seq<i64> {
        self@
    }

    fn from(self, from_item: i64) -> (r: IterFrom) {
        IterFrom::new(self, from_item)
    }
}

} // verus!
