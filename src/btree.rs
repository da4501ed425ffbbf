//! The buffer, its implicit-tree navigation and its binary search.
use vstd::prelude::*;
use crate::order::{comparable, precedes_or_eq, sorted, sorted_between, lemma_comparable_operators, lemma_irreflexive, lemma_transitive};

verus! {

/// Largest capacity hint that a buffer accepts.
pub const MAX_SIZE: usize = 500000;

/// Number of children of a slot in the implicit tree.
pub const ARITY: usize = 2;

/// One slot of the buffer.
#[derive(Debug, Clone, Copy)]
pub struct Node<T> {
    pub data: T,
}

impl<T: 'static + Sized + PartialOrd + PartialEq + Sync + Send> Node<T> {
    /// A slot holding `data`.
    pub fn new(data: T) -> (r: Self)
        ensures
            r.data == data,
    {
        Node { data }
    }
}

impl<T: 'static + Sized + PartialOrd + PartialEq + Sync + Send> From<T> for Node<T> {
    fn from(data: T) -> (r: Self) {
        Node { data }
    }
}

impl<T: 'static + Sized + PartialOrd + PartialEq + Sync + Send> vstd::std_specs::convert::FromSpecImpl<T> for Node<T> {
    open spec fn obeys_from_spec() -> bool {
        true
    }

    open spec fn from_spec(v: T) -> Self {
        Node { data: v }
    }
}

/// Building a collection from a sequence of values with a given capacity hint.
pub trait FromIteratorSized<T>: Sized {
    /// The collection holding `items` in order, made with room for `size` values.
    fn from_iter_sized(items: Vec<T>, size: usize) -> (r: Self)
        requires
            size <= MAX_SIZE,
    ;
}

/// A growable buffer of slots kept in insertion order. Binary search asks the
/// caller to have inserted the values in non-decreasing order; the buffer
/// itself does not check it.
#[derive(Debug, Clone)]
pub struct VecBtree<T> {
    pub buf: Vec<Node<T>>,
}

impl<T> View for VecBtree<T> {
    type V = Seq<T>;

    /// The values held, slot by slot.
    open spec fn view(&self) -> Seq<T> {
        values(self.buf@)
    }
}

/// The values held by a sequence of slots, in order.
pub open spec fn values<T>(nodes: Seq<Node<T>>) -> Seq<T> {
    nodes.map_values(|n: Node<T>| n.data)
}

/// What a search of `s` for `x` answers: `x` itself when `s` holds it, and
/// `None` when it does not.
pub open spec fn search_outcome<T>(s: Seq<T>, x: T, r: Option<T>) -> bool {
    match r {
        Some(v) => v == x && s.contains(x),
        None => !s.contains(x),
    }
}

/// Searching an unchanged buffer twice for the same value gives equal answers.
pub proof fn lemma_search_repeatable<T>(s: Seq<T>, x: T, first: Option<T>, second: Option<T>)
    requires
        search_outcome(s, x, first),
        search_outcome(s, x, second),
    ensures
        first == second,
{
}

/// Index of a slot in `buf[start..=end]` that holds `data`, found by halving
/// the window around its floor midpoint; `None` when no slot there holds it.
fn find_index<T: PartialOrd>(buf: &[Node<T>], data: &T, start: isize, end: isize) -> (r: Option<usize>)
    requires
        comparable::<T>(),
        buf@.len() <= isize::MAX,
        0 <= start,
        end < buf@.len(),
        sorted_between(values(buf@), start as int, end as int),
    ensures
        match r {
            Some(i) => start <= i <= end && buf@[i as int].data == *data,
            None => forall|i: int| start <= i <= end ==> buf@[i].data != *data,
        },
{
    let ghost s = values(buf@);
    let mut lo: isize = start;
    let mut hi: isize = end;
    while lo <= hi
        invariant
            start <= lo,
            hi <= end,
            0 <= start,
            end < buf@.len(),
            buf@.len() <= isize::MAX,
            s == values(buf@),
            comparable::<T>(),
            sorted_between(s, start as int, end as int),
            forall|i: int| start <= i < lo ==> buf@[i].data != *data,
            forall|i: int| hi < i <= end ==> buf@[i].data != *data,
        decreases hi + 1 - lo,
    {
        proof {
            lemma_comparable_operators::<T>();
        }
        let mid: isize = lo + (hi - lo) / 2;
        let idx: usize = mid as usize;
        if buf[idx].data == *data {
            return Some(idx);
        } else if buf[idx].data < *data {
            proof {
                assert forall|i: int| lo <= i <= mid implies buf@[i].data != *data by {
                    if i < mid && buf@[i].data == *data {
                        assert(precedes_or_eq(s[i], s[mid as int]));
                        assert(s[i] != s[mid as int]);
                        lemma_transitive(*data, s[mid as int], *data);
                        lemma_irreflexive(*data);
                    }
                }
            }
            lo = mid + 1;
        } else {
            proof {
                assert forall|i: int| mid <= i <= hi implies buf@[i].data != *data by {
                    if mid < i && buf@[i].data == *data {
                        assert(precedes_or_eq(s[mid as int], s[i]));
                    }
                }
            }
            hi = mid - 1;
        }
    }
    None
}

} // verus!

verus! {

impl<T: 'static + Sized + PartialOrd + PartialEq + Sync + Send> VecBtree<T> {
    /// An empty buffer; with `Some(n)`, room for `n` values is reserved.
    /// A hint above `MAX_SIZE` is not accepted: larger buffers are not paged.
    pub fn new(size: Option<usize>) -> (r: Self)
        requires
            size matches Some(n) ==> n <= MAX_SIZE,
        ensures
            r@ == Seq::<T>::empty(),
    {
        match size {
            None => VecBtree { buf: Vec::new() },
            Some(length) => VecBtree { buf: Vec::with_capacity(length) },
        }
    }

    /// The slot at index 0 of a non-empty buffer.
    pub fn root(&mut self) -> (r: &mut Node<T>)
        requires
            old(self)@.len() > 0,
        ensures
            *r == old(self).buf@[0],
            final(self).buf@ == old(self).buf@.update(0, *final(r)),
    {
        &mut self.buf[0]
    }

    /// Index of the left child of slot `idx`; not checked against the length.
    pub fn left(&mut self, idx: usize) -> (r: usize)
        requires
            ARITY * idx + 1 <= usize::MAX,
        ensures
            r == ARITY * idx + 1,
            *final(self) == *old(self),
    {
        ARITY * idx + 1
    }

    /// Index of the right child of slot `idx`; not checked against the length.
    pub fn right(&mut self, idx: usize) -> (r: usize)
        requires
            ARITY * idx + 2 <= usize::MAX,
        ensures
            r == ARITY * idx + 2,
            *final(self) == *old(self),
    {
        ARITY * idx + 2
    }

    /// Index of the parent of slot `idx`, for `idx > 0`; not checked against
    /// the length.
    pub fn parent(&mut self, idx: usize) -> (r: usize)
        requires
            idx > 0,
        ensures
            r == (idx - 1) / 2,
            *final(self) == *old(self),
    {
        (idx - 1) / 2
    }

    /// Looks for `data` in the whole sorted buffer by binary search. Returns a
    /// slot that holds it, or `None` when no slot does. Among equal values
    /// which one is returned is left open.
    pub fn search(&mut self, data: &T) -> (r: Option<&mut T>)
        requires
            comparable::<T>(),
            sorted(old(self)@),
            old(self)@.len() <= isize::MAX,
        ensures
            search_outcome(old(self)@, *data, match r {
                Some(m) => Some(*m),
                None => None,
            }),
            match r {
                Some(m) => exists|i: int|
                    0 <= i < old(self)@.len() && old(self)@[i] == *data
                        && final(self).buf@ == old(self).buf@.update(i, Node { data: *final(m) }),
                None => *final(self) == *old(self),
            },
    {
        let mut start: isize = 0;
        let mut end: isize = self.buf.len() as isize - 1;
        self.binary_search(data, &mut start, &mut end)
    }

    /// Binary search of the window `start_idx..=end_idx` of the buffer, which
    /// must be sorted. The window bounds are read, never written.
    fn binary_search(&mut self, data: &T, start_idx: &mut isize, end_idx: &mut isize) -> (r: Option<&mut T>)
        requires
            comparable::<T>(),
            old(self)@.len() <= isize::MAX,
            0 <= *old(start_idx),
            *old(end_idx) < old(self)@.len(),
            sorted_between(old(self)@, *old(start_idx) as int, *old(end_idx) as int),
        ensures
            *final(start_idx) == *old(start_idx),
            *final(end_idx) == *old(end_idx),
            match r {
                Some(m) => {
                    &&& *m == *data
                    &&& exists|i: int|
                        *old(start_idx) <= i <= *old(end_idx) && old(self)@[i] == *data
                            && final(self).buf@ == old(self).buf@.update(i, Node { data: *final(m) })
                },
                None => {
                    &&& forall|i: int| *old(start_idx) <= i <= *old(end_idx) ==> old(self)@[i] != *data
                    &&& *final(self) == *old(self)
                },
            },
    {
        match find_index(self.buf.as_slice(), data, *start_idx, *end_idx) {
            Some(i) => {
                proof {
                    assert(self@[i as int] == *data);
                }
                Some(&mut self.buf[i].data)
            },
            None => None,
        }
    }

    /// Appends `data` as the last slot and hands the buffer back for chaining.
    pub fn push(&mut self, data: T) -> (r: &mut Self)
        ensures
            r@ == old(self)@.push(data),
            *final(self) == *final(r),
    {
        let len: usize = self.buf.len();
        self.buf.insert(len, Node::from(data));
        proof {
            assert(self@ =~= old(self)@.push(data));
        }
        self
    }
}

} // verus!

verus! {

impl<T: 'static + Sized + PartialOrd + PartialEq + Sync + Send> FromIteratorSized<T> for VecBtree<T> {
    fn from_iter_sized(items: Vec<T>, size: usize) -> (r: Self)
        ensures
            r@ == items@,
    {
        let mut btree = VecBtree::<T>::new(Some(size));
        let ghost orig = items@;
        for v in it: items
            invariant
                it.seq() == orig,
                btree@ == orig.take(it.index() as int),
        {
            btree.push(v);
            proof {
                assert(btree@ =~= orig.take(it.index() as int + 1));
            }
        }
        proof {
            assert(btree@ =~= orig);
        }
        btree
    }
}

impl<T: 'static + Sized + PartialOrd + PartialEq + Sync + Send> VecBtree<T> {
    /// The buffer holding `items` in order, made with room for `MAX_SIZE` values.
    pub fn from_iter(items: Vec<T>) -> (r: Self)
        ensures
            r@ == items@,
    {
        VecBtree::<T>::from_iter_sized(items, MAX_SIZE)
    }
}

/// Binary search of the window `start_idx..=end_idx` of a sorted run of
/// slots. Returns the value of a slot there that equals `data`, or `None`
/// when no slot in the window does.
pub fn binary_search<'a, T: PartialEq + PartialOrd>(
    buf: &'a [Node<T>],
    data: &'a T,
    start_idx: &'a isize,
    end_idx: &'a isize,
) -> (r: Option<&'a T>)
    requires
        comparable::<T>(),
        buf@.len() <= isize::MAX,
        0 <= *start_idx,
        *end_idx < buf@.len(),
        sorted_between(values(buf@), *start_idx as int, *end_idx as int),
    ensures
        match r {
            Some(v) => *v == *data && exists|i: int| *start_idx <= i <= *end_idx && buf@[i].data == *data,
            None => forall|i: int| *start_idx <= i <= *end_idx ==> buf@[i].data != *data,
        },
{
    match find_index(buf, data, *start_idx, *end_idx) {
        Some(i) => Some(&buf[i].data),
        None => None,
    }
}

} // verus!
