//! Typed indices backed by `u32`, and a `Vec` indexed by them.
//!
//! A typed index prevents accidental cross-use of indices of different
//! kinds (locals, definitions, basic blocks).

use vstd::prelude::*;

use crate::text::{decimal, decimal_u64, push_chars, push_str, string_of};
use std::marker::PhantomData;

verus! {

/// Newtype indices over `u32`.
pub trait Idx: Copy + Sized {
    /// The position this index stands for.
    spec fn position(self) -> nat;

    /// Build from a `usize`.
    fn new(idx: usize) -> (r: Self)
        requires
            idx <= u32::MAX,
        ensures
            r.position() == idx,
    ;

    /// Extract as `usize`.
    fn index(self) -> (r: usize)
        ensures
            r == self.position(),
    ;
}

/// Index of a basic block of a function body.
#[derive(Copy, Clone, Debug, PartialEq, Eq, Hash, PartialOrd, Ord, Structural)]
pub struct BasicBlockId(pub u32);

impl Idx for BasicBlockId {
    open spec fn position(self) -> nat {
        self.0 as nat
    }

    fn new(idx: usize) -> (r: Self) {
        BasicBlockId(idx as u32)
    }

    fn index(self) -> (r: usize) {
        self.0 as usize
    }
}

/// Label of a basic block in emitted IR: `entry` for the first block,
/// `bb<n>` for the others.
pub open spec fn block_label(bb: BasicBlockId) -> Seq<char> {
    if bb.0 == 0 {
        "entry"@
    } else {
        "bb"@ + decimal(bb.0 as nat)
    }
}

/// Label of a basic block in emitted IR.
pub fn block_name(bb: BasicBlockId) -> (s: String)
    ensures
        s@ == block_label(bb),
{
    let mut v: Vec<char> = Vec::new();
    if bb.0 == 0 {
        push_str(&mut v, "entry");
    } else {
        push_str(&mut v, "bb");
        push_chars(&mut v, decimal_u64(bb.0 as u64).as_slice());
    }
    string_of(v.as_slice())
}

/// `Vec` indexed by a typed [`Idx`].
#[derive(Debug)]
pub struct IndexVec<I: Idx, T> {
    raw: Vec<T>,
    _marker: PhantomData<I>,
}

impl<I: Idx, T> View for IndexVec<I, T> {
    type V = Seq<T>;

    closed spec fn view(&self) -> Seq<T> {
        self.raw@
    }
}

impl<I: Idx, T> Default for IndexVec<I, T> {
    fn default() -> (v: Self)
        ensures
            v@ == Seq::<T>::empty(),
    {
        IndexVec { raw: Vec::new(), _marker: PhantomData }
    }
}

impl<I: Idx, T> IndexVec<I, T> {
    /// Empty vec.
    pub fn new() -> (v: Self)
        ensures
            v@ == Seq::<T>::empty(),
    {
        IndexVec { raw: Vec::new(), _marker: PhantomData }
    }

    /// Vec preallocated for `cap` elements.
    pub fn with_capacity(cap: usize) -> (v: Self)
        ensures
            v@ == Seq::<T>::empty(),
    {
        IndexVec { raw: Vec::with_capacity(cap), _marker: PhantomData }
    }

    /// Push and return the new index.
    pub fn push(&mut self, value: T) -> (i: I)
        requires
            old(self)@.len() <= u32::MAX,
        ensures
            final(self)@ == old(self)@.push(value),
            i.position() == old(self)@.len(),
    {
        let idx = I::new(self.raw.len());
        self.raw.push(value);
        idx
    }

    /// Number of elements.
    pub fn len(&self) -> (n: usize)
        ensures
            n == self@.len(),
    {
        self.raw.len()
    }

    /// Whether no elements are stored.
    pub fn is_empty(&self) -> (b: bool)
        ensures
            b == (self@.len() == 0),
    {
        self.raw.len() == 0
    }

    /// Borrow element at `i`.
    pub fn get(&self, i: I) -> (r: Option<&T>)
        ensures
            i.position() < self@.len() ==> r == Some(&self@[i.position() as int]),
            i.position() >= self@.len() ==> r is None,
    {
        let k = i.index();
        if k < self.raw.len() {
            Some(&self.raw[k])
        } else {
            None
        }
    }

    /// Mutable borrow of element at `i`.
    pub fn get_mut(&mut self, i: I) -> (r: Option<&mut T>)
        ensures
            i.position() < old(self)@.len() ==> (r matches Some(x) && *x == old(self)@[i.position() as int]
                && final(self)@ == old(self)@.update(i.position() as int, *final(x))),
            i.position() >= old(self)@.len() ==> r is None && final(self)@ == old(self)@,
    {
        let k = i.index();
        if k < self.raw.len() {
            Some(&mut self.raw[k])
        } else {
            None
        }
    }

    /// The `(index, element)` pairs, in order.
    pub fn iter_enumerated(&self) -> (r: Vec<(I, &T)>)
        requires
            self@.len() <= u32::MAX + 1,
        ensures
            r@.len() == self@.len(),
            forall|k: int| 0 <= k < r@.len() ==> (#[trigger] r@[k]).0.position() == k && r@[k].1 == &self@[k],
    {
        let mut r: Vec<(I, &T)> = Vec::new();
        for k in 0..self.raw.len()
            invariant
                self.raw@.len() <= u32::MAX + 1,
                r@.len() == k,
                forall|j: int| 0 <= j < k ==> (#[trigger] r@[j]).0.position() == j && r@[j].1 == &self.raw@[j],
        {
            r.push((I::new(k), &self.raw[k]));
        }
        r
    }

    /// The elements, in order.
    pub fn iter(&self) -> (r: &[T])
        ensures
            r@ == self@,
    {
        self.raw.as_slice()
    }

    /// The elements, in order, for mutation.
    pub fn iter_mut(&mut self) -> (r: &mut [T])
        ensures
            r@ == old(self)@,
            final(self)@ == final(r)@,
    {
        self.raw.as_mut_slice()
    }

    /// Backing storage.
    pub fn raw(&self) -> (r: &[T])
        ensures
            r@ == self@,
    {
        self.raw.as_slice()
    }
}

/// Pushing an element and reading back at the index that push returned
/// gives the element; every earlier element stays where it was.
pub proof fn lemma_push_then_get<T>(s: Seq<T>, value: T, k: int)
    ensures
        s.push(value)[s.len() as int] == value,
        s.push(value).len() == s.len() + 1,
        0 <= k < s.len() ==> s.push(value)[k] == s[k],
{
}

} // verus!
