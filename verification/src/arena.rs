//! Append-only arenas addressed by typed index handles.
//!
//! Every node of the syntax tree lives in one of four arenas, and nodes refer
//! to each other only through handles: opaque wrappers around an index whose
//! type records which arena they index, so that a handle for one arena can
//! never be used on another.

use core::marker::PhantomData;
use vstd::prelude::*;

verus! {

/// A typed handle: an opaque wrapper around a non-negative index into one
/// specific arena.
pub trait Id: Copy + Sized {
    /// The index this handle stands for.
    spec fn idx(&self) -> int;

    /// Wraps a raw index in a handle.
    fn new(id: usize) -> (r: Self)
        ensures
            r.idx() == id,
    ;

    /// The raw index the handle wraps.
    fn to_usize(&self) -> (r: usize)
        ensures
            r == self.idx(),
    ;
}

/// Handle for the item arena.
#[derive(Debug, Clone, Copy, PartialEq, Eq, Hash, Structural)]
pub struct ItemId(pub usize);

impl Id for ItemId {
    open spec fn idx(&self) -> int {
        self.0 as int
    }

    fn new(id: usize) -> (r: Self) {
        ItemId(id)
    }

    fn to_usize(&self) -> (r: usize) {
        self.0
    }
}

/// Handle for the statement arena.
#[derive(Debug, Clone, Copy, PartialEq, Eq, Hash, Structural)]
pub struct StmtId(pub usize);

impl Id for StmtId {
    open spec fn idx(&self) -> int {
        self.0 as int
    }

    fn new(id: usize) -> (r: Self) {
        StmtId(id)
    }

    fn to_usize(&self) -> (r: usize) {
        self.0
    }
}

/// Handle for the expression arena.
#[derive(Debug, Clone, Copy, PartialEq, Eq, Hash, Structural)]
pub struct ExprId(pub usize);

impl Id for ExprId {
    open spec fn idx(&self) -> int {
        self.0 as int
    }

    fn new(id: usize) -> (r: Self) {
        ExprId(id)
    }

    fn to_usize(&self) -> (r: usize) {
        self.0
    }
}

/// Handle for the function arena.
#[derive(Debug, Clone, Copy, PartialEq, Eq, Hash, Structural)]
pub struct FunctionId(pub usize);

impl Id for FunctionId {
    open spec fn idx(&self) -> int {
        self.0 as int
    }

    fn new(id: usize) -> (r: Self) {
        FunctionId(id)
    }

    fn to_usize(&self) -> (r: usize) {
        self.0
    }
}

/// An append-only arena: a growable sequence of nodes addressed by a typed
/// handle. A handle returned by `push` stays valid for the life of the
/// arena, because nodes are never removed.
pub struct IdVec<IdType, T> {
    data: Vec<T>,
    _marker: PhantomData<IdType>,
}

impl<IdType, T> View for IdVec<IdType, T> {
    type V = Seq<T>;

    closed spec fn view(&self) -> Seq<T> {
        self.data@
    }
}

impl<IdType: Id, T> IdVec<IdType, T> {
    /// An empty arena.
    pub fn new() -> (r: Self)
        ensures
            r@ == Seq::<T>::empty(),
    {
        IdVec { data: Vec::new(), _marker: PhantomData }
    }

    /// Resolves a handle to the node it addresses.
    pub fn get(&self, id: IdType) -> (r: &T)
        requires
            0 <= id.idx() < self@.len(),
        ensures
            *r == self@[id.idx()],
    {
        let i = id.to_usize();
        &self.data[i]
    }

    /// Resolves a handle to a mutable reference to the node it addresses.
    pub fn get_mut(&mut self, id: IdType) -> (r: &mut T)
        requires
            0 <= id.idx() < old(self)@.len(),
        ensures
            *r == old(self)@[id.idx()],
            final(self)@ == old(self)@.update(id.idx(), *final(r)),
    {
        let i = id.to_usize();
        &mut self.data[i]
    }

    /// Appends a node and returns the handle for it: the index at which the
    /// node was stored.
    pub fn push(&mut self, item: T) -> (r: IdType)
        ensures
            r.idx() == old(self)@.len(),
            final(self)@ == old(self)@.push(item),
    {
        let index_item_stored: usize = self.data.len();
        self.data.push(item);
        IdType::new(index_item_stored)
    }

    /// The number of nodes stored so far.
    pub fn len(&self) -> (r: usize)
        ensures
            r == self@.len(),
    {
        self.data.len()
    }

    /// The stored nodes, in insertion order.
    pub fn iter(&self) -> (r: &Vec<T>)
        ensures
            r@ == self@,
    {
        &self.data
    }

    /// Whether the arena holds no nodes yet.
    pub fn is_vec_empty(&self) -> (r: bool)
        ensures
            r == (self@.len() == 0),
    {
        self.data.len() == 0
    }
}

} // verus!
