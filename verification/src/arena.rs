//! Typed handles and the arenas that they point into.
use core::marker::PhantomData;
use vstd::prelude::*;

verus! {

/// A typed position in an [`Arena`].
#[derive(Debug)]
pub struct Handle<T> {
    pub index: usize,
    pub marker: PhantomData<T>,
}

/// The handle of the element at `index`.
pub open spec fn handle_at<T>(index: int) -> Handle<T> {
    Handle { index: index as usize, marker: PhantomData }
}

impl<T> Clone for Handle<T> {
    fn clone(&self) -> (copy: Self)
        ensures
            copy == *self,
    {
        Handle { index: self.index, marker: PhantomData }
    }
}

impl<T> Copy for Handle<T> {

}

impl<T> Handle<T> {
    /// The handle of the element at `index`.
    pub fn new(index: usize) -> (handle: Self)
        ensures
            handle.index == index,
            handle == handle_at::<T>(index as int),
    {
        Handle { index, marker: PhantomData }
    }
}

/// A growable store of `T`s, addressed by handles.
#[derive(Debug)]
pub struct Arena<T> {
    pub data: Vec<T>,
}

impl<T> View for Arena<T> {
    type V = Seq<T>;

    open spec fn view(&self) -> Seq<T> {
        self.data@
    }
}

impl<T> Arena<T> {
    /// An arena without elements.
    pub fn new() -> (arena: Self)
        ensures
            arena@ == Seq::<T>::empty(),
    {
        Arena { data: Vec::new() }
    }

    /// The number of elements.
    pub fn len(&self) -> (len: usize)
        ensures
            len == self@.len(),
    {
        self.data.len()
    }

    /// Adds `value` at the end and returns its handle.
    pub fn append(&mut self, value: T) -> (handle: Handle<T>)
        ensures
            final(self)@ == old(self)@.push(value),
            handle.index == old(self)@.len(),
    {
        let index: usize = self.data.len();
        self.data.push(value);
        Handle::new(index)
    }

    /// Whether `handle` points at an element.
    pub open spec fn has(self, handle: Handle<T>) -> bool {
        handle.index < self@.len()
    }

    /// The element at `handle`.
    pub open spec fn at(self, handle: Handle<T>) -> T {
        self@[handle.index as int]
    }

    /// The element at `handle`, if it points at one.
    pub fn try_get(&self, handle: Handle<T>) -> (element: Option<&T>)
        ensures
            match element {
                Some(value) => self.has(handle) && *value == self.at(handle),
                None => !self.has(handle),
            },
    {
        if handle.index < self.data.len() {
            Some(&self.data[handle.index])
        } else {
            None
        }
    }
}

} // verus!
