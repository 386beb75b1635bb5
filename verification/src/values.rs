//! Host-side models of the artifact's string and list values.
//!
//! The artifact's own runtime types carry reference counts and capacity
//! beside their payload; the harness only ever inspects the payload, so
//! these models hold exactly that: the content bytes of a string, the
//! elements of a list.
use vstd::prelude::*;

verus! {

/// An owned copy of a decoded string's content bytes.
#[derive(Debug)]
pub struct RocStr {
    bytes: Vec<u8>,
}

impl View for RocStr {
    type V = Seq<u8>;

    closed spec fn view(&self) -> Seq<u8> {
        self.bytes@
    }
}

impl RocStr {
    /// The empty string.
    pub fn empty() -> (s: RocStr)
        ensures
            s@ == Seq::<u8>::empty(),
    {
        let s = RocStr { bytes: Vec::new() };
        proof {
            assert(s@ =~= Seq::<u8>::empty());
        }
        s
    }

    /// A string with exactly these content bytes.
    pub fn from_bytes(bytes: Vec<u8>) -> (s: RocStr)
        ensures
            s@ == bytes@,
    {
        RocStr { bytes }
    }

    /// Content length in bytes.
    pub fn len(&self) -> (n: usize)
        ensures
            n == self@.len(),
    {
        self.bytes.len()
    }

    /// Whether the string is empty.
    pub fn is_empty(&self) -> (b: bool)
        ensures
            b == (self@.len() == 0),
    {
        self.bytes.len() == 0
    }

    /// Borrow the content bytes.
    pub fn as_bytes(&self) -> (v: &Vec<u8>)
        ensures
            v@ == self@,
    {
        &self.bytes
    }

    /// Give up the content bytes.
    pub fn into_bytes(self) -> (v: Vec<u8>)
        ensures
            v@ == self@,
    {
        self.bytes
    }
}

/// An owned copy of a decoded list's elements.
#[derive(Debug)]
pub struct RocList<T> {
    items: Vec<T>,
}

impl<T: View> View for RocList<T> {
    type V = Seq<T::V>;

    closed spec fn view(&self) -> Seq<T::V> {
        Seq::new(self.items@.len(), |i: int| self.items@[i]@)
    }
}

impl<T: View> RocList<T> {
    /// A list with exactly these elements.
    pub fn from_vec(items: Vec<T>) -> (l: RocList<T>)
        ensures
            l@.len() == items@.len(),
            forall|i: int| 0 <= i < items@.len() ==> l@[i] == items@[i]@,
    {
        RocList { items }
    }

    /// Number of elements.
    pub fn len(&self) -> (n: usize)
        ensures
            n == self@.len(),
    {
        self.items.len()
    }

    /// Whether the list is empty.
    pub fn is_empty(&self) -> (b: bool)
        ensures
            b == (self@.len() == 0),
    {
        self.items.len() == 0
    }

    /// Borrow the element at `i`.
    pub fn get(&self, i: usize) -> (r: &T)
        requires
            i < self@.len(),
        ensures
            r@ == self@[i as int],
    {
        &self.items[i]
    }

    /// Give up the elements.
    pub fn into_vec(self) -> (v: Vec<T>)
        ensures
            v@.len() == self@.len(),
            forall|i: int| 0 <= i < v@.len() ==> v@[i]@ == self@[i],
    {
        self.items
    }
}

} // verus!
