//! Typed identities and lifetime-scoped handles.
//!
//! `Id<T>` gives every table row a typed, comparable name built from a
//! raw index.  `Ref` and `RefMut` bind a value to the lifetime of,
//! respectively, a shared or an exclusive borrow of the database owner,
//! so that no handle outlives the access that produced it.

use std::marker::PhantomData;
use vstd::prelude::*;

verus! {

/// A typed name for a table row: a raw index tagged with the entity
/// type it names.  Two identities are equal exactly when their raw
/// indices are equal and they name the same entity type.  Its view is
/// the raw index.
#[verifier::reject_recursive_types(T)]
#[derive(Debug, PartialEq, Eq, Hash)]
pub struct Id<T> {
    index: usize,
    _marker: PhantomData<T>,
}

impl<T> Clone for Id<T> {
    fn clone(&self) -> (r: Self)
        ensures
            r == *self,
    {
        Id { index: self.index, _marker: PhantomData }
    }
}

impl<T> Copy for Id<T> {

}

impl<T> View for Id<T> {
    type V = usize;

    closed spec fn view(&self) -> usize {
        self.index
    }
}

impl<T> Id<T> {
    /// Wrap a raw index.  No validation happens here: an identity is
    /// checked against the live table when it is used.
    pub fn new(index: usize) -> (r: Self)
        ensures
            r@ == index,
    {
        Id { index, _marker: PhantomData }
    }

    /// The raw index this identity names.
    pub(crate) fn index(&self) -> (r: usize)
        ensures
            r == self@,
    {
        self.index
    }

    /// The identity rendered as lowercase hexadecimal.
    pub fn hex_string(&self) -> (r: String)
        ensures
            r@ == hex_of(self@ as nat),
    {
        usize_hex(self.index)
    }
}

/// Law: two identities of the same entity type are equal exactly when
/// their raw indices are equal.
pub proof fn lemma_id_determined_by_index<T>(a: Id<T>, b: Id<T>)
    ensures
        (a == b) <==> a@ == b@,
{
}

/// The lowercase hexadecimal digit for a value below sixteen.
pub open spec fn hex_digit(d: int) -> char {
    if d == 0 {
        '0'
    } else if d == 1 {
        '1'
    } else if d == 2 {
        '2'
    } else if d == 3 {
        '3'
    } else if d == 4 {
        '4'
    } else if d == 5 {
        '5'
    } else if d == 6 {
        '6'
    } else if d == 7 {
        '7'
    } else if d == 8 {
        '8'
    } else if d == 9 {
        '9'
    } else if d == 10 {
        'a'
    } else if d == 11 {
        'b'
    } else if d == 12 {
        'c'
    } else if d == 13 {
        'd'
    } else if d == 14 {
        'e'
    } else {
        'f'
    }
}

/// The lowercase hexadecimal rendering of `n`, without leading zeros
/// (a single `'0'` for zero).
pub open spec fn hex_of(n: nat) -> Seq<char>
    decreases n,
{
    if n < 16 {
        seq![hex_digit(n as int)]
    } else {
        hex_of(n / 16).push(hex_digit((n % 16) as int))
    }
}

fn hex_str(d: usize) -> (r: &'static str)
    requires
        d < 16,
    ensures
        r@ =~= seq![hex_digit(d as int)],
{
    proof {
        reveal_strlit("0");
        reveal_strlit("1");
        reveal_strlit("2");
        reveal_strlit("3");
        reveal_strlit("4");
        reveal_strlit("5");
        reveal_strlit("6");
        reveal_strlit("7");
        reveal_strlit("8");
        reveal_strlit("9");
        reveal_strlit("a");
        reveal_strlit("b");
        reveal_strlit("c");
        reveal_strlit("d");
        reveal_strlit("e");
        reveal_strlit("f");
    }
    match d {
        0 => "0",
        1 => "1",
        2 => "2",
        3 => "3",
        4 => "4",
        5 => "5",
        6 => "6",
        7 => "7",
        8 => "8",
        9 => "9",
        10 => "a",
        11 => "b",
        12 => "c",
        13 => "d",
        14 => "e",
        _ => "f",
    }
}

fn usize_hex(n: usize) -> (r: String)
    ensures
        r@ == hex_of(n as nat),
    decreases n,
{
    if n < 16 {
        String::from_str(hex_str(n))
    } else {
        let mut r = usize_hex(n / 16);
        r.append(hex_str(n % 16));
        proof {
            assert(r@ =~= hex_of(n as nat));
        }
        r
    }
}

/// An entity that knows its own identity.
pub trait HasId: Sized {
    /// The raw index of this entity's identity.
    spec fn id_index(&self) -> usize;

    /// The identity of this entity.
    fn id(&self) -> (r: Id<Self>)
        ensures
            r@ == self.id_index(),
    ;
}

/// A handle bound to the lifetime of a shared borrow of the database
/// owner.  Any number of such handles may coexist; none may outlive
/// the borrow that produced it.
pub struct Ref<'a, T> {
    inner: T,
    _marker: PhantomData<&'a ()>,
}

impl<'a, T> Ref<'a, T> {
    /// The wrapped value.
    pub closed spec fn inner_spec(self) -> T {
        self.inner
    }

    pub(crate) fn new(inner: T) -> (r: Self)
        ensures
            r.inner_spec() == inner,
    {
        Ref { inner, _marker: PhantomData }
    }

    /// The identity of the wrapped entity.
    pub fn id(&self) -> (r: Id<T>) where T: HasId
        ensures
            r@ == self.inner_spec().id_index(),
    {
        self.inner.id()
    }

    /// Borrow the wrapped value.
    pub fn get(&self) -> (r: &T)
        ensures
            *r == self.inner_spec(),
    {
        &self.inner
    }
}

/// A handle bound to the lifetime of an exclusive borrow of the
/// database owner.  At most one such handle may exist at a time, and
/// no shared handle from the same owner may coexist with it.
pub struct RefMut<'a, T> {
    inner: T,
    _marker: PhantomData<&'a ()>,
}

impl<'a, T> RefMut<'a, T> {
    /// The wrapped value.
    pub closed spec fn inner_spec(self) -> T {
        self.inner
    }

    pub(crate) fn new(inner: T) -> (r: Self)
        ensures
            r.inner_spec() == inner,
    {
        RefMut { inner, _marker: PhantomData }
    }

    /// The identity of the wrapped entity.
    pub fn id(&self) -> (r: Id<T>) where T: HasId
        ensures
            r@ == self.inner_spec().id_index(),
    {
        self.inner.id()
    }

    /// Borrow the wrapped value.
    pub fn get(&self) -> (r: &T)
        ensures
            *r == self.inner_spec(),
    {
        &self.inner
    }

    /// Borrow the wrapped value for mutation.
    pub fn get_mut(&mut self) -> (r: &mut T)
        ensures
            *r == old(self).inner_spec(),
            final(self).inner_spec() == *final(r),
    {
        &mut self.inner
    }
}

} // verus!
