//! The bookmark subsystem: an index-addressed, address-keyed store
//! with shifting-index semantics on deletion.
//!
//! `Bookmark` names one slot of the table and re-queries the live
//! table on every access.  `Bookmarks` is the read view over a shared
//! borrow of the database owner; `BookmarksMut` is the mutable view,
//! which takes the owner over exclusively and adds mark and erase.

use vstd::prelude::*;

use crate::error::IDAError;
use crate::idb::{
    addr_at, desc_at, find_at, lemma_find_at_props, marked, Address, BADADDR,
    BOOKMARKS_BAD_INDEX, IDB,
};
use crate::refs::{HasId, Id, Ref, RefMut};

verus! {

broadcast use vstd::string::axiom_spec_iter;

/// Whether the text holds an embedded terminator, which the table's
/// text representation cannot carry.
fn contains_nul(s: &str) -> (r: bool)
    ensures
        r == s@.contains('\0'),
{
    let mut found = false;
    for c in it: s.chars()
        invariant
            it.seq() == s@,
            found <==> (exists|k: int| 0 <= k < it.index() && it.seq()[k] == '\0'),
    {
        if c == '\0' {
            found = true;
        }
    }
    found
}

/// One bookmark: an index into the live table.  Not a cached copy —
/// every accessor re-queries the table it is shown, so address and
/// description are derived, not stored.
#[derive(Debug, Clone, Copy, PartialEq, Eq)]
pub struct Bookmark {
    index: usize,
}

impl HasId for Bookmark {
    open spec fn id_index(&self) -> usize {
        self.slot_index()
    }

    fn id(&self) -> (r: Id<Self>) {
        Id::new(self.index)
    }
}

impl Bookmark {
    /// The table index this bookmark names.
    pub closed spec fn slot_index(self) -> usize {
        self.index
    }

    pub(crate) fn from_index(index: usize) -> (r: Self)
        ensures
            r.slot_index() == index,
    {
        Bookmark { index }
    }

    /// The bookmark's current address in the given database, or `None`
    /// when its slot is unoccupied or out of range.
    pub fn address(&self, idb: &IDB) -> (r: Option<Address>)
        ensures
            r == addr_at(idb@, self.slot_index() as int),
    {
        idb.addr_of(self.index)
    }

    /// The bookmark's current description, or `None` when it is empty
    /// (an empty description is indistinguishable from an absent one).
    pub fn description(&self, idb: &IDB) -> (r: Option<String>)
        ensures
            match r {
                Some(d) => d@ == desc_at(idb@, self.slot_index() as int) && d@.len() > 0,
                None => desc_at(idb@, self.slot_index() as int).len() == 0,
            },
    {
        let s = idb.desc_of(self.index);
        if s.as_str().is_empty() {
            None
        } else {
            Some(s)
        }
    }

    /// Replace the bookmark's description by re-marking its own
    /// address and index with the new text.  Fails when the slot has
    /// no valid address, or when the text cannot be encoded; the
    /// re-mark itself is proved to succeed.
    pub fn set_description(&self, idb: &mut IDB, desc: &str) -> (r: Result<(), IDAError>)
        ensures
            ({
                let s = old(idb)@;
                let i = self.slot_index() as int;
                match addr_at(s, i) {
                    None => r == Err::<(), IDAError>(
                        IDAError::NoValidAddress { index: self.slot_index() },
                    ) && final(idb)@ == s,
                    Some(a) => if desc@.contains('\0') {
                        r == Err::<(), IDAError>(IDAError::Encoding) && final(idb)@ == s
                    } else {
                        r == Ok::<(), IDAError>(()) && final(idb)@ == marked(s, a, i, desc@)
                    },
                }
            }),
    {
        proof {
            use_type_invariant(&*idb);
        }
        let addr = match idb.addr_of(self.index) {
            Some(a) => a,
            None => {
                return Err(IDAError::NoValidAddress { index: self.index });
            },
        };
        if contains_nul(desc) {
            return Err(IDAError::Encoding);
        }
        idb.mark_slot(addr, self.index, desc);
        Ok(())
    }
}

/// The read view of the bookmark store, scoped to a shared borrow of
/// the database owner.  Its view is the table's sequence of slots,
/// which cannot change while this view exists.
pub struct Bookmarks<'a> {
    idb: &'a IDB,
}

impl<'a> View for Bookmarks<'a> {
    type V = Seq<crate::idb::SlotModel>;

    closed spec fn view(&self) -> Seq<crate::idb::SlotModel> {
        self.idb@
    }
}

impl<'a> Bookmarks<'a> {
    /// A read view over a shared borrow of the owner.
    pub fn new(idb: &'a IDB) -> (r: Self)
        ensures
            r@ == idb@,
    {
        Bookmarks { idb }
    }

    /// Current number of slots in the table.
    pub fn len(&self) -> (n: usize)
        ensures
            n == self@.len(),
    {
        self.idb.count()
    }

    /// Whether the table has no slots.
    pub fn is_empty(&self) -> (r: bool)
        ensures
            r <==> self@.len() == 0,
    {
        self.len() == 0
    }

    /// The bookmark named by `id`, or `None` when the index is not
    /// below the table's length.
    pub fn get_by_id(&self, id: Id<Bookmark>) -> (r: Option<Ref<'a, Bookmark>>)
        ensures
            match r {
                Some(b) => id@ < self@.len() && b.inner_spec().slot_index() == id@,
                None => id@ >= self@.len(),
            },
    {
        let index = id.index();
        if index >= self.idb.count() {
            return None;
        }
        Some(Ref::new(Bookmark::from_index(index)))
    }

    /// The bookmark at address `ea`: the lowest-indexed slot holding
    /// that address, or `None` when no slot does.
    pub fn get_at(&self, ea: Address) -> (r: Option<Ref<'a, Bookmark>>)
        ensures
            match r {
                Some(b) => find_at(self@, ea) == Some(b.inner_spec().slot_index() as int),
                None => find_at(self@, ea) is None,
            },
    {
        match self.idb.find_index(ea) {
            Some(index) => Some(Ref::new(Bookmark::from_index(index))),
            None => None,
        }
    }

    /// Handles for the slots `0 .. len()`, in index order.  The table
    /// cannot shrink while this view's borrow lives, so the sequence
    /// is exact at the time of the call.
    pub fn iter(&self) -> (r: Vec<Ref<'a, Bookmark>>)
        ensures
            r@.len() == self@.len(),
            forall|i: int|
                0 <= i < r@.len() ==> (#[trigger] r@[i]).inner_spec().slot_index() == i,
    {
        let n = self.idb.count();
        let mut v: Vec<Ref<'a, Bookmark>> = Vec::new();
        let mut i: usize = 0;
        while i < n
            invariant
                i <= n,
                v@.len() == i,
                forall|j: int|
                    0 <= j < i ==> (#[trigger] v@[j]).inner_spec().slot_index() == j,
            decreases n - i,
        {
            v.push(Ref::new(Bookmark::from_index(i)));
            i = i + 1;
        }
        v
    }
}

/// The mutable view of the bookmark store.  It takes the database
/// owner over exclusively — no other view can coexist with it — and
/// adds create, update and erase on top of every read operation.
pub struct BookmarksMut {
    idb: IDB,
}

impl View for BookmarksMut {
    type V = Seq<crate::idb::SlotModel>;

    closed spec fn view(&self) -> Seq<crate::idb::SlotModel> {
        self.idb@
    }
}

impl BookmarksMut {
    /// The mutable view, taking exclusive ownership of the database.
    pub fn new(idb: IDB) -> (r: Self)
        ensures
            r@ == idb@,
    {
        BookmarksMut { idb }
    }

    /// Release the database, ending the exclusive access.
    pub fn into_idb(self) -> (r: IDB)
        ensures
            r@ == self@,
    {
        self.idb
    }

    /// Borrow the owned database for reads.
    pub fn idb(&self) -> (r: &IDB)
        ensures
            r@ == self@,
    {
        &self.idb
    }

    /// Project the read view out of the exclusive one; every read
    /// operation remains available through it.
    pub fn bookmarks(&self) -> (r: Bookmarks<'_>)
        ensures
            r@ == self@,
    {
        Bookmarks::new(&self.idb)
    }

    /// Current number of slots in the table.
    pub fn len(&self) -> (n: usize)
        ensures
            n == self@.len(),
    {
        self.idb.count()
    }

    /// Whether the table has no slots.
    pub fn is_empty(&self) -> (r: bool)
        ensures
            r <==> self@.len() == 0,
    {
        self.len() == 0
    }

    /// The bookmark named by `id`, as an exclusive handle.
    pub fn get_by_id_mut(&mut self, id: Id<Bookmark>) -> (r: Option<RefMut<'_, Bookmark>>)
        ensures
            match r {
                Some(b) => id@ < old(self)@.len() && b.inner_spec().slot_index() == id@,
                None => id@ >= old(self)@.len(),
            },
            final(self)@ == old(self)@,
    {
        let index = id.index();
        if index >= self.idb.count() {
            return None;
        }
        Some(RefMut::new(Bookmark::from_index(index)))
    }

    /// The bookmark at address `ea`, as an exclusive handle.
    pub fn get_at_mut(&mut self, ea: Address) -> (r: Option<RefMut<'_, Bookmark>>)
        ensures
            match r {
                Some(b) => find_at(old(self)@, ea) == Some(b.inner_spec().slot_index() as int),
                None => find_at(old(self)@, ea) is None,
            },
            final(self)@ == old(self)@,
    {
        match self.idb.find_index(ea) {
            Some(index) => Some(RefMut::new(Bookmark::from_index(index))),
            None => None,
        }
    }

    /// Mark address `ea` with `desc` at the next free slot, and return
    /// that slot's identity.
    pub fn mark(&mut self, ea: Address, desc: &str) -> (r: Result<Id<Bookmark>, IDAError>)
        ensures
            ({
                let s = old(self)@;
                if desc@.contains('\0') {
                    r == Err::<Id<Bookmark>, IDAError>(IDAError::Encoding) && final(self)@ == s
                } else if ea == BADADDR || s.len() >= BOOKMARKS_BAD_INDEX {
                    r == Err::<Id<Bookmark>, IDAError>(
                        IDAError::MarkFailed { address: ea, index: s.len() as usize },
                    ) && final(self)@ == s
                } else {
                    (r matches Ok(rid) && rid@ == s.len()) && final(self)@ == marked(
                        s,
                        ea,
                        s.len() as int,
                        desc@,
                    )
                }
            }),
    {
        let n = self.idb.count();
        self.mark_with(ea, Id::new(n), desc)
    }

    /// Mark address `ea` with `desc` at the requested slot index.
    ///
    /// The table's documented semantics, all captured by `marked`:
    /// marking an address that already has a bookmark creates an
    /// overlaid second bookmark; marking an index occupied by a
    /// different address is a silent no-op; marking an index beyond
    /// `len()` grows the table to `index + 1`, leaving the slots in
    /// between unoccupied.  Fails on an unencodable description —
    /// before the table is touched — and on a sentinel address or
    /// index.
    pub fn mark_with(&mut self, ea: Address, id: Id<Bookmark>, desc: &str) -> (r: Result<
        Id<Bookmark>,
        IDAError,
    >)
        ensures
            ({
                let s = old(self)@;
                if desc@.contains('\0') {
                    r == Err::<Id<Bookmark>, IDAError>(IDAError::Encoding) && final(self)@ == s
                } else if ea == BADADDR || id@ >= BOOKMARKS_BAD_INDEX {
                    r == Err::<Id<Bookmark>, IDAError>(
                        IDAError::MarkFailed { address: ea, index: id@ },
                    ) && final(self)@ == s
                } else {
                    (r matches Ok(rid) && rid@ == id@) && final(self)@ == marked(
                        s,
                        ea,
                        id@ as int,
                        desc@,
                    )
                }
            }),
    {
        let index = id.index();
        if contains_nul(desc) {
            return Err(IDAError::Encoding);
        }
        if ea == BADADDR || index >= BOOKMARKS_BAD_INDEX {
            return Err(IDAError::MarkFailed { address: ea, index });
        }
        self.idb.mark_slot(ea, index, desc);
        Ok(Id::new(index))
    }

    /// Erase the bookmark named by `id`.  An index not below `len()`
    /// is rejected before the table is touched — the table would fault
    /// on it — and leaves the table unchanged.  On success every slot
    /// above the erased one moves down by one, so identities above the
    /// erased index held by the caller are stale afterwards.
    pub fn erase_by_id(&mut self, id: Id<Bookmark>) -> (r: Result<(), IDAError>)
        ensures
            id@ >= old(self)@.len() ==> r == Err::<(), IDAError>(
                IDAError::EraseFailed { index: id@ },
            ) && final(self)@ == old(self)@,
            id@ < old(self)@.len() ==> r == Ok::<(), IDAError>(()) && final(self)@ == old(
                self,
            )@.remove(id@ as int),
    {
        let index = id.index();
        if index >= self.idb.count() {
            return Err(IDAError::EraseFailed { index });
        }
        self.idb.erase_slot(index);
        Ok(())
    }

    /// Erase the bookmark at address `ea`: resolve the address to its
    /// lowest-indexed slot, then erase that slot.  Fails when the
    /// address has no bookmark.
    pub fn erase_at(&mut self, ea: Address) -> (r: Result<(), IDAError>)
        ensures
            ({
                let s = old(self)@;
                match find_at(s, ea) {
                    None => r == Err::<(), IDAError>(IDAError::AddressNotFound { address: ea })
                        && final(self)@ == s,
                    Some(i) => r == Ok::<(), IDAError>(()) && final(self)@ == s.remove(i),
                }
            }),
    {
        let index = match self.idb.find_index(ea) {
            Some(i) => i,
            None => {
                return Err(IDAError::AddressNotFound { address: ea });
            },
        };
        proof {
            lemma_find_at_props(self@, ea);
        }
        self.erase_by_id(Id::new(index))
    }
}

} // verus!
