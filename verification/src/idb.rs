//! The database owner and its bookmark table.
//!
//! `IDB` is the single point of exclusive or shared access that every
//! handle and store view borrows from.  It owns the bookmark table: a
//! zero-based, index-addressed sequence of slots, each holding an
//! optional address and a description.  The table's behaviour is stated
//! by the spec functions below (`addr_at`, `desc_at`, `find_at`,
//! `marked`) and every primitive operation is proved against them.

use vstd::prelude::*;

verus! {

/// An address inside the database.
pub type Address = u64;

/// Sentinel address: "no valid address".  It is translated to `None` at
/// the table boundary and is never stored in a slot.
pub const BADADDR: Address = 0xffff_ffff_ffff_ffff;

/// Sentinel slot index: "no such bookmark / the operation failed".  The
/// table never holds a slot at or above this index.
pub const BOOKMARKS_BAD_INDEX: usize = 0xffff_ffff;

/// The mathematical model of one bookmark slot: an optional address and
/// a description.  An unoccupied slot has no address and an empty
/// description.
#[verifier::ext_equal]
pub ghost struct SlotModel {
    pub addr: Option<Address>,
    pub desc: Seq<char>,
}

/// The model of a slot that has never been marked.
pub open spec fn empty_slot() -> SlotModel {
    SlotModel { addr: None, desc: Seq::empty() }
}

/// The address stored at index `i`, or `None` when the index is out of
/// range or the slot is unoccupied.
pub open spec fn addr_at(s: Seq<SlotModel>, i: int) -> Option<Address> {
    if 0 <= i < s.len() {
        s[i].addr
    } else {
        None
    }
}

/// The description stored at index `i`; empty when the index is out of
/// range.
pub open spec fn desc_at(s: Seq<SlotModel>, i: int) -> Seq<char> {
    if 0 <= i < s.len() {
        s[i].desc
    } else {
        Seq::empty()
    }
}

/// The lowest index whose slot holds address `ea`, or `None` when no
/// slot does.
pub open spec fn find_at(s: Seq<SlotModel>, ea: Address) -> Option<int>
    decreases s.len(),
{
    if s.len() == 0 {
        None
    } else if s[0].addr == Some(ea) {
        Some(0int)
    } else {
        match find_at(s.drop_first(), ea) {
            Some(i) => Some(i + 1),
            None => None,
        }
    }
}

/// The table after marking address `ea` with description `desc` at the
/// requested `index`:
/// - at an index occupied by a different address, nothing changes (the
///   documented silent no-op);
/// - at an index holding the same address, or an unoccupied one, the
///   slot is overwritten;
/// - at an index at or beyond the current length, the table grows to
///   `index + 1` slots, the intermediate ones unoccupied.
pub open spec fn marked(s: Seq<SlotModel>, ea: Address, index: int, desc: Seq<char>) -> Seq<
    SlotModel,
> {
    if 0 <= index < s.len() {
        if s[index].addr is Some && s[index].addr != Some(ea) {
            s
        } else {
            s.update(index, SlotModel { addr: Some(ea), desc })
        }
    } else if index >= s.len() {
        s + Seq::new((index - s.len()) as nat, |j: int| empty_slot()) + seq![
            SlotModel { addr: Some(ea), desc },
        ]
    } else {
        s
    }
}

/// Well-formedness of a bookmark table: it never grows to the sentinel
/// index, and the sentinel address is never stored in a slot.  Every
/// table reachable through `IDB` satisfies this.
pub open spec fn table_wf(s: Seq<SlotModel>) -> bool {
    &&& s.len() <= BOOKMARKS_BAD_INDEX
    &&& forall|i: int| 0 <= i < s.len() ==> (#[trigger] s[i].addr) != Some(BADADDR)
}

struct Slot {
    addr: Option<Address>,
    desc: String,
}

impl View for Slot {
    type V = SlotModel;

    closed spec fn view(&self) -> SlotModel {
        SlotModel { addr: self.addr, desc: self.desc@ }
    }
}

/// The database owner.  It holds the live bookmark table; store views
/// and handles are scoped to a borrow of it.  Its view is the sequence
/// of slot models.
pub struct IDB {
    slots: Vec<Slot>,
}

impl View for IDB {
    type V = Seq<SlotModel>;

    closed spec fn view(&self) -> Seq<SlotModel> {
        self.slots@.map_values(|s: Slot| s@)
    }
}

impl IDB {
    #[verifier::type_invariant]
    pub(crate) open spec fn inv(self) -> bool {
        table_wf(self@)
    }

    /// A fresh database with an empty bookmark table.
    pub fn new() -> (r: Self)
        ensures
            r@ == Seq::<SlotModel>::empty(),
    {
        let r = IDB { slots: Vec::new() };
        proof {
            assert(r@ =~= Seq::<SlotModel>::empty());
        }
        r
    }

    /// Current number of slots in the table.
    pub(crate) fn count(&self) -> (n: usize)
        ensures
            n == self@.len(),
    {
        self.slots.len()
    }

    /// The address stored at `index`, with the out-of-range and
    /// unoccupied cases both mapped to `None`.
    pub(crate) fn addr_of(&self, index: usize) -> (r: Option<Address>)
        ensures
            r == addr_at(self@, index as int),
    {
        if index < self.slots.len() {
            self.slots[index].addr
        } else {
            None
        }
    }

    /// The description stored at `index`; the empty string when the
    /// index is out of range.
    pub(crate) fn desc_of(&self, index: usize) -> (r: String)
        ensures
            r@ == desc_at(self@, index as int),
    {
        if index < self.slots.len() {
            self.slots[index].desc.clone()
        } else {
            String::new()
        }
    }

    /// Mark address `ea` with description `desc` at the requested
    /// `index`, with the table semantics of `marked`.  The sentinel
    /// address and the sentinel index are rejected one layer up, before
    /// this primitive is reached.
    pub(crate) fn mark_slot(&mut self, ea: Address, index: usize, desc: &str)
        requires
            ea != BADADDR,
            index < BOOKMARKS_BAD_INDEX,
        ensures
            final(self)@ == marked(old(self)@, ea, index as int, desc@),
    {
        proof {
            use_type_invariant(&*self);
        }
        let ghost s0 = self@;
        let mut slots: Vec<Slot> = Vec::new();
        std::mem::swap(&mut self.slots, &mut slots);
        let n = slots.len();
        if index < n {
            let keep = match slots[index].addr {
                Some(a) => a != ea,
                None => false,
            };
            if !keep {
                slots[index] = Slot { addr: Some(ea), desc: desc.to_owned() };
            }
        } else {
            while slots.len() < index
                invariant
                    n == s0.len(),
                    n <= slots@.len() <= index,
                    forall|j: int| 0 <= j < n ==> (#[trigger] slots@[j]@) == s0[j],
                    forall|j: int| n <= j < slots@.len() ==> (#[trigger] slots@[j]@) == empty_slot(),
                decreases index - slots@.len(),
            {
                slots.push(Slot { addr: None, desc: String::new() });
            }
            slots.push(Slot { addr: Some(ea), desc: desc.to_owned() });
        }
        proof {
            let m = slots@.map_values(|s: Slot| s@);
            let s1 = marked(s0, ea, index as int, desc@);
            assert(m =~~= s1);
            assert forall|i: int| 0 <= i < m.len() implies (#[trigger] m[i].addr)
                != Some(BADADDR) by {
                if 0 <= i < s0.len() {
                    assert(s0[i].addr != Some(BADADDR));
                }
            }
            assert(table_wf(m));
        }
        self.slots = slots;
    }

    /// Erase the slot at `index`; every later slot moves down by one.
    pub(crate) fn erase_slot(&mut self, index: usize)
        requires
            index < old(self)@.len(),
        ensures
            final(self)@ == old(self)@.remove(index as int),
    {
        proof {
            use_type_invariant(&*self);
        }
        let ghost s0 = self@;
        let mut slots: Vec<Slot> = Vec::new();
        std::mem::swap(&mut self.slots, &mut slots);
        slots.remove(index);
        proof {
            let m = slots@.map_values(|s: Slot| s@);
            assert(m =~~= s0.remove(index as int));
            assert forall|i: int| 0 <= i < m.len() implies (#[trigger] m[i].addr)
                != Some(BADADDR) by {
                if i < index {
                    assert(m[i] == s0[i]);
                } else {
                    assert(m[i] == s0[i + 1]);
                }
            }
            assert(table_wf(m));
        }
        self.slots = slots;
    }

    /// The lowest index whose slot holds address `ea`, or `None`.
    pub(crate) fn find_index(&self, ea: Address) -> (r: Option<usize>)
        ensures
            match r {
                Some(i) => find_at(self@, ea) == Some(i as int),
                None => find_at(self@, ea) is None,
            },
    {
        let n = self.slots.len();
        let mut i: usize = 0;
        while i < n
            invariant
                n == self@.len(),
                0 <= i <= n,
                forall|j: int| 0 <= j < i ==> (#[trigger] self@[j].addr) != Some(ea),
            decreases n - i,
        {
            let hit = match self.slots[i].addr {
                Some(a) => a == ea,
                None => false,
            };
            if hit {
                proof {
                    lemma_find_at_first(self@, ea, i as int);
                }
                return Some(i);
            }
            i = i + 1;
        }
        proof {
            lemma_find_at_none(self@, ea);
        }
        None
    }
}

/// Where the first slot holding `ea` is `i`, lookup by address finds
/// exactly `i`.
pub proof fn lemma_find_at_first(s: Seq<SlotModel>, ea: Address, i: int)
    requires
        0 <= i < s.len(),
        s[i].addr == Some(ea),
        forall|j: int| 0 <= j < i ==> (#[trigger] s[j].addr) != Some(ea),
    ensures
        find_at(s, ea) == Some(i),
    decreases s.len(),
{
    if i > 0 {
        lemma_find_at_first(s.drop_first(), ea, i - 1);
    }
}

/// Where no slot holds `ea`, lookup by address finds nothing.
pub proof fn lemma_find_at_none(s: Seq<SlotModel>, ea: Address)
    requires
        forall|j: int| 0 <= j < s.len() ==> (#[trigger] s[j].addr) != Some(ea),
    ensures
        find_at(s, ea) is None,
    decreases s.len(),
{
    if s.len() > 0 {
        lemma_find_at_none(s.drop_first(), ea);
    }
}

/// What a successful or failed lookup by address says of the table: a
/// found index is the first one holding the address; a miss means no
/// slot holds it.
pub proof fn lemma_find_at_props(s: Seq<SlotModel>, ea: Address)
    ensures
        match find_at(s, ea) {
            Some(i) => {
                &&& 0 <= i < s.len()
                &&& s[i].addr == Some(ea)
                &&& forall|j: int| 0 <= j < i ==> (#[trigger] s[j].addr) != Some(ea)
            },
            None => forall|j: int| 0 <= j < s.len() ==> (#[trigger] s[j].addr) != Some(ea),
        },
    decreases s.len(),
{
    if s.len() > 0 && s[0].addr != Some(ea) {
        let t = s.drop_first();
        lemma_find_at_props(t, ea);
        match find_at(s, ea) {
            Some(i) => {
                assert(s[i] == t[i - 1]);
                assert forall|j: int| 0 <= j < i implies (#[trigger] s[j].addr) != Some(ea) by {
                    if j > 0 {
                        assert(s[j] == t[j - 1]);
                    }
                }
            },
            None => {
                assert forall|j: int| 0 <= j < s.len() implies (#[trigger] s[j].addr)
                    != Some(ea) by {
                    if j > 0 {
                        assert(s[j] == t[j - 1]);
                    }
                }
            },
        }
    }
}

/// No two occupied slots hold the same address — the table has no
/// overlaid bookmarks.
pub open spec fn distinct_addrs(s: Seq<SlotModel>) -> bool {
    forall|i: int, j: int|
        0 <= i < j < s.len() && (#[trigger] s[i].addr) is Some ==> s[i].addr != (
        #[trigger] s[j].addr)
}

/// Law: in a table without overlaid bookmarks, every occupied slot's
/// address round-trips through lookup by address back to the same
/// index.
pub proof fn lemma_address_lookup_round_trip(s: Seq<SlotModel>, i: int, a: Address)
    requires
        distinct_addrs(s),
        0 <= i < s.len(),
        addr_at(s, i) == Some(a),
    ensures
        find_at(s, a) == Some(i),
{
    assert forall|j: int| 0 <= j < i implies (#[trigger] s[j].addr) != Some(a) by {
        if s[j].addr is Some {
            assert(s[j].addr != s[i].addr);
        }
    }
    lemma_find_at_first(s, a, i);
}

/// Law: marking an address that has no bookmark yet, at the next free
/// slot, makes lookup by that address find the new slot, whose
/// description is exactly the text just written.
pub proof fn lemma_mark_then_find(s: Seq<SlotModel>, ea: Address, desc: Seq<char>)
    requires
        find_at(s, ea) is None,
    ensures
        ({
            let s2 = marked(s, ea, s.len() as int, desc);
            &&& find_at(s2, ea) == Some(s.len() as int)
            &&& desc_at(s2, s.len() as int) == desc
        }),
{
    let s2 = marked(s, ea, s.len() as int, desc);
    assert(s2 =~= s.push(SlotModel { addr: Some(ea), desc }));
    lemma_find_at_props(s, ea);
    assert forall|j: int| 0 <= j < s.len() implies (#[trigger] s2[j].addr) != Some(ea) by {
        assert(s2[j] == s[j]);
    }
    lemma_find_at_first(s2, ea, s.len() as int);
}

/// Law: erasing the slot at index `i` shrinks the table by exactly
/// one; every slot below `i` keeps its place, every slot above `i`
/// moves down by one with its address and description unchanged; and
/// where no other slot held the erased slot's address, lookup by that
/// address finds nothing afterwards.
pub proof fn lemma_erase_shifts(s: Seq<SlotModel>, i: int)
    requires
        0 <= i < s.len(),
    ensures
        ({
            let s2 = s.remove(i);
            &&& s2.len() == s.len() - 1
            &&& forall|j: int| 0 <= j < i ==> #[trigger] s2[j] == s[j]
            &&& forall|j: int| i < j < s.len() ==> #[trigger] s2[j - 1] == s[j]
            &&& ((s[i].addr is Some && (forall|k: int|
                0 <= k < s.len() && k != i ==> (#[trigger] s[k].addr) != s[i].addr))
                ==> find_at(s2, s[i].addr->0) is None)
        }),
{
    let s2 = s.remove(i);
    assert(forall|j: int| 0 <= j < i ==> #[trigger] s2[j] == s[j]);
    assert forall|j: int| i < j < s.len() implies #[trigger] s2[j - 1] == s[j] by {}
    if s[i].addr is Some && (forall|k: int|
        0 <= k < s.len() && k != i ==> (#[trigger] s[k].addr) != s[i].addr) {
        let a = s[i].addr->0;
        assert forall|j: int| 0 <= j < s2.len() implies (#[trigger] s2[j].addr) != Some(a) by {
            if j < i {
                assert(s2[j] == s[j]);
            } else {
                assert(s2[j] == s[j + 1]);
            }
        }
        lemma_find_at_none(s2, a);
    }
}

/// Law: marking at an index at or beyond the current length grows the
/// table to `index + 1` slots; the slots in between are unoccupied,
/// the new slot holds the given address and description, and every
/// existing slot is unchanged.
pub proof fn lemma_mark_beyond_len_grows(
    s: Seq<SlotModel>,
    ea: Address,
    index: int,
    desc: Seq<char>,
)
    requires
        index >= s.len(),
    ensures
        ({
            let s2 = marked(s, ea, index, desc);
            &&& s2.len() == index + 1
            &&& forall|j: int| 0 <= j < s.len() ==> #[trigger] s2[j] == s[j]
            &&& forall|j: int| s.len() <= j < index ==> addr_at(s2, j) is None
            &&& s2[index] == SlotModel { addr: Some(ea), desc }
        }),
{
}

} // verus!
