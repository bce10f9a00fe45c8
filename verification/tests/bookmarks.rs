use idalib::bookmarks::{Bookmark, Bookmarks, BookmarksMut};
use idalib::refs::{HasId, Id};
use idalib::idb::BOOKMARKS_BAD_INDEX;
use idalib::{IDAError, BADADDR, IDB};

#[test]
fn empty_table() {
    let idb = IDB::new();
    let bks = Bookmarks::new(&idb);
    assert_eq!(bks.len(), 0);
    assert!(bks.is_empty());
    assert!(bks.get_by_id(Id::new(0)).is_none());
    assert!(bks.get_at(0x401000).is_none());
    assert!(bks.iter().is_empty());
}

#[test]
fn mark_erase_round_trip() {
    // Scenario: empty table, mark, look up, erase, look up again.
    let mut bm = BookmarksMut::new(IDB::new());
    let id = bm.mark(0x401000, "entry").unwrap();
    assert_eq!(id, Id::new(0));
    let b = *bm.bookmarks().get_at(0x401000).unwrap().get();
    assert_eq!(b.description(bm.idb()), Some("entry".to_string()));
    assert!(bm.erase_at(0x401000).is_ok());
    assert_eq!(bm.len(), 0);
    assert!(bm.bookmarks().get_at(0x401000).is_none());
}

#[test]
fn erase_shifts_following_slots() {
    // Scenario: two marks at distinct addresses, erase the first, and
    // the second is observable at index 0.
    let a: u64 = 0x1000;
    let b: u64 = 0x2000;
    let mut bm = BookmarksMut::new(IDB::new());
    let id0 = bm.mark(a, "first").unwrap();
    let id1 = bm.mark(b, "second").unwrap();
    assert_eq!(id0, Id::new(0));
    assert_eq!(id1, Id::new(1));
    assert!(bm.erase_by_id(id0).is_ok());
    assert_eq!(bm.len(), 1);
    let moved = *bm.bookmarks().get_by_id(Id::new(0)).unwrap().get();
    assert_eq!(moved.address(bm.idb()), Some(b));
    assert_eq!(moved.description(bm.idb()), Some("second".to_string()));
}

#[test]
fn erase_middle_keeps_neighbours() {
    let mut bm = BookmarksMut::new(IDB::new());
    bm.mark(0x10, "a").unwrap();
    bm.mark(0x20, "b").unwrap();
    bm.mark(0x30, "c").unwrap();
    assert!(bm.erase_by_id(Id::new(1)).is_ok());
    assert_eq!(bm.len(), 2);
    let b0 = *bm.bookmarks().get_by_id(Id::new(0)).unwrap().get();
    let b1 = *bm.bookmarks().get_by_id(Id::new(1)).unwrap().get();
    assert_eq!(b0.address(bm.idb()), Some(0x10));
    assert_eq!(b0.description(bm.idb()), Some("a".to_string()));
    assert_eq!(b1.address(bm.idb()), Some(0x30));
    assert_eq!(b1.description(bm.idb()), Some("c".to_string()));
    assert!(bm.bookmarks().get_at(0x20).is_none());
}

#[test]
fn erase_out_of_range_is_rejected() {
    let mut bm = BookmarksMut::new(IDB::new());
    bm.mark(0x10, "a").unwrap();
    let e = bm.erase_by_id(Id::new(5)).unwrap_err();
    assert_eq!(e, IDAError::EraseFailed { index: 5 });
    assert!(e.is_ffi());
    assert_eq!(bm.len(), 1);
}

#[test]
fn erase_at_unknown_address() {
    let mut bm = BookmarksMut::new(IDB::new());
    bm.mark(0x10, "a").unwrap();
    let e = bm.erase_at(0x9999).unwrap_err();
    assert_eq!(e, IDAError::AddressNotFound { address: 0x9999 });
    assert_eq!(bm.len(), 1);
}

#[test]
fn mark_beyond_len_grows_table() {
    // Marking at an index beyond the current length grows the table
    // to index + 1, leaving the slots in between unoccupied.
    let mut bm = BookmarksMut::new(IDB::new());
    let id = bm.mark_with(0x5000, Id::new(3), "far").unwrap();
    assert_eq!(id, Id::new(3));
    assert_eq!(bm.len(), 4);
    for i in 0..3 {
        let b = *bm.bookmarks().get_by_id(Id::new(i)).unwrap().get();
        assert_eq!(b.address(bm.idb()), None);
        assert_eq!(b.description(bm.idb()), None);
    }
    let far = *bm.bookmarks().get_by_id(Id::new(3)).unwrap().get();
    assert_eq!(far.address(bm.idb()), Some(0x5000));
}

#[test]
fn mark_occupied_index_is_silent_no_op() {
    // Marking at an index already occupied by a different address
    // changes nothing and reports no error.
    let mut bm = BookmarksMut::new(IDB::new());
    bm.mark(0x10, "a").unwrap();
    let id = bm.mark_with(0x20, Id::new(0), "b").unwrap();
    assert_eq!(id, Id::new(0));
    assert_eq!(bm.len(), 1);
    let b = *bm.bookmarks().get_by_id(Id::new(0)).unwrap().get();
    assert_eq!(b.address(bm.idb()), Some(0x10));
    assert_eq!(b.description(bm.idb()), Some("a".to_string()));
    assert!(bm.bookmarks().get_at(0x20).is_none());
}

#[test]
fn mark_same_address_twice_overlays() {
    // A second mark at an already marked address creates an overlaid
    // bookmark; lookup by address still resolves the first.
    let mut bm = BookmarksMut::new(IDB::new());
    bm.mark(0x10, "one").unwrap();
    let id = bm.mark(0x10, "two").unwrap();
    assert_eq!(id, Id::new(1));
    assert_eq!(bm.len(), 2);
    let found = *bm.bookmarks().get_at(0x10).unwrap().get();
    assert_eq!(found.description(bm.idb()), Some("one".to_string()));
    let overlay = *bm.bookmarks().get_by_id(Id::new(1)).unwrap().get();
    assert_eq!(overlay.address(bm.idb()), Some(0x10));
    assert_eq!(overlay.description(bm.idb()), Some("two".to_string()));
}

#[test]
fn mark_same_index_same_address_updates() {
    let mut bm = BookmarksMut::new(IDB::new());
    bm.mark(0x10, "old").unwrap();
    bm.mark_with(0x10, Id::new(0), "new").unwrap();
    assert_eq!(bm.len(), 1);
    let b = *bm.bookmarks().get_by_id(Id::new(0)).unwrap().get();
    assert_eq!(b.description(bm.idb()), Some("new".to_string()));
}

#[test]
fn mark_sentinels_are_rejected() {
    let mut bm = BookmarksMut::new(IDB::new());
    let e = bm.mark(BADADDR, "bad").unwrap_err();
    assert_eq!(e, IDAError::MarkFailed { address: BADADDR, index: 0 });
    assert!(e.is_ffi());
    let e2 = bm.mark_with(0x10, Id::new(BOOKMARKS_BAD_INDEX), "bad").unwrap_err();
    assert_eq!(
        e2,
        IDAError::MarkFailed { address: 0x10, index: BOOKMARKS_BAD_INDEX }
    );
    assert_eq!(bm.len(), 0);
}

#[test]
fn description_with_terminator_is_rejected() {
    let mut bm = BookmarksMut::new(IDB::new());
    let e = bm.mark(0x10, "a\0b").unwrap_err();
    assert_eq!(e, IDAError::Encoding);
    assert!(!e.is_ffi());
    assert_eq!(bm.len(), 0);
}

#[test]
fn empty_description_reads_as_none() {
    let mut bm = BookmarksMut::new(IDB::new());
    bm.mark(0x10, "").unwrap();
    let b = *bm.bookmarks().get_by_id(Id::new(0)).unwrap().get();
    assert_eq!(b.address(bm.idb()), Some(0x10));
    assert_eq!(b.description(bm.idb()), None);
}

#[test]
fn set_description_rewrites_slot() {
    let mut bm = BookmarksMut::new(IDB::new());
    bm.mark(0x10, "old").unwrap();
    let mut idb = bm.into_idb();
    let b = *Bookmarks::new(&idb).get_by_id(Id::new(0)).unwrap().get();
    assert!(b.set_description(&mut idb, "new").is_ok());
    assert_eq!(b.description(&idb), Some("new".to_string()));
    assert_eq!(b.address(&idb), Some(0x10));
}

#[test]
fn set_description_needs_valid_address() {
    let mut bm = BookmarksMut::new(IDB::new());
    bm.mark_with(0x5000, Id::new(2), "far").unwrap();
    let mut idb = bm.into_idb();
    let empty = *Bookmarks::new(&idb).get_by_id(Id::new(0)).unwrap().get();
    let e = empty.set_description(&mut idb, "text").unwrap_err();
    assert_eq!(e, IDAError::NoValidAddress { index: 0 });
    assert!(e.is_ffi());
}

#[test]
fn set_description_rejects_terminator() {
    let mut bm = BookmarksMut::new(IDB::new());
    bm.mark(0x10, "old").unwrap();
    let mut idb = bm.into_idb();
    let b = *Bookmarks::new(&idb).get_by_id(Id::new(0)).unwrap().get();
    let e = b.set_description(&mut idb, "a\0b").unwrap_err();
    assert_eq!(e, IDAError::Encoding);
    assert_eq!(b.description(&idb), Some("old".to_string()));
}

#[test]
fn address_round_trips_through_lookup() {
    // With all addresses distinct, every slot's address resolves back
    // to the slot's own index.
    let mut bm = BookmarksMut::new(IDB::new());
    bm.mark(0x10, "a").unwrap();
    bm.mark(0x20, "b").unwrap();
    bm.mark(0x30, "c").unwrap();
    let idb = bm.into_idb();
    let bks = Bookmarks::new(&idb);
    for i in 0..bks.len() {
        let r = bks.get_by_id(Id::new(i)).unwrap();
        match r.get().address(&idb) {
            None => {}
            Some(a) => {
                let found = bks.get_at(a).unwrap();
                assert_eq!(found.id(), Id::new(i));
            }
        }
    }
}

#[test]
fn iter_walks_all_slots() {
    let mut bm = BookmarksMut::new(IDB::new());
    bm.mark(0x10, "a").unwrap();
    bm.mark(0x20, "b").unwrap();
    bm.mark(0x30, "c").unwrap();
    let idb = bm.into_idb();
    let bks = Bookmarks::new(&idb);
    let all = bks.iter();
    assert_eq!(all.len(), 3);
    let addrs: Vec<Option<u64>> = all.iter().map(|r| r.get().address(&idb)).collect();
    assert_eq!(addrs, vec![Some(0x10), Some(0x20), Some(0x30)]);
    for (i, r) in all.iter().enumerate() {
        assert_eq!(r.id(), Id::new(i));
    }
}

#[test]
fn mutable_handles() {
    let mut bm = BookmarksMut::new(IDB::new());
    bm.mark(0x10, "a").unwrap();
    let h = bm.get_by_id_mut(Id::new(0)).unwrap();
    assert_eq!(h.id(), Id::new(0));
    assert!(bm.get_by_id_mut(Id::new(1)).is_none());
    let mut h2 = bm.get_at_mut(0x10).unwrap();
    assert_eq!(h2.id(), Id::new(0));
    let inner: &mut Bookmark = h2.get_mut();
    assert_eq!(inner.id(), Id::new(0));
    assert!(bm.get_at_mut(0x9999).is_none());
}

#[test]
fn identity_renders_as_lowercase_hex() {
    assert_eq!(Id::<Bookmark>::new(0).hex_string(), "0");
    assert_eq!(Id::<Bookmark>::new(10).hex_string(), "a");
    assert_eq!(Id::<Bookmark>::new(255).hex_string(), "ff");
    assert_eq!(Id::<Bookmark>::new(0x401000).hex_string(), "401000");
    assert_eq!(Id::<Bookmark>::new(0xdeadbeef).hex_string(), "deadbeef");
}

#[test]
fn identities_compare_by_index() {
    let a: Id<Bookmark> = Id::new(7);
    let b: Id<Bookmark> = Id::new(7);
    let c: Id<Bookmark> = Id::new(8);
    assert_eq!(a, b);
    assert_ne!(a, c);
    let d = a;
    assert_eq!(d, b);
}
