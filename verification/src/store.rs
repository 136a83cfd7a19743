//! The record store: serialized records under derived addresses. A record is
//! created once under a free address and then rewritten in place; none is ever
//! removed.

use crate::error::ErrorCode;
use crate::identity::Identity;
use vstd::prelude::*;

verus! {

/// One stored record: its address and its serialized form.
struct Entry {
    address: Identity,
    data: Vec<u8>,
}

/// Whether no address occurs twice.
spec fn distinct(entries: Seq<Entry>) -> bool {
    forall|i: int, j: int|
        0 <= i < j < entries.len() ==> (#[trigger] entries[i]).address@ != (
        #[trigger] entries[j]).address@
}

/// Whether some entry has the address `key`.
spec fn holds(entries: Seq<Entry>, key: Seq<u8>) -> bool {
    exists|i: int| 0 <= i < entries.len() && (#[trigger] entries[i]).address@ == key
}

/// The position of the entry with the address `key`.
spec fn index_of(entries: Seq<Entry>, key: Seq<u8>) -> int {
    choose|i: int| 0 <= i < entries.len() && (#[trigger] entries[i]).address@ == key
}

/// The records by address.
spec fn contents(entries: Seq<Entry>) -> Map<Seq<u8>, Seq<u8>> {
    Map::new(
        |key: Seq<u8>| holds(entries, key),
        |key: Seq<u8>| entries[index_of(entries, key)].data@,
    )
}

proof fn lemma_entry_at(entries: Seq<Entry>, i: int)
    requires
        distinct(entries),
        0 <= i < entries.len(),
    ensures
        contents(entries).contains_key(entries[i].address@),
        contents(entries)[entries[i].address@] == entries[i].data@,
{
    let key = entries[i].address@;
    assert(holds(entries, key));
    let found = index_of(entries, key);
    assert(found == i) by {
        if found < i {
            assert(entries[found].address@ != entries[i].address@);
        } else if i < found {
            assert(entries[i].address@ != entries[found].address@);
        }
    }
}

proof fn lemma_pushed(entries: Seq<Entry>, entry: Entry)
    requires
        distinct(entries),
        !holds(entries, entry.address@),
    ensures
        distinct(entries.push(entry)),
        contents(entries.push(entry)) == contents(entries).insert(entry.address@, entry.data@),
{
    let grown = entries.push(entry);
    assert forall|i: int, j: int| 0 <= i < j < grown.len() implies (#[trigger] grown[i]).address@
        != (#[trigger] grown[j]).address@ by {
        if j == entries.len() {
            assert(entries[i].address@ != entry.address@);
        } else {
            assert(entries[i].address@ != entries[j].address@);
        }
    }
    let wanted = contents(entries).insert(entry.address@, entry.data@);
    assert forall|key: Seq<u8>| contents(grown).contains_key(key) == wanted.contains_key(
        key,
    ) by {
        if holds(grown, key) {
            let i = index_of(grown, key);
            if i < entries.len() {
                assert(entries[i].address@ == key);
            }
        }
        if holds(entries, key) {
            let i = index_of(entries, key);
            assert(grown[i].address@ == key);
        }
        if key == entry.address@ {
            assert(grown[entries.len() as int].address@ == key);
        }
    }
    assert forall|key: Seq<u8>| contents(grown).contains_key(key) implies contents(grown)[key]
        == wanted[key] by {
        let i = index_of(grown, key);
        lemma_entry_at(grown, i);
        if i < entries.len() {
            assert(entries[i].address@ == key);
            lemma_entry_at(entries, i);
        }
    }
    assert(contents(grown) =~= wanted);
}

proof fn lemma_replaced(entries: Seq<Entry>, at: int, entry: Entry)
    requires
        distinct(entries),
        0 <= at < entries.len(),
        entry.address@ == entries[at].address@,
    ensures
        distinct(entries.update(at, entry)),
        contents(entries.update(at, entry)) == contents(entries).insert(
            entry.address@,
            entry.data@,
        ),
{
    let changed = entries.update(at, entry);
    assert forall|i: int, j: int| 0 <= i < j < changed.len() implies (
    #[trigger] changed[i]).address@ != (#[trigger] changed[j]).address@ by {
        assert(entries[i].address@ != entries[j].address@);
    }
    let wanted = contents(entries).insert(entry.address@, entry.data@);
    lemma_entry_at(entries, at);
    assert forall|key: Seq<u8>| contents(changed).contains_key(key) == wanted.contains_key(
        key,
    ) by {
        if holds(changed, key) {
            let i = index_of(changed, key);
            assert(entries[i].address@ == key);
        }
        if holds(entries, key) {
            let i = index_of(entries, key);
            assert(changed[i].address@ == key);
        }
    }
    assert forall|key: Seq<u8>| contents(changed).contains_key(key) implies contents(
        changed,
    )[key] == wanted[key] by {
        let i = index_of(changed, key);
        lemma_entry_at(changed, i);
        if i != at {
            assert(entries[i].address@ == key);
            lemma_entry_at(entries, i);
        }
    }
    assert(contents(changed) =~= wanted);
}

/// A keyed store of serialized records.
pub struct RecordStore {
    entries: Vec<Entry>,
}

impl View for RecordStore {
    type V = Map<Seq<u8>, Seq<u8>>;

    /// The serialized record under each occupied address.
    closed spec fn view(&self) -> Map<Seq<u8>, Seq<u8>> {
        contents(self.entries@)
    }
}

impl RecordStore {
    #[verifier::type_invariant]
    spec fn well_formed(self) -> bool {
        distinct(self.entries@)
    }

    /// A store without records.
    pub fn new() -> (store: RecordStore)
        ensures
            store@ == Map::<Seq<u8>, Seq<u8>>::empty(),
    {
        let store = RecordStore { entries: Vec::new() };
        assert(store@ =~= Map::<Seq<u8>, Seq<u8>>::empty());
        store
    }

    /// The position of the record under `address`.
    fn position(&self, address: &Identity) -> (found: Option<usize>)
        ensures
            match found {
                Some(at) => at < self.entries@.len() && self.entries@[at as int].address@
                    == address@,
                None => !holds(self.entries@, address@),
            },
    {
        let mut at: usize = 0;
        while at < self.entries.len()
            invariant
                at <= self.entries@.len(),
                forall|i: int| 0 <= i < at ==> (#[trigger] self.entries@[i]).address@ != address@,
            decreases self.entries@.len() - at,
        {
            if self.entries[at].address.same(address) {
                return Some(at);
            }
            at += 1;
        }
        None
    }

    /// Whether a record is stored under `address`.
    pub fn contains(&self, address: &Identity) -> (occupied: bool)
        ensures
            occupied == self@.contains_key(address@),
    {
        proof {
            use_type_invariant(&*self);
        }
        match self.position(address) {
            Some(at) => {
                proof {
                    lemma_entry_at(self.entries@, at as int);
                }
                true
            },
            None => false,
        }
    }

    /// The record under `address`, if there is one.
    pub fn read(&self, address: &Identity) -> (found: Option<&Vec<u8>>)
        ensures
            match found {
                Some(data) => self@.contains_key(address@) && data@ == self@[address@],
                None => !self@.contains_key(address@),
            },
    {
        proof {
            use_type_invariant(&*self);
        }
        match self.position(address) {
            Some(at) => {
                proof {
                    lemma_entry_at(self.entries@, at as int);
                }
                Some(&self.entries[at].data)
            },
            None => None,
        }
    }

    /// Stores `data` under `address` if the address is free. An occupied
    /// address is refused with `AlreadyInitialized`, and what it holds stays.
    pub fn create(&mut self, address: Identity, data: Vec<u8>) -> (outcome: Result<(), ErrorCode>)
        ensures
            old(self)@.contains_key(address@) ==> outcome == Err::<(), ErrorCode>(
                ErrorCode::AlreadyInitialized,
            ) && final(self)@ == old(self)@,
            !old(self)@.contains_key(address@) ==> outcome == Ok::<(), ErrorCode>(())
                && final(self)@ == old(self)@.insert(address@, data@),
    {
        proof {
            use_type_invariant(&*self);
        }
        match self.position(&address) {
            Some(at) => {
                proof {
                    lemma_entry_at(self.entries@, at as int);
                }
                Err(ErrorCode::AlreadyInitialized)
            },
            None => {
                let mut entries: Vec<Entry> = Vec::new();
                std::mem::swap(&mut entries, &mut self.entries);
                let entry = Entry { address, data };
                proof {
                    lemma_pushed(entries@, entry);
                }
                entries.push(entry);
                self.entries = entries;
                Ok(())
            },
        }
    }

    /// Replaces the record under `address` by `data`. A free address is
    /// refused with `NotFound`, and stays free.
    pub fn write(&mut self, address: &Identity, data: Vec<u8>) -> (outcome: Result<(), ErrorCode>)
        ensures
            old(self)@.contains_key(address@) ==> outcome == Ok::<(), ErrorCode>(())
                && final(self)@ == old(self)@.insert(address@, data@),
            !old(self)@.contains_key(address@) ==> outcome == Err::<(), ErrorCode>(
                ErrorCode::NotFound,
            ) && final(self)@ == old(self)@,
    {
        proof {
            use_type_invariant(&*self);
        }
        match self.position(address) {
            Some(at) => {
                let mut entries: Vec<Entry> = Vec::new();
                std::mem::swap(&mut entries, &mut self.entries);
                let entry = Entry { address: *address, data };
                proof {
                    lemma_replaced(entries@, at as int, entry);
                }
                entries.set(at, entry);
                self.entries = entries;
                Ok(())
            },
            None => Err(ErrorCode::NotFound),
        }
    }

    /// The record under `address`, after storing `zero_value` there if the
    /// address was free.
    pub fn get_or_create(&mut self, address: Identity, zero_value: Vec<u8>) -> (data: &Vec<u8>)
        ensures
            final(self)@ == if old(self)@.contains_key(address@) {
                old(self)@
            } else {
                old(self)@.insert(address@, zero_value@)
            },
            final(self)@.contains_key(address@),
            data@ == final(self)@[address@],
    {
        proof {
            use_type_invariant(&*self);
        }
        let at = match self.position(&address) {
            Some(at) => at,
            None => {
                let mut entries: Vec<Entry> = Vec::new();
                std::mem::swap(&mut entries, &mut self.entries);
                let entry = Entry { address, data: zero_value };
                proof {
                    lemma_pushed(entries@, entry);
                }
                entries.push(entry);
                let at = entries.len() - 1;
                self.entries = entries;
                at
            },
        };
        proof {
            lemma_entry_at(self.entries@, at as int);
        }
        &self.entries[at].data
    }
}

} // verus!
