//! Listings of one store, as read at planning time: its folders, and the
//! envelopes of one folder.

use vstd::prelude::*;
use crate::hunk::{EnvelopeChange, EnvelopeHunk, Flags, FolderChange, FolderHunk};
use crate::listing::{
    distinct_names, has_dead, has_live, has_name, lemma_place_of, lemma_without, place_of,
    without, Item,
};
use crate::settle::{envelope_settled, folder_settled};

verus! {

/// One folder of a listing.
#[derive(Debug)]
pub struct FolderEntry {
    pub name: String,
    /// Whether the store marks the folder as deleted.
    pub deleted: bool,
}

impl View for FolderEntry {
    type V = Item;

    open spec fn view(&self) -> Item {
        Item { name: self.name@, deleted: self.deleted }
    }
}

/// The folders of one store. No name occurs twice.
#[derive(Debug)]
pub struct FolderSnapshot {
    entries: Vec<FolderEntry>,
}

impl View for FolderSnapshot {
    type V = Seq<Item>;

    closed spec fn view(&self) -> Seq<Item> {
        self.entries@.map_values(|e: FolderEntry| e@)
    }
}

impl FolderSnapshot {
    #[verifier::type_invariant]
    spec fn names_occur_once(self) -> bool {
        distinct_names(self@)
    }

    /// The listing of a store without folders.
    pub fn new() -> (listing: FolderSnapshot)
        ensures
            listing@ == Seq::<Item>::empty(),
    {
        FolderSnapshot { entries: Vec::new() }
    }

    /// How many folders are listed.
    pub fn len(&self) -> (n: usize)
        ensures
            n == self@.len(),
            distinct_names(self@),
    {
        proof {
            use_type_invariant(self);
        }
        self.entries.len()
    }

    /// The folder at place `i`.
    pub fn entry(&self, i: usize) -> (e: &FolderEntry)
        requires
            i < self@.len(),
        ensures
            e@ == self@[i as int],
    {
        &self.entries[i]
    }

    /// Where the folder called `name` is listed, if it is.
    pub fn position(&self, name: &String) -> (at: Option<usize>)
        ensures
            match at {
                Some(i) => i < self@.len() && self@[i as int].name == name@,
                None => !has_name(self@, name@),
            },
    {
        let mut i: usize = 0;
        while i < self.entries.len()
            invariant
                i <= self.entries.len(),
                forall|j: int| 0 <= j < i ==> (#[trigger] self@[j]).name != name@,
            decreases self.entries.len() - i,
        {
            if self.entries[i].name == *name {
                return Some(i);
            }
            i += 1;
        }
        None
    }

    /// Whether the folder called `name` is listed, and if so, whether it is
    /// marked as deleted.
    pub fn status(&self, name: &String) -> (deleted: Option<bool>)
        ensures
            deleted.is_some() == has_name(self@, name@),
            (deleted == Some(false)) == has_live(self@, name@),
            (deleted == Some(true)) == has_dead(self@, name@),
    {
        proof {
            use_type_invariant(self);
        }
        match self.position(name) {
            None => None,
            Some(at) => Some(self.entries[at].deleted),
        }
    }

    /// Lists the folder `name`, unless a folder of that name is listed
    /// already. Says whether it was added.
    pub fn insert(&mut self, name: String, deleted: bool) -> (added: bool)
        ensures
            added == !has_name(old(self)@, name@),
            final(self)@ == if added {
                old(self)@.push(Item { name: name@, deleted })
            } else {
                old(self)@
            },
    {
        proof {
            use_type_invariant(&*self);
        }
        if self.position(&name).is_some() {
            return false;
        }
        let ghost before = self@;
        let ghost item = Item { name: name@, deleted };
        let mut entries: Vec<FolderEntry> = Vec::new();
        std::mem::swap(&mut entries, &mut self.entries);
        entries.push(FolderEntry { name, deleted });
        proof {
            assert(entries@.map_values(|e: FolderEntry| e@) =~= before.push(item));
        }
        self.entries = entries;
        true
    }

    /// Takes the folder `name` off the listing. Says whether it was listed.
    pub fn remove(&mut self, name: &String) -> (removed: bool)
        ensures
            removed == has_name(old(self)@, name@),
            final(self)@ == without(old(self)@, name@),
    {
        proof {
            use_type_invariant(&*self);
        }
        match self.position(name) {
            None => false,
            Some(at) => {
                let ghost before = self@;
                proof {
                    lemma_place_of(before, at as int);
                    lemma_without(before, name@, name@);
                }
                let mut entries: Vec<FolderEntry> = Vec::new();
                std::mem::swap(&mut entries, &mut self.entries);
                entries.remove(at);
                proof {
                    assert(entries@.map_values(|e: FolderEntry| e@) =~= before.remove(at as int));
                }
                self.entries = entries;
                true
            },
        }
    }

    /// Brings the listing up to date with a hunk that was applied to this
    /// store: a created folder is listed live, unless the name is listed
    /// already; a deleted one leaves the listing.
    pub fn settle(&mut self, hunk: &FolderHunk)
        ensures
            final(self)@ == folder_settled(old(self)@, hunk@),
    {
        match hunk.change {
            FolderChange::Create => {
                self.insert(hunk.name.clone(), false);
            },
            FolderChange::Delete => {
                self.remove(&hunk.name);
            },
        }
    }
}

/// One envelope of a listing.
#[derive(Debug)]
pub struct Envelope {
    /// The identifier derived from the message, the same on both stores.
    pub id: String,
    pub flags: Flags,
    pub size: u64,
    /// The later of two markers tells which store changed the envelope last.
    pub marker: u64,
    /// Whether the store marks the envelope as deleted.
    pub deleted: bool,
}

/// An envelope as contracts see it.
pub struct EnvelopeView {
    pub id: Seq<char>,
    pub flags: Flags,
    pub size: u64,
    pub marker: u64,
    pub deleted: bool,
}

impl EnvelopeView {
    /// The envelope as a listed item: its identifier and its deletion mark.
    pub open spec fn item(self) -> Item {
        Item { name: self.id, deleted: self.deleted }
    }
}

impl View for Envelope {
    type V = EnvelopeView;

    open spec fn view(&self) -> EnvelopeView {
        EnvelopeView {
            id: self.id@,
            flags: self.flags,
            size: self.size,
            marker: self.marker,
            deleted: self.deleted,
        }
    }
}

/// The items that a sequence of envelopes lists.
pub open spec fn items_of(envelopes: Seq<EnvelopeView>) -> Seq<Item> {
    envelopes.map_values(|e: EnvelopeView| e.item())
}

/// The envelopes of one folder of one store. No identifier occurs twice.
#[derive(Debug)]
pub struct EnvelopeSnapshot {
    entries: Vec<Envelope>,
}

impl View for EnvelopeSnapshot {
    type V = Seq<EnvelopeView>;

    closed spec fn view(&self) -> Seq<EnvelopeView> {
        self.entries@.map_values(|e: Envelope| e@)
    }
}

impl EnvelopeSnapshot {
    #[verifier::type_invariant]
    spec fn identifiers_occur_once(self) -> bool {
        distinct_names(items_of(self@))
    }

    /// The listing of a folder without envelopes.
    pub fn new() -> (listing: EnvelopeSnapshot)
        ensures
            listing@ == Seq::<EnvelopeView>::empty(),
    {
        EnvelopeSnapshot { entries: Vec::new() }
    }

    /// How many envelopes are listed.
    pub fn len(&self) -> (n: usize)
        ensures
            n == self@.len(),
            distinct_names(items_of(self@)),
    {
        proof {
            use_type_invariant(self);
        }
        self.entries.len()
    }

    /// The envelope at place `i`.
    pub fn entry(&self, i: usize) -> (e: &Envelope)
        requires
            i < self@.len(),
        ensures
            e@ == self@[i as int],
    {
        &self.entries[i]
    }

    /// Where the envelope `id` is listed, if it is.
    pub fn position(&self, id: &String) -> (at: Option<usize>)
        ensures
            match at {
                Some(i) => i < self@.len() && self@[i as int].id == id@,
                None => !has_name(items_of(self@), id@),
            },
    {
        let mut i: usize = 0;
        while i < self.entries.len()
            invariant
                i <= self.entries.len(),
                forall|j: int| 0 <= j < i ==> (#[trigger] items_of(self@)[j]).name != id@,
            decreases self.entries.len() - i,
        {
            if self.entries[i].id == *id {
                return Some(i);
            }
            assert(items_of(self@)[i as int].name == self@[i as int].id);
            i += 1;
        }
        None
    }

    /// The envelope listed under `id`, if one is.
    pub fn find(&self, id: &String) -> (found: Option<&Envelope>)
        ensures
            found.is_some() == has_name(items_of(self@), id@),
            found.is_some() ==> found.unwrap()@ == self@[place_of(items_of(self@), id@)],
            has_live(items_of(self@), id@) == (found.is_some() && !found.unwrap().deleted),
    {
        proof {
            use_type_invariant(self);
        }
        match self.position(id) {
            None => None,
            Some(at) => {
                proof {
                    assert(items_of(self@)[at as int] == self@[at as int].item());
                    lemma_place_of(items_of(self@), at as int);
                }
                Some(&self.entries[at])
            },
        }
    }

    /// Lists `envelope`, unless one of that identifier is listed already.
    /// Says whether it was added.
    pub fn insert(&mut self, envelope: Envelope) -> (added: bool)
        ensures
            added == !has_name(items_of(old(self)@), envelope@.id),
            final(self)@ == if added {
                old(self)@.push(envelope@)
            } else {
                old(self)@
            },
    {
        proof {
            use_type_invariant(&*self);
        }
        if self.position(&envelope.id).is_some() {
            proof {
                let at = choose|i: int| 0 <= i < self@.len() && self@[i].id == envelope@.id;
                assert(items_of(self@)[at].name == envelope@.id);
            }
            return false;
        }
        let ghost before = self@;
        let ghost added = envelope@;
        let mut entries: Vec<Envelope> = Vec::new();
        std::mem::swap(&mut entries, &mut self.entries);
        entries.push(envelope);
        proof {
            let after = entries@.map_values(|e: Envelope| e@);
            assert(after =~= before.push(added));
            assert(items_of(after) =~= items_of(before).push(added.item()));
        }
        self.entries = entries;
        true
    }

    /// Takes the envelope `id` off the listing. Says whether it was listed.
    pub fn remove(&mut self, id: &String) -> (removed: bool)
        ensures
            removed == has_name(items_of(old(self)@), id@),
            final(self)@ == if removed {
                old(self)@.remove(place_of(items_of(old(self)@), id@))
            } else {
                old(self)@
            },
    {
        proof {
            use_type_invariant(&*self);
        }
        match self.position(id) {
            None => false,
            Some(at) => {
                let ghost before = self@;
                proof {
                    assert(items_of(before)[at as int] == before[at as int].item());
                    lemma_place_of(items_of(before), at as int);
                    lemma_without(items_of(before), id@, id@);
                }
                let mut entries: Vec<Envelope> = Vec::new();
                std::mem::swap(&mut entries, &mut self.entries);
                entries.remove(at);
                proof {
                    let after = entries@.map_values(|e: Envelope| e@);
                    assert(after =~= before.remove(at as int));
                    assert(items_of(after) =~= items_of(before).remove(at as int));
                }
                self.entries = entries;
                true
            },
        }
    }

    /// Replaces the flags and the marker of the envelope `id`. Says whether
    /// it was listed.
    pub fn set_flags(&mut self, id: &String, flags: Flags, marker: u64) -> (updated: bool)
        ensures
            updated == has_name(items_of(old(self)@), id@),
            final(self)@ == if updated {
                let at = place_of(items_of(old(self)@), id@);
                old(self)@.update(
                    at,
                    EnvelopeView {
                        id: old(self)@[at].id,
                        flags,
                        size: old(self)@[at].size,
                        marker,
                        deleted: old(self)@[at].deleted,
                    },
                )
            } else {
                old(self)@
            },
    {
        proof {
            use_type_invariant(&*self);
        }
        match self.position(id) {
            None => false,
            Some(at) => {
                let ghost before = self@;
                proof {
                    assert(items_of(before)[at as int] == before[at as int].item());
                    lemma_place_of(items_of(before), at as int);
                }
                let mut entries: Vec<Envelope> = Vec::new();
                std::mem::swap(&mut entries, &mut self.entries);
                let changed = Envelope {
                    id: entries[at].id.clone(),
                    flags,
                    size: entries[at].size,
                    marker,
                    deleted: entries[at].deleted,
                };
                entries.set(at, changed);
                proof {
                    let after = entries@.map_values(|e: Envelope| e@);
                    assert(after =~= before.update(at as int, changed@));
                    assert(items_of(after) =~= items_of(before));
                }
                self.entries = entries;
                true
            },
        }
    }

    /// Brings the listing up to date with a hunk that was applied to this
    /// folder of this store.
    pub fn settle(&mut self, hunk: &EnvelopeHunk)
        ensures
            final(self)@ == envelope_settled(old(self)@, hunk@),
    {
        match hunk.change {
            EnvelopeChange::Create { flags, size, marker } => {
                self.insert(Envelope { id: hunk.id.clone(), flags, size, marker, deleted: false });
            },
            EnvelopeChange::UpdateFlags { flags, marker } => {
                self.set_flags(&hunk.id, flags, marker);
            },
            EnvelopeChange::Delete => {
                self.remove(&hunk.id);
            },
        }
    }
}

} // verus!
