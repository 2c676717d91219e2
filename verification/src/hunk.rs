//! Hunks: single directional changes that bring one store in line with the
//! other.

use vstd::prelude::*;
use vstd::string::StringExecFns;

verus! {

/// The two stores that a synchronization reconciles.
#[derive(Clone, Copy, Debug, PartialEq, Eq, Structural)]
pub enum Side {
    /// The authoritative store, reached through a protocol.
    Remote,
    /// The local, file-backed copy.
    Cache,
}

impl Side {
    /// The other store.
    pub open spec fn spec_opposite(self) -> Side {
        match self {
            Side::Remote => Side::Cache,
            Side::Cache => Side::Remote,
        }
    }

    /// The other store.
    #[verifier::when_used_as_spec(spec_opposite)]
    pub fn opposite(self) -> (other: Side)
        ensures
            other == self.spec_opposite(),
    {
        match self {
            Side::Remote => Side::Cache,
            Side::Cache => Side::Remote,
        }
    }
}

/// What a folder hunk does to its target.
#[derive(Clone, Copy, Debug, PartialEq, Eq, Structural)]
pub enum FolderChange {
    Create,
    Delete,
}

/// One change to the folders of one store.
#[derive(Debug)]
pub struct FolderHunk {
    /// The folder that the change affects.
    pub name: String,
    /// The store on which the change is made.
    pub target: Side,
    pub change: FolderChange,
}

/// A folder hunk as contracts see it.
pub struct FolderHunkView {
    pub name: Seq<char>,
    pub target: Side,
    pub change: FolderChange,
}

impl View for FolderHunk {
    type V = FolderHunkView;

    open spec fn view(&self) -> FolderHunkView {
        FolderHunkView { name: self.name@, target: self.target, change: self.change }
    }
}

impl FolderHunk {
    /// The hunk that creates the folder `name` on `target`.
    pub fn create(name: String, target: Side) -> (hunk: FolderHunk)
        ensures
            hunk@ == (FolderHunkView { name: name@, target, change: FolderChange::Create }),
    {
        FolderHunk { name, target, change: FolderChange::Create }
    }

    /// The hunk that deletes the folder `name` from `target`.
    pub fn delete(name: String, target: Side) -> (hunk: FolderHunk)
        ensures
            hunk@ == (FolderHunkView { name: name@, target, change: FolderChange::Delete }),
    {
        FolderHunk { name, target, change: FolderChange::Delete }
    }

    /// A copy of this hunk.
    pub fn duplicate(&self) -> (copy: FolderHunk)
        ensures
            copy@ == self@,
    {
        FolderHunk { name: self.name.clone(), target: self.target, change: self.change }
    }

    /// The folder that the change affects.
    pub fn folder(&self) -> (name: &String)
        ensures
            name@ == self@.name,
    {
        &self.name
    }
}

/// The flags of an envelope.
#[derive(Clone, Copy, Debug, PartialEq, Eq, Structural)]
pub struct Flags {
    pub seen: bool,
    pub answered: bool,
    pub flagged: bool,
    pub draft: bool,
}

/// What an envelope hunk does to its target.
#[derive(Clone, Copy, Debug, PartialEq, Eq, Structural)]
pub enum EnvelopeChange {
    /// The envelope is added, with these flags, size and mutation marker.
    Create { flags: Flags, size: u64, marker: u64 },
    /// The envelope's flags are replaced, and its mutation marker with them.
    UpdateFlags { flags: Flags, marker: u64 },
    Delete,
}

/// One change to the envelopes of one folder of one store.
#[derive(Debug)]
pub struct EnvelopeHunk {
    /// The folder that holds the envelope.
    pub folder: String,
    /// The identifier of the envelope, the same on both stores.
    pub id: String,
    /// The store on which the change is made.
    pub target: Side,
    pub change: EnvelopeChange,
}

/// An envelope hunk as contracts see it.
pub struct EnvelopeHunkView {
    pub folder: Seq<char>,
    pub id: Seq<char>,
    pub target: Side,
    pub change: EnvelopeChange,
}

impl View for EnvelopeHunk {
    type V = EnvelopeHunkView;

    open spec fn view(&self) -> EnvelopeHunkView {
        EnvelopeHunkView {
            folder: self.folder@,
            id: self.id@,
            target: self.target,
            change: self.change,
        }
    }
}

impl EnvelopeHunk {
    /// A copy of this hunk.
    pub fn duplicate(&self) -> (copy: EnvelopeHunk)
        ensures
            copy@ == self@,
    {
        EnvelopeHunk {
            folder: self.folder.clone(),
            id: self.id.clone(),
            target: self.target,
            change: self.change,
        }
    }

    /// The folder that holds the envelope.
    pub fn folder(&self) -> (name: &String)
        ensures
            name@ == self@.folder,
    {
        &self.folder
    }
}

/// How a store is called in messages.
pub open spec fn side_text(side: Side) -> Seq<char> {
    match side {
        Side::Remote => "remote"@,
        Side::Cache => "cache"@,
    }
}

/// What a folder hunk does, in words.
pub open spec fn folder_hunk_text(hunk: FolderHunkView) -> Seq<char> {
    (match hunk.change {
        FolderChange::Create => "Creating "@,
        FolderChange::Delete => "Deleting "@,
    }) + side_text(hunk.target) + " folder "@ + hunk.name
}

/// What an envelope hunk does, in words.
pub open spec fn envelope_hunk_text(hunk: EnvelopeHunkView) -> Seq<char> {
    (match hunk.change {
        EnvelopeChange::Create { .. } => "Adding envelope "@ + hunk.id + " to "@,
        EnvelopeChange::UpdateFlags { .. } => "Updating flags of envelope "@ + hunk.id + " in "@,
        EnvelopeChange::Delete => "Removing envelope "@ + hunk.id + " from "@,
    }) + side_text(hunk.target) + " folder "@ + hunk.folder
}

impl Side {
    /// How the store is called in messages.
    pub fn name(self) -> (text: &'static str)
        ensures
            text@ == side_text(self),
    {
        match self {
            Side::Remote => "remote",
            Side::Cache => "cache",
        }
    }
}

impl FolderHunk {
    /// What the hunk does, in words.
    pub fn describe(&self) -> (text: String)
        ensures
            text@ == folder_hunk_text(self@),
    {
        let mut text = match self.change {
            FolderChange::Create => String::from_str("Creating "),
            FolderChange::Delete => String::from_str("Deleting "),
        };
        text.append(self.target.name());
        text.append(" folder ");
        text.append(self.name.as_str());
        text
    }
}

impl EnvelopeHunk {
    /// What the hunk does, in words.
    pub fn describe(&self) -> (text: String)
        ensures
            text@ == envelope_hunk_text(self@),
    {
        let mut text = match self.change {
            EnvelopeChange::Create { .. } => String::from_str("Adding envelope "),
            EnvelopeChange::UpdateFlags { .. } => String::from_str("Updating flags of envelope "),
            EnvelopeChange::Delete => String::from_str("Removing envelope "),
        };
        text.append(self.id.as_str());
        match self.change {
            EnvelopeChange::Create { .. } => text.append(" to "),
            EnvelopeChange::UpdateFlags { .. } => text.append(" in "),
            EnvelopeChange::Delete => text.append(" from "),
        }
        text.append(self.target.name());
        text.append(" folder ");
        text.append(self.folder.as_str());
        text
    }
}

} // verus!
