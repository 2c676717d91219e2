//! Which folders a synchronization covers.

use vstd::prelude::*;
use crate::names::{contains_name, copy_names, name_set};

verus! {

/// The folders that take part in a synchronization.
#[derive(Debug)]
pub enum FolderSyncStrategy {
    /// Every folder.
    All,
    /// Only the folders named here.
    Include(Vec<String>),
    /// Every folder but those named here.
    Exclude(Vec<String>),
}

/// A strategy as contracts see it: the lists become sets of names.
pub enum StrategyView {
    All,
    Include(Set<Seq<char>>),
    Exclude(Set<Seq<char>>),
}

impl StrategyView {
    /// Whether the folder `name` takes part.
    pub open spec fn selects(self, name: Seq<char>) -> bool {
        match self {
            StrategyView::All => true,
            StrategyView::Include(names) => names.contains(name),
            StrategyView::Exclude(names) => !names.contains(name),
        }
    }
}

impl View for FolderSyncStrategy {
    type V = StrategyView;

    open spec fn view(&self) -> StrategyView {
        match self {
            FolderSyncStrategy::All => StrategyView::All,
            FolderSyncStrategy::Include(names) => StrategyView::Include(name_set(names@)),
            FolderSyncStrategy::Exclude(names) => StrategyView::Exclude(name_set(names@)),
        }
    }
}

impl FolderSyncStrategy {
    /// A copy of this strategy.
    pub fn duplicate(&self) -> (copy: FolderSyncStrategy)
        ensures
            copy@ == self@,
    {
        match self {
            FolderSyncStrategy::All => FolderSyncStrategy::All,
            FolderSyncStrategy::Include(names) => {
                let copied = copy_names(names);
                FolderSyncStrategy::Include(copied)
            },
            FolderSyncStrategy::Exclude(names) => {
                let copied = copy_names(names);
                FolderSyncStrategy::Exclude(copied)
            },
        }
    }

    /// Whether the folder `name` takes part in the synchronization.
    pub fn matches(&self, name: &String) -> (selected: bool)
        ensures
            selected == self@.selects(name@),
    {
        match self {
            FolderSyncStrategy::All => true,
            FolderSyncStrategy::Include(names) => contains_name(names, name),
            FolderSyncStrategy::Exclude(names) => !contains_name(names, name),
        }
    }
}

} // verus!
