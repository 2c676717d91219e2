//! The account arguments, and the command that synchronizes an account.

use vstd::prelude::*;
use crate::names::{copy_names, name_set};
use crate::session::{Session, SessionView};
use crate::strategy::{FolderSyncStrategy, StrategyView};

verus! {

/// The name of an account, given as an argument.
#[derive(Debug)]
pub struct AccountNameArg {
    /// The name of the account: an entry of the configuration.
    pub name: String,
}

/// The name of an account, given as a flag that overrides the default
/// account.
#[derive(Debug)]
pub struct AccountNameFlag {
    /// The name of the account, where the flag was given.
    pub name: Option<String>,
}

/// Synchronizes an account: all folders and emails of the remote store with
/// their local copy.
#[derive(Debug)]
pub struct AccountSyncCommand {
    pub account: AccountNameFlag,
    /// Plan only: report the changes and apply none.
    pub dry_run: bool,
    /// Synchronize only these folders.
    pub include_folder: Vec<String>,
    /// Synchronize every folder but these.
    pub exclude_folder: Vec<String>,
    /// Synchronize every folder.
    pub all_folders: bool,
}

/// More than one way of selecting folders was asked for at once.
#[derive(Clone, Copy, Debug, PartialEq, Eq, Structural)]
pub struct SelectionConflict;

impl AccountSyncCommand {
    /// How many of the three ways of selecting folders the command asks
    /// for: folders to take in, folders to leave out, all folders.
    pub open spec fn selections(&self) -> nat {
        (if self.include_folder@.len() > 0 {
            1nat
        } else {
            0
        }) + (if self.exclude_folder@.len() > 0 {
            1nat
        } else {
            0
        }) + (if self.all_folders {
            1nat
        } else {
            0
        })
    }

    /// The strategy that the command asks for, as contracts see it.
    pub open spec fn chosen(&self) -> Option<StrategyView> {
        if self.include_folder@.len() > 0 {
            Some(StrategyView::Include(name_set(self.include_folder@)))
        } else if self.exclude_folder@.len() > 0 {
            Some(StrategyView::Exclude(name_set(self.exclude_folder@)))
        } else if self.all_folders {
            Some(StrategyView::All)
        } else {
            None
        }
    }

    /// The folder strategy that the command asks for. The three ways of
    /// selecting folders exclude each other: with more than one of them
    /// the command is refused. With none, the account's own strategy is to
    /// be used, and `None` comes back.
    pub fn strategy(&self) -> (chosen: Result<Option<FolderSyncStrategy>, SelectionConflict>)
        ensures
            chosen.is_err() == (self.selections() > 1),
            match chosen {
                Ok(Some(strategy)) => self.chosen() == Some(strategy@),
                Ok(None) => self.chosen().is_none(),
                Err(_) => true,
            },
    {
        let including = self.include_folder.len() > 0;
        let excluding = self.exclude_folder.len() > 0;
        if (including && excluding) || (including && self.all_folders) || (excluding
            && self.all_folders) {
            Err(SelectionConflict)
        } else if including {
            Ok(Some(FolderSyncStrategy::Include(copy_names(&self.include_folder))))
        } else if excluding {
            Ok(Some(FolderSyncStrategy::Exclude(copy_names(&self.exclude_folder))))
        } else if self.all_folders {
            Ok(Some(FolderSyncStrategy::All))
        } else {
            Ok(None)
        }
    }
}

impl AccountSyncCommand {
    /// Starts the synchronization that the command asks for: a run over
    /// the folders that the command selects, or where it selects none, over
    /// those of the account's own strategy; a dry run where the command says
    /// so. A command that selects folders in more than one way is refused.
    pub fn execute(&self, account_default: FolderSyncStrategy) -> (run: Result<
        Session,
        SelectionConflict,
    >)
        ensures
            run.is_err() == (self.selections() > 1),
            match run {
                Ok(session) => session.wf() && session@ == SessionView::start(
                    match self.chosen() {
                        Some(asked) => asked,
                        None => account_default@,
                    },
                    self.dry_run,
                ),
                Err(_) => true,
            },
    {
        match self.strategy() {
            Err(conflict) => Err(conflict),
            Ok(chosen) => Ok(Session::new(effective_strategy(chosen, account_default), self.dry_run)),
        }
    }
}

/// The strategy of a synchronization: the one that was asked for, else the
/// account's own.
pub fn effective_strategy(
    chosen: Option<FolderSyncStrategy>,
    account_default: FolderSyncStrategy,
) -> (strategy: FolderSyncStrategy)
    ensures
        strategy == match chosen {
            Some(asked) => asked,
            None => account_default,
        },
{
    match chosen {
        Some(asked) => asked,
        None => account_default,
    }
}

} // verus!
