//! The command that watches a folder.

use vstd::prelude::*;
use vstd::string::StringExecFns;
use crate::account::AccountNameFlag;

verus! {

/// Watches a folder for changes.
#[derive(Debug)]
pub struct FolderWatchCommand {
    /// The folder to watch.
    pub folder: String,
    /// Whether the local cache is left aside.
    pub cache_disabled: bool,
    pub account: AccountNameFlag,
}

/// What watching a folder comes to: the line is logged, and then the
/// folder is watched.
#[derive(Debug)]
pub struct WatchPlan {
    pub folder: String,
    pub notice: String,
}

impl FolderWatchCommand {
    /// Works out what the command comes to: which folder is watched, and
    /// what is said before.
    pub fn execute(&self) -> (plan: WatchPlan)
        ensures
            plan.folder@ == self.folder@,
            plan.notice@ == "Start watching folder "@ + self.folder@ + " for changes…"@,
    {
        WatchPlan { folder: self.folder.clone(), notice: self.notice() }
    }

    /// What the command says before it starts to watch.
    pub fn notice(&self) -> (line: String)
        ensures
            line@ == "Start watching folder "@ + self.folder@ + " for changes…"@,
    {
        let mut line = String::from_str("Start watching folder ");
        line.append(self.folder.as_str());
        line.append(" for changes…");
        line
    }
}

} // verus!
