//! The capability resolver: which backends a synchronization talks to.
//!
//! It decides before anything is planned, and it alone can fail a whole
//! run: every later failure is recorded in the report.

use vstd::prelude::*;
use crate::hunk::Side;

verus! {

/// The kinds of backend: a closed set.
#[derive(Clone, Copy, Debug, PartialEq, Eq, Structural)]
pub enum BackendKind {
    Imap,
    Maildir,
    /// The local copy that a synchronization keeps.
    MaildirForSync,
    Notmuch,
    Smtp,
    Sendmail,
}

impl BackendKind {
    /// The store that a backend of this kind serves in a synchronization,
    /// if it serves one: those that only send serve none.
    pub open spec fn spec_side(self) -> Option<Side> {
        match self {
            BackendKind::Imap => Some(Side::Remote),
            BackendKind::Maildir => Some(Side::Remote),
            BackendKind::Notmuch => Some(Side::Remote),
            BackendKind::MaildirForSync => Some(Side::Cache),
            BackendKind::Smtp => None,
            BackendKind::Sendmail => None,
        }
    }

    /// The store that a backend of this kind serves in a synchronization.
    #[verifier::when_used_as_spec(spec_side)]
    pub fn side(self) -> (side: Option<Side>)
        ensures
            side == self.spec_side(),
    {
        match self {
            BackendKind::Imap => Some(Side::Remote),
            BackendKind::Maildir => Some(Side::Remote),
            BackendKind::Notmuch => Some(Side::Remote),
            BackendKind::MaildirForSync => Some(Side::Cache),
            BackendKind::Smtp => None,
            BackendKind::Sendmail => None,
        }
    }

    /// Whether a backend of this kind needs credentials before it can be
    /// talked to.
    pub open spec fn spec_needs_credentials(self) -> bool {
        self == BackendKind::Imap || self == BackendKind::Smtp
    }

    /// Whether a backend of this kind needs credentials before it can be
    /// talked to.
    #[verifier::when_used_as_spec(spec_needs_credentials)]
    pub fn needs_credentials(self) -> (needed: bool)
        ensures
            needed == self.spec_needs_credentials(),
    {
        match self {
            BackendKind::Imap => true,
            BackendKind::Smtp => true,
            _ => false,
        }
    }
}

/// What an account declares, and what the program holds.
#[derive(Debug)]
pub struct Capabilities {
    /// The kinds that the features of the account use.
    pub used: Vec<BackendKind>,
    /// The kinds that the account configures.
    pub configured: Vec<BackendKind>,
    /// The kinds that the program can talk to.
    pub available: Vec<BackendKind>,
}

/// Capabilities as contracts see them.
pub struct CapabilitiesView {
    pub used: Seq<BackendKind>,
    pub configured: Seq<BackendKind>,
    pub available: Seq<BackendKind>,
}

impl View for Capabilities {
    type V = CapabilitiesView;

    open spec fn view(&self) -> CapabilitiesView {
        CapabilitiesView {
            used: self.used@,
            configured: self.configured@,
            available: self.available@,
        }
    }
}

/// Why no synchronization can start.
#[derive(Clone, Copy, Debug, PartialEq, Eq, Structural)]
pub enum ResolveError {
    /// The account uses and configures this kind, and the program cannot
    /// talk to it.
    Unavailable(BackendKind),
    /// The account uses and configures no backend for this store.
    Missing(Side),
}

/// The backends of a synchronization, decided and ready to be built.
#[derive(Debug)]
pub struct AccountSyncBackendBuilder {
    /// The kinds whose contexts are to be built, in a fixed order.
    pub contexts: Vec<BackendKind>,
    /// The kind that serves the remote store.
    pub remote: BackendKind,
    /// The kind that serves the cache.
    pub cache: BackendKind,
}

/// The backends of a synchronization as contracts see them.
pub struct ResolutionView {
    pub contexts: Seq<BackendKind>,
    pub remote: BackendKind,
    pub cache: BackendKind,
}

impl View for AccountSyncBackendBuilder {
    type V = ResolutionView;

    open spec fn view(&self) -> ResolutionView {
        ResolutionView { contexts: self.contexts@, remote: self.remote, cache: self.cache }
    }
}

impl CapabilitiesView {
    /// Whether the account asks for a backend of `kind`: it uses the kind
    /// and configures it.
    pub open spec fn wants(self, kind: BackendKind) -> bool {
        self.used.contains(kind) && self.configured.contains(kind)
    }

    /// Whether the account asks for a backend of `kind` that the program
    /// cannot talk to.
    pub open spec fn lacks(self, kind: BackendKind) -> bool {
        self.wants(kind) && !self.available.contains(kind)
    }

    /// The kind, if the account asks for it.
    pub open spec fn context(self, kind: BackendKind) -> Seq<BackendKind> {
        if self.wants(kind) {
            seq![kind]
        } else {
            Seq::empty()
        }
    }

    /// The kinds whose contexts are to be built. A kind that only sends
    /// takes no part in a synchronization.
    pub open spec fn contexts(self) -> Seq<BackendKind> {
        self.context(BackendKind::Imap) + self.context(BackendKind::Maildir) + self.context(
            BackendKind::MaildirForSync,
        ) + self.context(BackendKind::Notmuch)
    }

    /// The first kind that the account asks for and the program cannot
    /// talk to, if there is one.
    pub open spec fn first_lacking(self) -> Option<BackendKind> {
        if self.lacks(BackendKind::Imap) {
            Some(BackendKind::Imap)
        } else if self.lacks(BackendKind::Maildir) {
            Some(BackendKind::Maildir)
        } else if self.lacks(BackendKind::MaildirForSync) {
            Some(BackendKind::MaildirForSync)
        } else if self.lacks(BackendKind::Notmuch) {
            Some(BackendKind::Notmuch)
        } else {
            None
        }
    }

    /// The kind that serves the remote store, if the account asks for one.
    pub open spec fn remote(self) -> Option<BackendKind> {
        if self.wants(BackendKind::Imap) {
            Some(BackendKind::Imap)
        } else if self.wants(BackendKind::Maildir) {
            Some(BackendKind::Maildir)
        } else if self.wants(BackendKind::Notmuch) {
            Some(BackendKind::Notmuch)
        } else {
            None
        }
    }

    /// The kind that serves the cache, if the account asks for it.
    pub open spec fn cache(self) -> Option<BackendKind> {
        if self.wants(BackendKind::MaildirForSync) {
            Some(BackendKind::MaildirForSync)
        } else {
            None
        }
    }

    /// The backends of the synchronization, or why it cannot start.
    pub open spec fn resolved(self) -> Result<ResolutionView, ResolveError> {
        match self.first_lacking() {
            Some(kind) => Err(ResolveError::Unavailable(kind)),
            None => match (self.remote(), self.cache()) {
                (None, _) => Err(ResolveError::Missing(Side::Remote)),
                (Some(_), None) => Err(ResolveError::Missing(Side::Cache)),
                (Some(remote), Some(cache)) => Ok(
                    ResolutionView { contexts: self.contexts(), remote, cache },
                ),
            },
        }
    }
}

/// Whether `kind` is among `kinds`.
pub fn has_kind(kinds: &Vec<BackendKind>, kind: BackendKind) -> (found: bool)
    ensures
        found == kinds@.contains(kind),
{
    let mut i: usize = 0;
    while i < kinds.len()
        invariant
            i <= kinds.len(),
            forall|j: int| 0 <= j < i ==> kinds@[j] != kind,
        decreases kinds.len() - i,
    {
        if kinds[i] == kind {
            return true;
        }
        i += 1;
    }
    false
}

impl Capabilities {
    /// Whether the account asks for a backend of `kind`.
    pub fn wants(&self, kind: BackendKind) -> (wanted: bool)
        ensures
            wanted == self@.wants(kind),
    {
        has_kind(&self.used, kind) && has_kind(&self.configured, kind)
    }

    /// Whether the account asks for a backend of `kind` that the program
    /// cannot talk to.
    pub fn lacks(&self, kind: BackendKind) -> (lacking: bool)
        ensures
            lacking == self@.lacks(kind),
    {
        self.wants(kind) && !has_kind(&self.available, kind)
    }
}

impl AccountSyncBackendBuilder {
    /// Decides which backends the synchronization talks to: the kinds that
    /// the account uses and configures. Fails where the program cannot
    /// talk to one of them, and where none of them serves the remote store
    /// or none serves the cache.
    pub fn new(capabilities: &Capabilities) -> (resolution: Result<
        AccountSyncBackendBuilder,
        ResolveError,
    >)
        ensures
            match resolution {
                Ok(found) => capabilities@.resolved() == Ok::<ResolutionView, ResolveError>(
                    found@,
                ),
                Err(error) => capabilities@.resolved() == Err::<ResolutionView, ResolveError>(
                    error,
                ),
            },
    {
        let imap = capabilities.wants(BackendKind::Imap);
        let maildir = capabilities.wants(BackendKind::Maildir);
        let sync = capabilities.wants(BackendKind::MaildirForSync);
        let notmuch = capabilities.wants(BackendKind::Notmuch);
        if capabilities.lacks(BackendKind::Imap) {
            return Err(ResolveError::Unavailable(BackendKind::Imap));
        }
        if capabilities.lacks(BackendKind::Maildir) {
            return Err(ResolveError::Unavailable(BackendKind::Maildir));
        }
        if capabilities.lacks(BackendKind::MaildirForSync) {
            return Err(ResolveError::Unavailable(BackendKind::MaildirForSync));
        }
        if capabilities.lacks(BackendKind::Notmuch) {
            return Err(ResolveError::Unavailable(BackendKind::Notmuch));
        }
        let remote = if imap {
            BackendKind::Imap
        } else if maildir {
            BackendKind::Maildir
        } else if notmuch {
            BackendKind::Notmuch
        } else {
            return Err(ResolveError::Missing(Side::Remote));
        };
        if !sync {
            return Err(ResolveError::Missing(Side::Cache));
        }
        let mut contexts: Vec<BackendKind> = Vec::new();
        if imap {
            contexts.push(BackendKind::Imap);
        }
        if maildir {
            contexts.push(BackendKind::Maildir);
        }
        contexts.push(BackendKind::MaildirForSync);
        if notmuch {
            contexts.push(BackendKind::Notmuch);
        }
        proof {
            assert(contexts@ =~= capabilities@.contexts());
        }
        Ok(AccountSyncBackendBuilder { contexts, remote, cache: BackendKind::MaildirForSync })
    }
}

} // verus!
