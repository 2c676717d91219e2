use mail_sync::account::{
    effective_strategy, AccountNameArg, AccountNameFlag, AccountSyncCommand, SelectionConflict,
};
use mail_sync::folder::FolderWatchCommand;
use mail_sync::message::{MessageSaveCommand, MessageSendCommand};
use mail_sync::resolver::BackendKind::{Imap, Maildir, MaildirForSync, Notmuch, Sendmail, Smtp};
use mail_sync::resolver::{AccountSyncBackendBuilder, BackendKind, Capabilities, ResolveError};
use mail_sync::hunk::Side;
use mail_sync::session::Phase;
use mail_sync::strategy::FolderSyncStrategy;
use mail_sync::text::{decimal_text, join};

fn sync_command(only: &[&str], exclude: &[&str], all: bool) -> AccountSyncCommand {
    AccountSyncCommand {
        account: AccountNameFlag { name: None },
        dry_run: true,
        include_folder: only.iter().map(|s| s.to_string()).collect(),
        exclude_folder: exclude.iter().map(|s| s.to_string()).collect(),
        all_folders: all,
    }
}

fn lines(list: &[&str]) -> Vec<String> {
    list.iter().map(|s| s.to_string()).collect()
}

#[test]
fn command_selects_folders_in_one_way_at_most() {
    assert!(matches!(sync_command(&[], &[], false).strategy(), Ok(None)));
    assert!(matches!(sync_command(&[], &[], true).strategy(), Ok(Some(FolderSyncStrategy::All))));
    match sync_command(&["INBOX", "Sent"], &[], false).strategy() {
        Ok(Some(FolderSyncStrategy::Include(names))) => assert_eq!(names, lines(&["INBOX", "Sent"])),
        other => panic!("unexpected strategy {:?}", other),
    }
    match sync_command(&[], &["Junk"], false).strategy() {
        Ok(Some(FolderSyncStrategy::Exclude(names))) => assert_eq!(names, lines(&["Junk"])),
        other => panic!("unexpected strategy {:?}", other),
    }
    assert_eq!(sync_command(&["INBOX"], &["Junk"], false).strategy().err(), Some(SelectionConflict));
    assert_eq!(sync_command(&["INBOX"], &[], true).strategy().err(), Some(SelectionConflict));
    assert_eq!(sync_command(&[], &["Junk"], true).strategy().err(), Some(SelectionConflict));
    assert_eq!(sync_command(&["A"], &["B"], true).strategy().err(), Some(SelectionConflict));
}

#[test]
fn command_without_selection_takes_the_strategy_of_the_account() {
    let default = FolderSyncStrategy::Exclude(lines(&["Junk"]));
    let strategy = effective_strategy(None, default);
    assert!(!strategy.matches(&"Junk".to_string()));
    assert!(strategy.matches(&"INBOX".to_string()));
    let strategy =
        effective_strategy(Some(FolderSyncStrategy::All), FolderSyncStrategy::Include(vec![]));
    assert!(strategy.matches(&"Junk".to_string()));
}

#[test]
fn command_starts_a_run() {
    let session = sync_command(&[], &[], false).execute(FolderSyncStrategy::All).unwrap();
    assert_eq!(session.phase(), Phase::Idle);
    assert!(session.is_dry_run());
    assert!(!session.is_finished());
    assert!(sync_command(&["A"], &["B"], false).execute(FolderSyncStrategy::All).is_err());
}

#[test]
fn account_arguments_hold_a_name() {
    let arg = AccountNameArg { name: "work".to_string() };
    assert_eq!(arg.name, "work");
    let flag = AccountNameFlag { name: Some("home".to_string()) };
    assert_eq!(flag.name.as_deref(), Some("home"));
}

#[test]
fn saved_message_comes_from_arguments_or_from_the_pipe() {
    let command = MessageSaveCommand {
        folder: "Drafts".to_string(),
        body: lines(&["From:", "me"]),
        cache_disabled: false,
        account: AccountNameFlag { name: None },
    };
    let piped = lines(&["Subject: hi", "", "text"]);
    let plan = command.execute(false, false, &piped);
    assert_eq!(plan.folder, "Drafts");
    assert_eq!(plan.message, "Subject: hi\r\n\r\ntext");
    assert_eq!(plan.confirmation, "Message successfully saved to Drafts!");
    assert_eq!(command.execute(true, false, &piped).message, "From: me");
    assert_eq!(command.execute(false, true, &piped).message, "From: me");
    assert_eq!(command.execute(false, false, &vec![]).message, "");
    assert!(MessageSaveCommand::reads_arguments(true, true));
    assert!(!MessageSaveCommand::reads_arguments(false, false));
}

#[test]
fn sent_message_needs_the_sender_and_maybe_the_saver() {
    let command = MessageSendCommand {
        message: lines(&["hello"]),
        cache_disabled: true,
        account: AccountNameFlag { name: None },
    };
    let piped = lines(&["a", "b"]);
    let plan = command.execute(Some(BackendKind::Smtp), Some(BackendKind::Imap), true, false, &piped);
    assert_eq!(plan.backends, vec![BackendKind::Smtp, BackendKind::Imap]);
    assert_eq!(plan.message, "a\r\nb");
    assert_eq!(plan.confirmation, "Message successfully sent!");
    let plan = command.execute(Some(BackendKind::Sendmail), Some(BackendKind::Maildir), false, true, &piped);
    assert_eq!(plan.backends, vec![BackendKind::Sendmail]);
    assert_eq!(plan.message, "hello");
    let plan = command.execute(None, Some(BackendKind::Maildir), true, true, &piped);
    assert_eq!(plan.backends, vec![BackendKind::Maildir]);
    assert!(command.execute(None, None, true, true, &piped).backends.is_empty());
}

#[test]
fn watch_says_which_folder_it_watches() {
    let command = FolderWatchCommand {
        folder: "INBOX".to_string(),
        cache_disabled: false,
        account: AccountNameFlag { name: None },
    };
    let plan = command.execute();
    assert_eq!(plan.folder, "INBOX");
    assert_eq!(plan.notice, "Start watching folder INBOX for changes…");
}

#[test]
fn text_is_joined_and_numbers_are_written() {
    assert_eq!(join(&lines(&[]), ", "), "");
    assert_eq!(join(&lines(&["a"]), ", "), "a");
    assert_eq!(join(&lines(&["a", "", "c"]), ", "), "a, , c");
    assert_eq!(decimal_text(0), "0");
    assert_eq!(decimal_text(7), "7");
    assert_eq!(decimal_text(10), "10");
    assert_eq!(decimal_text(1234567890), "1234567890");
    assert_eq!(decimal_text(u128::MAX), u128::MAX.to_string());
}

fn capabilities(used: &[BackendKind], configured: &[BackendKind], available: &[BackendKind]) -> Capabilities {
    Capabilities { used: used.to_vec(), configured: configured.to_vec(), available: available.to_vec() }
}

#[test]
fn resolver_builds_what_the_account_uses_and_configures() {
    let every = [Imap, Maildir, MaildirForSync, Notmuch, Smtp, Sendmail];
    let found = AccountSyncBackendBuilder::new(&capabilities(
        &[Smtp, MaildirForSync, Imap, Notmuch],
        &[Imap, Maildir, MaildirForSync, Smtp],
        &every,
    ))
    .unwrap();
    assert_eq!(found.contexts, vec![Imap, MaildirForSync]);
    assert_eq!(found.remote, Imap);
    assert_eq!(found.cache, MaildirForSync);

    let found = AccountSyncBackendBuilder::new(&capabilities(&every, &every, &every)).unwrap();
    assert_eq!(found.contexts, vec![Imap, Maildir, MaildirForSync, Notmuch]);
    assert_eq!(found.remote, Imap);

    let found = AccountSyncBackendBuilder::new(&capabilities(
        &[Notmuch, MaildirForSync],
        &[Notmuch, MaildirForSync],
        &[MaildirForSync, Notmuch],
    ))
    .unwrap();
    assert_eq!(found.contexts, vec![MaildirForSync, Notmuch]);
    assert_eq!(found.remote, Notmuch);
}

#[test]
fn resolver_fails_before_anything_is_planned() {
    let every = [Imap, Maildir, MaildirForSync, Notmuch, Smtp, Sendmail];
    let err = |c: Capabilities| AccountSyncBackendBuilder::new(&c).err();
    assert_eq!(
        err(capabilities(&every, &every, &[Imap, MaildirForSync])),
        Some(ResolveError::Unavailable(Maildir))
    );
    assert_eq!(
        err(capabilities(&[Imap, MaildirForSync], &[Imap, MaildirForSync], &[])),
        Some(ResolveError::Unavailable(Imap))
    );
    // A kind that is not configured, or not used, is not missed.
    assert!(AccountSyncBackendBuilder::new(&capabilities(
        &every,
        &[Imap, MaildirForSync],
        &[Imap, MaildirForSync]
    ))
    .is_ok());
    assert_eq!(
        err(capabilities(&[MaildirForSync, Smtp], &every, &every)),
        Some(ResolveError::Missing(Side::Remote))
    );
    assert_eq!(err(capabilities(&[Imap], &every, &every)), Some(ResolveError::Missing(Side::Cache)));
    assert_eq!(err(capabilities(&[], &[], &[])), Some(ResolveError::Missing(Side::Remote)));
}

#[test]
fn kinds_serve_a_store_or_none() {
    assert_eq!(Imap.side(), Some(Side::Remote));
    assert_eq!(Maildir.side(), Some(Side::Remote));
    assert_eq!(Notmuch.side(), Some(Side::Remote));
    assert_eq!(MaildirForSync.side(), Some(Side::Cache));
    assert_eq!(Smtp.side(), None);
    assert_eq!(Sendmail.side(), None);
    assert!(Imap.needs_credentials());
    assert!(Smtp.needs_credentials());
    assert!(!MaildirForSync.needs_credentials());
    assert_eq!(Side::Remote.opposite(), Side::Cache);
    assert_eq!(Side::Cache.opposite(), Side::Remote);
}
