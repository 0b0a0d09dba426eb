use drive_workspace::decimal::{format_i64, parse_i32};
use drive_workspace::errors::AccountError;
use drive_workspace::guard::{operation_account, AccountGuard, OperationAction, OperationError, OperationRun};
use drive_workspace::keys::{file_key, message_key};
use drive_workspace::lifecycle::{resume, suspend, WorkspaceLifecycle};
use drive_workspace::owner::{stored_identity, OwnerEvent, OwnerLookup, OwnerRead};
use drive_workspace::registry::{
    opened_identity, same_identity, verified_owner, AuthenticationSession, PeerSummary,
    RegisteredSession, SessionRegistry,
};
use drive_workspace::scan::{
    IndexAction, IndexError, IndexEvent, IndexRun,
    check_index_request, check_scan_complete, remove_pattern, scan_folder_name, BackgroundState,
    ScanError,
};

const ROOT: &str = "/w";
const FILE: Option<(u64, u64)> = Some((3, 9));

fn ready(session: u64, generation: u64) -> RegisteredSession {
    RegisteredSession { session, identity: FILE, generation, ready: true }
}

#[test]
fn sign_out_ends_every_captured_account() {
    let mut lifecycle = WorkspaceLifecycle::new();
    let guard = AccountGuard::open(ROOT, Some("101"), 0, Ok(101), 0).unwrap();
    assert!(guard.validate(lifecycle.generation, Ok(101)).is_ok());
    suspend(&mut lifecycle);
    assert!(lifecycle.signing_out);
    assert_eq!(guard.validate(lifecycle.generation, Ok(101)), Err(AccountError::DifferentSession));
    resume(&mut lifecycle);
    assert!(!lifecycle.signing_out);
    assert_eq!(guard.validate(lifecycle.generation, Ok(101)), Err(AccountError::DifferentSession));
    assert_eq!(guard.validate(0, Ok(202)), Err(AccountError::DifferentSession));
    assert_eq!(guard.validate(0, Err(AccountError::Unavailable)), Err(AccountError::Unavailable));
}

#[test]
fn every_sign_out_moves_the_epoch_even_at_the_end_of_the_range() {
    let mut lifecycle = WorkspaceLifecycle { signing_out: false, generation: u64::MAX };
    lifecycle.suspend();
    assert_eq!(lifecycle.generation, 0);
    let mut lifecycle = WorkspaceLifecycle::default();
    suspend(&mut lifecycle);
    assert_eq!(lifecycle.generation, 1);
    assert!(lifecycle.signing_out);
}

#[test]
fn opening_an_account_checks_the_expected_owner_and_the_epoch() {
    let guard = AccountGuard::open(ROOT, Some("101"), 4, Ok(101), 4).unwrap();
    assert_eq!(guard.owner, 101);
    assert_eq!(guard.root, ROOT);
    assert!(AccountGuard::open(ROOT, None, 4, Ok(-7), 4).is_ok());
    assert_eq!(AccountGuard::open(ROOT, Some("-7"), 4, Ok(-7), 4).unwrap().owner, -7);
    for expected in ["0101", "+101", "102", " 101", ""] {
        assert_eq!(
            AccountGuard::open(ROOT, Some(expected), 4, Ok(101), 4).unwrap_err(),
            AccountError::ReopenWorkspace
        );
    }
    assert_eq!(
        AccountGuard::open(ROOT, None, 4, Ok(101), 5).unwrap_err().message(),
        "ACCOUNT_CHANGED: Reopen your workspace for the current account"
    );
    assert_eq!(
        AccountGuard::open(ROOT, Some("202"), 4, Err(AccountError::SignInRequired), 5).unwrap_err(),
        AccountError::SignInRequired
    );
}

#[test]
fn a_client_of_another_account_is_refused_first() {
    let guard = AccountGuard::open(ROOT, None, 0, Ok(5), 0).unwrap();
    assert_eq!(guard.validate_client_owner(6, 0, Ok(5)), Err(AccountError::OtherClientAccount));
    assert_eq!(guard.validate_client_owner(6, 9, Err(AccountError::Unavailable)), Err(AccountError::OtherClientAccount));
    assert_eq!(guard.validate_client_owner(5, 9, Ok(5)), Err(AccountError::DifferentSession));
    assert!(guard.validate_client_owner(5, 0, Ok(5)).is_ok());
}

#[test]
fn operations_keep_their_owner_and_report_a_later_change() {
    let guard = AccountGuard::open(ROOT, None, 0, Ok(5), 0).unwrap();
    assert_eq!(operation_account(Some(guard.clone()), 0, Ok(5)).unwrap().unwrap().owner, 5);
    assert_eq!(operation_account(Some(guard.clone()), 0, Ok(6)).unwrap_err(), AccountError::DifferentSession);
    assert!(operation_account(None, 3, Err(AccountError::Unavailable)).unwrap().is_none());
    assert_eq!(guard.owner(), 5);
    assert_eq!(guard.root(), ROOT);
    assert_eq!(guard.generation(), 0);
    let run = OperationRun::start(&guard, 0, Ok(5)).operation_done(Ok(7));
    assert_eq!(run.next_action(), OperationAction::Revalidate);
    assert_eq!(run.revalidate(0, Ok(5)).outcome(), Some(Ok(7)));
    let changed = OperationRun::start(&guard, 0, Ok(5)).operation_done(Ok(7)).revalidate(1, Ok(5));
    assert_eq!(
        changed.outcome().unwrap().unwrap_err().message(),
        "ACCOUNT_CHANGED: This operation belongs to a different session"
    );
    let failed = OperationRun::start(&guard, 0, Ok(5)).operation_done(Err::<u8, _>("upload failed".into()));
    assert_eq!(failed.next_action(), OperationAction::Finished);
    assert_eq!(failed.outcome(), Some(Err(OperationError::Failed("upload failed".into()))));
    let refused = OperationRun::<u8>::start(&guard, 0, Ok(6));
    assert_eq!(refused.next_action(), OperationAction::Finished);
    assert_eq!(refused.outcome(), Some(Err(OperationError::Account(AccountError::DifferentSession))));
}

#[test]
fn a_sign_in_reply_after_logout_cannot_complete_or_resume() {
    let mut lifecycle = WorkspaceLifecycle::new();
    let mut registry = SessionRegistry::new();
    registry.insert(ROOT.to_string(), ready(1, 0));
    let sign_in = AuthenticationSession::capture_in(&registry, &lifecycle, 1, FILE).unwrap();
    suspend(&mut lifecycle);
    let peer = PeerSummary { user: true, id: 101, is_self: Some(true) };
    assert_eq!(sign_in.begin_completion(&registry, &lifecycle, FILE, &peer), Err(AccountError::RestartSignIn));
    assert_eq!(sign_in.finish_completion(&registry, &mut lifecycle, FILE), Err(AccountError::RestartSignIn));
    assert!(lifecycle.signing_out);
}

#[test]
fn a_sign_in_completes_only_through_its_own_store_and_file() {
    let mut lifecycle = WorkspaceLifecycle::new();
    suspend(&mut lifecycle);
    let mut registry = SessionRegistry::new();
    registry.insert(ROOT.to_string(), ready(1, 1));
    assert_eq!(
        AuthenticationSession::capture_in(&registry, &lifecycle, 2, FILE).err(),
        Some(AccountError::RestartSignIn)
    );
    assert_eq!(
        AuthenticationSession::capture_in(&registry, &lifecycle, 1, Some((3, 10))).err(),
        Some(AccountError::RestartSignIn)
    );
    let sign_in = AuthenticationSession::capture_in(&registry, &lifecycle, 1, FILE).unwrap();
    let bot = PeerSummary { user: true, id: 101, is_self: Some(true) };
    let other = PeerSummary { user: true, id: 101, is_self: Some(false) };
    let channel = PeerSummary { user: false, id: 101, is_self: Some(true) };
    let huge = PeerSummary { user: true, id: 0x10000000000, is_self: Some(true) };
    for peer in [other, channel, huge] {
        assert_eq!(
            sign_in.begin_completion(&registry, &lifecycle, FILE, &peer).unwrap_err().message(),
            "ACCOUNT_UNAVAILABLE: Telegram did not confirm a valid account"
        );
    }
    assert!(sign_in.begin_completion(&registry, &lifecycle, FILE, &bot).is_ok());
    let mut replaced = SessionRegistry::new();
    replaced.insert(ROOT.to_string(), ready(2, 1));
    assert!(sign_in.validate_in(&replaced, &lifecycle, FILE).is_err());
    sign_in.finish_completion(&registry, &mut lifecycle, FILE).unwrap();
    assert!(!lifecycle.signing_out);
    assert_eq!(lifecycle.generation, 1);
}

#[test]
fn a_new_store_serves_owner_reads_only_after_its_layout_check() {
    let mut registry = SessionRegistry::new();
    registry.record_opened(ROOT.to_string(), 1, 0, FILE, &vec![1]);
    assert_eq!(registry.get(ROOT).map(|r| r.ready), Some(false));
    assert_eq!(registry.check_registration(ROOT, 1, 0, FILE), Ok(false));
    assert_eq!(registry.check_registration(ROOT, 2, 0, FILE), Err(AccountError::SessionReplaced));
    assert_eq!(registry.check_registration(ROOT, 1, 1, FILE), Err(AccountError::SessionReplaced));
    assert_eq!(registry.check_registration(ROOT, 1, 0, Some((3, 10))), Err(AccountError::SessionReplaced));
    assert_eq!(registry.check_registration("/other", 1, 0, FILE), Err(AccountError::Unavailable));
    assert_eq!(registry.confirm_registration(ROOT, Err(AccountError::Unavailable), 0, FILE), Err(AccountError::Unavailable));
    assert_eq!(registry.get(ROOT).map(|r| r.ready), Some(false));
    assert_eq!(registry.confirm_registration(ROOT, Ok(None), 1, FILE), Err(AccountError::SessionReplaced));
    assert_eq!(registry.confirm_registration("/other", Ok(None), 0, FILE), Err(AccountError::Unavailable));
    assert_eq!(registry.confirm_registration(ROOT, Ok(None), 0, FILE), Ok(()));
    assert_eq!(registry.check_registration(ROOT, 1, 0, FILE), Ok(true));
    let mut lookup = OwnerLookup::start(false, true, 0).step(OwnerEvent::Registration(registry.get(ROOT)));
    lookup = lookup.step(OwnerEvent::FileIdentity(FILE));
    assert_eq!(lookup.next_read(), OwnerRead::Peer);
}

#[test]
fn the_registry_drops_closed_stores_and_reuses_only_a_current_one() {
    let mut registry = SessionRegistry::new();
    registry.record_opened("/a".to_string(), 1, 0, FILE, &vec![1]);
    registry.record_opened("/b".to_string(), 2, 0, None, &vec![1, 2]);
    assert_eq!(registry.reusable_session("/a", 0, FILE), Some(1));
    assert_eq!(registry.reusable_session("/a", 1, FILE), None);
    assert_eq!(registry.reusable_session("/a", 0, None), None);
    assert_eq!(registry.reusable_session("/b", 0, None), None);
    registry.record_opened("/c".to_string(), 3, 0, FILE, &vec![2, 3]);
    assert!(registry.get("/a").is_none());
    assert!(registry.root_of(1).is_none());
    assert_eq!(registry.root_of(2), Some("/b".to_string()));
    registry.retain_live(&vec![]);
    assert!(registry.get("/b").is_none() && registry.get("/c").is_none());
    assert_eq!(opened_identity(None, FILE), FILE);
    assert_eq!(opened_identity(FILE, FILE), FILE);
    assert_eq!(opened_identity(Some((1, 1)), FILE), None);
    assert_eq!(opened_identity(FILE, None), None);
    assert!(same_identity(None, None) && !same_identity(FILE, None));
}

fn finish(lookup: OwnerLookup) -> Result<i64, AccountError> {
    lookup.outcome().unwrap()
}

#[test]
fn owner_lookups_refuse_sign_out_missing_files_and_unready_stores() {
    assert_eq!(finish(OwnerLookup::start(true, true, 0)), Err(AccountError::SigningOut));
    assert_eq!(
        finish(OwnerLookup::start(false, false, 0)).unwrap_err().message(),
        "ACCOUNT_REQUIRED: Sign in to open your workspace"
    );
    let unready = RegisteredSession { ready: false, ..ready(1, 0) };
    let lookup = OwnerLookup::start(false, true, 0)
        .step(OwnerEvent::Registration(Some(unready)))
        .step(OwnerEvent::FileIdentity(FILE));
    assert_eq!(finish(lookup), Err(AccountError::Unavailable));
    let stale = OwnerLookup::start(false, true, 1)
        .step(OwnerEvent::Registration(Some(ready(1, 0))))
        .step(OwnerEvent::FileIdentity(FILE));
    assert_eq!(finish(stale), Err(AccountError::SessionReplaced));
}

fn through_store(peer: Result<Option<PeerSummary>, ()>, second: Option<(u64, u64)>, closing: (bool, u64)) -> Result<i64, AccountError> {
    let mut lookup = OwnerLookup::start(false, true, 0);
    lookup = lookup.step(OwnerEvent::Registration(Some(ready(1, 0))));
    lookup = lookup.step(OwnerEvent::FileIdentity(FILE));
    lookup = lookup.step(OwnerEvent::Peer(peer));
    if lookup.next_read() == OwnerRead::FileIdentity {
        lookup = lookup.step(OwnerEvent::FileIdentity(second));
    }
    lookup = lookup.step(OwnerEvent::Lifecycle { signing_out: closing.0, generation: closing.1 });
    finish(lookup)
}

#[test]
fn owner_lookups_through_the_store_accept_only_a_valid_self_user() {
    let me = |id| Some(PeerSummary { user: true, id, is_self: Some(true) });
    assert_eq!(through_store(Ok(me(101)), FILE, (false, 0)), Ok(101));
    assert_eq!(through_store(Ok(me(0xffffffffff)), FILE, (false, 0)), Ok(0xffffffffff));
    assert_eq!(through_store(Ok(me(0x10000000000)), FILE, (false, 0)), Err(AccountError::SignInRequired));
    assert_eq!(through_store(Ok(me(0)), FILE, (false, 0)), Err(AccountError::SignInRequired));
    assert_eq!(through_store(Ok(None), FILE, (false, 0)), Err(AccountError::SignInRequired));
    assert_eq!(through_store(Err(()), FILE, (false, 0)), Err(AccountError::Unavailable));
    assert_eq!(through_store(Ok(me(101)), Some((3, 10)), (false, 0)), Err(AccountError::SessionReplaced));
    assert_eq!(through_store(Ok(me(101)), FILE, (true, 0)), Err(AccountError::SignedOutMeanwhile));
    assert_eq!(
        through_store(Ok(me(101)), FILE, (false, 1)).unwrap_err().message(),
        "ACCOUNT_CHANGED: Sign in again to open your workspace"
    );
    assert_eq!(verified_owner(me(7)), Some(7));
    assert_eq!(verified_owner(Some(PeerSummary { user: true, id: 7, is_self: None })), None);
}

#[test]
fn owner_lookups_without_a_store_read_the_session_file() {
    let lookup = OwnerLookup::start(false, true, 2).step(OwnerEvent::Registration(None));
    assert_eq!(lookup.next_read(), OwnerRead::StoredIdentity);
    let ok = lookup.step(OwnerEvent::StoredIdentity(Ok(Some(9))));
    assert_eq!(ok.next_read(), OwnerRead::Lifecycle);
    assert_eq!(finish(ok.step(OwnerEvent::Lifecycle { signing_out: false, generation: 2 })), Ok(9));
    let lookup = OwnerLookup::start(false, true, 2).step(OwnerEvent::Registration(None));
    assert_eq!(finish(lookup.step(OwnerEvent::StoredIdentity(Err(AccountError::Unavailable)))), Err(AccountError::Unavailable));
    // An event of the wrong kind leaves the lookup where it stands.
    let waiting = OwnerLookup::start(false, true, 2).step(OwnerEvent::Peer(Err(())));
    assert_eq!(waiting.next_read(), OwnerRead::Registration);
}

#[test]
fn session_files_name_an_owner_only_in_the_supported_layout() {
    assert_eq!(stored_identity(Some(1), &vec![]), Ok(None));
    assert_eq!(stored_identity(Some(1), &vec![(101, 1)]), Ok(Some(101)));
    assert_eq!(stored_identity(Some(1), &vec![(101, 3)]), Ok(Some(101)));
    for (version, rows) in [
        (None, vec![(101, 1)]),
        (Some(2), vec![(101, 1)]),
        (Some(0), vec![]),
        (Some(1), vec![(101, 5)]),
        (Some(1), vec![(0, 1)]),
        (Some(1), vec![(1099511627776, 1)]),
        (Some(1), vec![(101, 1), (202, 1)]),
    ] {
        assert_eq!(stored_identity(version, &rows), Err(AccountError::Unavailable));
    }
}

#[test]
fn keys_written_for_files_are_recognized_again() {
    for folder in [None, Some(0), Some(9), Some(-1001234567890), Some(i64::MAX)] {
        for id in [1i64, 9, 10, 42, 999_999, i32::MAX as i64] {
            assert_eq!(message_key(&file_key(folder, id), folder), Some(id as i32));
        }
        assert_eq!(message_key(&file_key(folder, i32::MAX as i64 + 1), folder), None);
        assert_eq!(message_key(&file_key(folder, 0), folder), None);
    }
    assert_eq!(message_key(&file_key(Some(1), 5), Some(11)), None);
}

#[test]
fn decimal_text_matches_the_standard_library() {
    for v in [0i64, 7, -7, 10, 1234567890, i64::MIN, i64::MAX, -1] {
        assert_eq!(format_i64(v), v.to_string());
    }
    for s in ["0", "+5", "-5", "007", "2147483647", "-2147483648", "2147483648", "-2147483649", "+", "-", "", " 1", "1 ", "1_0", "99999999999999999999", "٣"] {
        assert_eq!(parse_i32(s), s.parse::<i32>().ok(), "{s}");
    }
}

#[test]
fn scanned_folders_are_named_without_the_storage_marker() {
    assert_eq!(scan_folder_name(Some("Docs [TD]")), "Docs");
    assert_eq!(scan_folder_name(Some(" [TD] [TD]x")), "x");
    assert_eq!(scan_folder_name(Some(" [T [TD]D]")), " [TD]");
    assert_eq!(scan_folder_name(Some("Plain")), "Plain");
    assert_eq!(scan_folder_name(None), "Saved Messages");
    for (s, p) in [("aaaa", "aa"), ("abcabc", "bc"), ("ééxé", "é"), ("", "x"), ("abc", ""), ("", "")] {
        assert_eq!(remove_pattern(s, p), s.replace(p, ""));
    }
}

#[test]
fn scan_requests_are_bounded_and_scans_must_complete() {
    assert!(check_index_request(1000).is_ok());
    assert_eq!(check_index_request(1001), Err(ScanError::TooManyFolders));
    assert_eq!(check_index_request(1001).unwrap_err().message(), "Select fewer than 1,000 folders per scan");
    assert!(check_scan_complete(true).is_ok());
    assert_eq!(
        check_scan_complete(false).unwrap_err().message(),
        "The folder scan was interrupted before it completed; try again"
    );
}

#[test]
fn storage_limits_are_applied_once_per_owner_change() {
    let mut state = BackgroundState::new();
    assert!(state.observe_owner(5));
    assert!(!state.observe_owner(5));
    assert!(state.observe_owner(6));
    assert!(state.observe_owner(5));
}

#[test]
fn refusals_carry_their_messages() {
    let all = [
        (AccountError::SigningOut, "ACCOUNT_CHANGED: Sign in again to open this workspace"),
        (AccountError::SignInRequired, "ACCOUNT_REQUIRED: Sign in to open your workspace"),
        (AccountError::SessionReplaced, "ACCOUNT_CHANGED: The saved session has been replaced"),
        (AccountError::Unavailable, "ACCOUNT_UNAVAILABLE: The saved account is temporarily unavailable"),
        (AccountError::SignedOutMeanwhile, "ACCOUNT_CHANGED: Sign in again to open your workspace"),
        (AccountError::ReopenWorkspace, "ACCOUNT_CHANGED: Reopen your workspace for the current account"),
        (AccountError::DifferentSession, "ACCOUNT_CHANGED: This operation belongs to a different session"),
        (AccountError::OtherClientAccount, "ACCOUNT_CHANGED: Connected client belongs to another account"),
        (AccountError::RestartSignIn, "ACCOUNT_CHANGED: Restart sign-in for the current session"),
        (AccountError::AccountNotConfirmed, "ACCOUNT_UNAVAILABLE: Telegram did not confirm a valid account"),
    ];
    for (error, text) in all {
        assert_eq!(error.message(), text);
    }
}

#[test]
fn a_store_belongs_to_one_root() {
    let mut registry = SessionRegistry::new();
    registry.insert("/a".to_string(), ready(1, 0));
    registry.insert("/b".to_string(), ready(1, 0));
    assert!(registry.get("/a").is_none());
    assert_eq!(registry.root_of(1), Some("/b".to_string()));
    registry.record_opened("/c".to_string(), 1, 0, FILE, &vec![1]);
    assert!(registry.get("/b").is_none());
    assert_eq!(registry.get("/c").map(|r| r.ready), Some(false));
}

fn index(total: usize, steps: Vec<(Result<(), AccountError>, Result<bool, String>)>) -> (IndexRun, Vec<IndexAction>) {
    let mut run = IndexRun::start(total);
    let mut actions = Vec::new();
    loop {
        let action = run.next_action();
        actions.push(action);
        run = match action {
            IndexAction::Validate => {
                let k = actions.iter().filter(|a| **a == IndexAction::Validate).count() - 1;
                run.step(IndexEvent::Validated(steps[k].0.clone()))
            }
            IndexAction::Scan(k) => run.step(IndexEvent::Scanned(steps[k].1.clone())),
            IndexAction::Read | IndexAction::Failed => return (run, actions),
        };
    }
}

#[test]
fn indexing_scans_every_folder_completely_before_reading() {
    let ok = || (Ok(()), Ok(true));
    let (run, actions) = index(2, vec![ok(), ok()]);
    assert!(matches!(run, IndexRun::Read));
    assert_eq!(
        actions,
        vec![IndexAction::Validate, IndexAction::Scan(0), IndexAction::Validate, IndexAction::Scan(1), IndexAction::Read]
    );
    let (run, _) = index(0, vec![]);
    assert!(matches!(run, IndexRun::Read));
    let (run, actions) = index(1001, vec![]);
    assert_eq!(actions, vec![IndexAction::Failed]);
    assert_eq!(run.failure(), Some(IndexError::Refused(ScanError::TooManyFolders)));
    let (run, actions) = index(3, vec![ok(), (Ok(()), Ok(false)), ok()]);
    assert_eq!(actions.len(), 5);
    assert_eq!(
        run.failure().unwrap().message(),
        "The folder scan was interrupted before it completed; try again"
    );
    let (run, _) = index(2, vec![ok(), (Err(AccountError::DifferentSession), Ok(true))]);
    assert_eq!(run.failure(), Some(IndexError::Account(AccountError::DifferentSession)));
    let (run, _) = index(2, vec![(Ok(()), Err("network".into())), ok()]);
    assert_eq!(run.failure().unwrap().message(), "network");
}

#[test]
fn several_sign_outs_end_a_captured_account_and_a_sign_in() {
    let mut lifecycle = WorkspaceLifecycle { signing_out: false, generation: u64::MAX - 1 };
    let guard = AccountGuard::open(ROOT, None, lifecycle.generation, Ok(5), lifecycle.generation).unwrap();
    let mut registry = SessionRegistry::new();
    registry.insert(ROOT.to_string(), ready(1, lifecycle.generation));
    let sign_in = AuthenticationSession::capture_in(&registry, &lifecycle, 1, FILE).unwrap();
    for _ in 0..5 {
        suspend(&mut lifecycle);
        resume(&mut lifecycle);
        assert_eq!(guard.validate(lifecycle.generation, Ok(5)), Err(AccountError::DifferentSession));
        assert_eq!(sign_in.validate_in(&registry, &lifecycle, FILE), Err(AccountError::RestartSignIn));
    }
    assert_eq!(lifecycle.generation, 3);
}
