use drive_workspace::errors::AccountError;
use drive_workspace::guard::{operation_account, AccountGuard, OperationAction, OperationRun};
use drive_workspace::lifecycle::WorkspaceLifecycle;
use drive_workspace::owner::{stored_identity, OwnerEvent, OwnerLookup, OwnerRead};
use drive_workspace::registry::{
    opened_identity, AuthenticationSession, PeerSummary, RegisteredSession, SessionRegistry,
};
use std::collections::HashMap;

const ROOT: &str = "/workspace/a";

/// A session file on disk: its schema version and its self rows, and
/// whether a writer holds it locked.
#[derive(Clone)]
struct SessionFile {
    version: Option<i64>,
    peers: Vec<(i64, i64)>,
    table: bool,
    locked: bool,
}

impl SessionFile {
    fn with_owner(owner: Option<i64>) -> Self {
        SessionFile {
            version: Some(1),
            peers: owner.map(|o| vec![(o, 1)]).unwrap_or_default(),
            table: true,
            locked: false,
        }
    }
}

/// The machine around one workspace root: which file is at the session path,
/// the files by identity, the open stores and the file each was opened on.
struct World {
    lifecycle: WorkspaceLifecycle,
    registry: SessionRegistry,
    at_path: Option<(u64, u64)>,
    files: HashMap<(u64, u64), SessionFile>,
    stores: HashMap<u64, (u64, u64)>,
    next_inode: u64,
    next_store: u64,
}

impl World {
    fn new(owner: i64) -> Self {
        let mut w = World {
            lifecycle: WorkspaceLifecycle::new(),
            registry: SessionRegistry::new(),
            at_path: None,
            files: HashMap::new(),
            stores: HashMap::new(),
            next_inode: 1,
            next_store: 1,
        };
        w.replace_file(Some(owner));
        w
    }

    /// A new login replaces the session file.
    fn replace_file(&mut self, owner: Option<i64>) -> (u64, u64) {
        let id = (7, self.next_inode);
        self.next_inode += 1;
        self.files.insert(id, SessionFile::with_owner(owner));
        self.at_path = Some(id);
        id
    }

    fn remove_file(&mut self) {
        self.at_path = None;
    }

    fn file_mut(&mut self) -> &mut SessionFile {
        let id = self.at_path.unwrap();
        self.files.get_mut(&id).unwrap()
    }

    fn live(&self) -> Vec<u64> {
        self.stores.keys().copied().collect()
    }

    fn read_rows(&self, id: (u64, u64)) -> Result<Option<i64>, AccountError> {
        let file = &self.files[&id];
        if file.locked || !file.table {
            return Err(AccountError::Unavailable);
        }
        stored_identity(file.version, &file.peers)
    }

    /// Opens the session store at the root, reusing the registered one when
    /// it was opened at this epoch for the file that is there.
    fn open_session(&mut self) -> u64 {
        let generation = self.lifecycle.generation;
        let before = self.at_path;
        if let Some(store) = self.registry.reusable_session(ROOT, generation, before) {
            if self.stores.contains_key(&store) {
                return store;
            }
        }
        if self.at_path.is_none() {
            self.replace_file(None);
        }
        let store = self.next_store;
        self.next_store += 1;
        self.stores.insert(store, self.at_path.unwrap());
        let identity = opened_identity(before, self.at_path);
        let live = self.live();
        self.registry.record_opened(ROOT.to_string(), store, generation, identity, &live);
        store
    }

    fn register_session(&mut self, store: u64) -> Result<(), AccountError> {
        let ready = self.registry.check_registration(ROOT, store, self.lifecycle.generation, self.at_path)?;
        if ready {
            return Ok(());
        }
        let layout = match self.at_path {
            Some(id) => self.read_rows(id),
            None => Err(AccountError::Unavailable),
        };
        self.registry.confirm_registration(ROOT, layout, self.lifecycle.generation, self.at_path)
    }

    fn cache_self(&mut self, store: u64, owner: i64) {
        let id = self.stores[&store];
        let file = self.files.get_mut(&id).unwrap();
        file.peers.retain(|row| row.1 & 1 == 0);
        file.peers.push((owner, 1));
    }

    fn close_store(&mut self, store: u64) {
        self.stores.remove(&store);
    }

    fn store_peer(&self, store: u64) -> Option<PeerSummary> {
        let file = &self.files[&self.stores[&store]];
        file.peers.first().map(|row| PeerSummary { user: true, id: row.0, is_self: Some(true) })
    }

    fn current_owner(&self) -> Result<i64, AccountError> {
        let mut lookup = OwnerLookup::start(
            self.lifecycle.signing_out,
            self.at_path.is_some(),
            self.lifecycle.generation,
        );
        let mut registered_store = None;
        loop {
            let event = match lookup.next_read() {
                OwnerRead::Registration => {
                    let registered = self
                        .registry
                        .get(ROOT)
                        .filter(|r| self.stores.contains_key(&r.session));
                    registered_store = registered.map(|r| r.session);
                    OwnerEvent::Registration(registered)
                }
                OwnerRead::FileIdentity => OwnerEvent::FileIdentity(self.at_path),
                OwnerRead::Peer => OwnerEvent::Peer(Ok(self.store_peer(registered_store.unwrap()))),
                OwnerRead::StoredIdentity => OwnerEvent::StoredIdentity(match self.at_path {
                    Some(id) => self.read_rows(id),
                    None => Err(AccountError::Unavailable),
                }),
                OwnerRead::Lifecycle => OwnerEvent::Lifecycle {
                    signing_out: self.lifecycle.signing_out,
                    generation: self.lifecycle.generation,
                },
                OwnerRead::Finished => return lookup.outcome().unwrap(),
            };
            lookup = lookup.step(event);
        }
    }

    fn guard(&self, expected: Option<&str>) -> Result<AccountGuard, AccountError> {
        let before = self.lifecycle.generation;
        let owner = self.current_owner();
        AccountGuard::open(ROOT, expected, before, owner, self.lifecycle.generation)
    }

    fn validate(&self, guard: &AccountGuard) -> Result<(), AccountError> {
        guard.validate(self.lifecycle.generation, self.current_owner())
    }

    fn validate_client_owner(&self, guard: &AccountGuard, client: i64) -> Result<(), String> {
        guard
            .validate_client_owner(client, self.lifecycle.generation, self.current_owner())
            .map_err(|e| e.message())
    }

    fn capture(&self, store: u64) -> Result<AuthenticationSession, AccountError> {
        AuthenticationSession::capture_in(&self.registry, &self.lifecycle, store, self.at_path)
    }

    fn complete(&mut self, sign_in: &AuthenticationSession, store: u64, peer: PeerSummary) -> Result<(), String> {
        sign_in
            .begin_completion(&self.registry, &self.lifecycle, self.at_path, &peer)
            .map_err(|e| e.message())?;
        self.cache_self(store, peer.id);
        sign_in
            .finish_completion(&self.registry, &mut self.lifecycle, self.at_path)
            .map_err(|e| e.message())
    }

    /// A fresh login in isolation: the session file is replaced and its new
    /// store is registered as ready at the current epoch.
    fn isolated_login(&mut self) -> u64 {
        self.replace_file(None);
        let store = self.next_store;
        self.next_store += 1;
        self.stores.insert(store, self.at_path.unwrap());
        let mut registry = SessionRegistry::new();
        registry.insert(
            ROOT.to_string(),
            RegisteredSession {
                session: store,
                identity: self.at_path,
                generation: self.lifecycle.generation,
                ready: true,
            },
        );
        self.registry = registry;
        store
    }
}

/// Runs `operation` for `account`; `meanwhile` happens after the first check,
/// while the operation waits.
fn with_operation<T>(
    world: &mut World,
    account: &AccountGuard,
    meanwhile: impl FnOnce(&mut World),
    operation: impl FnOnce(&World) -> Result<T, String>,
) -> Result<T, String> {
    let mut run = OperationRun::start(account, world.lifecycle.generation, world.current_owner());
    if run.next_action() == OperationAction::Run {
        meanwhile(world);
        run = run.operation_done(operation(world));
    }
    if run.next_action() == OperationAction::Revalidate {
        run = run.revalidate(world.lifecycle.generation, world.current_owner());
    }
    run.outcome().unwrap().map_err(|e| e.message())
}

fn user(id: i64) -> PeerSummary {
    PeerSummary { user: true, id, is_self: Some(true) }
}

#[test]
fn remote_read_rejects_a_stale_client_and_a_changed_saved_session() {
    let mut world = World::new(101);
    let account = world.guard(Some("101")).unwrap();
    assert!(world
        .validate_client_owner(&account, 202)
        .unwrap_err()
        .contains("ACCOUNT_CHANGED"));
    assert!(world.validate_client_owner(&account, 101).is_ok());
    world.remove_file();
    world.replace_file(Some(202));
    assert!(world.validate_client_owner(&account, 101).is_err());
}

#[test]
fn sync_operation_waiting_for_client_cannot_adopt_a_new_account() {
    let mut world = World::new(100);
    let account = world.guard(None).unwrap();
    assert!(world.validate(&account).is_ok());
    let mut side_effect = false;
    let result = with_operation(
        &mut world,
        &account,
        // The owner switches while the operation waits for its client.
        |world| {
            world.replace_file(Some(200));
        },
        |world| {
            let captured = operation_account(Some(account.clone()), world.lifecycle.generation, world.current_owner())
                .map_err(|e| e.message())?
                .ok_or("Missing original sync owner")?;
            world.validate_client_owner(&captured, 200)?;
            side_effect = true;
            Ok(())
        },
    );
    assert!(result.unwrap_err().contains("ACCOUNT_CHANGED"));
    assert!(!side_effect);
    assert!(operation_account(None, world.lifecycle.generation, world.current_owner()).unwrap().is_none());
}

#[test]
fn an_old_cloned_client_is_rejected_even_when_the_saved_account_is_current() {
    let world = World::new(200);
    let account = world.guard(None).unwrap();
    let result = (|| -> Result<(), String> {
        let captured = operation_account(Some(account.clone()), world.lifecycle.generation, world.current_owner())
            .map_err(|e| e.message())?
            .ok_or("Missing sync owner")?;
        world.validate_client_owner(&captured, 100)
    })();
    assert!(result.unwrap_err().contains("another account"));
}

#[test]
fn concurrent_scoped_operations_keep_their_own_owner_and_clear_afterwards() {
    let mut first = World::new(100);
    let mut second = World::new(200);
    let first_account = first.guard(None).unwrap();
    let second_account = second.guard(None).unwrap();
    let run = |world: &mut World, account: &AccountGuard, expected: i64| -> Result<(), String> {
        with_operation(world, account, |_| {}, |world| {
            let captured = operation_account(Some(account.clone()), world.lifecycle.generation, world.current_owner())
                .map_err(|e| e.message())?
                .ok_or("Missing sync owner")?;
            world.validate_client_owner(&captured, expected)
        })
    };
    let first_result = run(&mut first, &first_account, 100);
    let second_result = run(&mut second, &second_account, 200);
    first_result.unwrap();
    second_result.unwrap();
    assert!(operation_account(None, first.lifecycle.generation, first.current_owner()).unwrap().is_none());
}

#[test]
fn verified_fresh_login_persists_identity_before_resuming_a_suspended_workspace() {
    let mut world = World::new(101);
    world.lifecycle.suspend();
    let session = world.isolated_login();
    let captured = world.capture(session).unwrap();
    assert!(world.lifecycle.signing_out);
    assert_eq!(world.read_rows(world.at_path.unwrap()).unwrap(), None);

    let verified_peer = user(202);
    world.complete(&captured, session, verified_peer).unwrap();
    assert!(!world.lifecycle.signing_out);
    assert_eq!(world.read_rows(world.at_path.unwrap()).unwrap(), Some(202));
    assert!(matches!(world.store_peer(session), Some(PeerSummary { id: 202, .. })));
}

#[test]
fn delayed_auth_reply_cannot_resume_or_overwrite_a_new_login_after_logout() {
    let mut world = World::new(101);
    let old_session = world.isolated_login();
    let old = world.capture(old_session).unwrap();
    world.lifecycle.suspend();
    let old_peer = user(101);
    assert!(world
        .complete(&old, old_session, old_peer)
        .unwrap_err()
        .starts_with("ACCOUNT_CHANGED:"));
    assert!(world.lifecycle.signing_out);
    assert!(world.store_peer(old_session).is_none());

    // A replacement login of another workspace root shares the lifecycle.
    let mut replacement = World::new(303);
    replacement.lifecycle = WorkspaceLifecycle {
        signing_out: world.lifecycle.signing_out,
        generation: world.lifecycle.generation,
    };
    let new_session = replacement.isolated_login();
    let new = replacement.capture(new_session).unwrap();
    let new_peer = user(202);
    replacement.complete(&new, new_session, new_peer).unwrap();
    assert!(replacement.complete(&old, old_session, old_peer).is_err());
    assert!(!replacement.lifecycle.signing_out);
    assert_eq!(replacement.read_rows(replacement.at_path.unwrap()).unwrap(), Some(202));
}

#[test]
fn a_fresh_session_can_register_then_acquire_its_authenticated_identity() {
    let mut world = World::new(101);
    world.remove_file();
    let session = world.open_session();
    assert!(world.current_owner().unwrap_err().message().starts_with("ACCOUNT_UNAVAILABLE:"));
    world.register_session(session).unwrap();
    assert!(world.current_owner().unwrap_err().message().starts_with("ACCOUNT_REQUIRED:"));
    world.cache_self(session, 101);
    assert_eq!(world.current_owner().unwrap(), 101);
    // The registry keeps only open stores.
    world.close_store(session);
    let next = world.open_session();
    assert_ne!(next, session);
    assert!(world.registry.root_of(session).is_none());
}

#[test]
fn live_owner_reads_and_reconnect_share_the_telegram_writers_mutex() {
    let mut world = World::new(101);
    let session = world.open_session();
    world.register_session(session).unwrap();
    let account = world.guard(None).unwrap();
    let mut failures = 0;
    for iteration in 0..1_000 {
        if iteration % 7 == 0 {
            let stranger = 1_000 + iteration;
            let id = world.stores[&session];
            world.files.get_mut(&id).unwrap().peers.push((stranger, 0));
        }
        failures += usize::from(world.current_owner() != Ok(101));
        failures += usize::from(world.validate(&account).is_err());
        if iteration % 100 == 0 {
            let reconnected = world.open_session();
            assert_eq!(session, reconnected);
            world.register_session(reconnected).unwrap();
        }
    }
    assert_eq!(failures, 0, "Ownership reads must not fail under normal peer-cache writes");
    assert_eq!(world.current_owner().unwrap(), 101);
}

#[test]
fn replacement_between_open_and_registration_cannot_bind_the_old_connection_to_a_new_file() {
    let mut world = World::new(101);
    let session = world.open_session();
    world.replace_file(Some(202));
    assert!(world
        .register_session(session)
        .unwrap_err()
        .message()
        .starts_with("ACCOUNT_CHANGED:"));
    assert!(world.current_owner().unwrap_err().message().starts_with("ACCOUNT_CHANGED:"));
    let replacement = world.open_session();
    assert_ne!(session, replacement);
    world.register_session(replacement).unwrap();
    assert_eq!(world.current_owner().unwrap(), 202);
}

#[test]
fn registered_owner_rejects_replaced_storage_and_does_not_keep_an_expired_session_alive() {
    let mut world = World::new(101);
    let session = world.open_session();
    world.register_session(session).unwrap();
    let account = world.guard(None).unwrap();
    world.replace_file(Some(202));
    assert!(world.validate(&account).unwrap_err().message().starts_with("ACCOUNT_CHANGED:"));
    world.close_store(session);
    assert_eq!(world.current_owner().unwrap(), 202);
    assert!(world.validate(&account).unwrap_err().message().starts_with("ACCOUNT_CHANGED:"));
}

#[test]
fn a_persistent_writer_lock_fails_closed_without_panicking_or_waiting_indefinitely() {
    let mut world = World::new(101);
    world.file_mut().locked = true;
    let error = world.current_owner().unwrap_err().message();
    assert!(error.starts_with("ACCOUNT_UNAVAILABLE:"));
    world.file_mut().locked = false;
    assert_eq!(world.current_owner().unwrap(), 101);
}

#[test]
fn an_account_change_committed_during_contention_invalidates_the_old_guard() {
    let mut world = World::new(101);
    let account = world.guard(None).unwrap();
    world.file_mut().peers = vec![(202, 1)];
    assert!(world.validate(&account).unwrap_err().message().starts_with("ACCOUNT_CHANGED:"));
    assert_eq!(world.current_owner().unwrap(), 202);
}

#[test]
fn supported_session_self_identity_matches_the_pinned_library_for_users_and_bots() {
    for bot in [false, true] {
        let mut world = World::new(101);
        world.file_mut().peers = vec![(101, if bot { 3 } else { 1 })];
        assert_eq!(world.current_owner().unwrap(), 101);
    }
}

#[test]
fn unsupported_or_ambiguous_identity_is_rejected_without_repairing_user_data() {
    let changes: Vec<(&str, fn(&mut SessionFile))> = vec![
        ("PRAGMA user_version=2", |f| f.version = Some(2)),
        ("PRAGMA user_version=0", |f| f.version = Some(0)),
        ("DROP TABLE peer_info", |f| f.table = false),
        ("DELETE FROM peer_info", |f| f.peers.clear()),
        ("UPDATE peer_info SET peer_id=-101", |f| f.peers[0].0 = -101),
        ("UPDATE peer_info SET peer_id=1099511627776", |f| f.peers[0].0 = 1099511627776),
        ("UPDATE peer_info SET subtype=5", |f| f.peers[0].1 = 5),
        ("INSERT INTO peer_info(peer_id,subtype) VALUES(202,1)", |f| f.peers.push((202, 1))),
    ];
    for (change, apply) in changes {
        let mut world = World::new(101);
        apply(world.file_mut());
        let before = world.file_mut().peers.clone();
        assert!(world.current_owner().is_err(), "{change}");
        assert_eq!(world.file_mut().peers, before, "{change}");
    }
    let mut world = World::new(101);
    world.remove_file();
    assert!(world.current_owner().is_err());
    assert!(world.at_path.is_none());
}
