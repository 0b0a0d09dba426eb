//! Reading the owner of a workspace: the saved session's authenticated self
//! user, read through the registered store when one is open and otherwise
//! straight from the session file, and refused whenever a sign-out or a
//! replacement of the session happened while it was being read.
//!
//! The reading interleaves file and store accesses with decisions, so it is
//! a state machine: the caller performs the access that `next_read` names and
//! feeds what it saw to `step`, until the lookup is `Done`.
use vstd::prelude::*;
use crate::errors::AccountError;
use crate::registry::{RegisteredSession, PeerSummary, same_file, same_identity, verified_owner, is_verified_self, max_user_id};

verus! {

/// Where an owner lookup stands.
#[derive(Debug)]
pub enum OwnerLookup {
    /// Waiting for the root's registration, given only while its store is open.
    AwaitRegistration { generation: u64 },
    /// Waiting for the identity of the session file, to compare with the registration.
    AwaitFileIdentity { generation: u64, registered: RegisteredSession },
    /// Waiting for the self peer read through the registered store.
    AwaitPeer { generation: u64, registered: RegisteredSession },
    /// Waiting for the identity of the session file once more, after the peer read.
    AwaitFileRecheck { generation: u64, registered: RegisteredSession, owner: Option<i64> },
    /// Waiting for the self identity read from the session file itself.
    AwaitStoredIdentity { generation: u64 },
    /// Waiting for the lifecycle state once the owner was read.
    AwaitLifecycle { generation: u64, owner: Option<i64> },
    /// Finished.
    Done { result: Result<i64, AccountError> },
}

/// What the caller saw.
#[derive(Debug)]
pub enum OwnerEvent {
    /// The registration of the root, `None` when there is none or its store
    /// is no longer open.
    Registration(Option<RegisteredSession>),
    /// The identity of the session file, `None` when it could not be read.
    FileIdentity(Option<(u64, u64)>),
    /// The self peer read through the store; `Err` when the read failed.
    Peer(Result<Option<PeerSummary>, ()>),
    /// The self identity read from the session file.
    StoredIdentity(Result<Option<i64>, AccountError>),
    /// Whether the workspace is signing out, and its epoch, now.
    Lifecycle { signing_out: bool, generation: u64 },
}

/// The access that a lookup waits for.
#[derive(Clone, Copy, Debug, PartialEq, Eq, Structural)]
pub enum OwnerRead {
    Registration,
    FileIdentity,
    Peer,
    StoredIdentity,
    Lifecycle,
    Finished,
}

/// How a lookup begins: refused while signing out or without a session file,
/// otherwise waiting for the registration, at the epoch read now.
pub open spec fn start_spec(signing_out: bool, session_file_exists: bool, generation: u64) -> OwnerLookup {
    if signing_out {
        OwnerLookup::Done { result: Err(AccountError::SigningOut) }
    } else if !session_file_exists {
        OwnerLookup::Done { result: Err(AccountError::SignInRequired) }
    } else {
        OwnerLookup::AwaitRegistration { generation }
    }
}

/// One step of a lookup. An event of another kind than the one awaited
/// leaves the lookup where it stands.
pub open spec fn step_spec(s: OwnerLookup, e: OwnerEvent) -> OwnerLookup {
    match (s, e) {
        (OwnerLookup::AwaitRegistration { generation }, OwnerEvent::Registration(registered)) => match registered {
            Some(reg) => OwnerLookup::AwaitFileIdentity { generation, registered: reg },
            None => OwnerLookup::AwaitStoredIdentity { generation },
        },
        (OwnerLookup::AwaitFileIdentity { generation, registered }, OwnerEvent::FileIdentity(observed)) => {
            if registered.generation != generation || !same_file(registered, observed) {
                OwnerLookup::Done { result: Err(AccountError::SessionReplaced) }
            } else if !registered.ready {
                OwnerLookup::Done { result: Err(AccountError::Unavailable) }
            } else {
                OwnerLookup::AwaitPeer { generation, registered }
            }
        },
        (OwnerLookup::AwaitPeer { generation, registered }, OwnerEvent::Peer(peer)) => match peer {
            Err(_) => OwnerLookup::Done { result: Err(AccountError::Unavailable) },
            Ok(p) => OwnerLookup::AwaitFileRecheck {
                generation,
                registered,
                owner: match p {
                    Some(q) => if is_verified_self(q) { Some(q.id) } else { None },
                    None => None,
                },
            },
        },
        (OwnerLookup::AwaitFileRecheck { generation, registered, owner }, OwnerEvent::FileIdentity(observed)) => {
            if !same_file(registered, observed) {
                OwnerLookup::Done { result: Err(AccountError::SessionReplaced) }
            } else {
                OwnerLookup::AwaitLifecycle { generation, owner }
            }
        },
        (OwnerLookup::AwaitStoredIdentity { generation }, OwnerEvent::StoredIdentity(read)) => match read {
            Err(e) => OwnerLookup::Done { result: Err(e) },
            Ok(owner) => OwnerLookup::AwaitLifecycle { generation, owner },
        },
        (OwnerLookup::AwaitLifecycle { generation, owner }, OwnerEvent::Lifecycle { signing_out, generation: now }) => {
            if signing_out || generation != now {
                OwnerLookup::Done { result: Err(AccountError::SignedOutMeanwhile) }
            } else {
                match owner {
                    Some(id) => OwnerLookup::Done { result: Ok(id) },
                    None => OwnerLookup::Done { result: Err(AccountError::SignInRequired) },
                }
            }
        },
        (s, _) => s,
    }
}

/// The access that a lookup waits for.
pub open spec fn next_read_spec(s: OwnerLookup) -> OwnerRead {
    match s {
        OwnerLookup::AwaitRegistration { .. } => OwnerRead::Registration,
        OwnerLookup::AwaitFileIdentity { .. } => OwnerRead::FileIdentity,
        OwnerLookup::AwaitPeer { .. } => OwnerRead::Peer,
        OwnerLookup::AwaitFileRecheck { .. } => OwnerRead::FileIdentity,
        OwnerLookup::AwaitStoredIdentity { .. } => OwnerRead::StoredIdentity,
        OwnerLookup::AwaitLifecycle { .. } => OwnerRead::Lifecycle,
        OwnerLookup::Done { .. } => OwnerRead::Finished,
    }
}

impl OwnerLookup {
    /// Begins a lookup; `generation` is the lifecycle epoch read after the
    /// session file was found.
    pub fn start(signing_out: bool, session_file_exists: bool, generation: u64) -> (r: Self)
        ensures
            r == start_spec(signing_out, session_file_exists, generation),
    {
        if signing_out {
            OwnerLookup::Done { result: Err(AccountError::SigningOut) }
        } else if !session_file_exists {
            OwnerLookup::Done { result: Err(AccountError::SignInRequired) }
        } else {
            OwnerLookup::AwaitRegistration { generation }
        }
    }

    /// Feeds what the caller saw.
    pub fn step(self, event: OwnerEvent) -> (r: Self)
        ensures
            r == step_spec(self, event),
    {
        match (self, event) {
            (OwnerLookup::AwaitRegistration { generation }, OwnerEvent::Registration(registered)) => match registered {
                Some(reg) => OwnerLookup::AwaitFileIdentity { generation, registered: reg },
                None => OwnerLookup::AwaitStoredIdentity { generation },
            },
            (OwnerLookup::AwaitFileIdentity { generation, registered }, OwnerEvent::FileIdentity(observed)) => {
                let file_ok: bool = registered.identity.is_some() && same_identity(observed, registered.identity);
                if registered.generation != generation || !file_ok {
                    OwnerLookup::Done { result: Err(AccountError::SessionReplaced) }
                } else if !registered.ready {
                    OwnerLookup::Done { result: Err(AccountError::Unavailable) }
                } else {
                    OwnerLookup::AwaitPeer { generation, registered }
                }
            },
            (OwnerLookup::AwaitPeer { generation, registered }, OwnerEvent::Peer(peer)) => match peer {
                Err(_) => OwnerLookup::Done { result: Err(AccountError::Unavailable) },
                Ok(p) => OwnerLookup::AwaitFileRecheck { generation, registered, owner: verified_owner(p) },
            },
            (OwnerLookup::AwaitFileRecheck { generation, registered, owner }, OwnerEvent::FileIdentity(observed)) => {
                let file_ok: bool = registered.identity.is_some() && same_identity(observed, registered.identity);
                if !file_ok {
                    OwnerLookup::Done { result: Err(AccountError::SessionReplaced) }
                } else {
                    OwnerLookup::AwaitLifecycle { generation, owner }
                }
            },
            (OwnerLookup::AwaitStoredIdentity { generation }, OwnerEvent::StoredIdentity(read)) => match read {
                Err(e) => OwnerLookup::Done { result: Err(e) },
                Ok(owner) => OwnerLookup::AwaitLifecycle { generation, owner },
            },
            (OwnerLookup::AwaitLifecycle { generation, owner }, OwnerEvent::Lifecycle { signing_out, generation: now }) => {
                if signing_out || generation != now {
                    OwnerLookup::Done { result: Err(AccountError::SignedOutMeanwhile) }
                } else {
                    match owner {
                        Some(id) => OwnerLookup::Done { result: Ok(id) },
                        None => OwnerLookup::Done { result: Err(AccountError::SignInRequired) },
                    }
                }
            },
            (s, _) => s,
        }
    }

    /// The access that the lookup waits for.
    pub fn next_read(&self) -> (r: OwnerRead)
        ensures
            r == next_read_spec(*self),
    {
        match self {
            OwnerLookup::AwaitRegistration { .. } => OwnerRead::Registration,
            OwnerLookup::AwaitFileIdentity { .. } => OwnerRead::FileIdentity,
            OwnerLookup::AwaitPeer { .. } => OwnerRead::Peer,
            OwnerLookup::AwaitFileRecheck { .. } => OwnerRead::FileIdentity,
            OwnerLookup::AwaitStoredIdentity { .. } => OwnerRead::StoredIdentity,
            OwnerLookup::AwaitLifecycle { .. } => OwnerRead::Lifecycle,
            OwnerLookup::Done { .. } => OwnerRead::Finished,
        }
    }

    /// The outcome, once the lookup is done.
    pub fn outcome(&self) -> (r: Option<Result<i64, AccountError>>)
        ensures
            r == (match *self {
                OwnerLookup::Done { result } => Some(result),
                _ => None::<Result<i64, AccountError>>,
            }),
    {
        match self {
            OwnerLookup::Done { result } => Some(*result),
            _ => None,
        }
    }
}

/// What the identity rows of a session file say: `version` is the schema
/// version row (`None` when there is none); `peers` are the (peer id,
/// subtype) rows whose subtype marks the signed-in self, at most two of them.
/// Only schema version 1 is read; no self row means no owner yet; a single
/// self row must hold a valid user id and the subtype of a user (1) or a bot
/// (3). Anything else is refused rather than guessed.
pub open spec fn stored_identity_spec(version: Option<i64>, peers: Seq<(i64, i64)>) -> Result<Option<i64>, AccountError> {
    if version != Some(1i64) {
        Err(AccountError::Unavailable)
    } else if peers.len() == 0 {
        Ok(None)
    } else if peers.len() == 1 && 1 <= peers[0].0 <= max_user_id() && (peers[0].1 == 1 || peers[0].1 == 3) {
        Ok(Some(peers[0].0))
    } else {
        Err(AccountError::Unavailable)
    }
}

/// The owner that the identity rows of a session file name (see
/// `stored_identity_spec`).
pub fn stored_identity(version: Option<i64>, peers: &Vec<(i64, i64)>) -> (r: Result<Option<i64>, AccountError>)
    ensures
        r == stored_identity_spec(version, peers@),
{
    match version {
        Some(v) => if v != 1 {
            return Err(AccountError::Unavailable);
        },
        None => {
            return Err(AccountError::Unavailable);
        },
    }
    if peers.len() == 0 {
        return Ok(None);
    }
    let owner: i64 = peers[0].0;
    let subtype: i64 = peers[0].1;
    if !(1 <= owner && owner <= 0xffffffffff) || !(subtype == 1 || subtype == 3) || peers.len() != 1 {
        return Err(AccountError::Unavailable);
    }
    Ok(Some(owner))
}


/// Everything that reading the owner of a workspace may look at, in the
/// order it is looked at.
pub struct OwnerObservations {
    pub signing_out: bool,
    pub session_file_exists: bool,
    pub generation: u64,
    pub registered: Option<RegisteredSession>,
    pub first_identity: Option<(u64, u64)>,
    pub peer: Result<Option<PeerSummary>, ()>,
    pub second_identity: Option<(u64, u64)>,
    pub stored: Result<Option<i64>, AccountError>,
    pub closing_signing_out: bool,
    pub closing_generation: u64,
}

/// The owner of a workspace, stated at once over everything that reading it
/// looks at: refused while signing out or without a session file; read
/// through the registered store (which must be the registered file at the
/// same epoch, ready, and still the same file after the read) or else from
/// the session file; and refused if a sign-out or a new epoch came meanwhile.
pub open spec fn current_owner_spec(o: OwnerObservations) -> Result<i64, AccountError> {
    if o.signing_out {
        Err(AccountError::SigningOut)
    } else if !o.session_file_exists {
        Err(AccountError::SignInRequired)
    } else {
        let read: Result<Option<i64>, AccountError> = match o.registered {
            Some(reg) => if reg.generation != o.generation || !same_file(reg, o.first_identity) {
                Err(AccountError::SessionReplaced)
            } else if !reg.ready {
                Err(AccountError::Unavailable)
            } else {
                match o.peer {
                    Err(_) => Err(AccountError::Unavailable),
                    Ok(p) => if !same_file(reg, o.second_identity) {
                        Err(AccountError::SessionReplaced)
                    } else {
                        Ok(match p {
                            Some(q) => if is_verified_self(q) { Some(q.id) } else { None },
                            None => None,
                        })
                    },
                }
            },
            None => o.stored,
        };
        match read {
            Err(e) => Err(e),
            Ok(owner) => if o.closing_signing_out || o.generation != o.closing_generation {
                Err(AccountError::SignedOutMeanwhile)
            } else {
                match owner {
                    Some(id) => Ok(id),
                    None => Err(AccountError::SignInRequired),
                }
            },
        }
    }
}

/// The event that answers what a lookup waits for, taken from the observations.
pub open spec fn answer(s: OwnerLookup, o: OwnerObservations) -> OwnerEvent {
    match s {
        OwnerLookup::AwaitRegistration { .. } => OwnerEvent::Registration(o.registered),
        OwnerLookup::AwaitFileIdentity { .. } => OwnerEvent::FileIdentity(o.first_identity),
        OwnerLookup::AwaitPeer { .. } => OwnerEvent::Peer(o.peer),
        OwnerLookup::AwaitFileRecheck { .. } => OwnerEvent::FileIdentity(o.second_identity),
        OwnerLookup::AwaitStoredIdentity { .. } => OwnerEvent::StoredIdentity(o.stored),
        _ => OwnerEvent::Lifecycle { signing_out: o.closing_signing_out, generation: o.closing_generation },
    }
}

/// A lookup after `n` answered steps.
pub open spec fn run(s: OwnerLookup, o: OwnerObservations, n: nat) -> OwnerLookup
    decreases n,
{
    if n == 0 {
        s
    } else {
        run(step_spec(s, answer(s, o)), o, (n - 1) as nat)
    }
}

/// Answering each access that a lookup asks for, it is done within five
/// steps, with the owner that `current_owner_spec` states.
pub proof fn lemma_lookup_computes_current_owner(o: OwnerObservations)
    ensures
        run(start_spec(o.signing_out, o.session_file_exists, o.generation), o, 5)
            == (OwnerLookup::Done { result: current_owner_spec(o) }),
{
    reveal_with_fuel(run, 6);
}

/// Done stays done.
pub proof fn lemma_done_is_final(result: Result<i64, AccountError>, e: OwnerEvent)
    ensures
        step_spec(OwnerLookup::Done { result }, e) == (OwnerLookup::Done { result }),
{
}

/// A reported owner is never a guess: it is a valid user id whenever the
/// identity read from the session file (when that is used) is one.
pub proof fn lemma_owner_is_valid_user(o: OwnerObservations)
    requires
        o.stored matches Ok(Some(id)) ==> 1 <= id <= max_user_id(),
    ensures
        current_owner_spec(o) matches Ok(id) ==> 1 <= id <= max_user_id(),
{
}

/// The identity rows of a session file never name an invalid user.
pub proof fn lemma_stored_identity_is_valid_user(version: Option<i64>, peers: Seq<(i64, i64)>)
    ensures
        stored_identity_spec(version, peers) matches Ok(Some(id)) ==> 1 <= id <= max_user_id(),
{
}

/// No owner is reported while a sign-out is in progress, at the start or at
/// the end of the reading, nor when a sign-out happened in between.
pub proof fn lemma_no_owner_while_signing_out(o: OwnerObservations)
    requires
        o.signing_out || o.closing_signing_out || o.closing_generation != o.generation,
    ensures
        current_owner_spec(o) is Err,
{
}

} // verus!
