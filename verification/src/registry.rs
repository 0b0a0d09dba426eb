//! The registry of open session stores, one per workspace root, and the
//! checks that bind a sign-in reply to the exact session that sent it.
//!
//! A session store is named by a handle that the caller assigns when it opens
//! the store; two handles are equal exactly when they name the same open
//! store. A file identity is the (device, inode) pair, or on Windows the
//! (volume, file index) pair, of the session file.
use vstd::prelude::*;
use crate::errors::AccountError;
use crate::lifecycle::{WorkspaceLifecycle, next_generation, generation_after, lemma_sign_outs_change_generation};
use crate::text::str_eq;

verus! {

/// What the registry knows of the session store open for one root.
#[derive(Clone, Copy, Debug, PartialEq, Eq)]
pub struct RegisteredSession {
    /// The handle of the open store.
    pub session: u64,
    /// The identity of the session file when the store was opened, if it was
    /// the file that was checked before opening.
    pub identity: Option<(u64, u64)>,
    /// The lifecycle epoch at which the store was opened.
    pub generation: u64,
    /// Whether the store's layout was checked and it may serve owner reads.
    pub ready: bool,
}

/// Whether the session file seen now is the one that was registered.
pub open spec fn same_file(registered: RegisteredSession, observed: Option<(u64, u64)>) -> bool {
    registered.identity is Some && observed == registered.identity
}

/// The registered sessions by workspace root.
#[derive(Debug)]
pub struct SessionRegistry {
    entries: Vec<(String, RegisteredSession)>,
}

/// The entries without those of `session` under roots other than `root`.
pub open spec fn without_session_elsewhere(m: Map<Seq<char>, RegisteredSession>, root: Seq<char>, session: u64) -> Map<Seq<char>, RegisteredSession> {
    Map::new(|k: Seq<char>| m.contains_key(k) && (k == root || m[k].session != session), |k: Seq<char>| m[k])
}

/// Whether a registration stays: its session is among `live` (when given),
/// and it is not the session of `drop` under another root (when given).
pub open spec fn keeps(root: Seq<char>, registered: RegisteredSession, live: Option<Seq<u64>>, drop: Option<(Seq<char>, u64)>) -> bool {
    &&& (live matches Some(l) ==> l.contains(registered.session))
    &&& (drop matches Some((r, s)) ==> (registered.session != s || root == r))
}

pub open spec fn live_view(live: Option<&Vec<u64>>) -> Option<Seq<u64>> {
    match live {
        Some(l) => Some(l@),
        None => None,
    }
}

pub open spec fn drop_view(drop: Option<(&str, u64)>) -> Option<(Seq<char>, u64)> {
    match drop {
        Some((r, s)) => Some((r@, s)),
        None => None,
    }
}

/// The entries whose session is among `live`.
pub open spec fn live_part(m: Map<Seq<char>, RegisteredSession>, live: Seq<u64>) -> Map<Seq<char>, RegisteredSession> {
    Map::new(|k: Seq<char>| m.contains_key(k) && live.contains(m[k].session), |k: Seq<char>| m[k])
}

impl SessionRegistry {
    /// No root twice, and no session under two roots.
    #[verifier::type_invariant]
    spec fn distinct(self) -> bool {
        forall|i: int, j: int|
            0 <= i < j < self.entries@.len() ==> {
                &&& (#[trigger] self.entries@[i]).0@ != (#[trigger] self.entries@[j]).0@
                &&& self.entries@[i].1.session != self.entries@[j].1.session
            }
    }

    spec fn index_of(self, root: Seq<char>) -> int {
        choose|i: int| 0 <= i < self.entries@.len() && self.entries@[i].0@ == root
    }

    /// The registration of each root.
    pub closed spec fn view(self) -> Map<Seq<char>, RegisteredSession> {
        Map::new(
            |k: Seq<char>| exists|i: int| 0 <= i < self.entries@.len() && self.entries@[i].0@ == k,
            |k: Seq<char>| self.entries@[self.index_of(k)].1,
        )
    }

    /// Whether some root holds the session `session`.
    pub open spec fn holds_session(self, session: u64) -> bool {
        exists|k: Seq<char>| self.view().contains_key(k) && #[trigger] self.view()[k].session == session
    }

    proof fn lemma_entry(self, i: int)
        requires
            self.distinct(),
            0 <= i < self.entries@.len(),
        ensures
            self.view().contains_key(self.entries@[i].0@),
            self.view()[self.entries@[i].0@] == self.entries@[i].1,
    {
        let k = self.entries@[i].0@;
        assert(0 <= i < self.entries@.len() && self.entries@[i].0@ == k);
        let j = self.index_of(k);
        if j != i {
            if j < i {
                assert(self.entries@[j].0@ != self.entries@[i].0@);
            } else {
                assert(self.entries@[i].0@ != self.entries@[j].0@);
            }
        }
    }

    proof fn lemma_key(self, k: Seq<char>)
        requires
            self.distinct(),
            self.view().contains_key(k),
        ensures
            0 <= self.index_of(k) < self.entries@.len(),
            self.entries@[self.index_of(k)].0@ == k,
    {
    }

    /// No sessions registered.
    pub fn new() -> (r: Self)
        ensures
            r.view() == Map::<Seq<char>, RegisteredSession>::empty(),
    {
        let r = SessionRegistry { entries: Vec::new() };
        assert(r.view() =~= Map::<Seq<char>, RegisteredSession>::empty());
        r
    }

    fn find(&self, root: &str) -> (r: Option<usize>)
        ensures
            match r {
                Some(i) => i < self.entries@.len() && self.entries@[i as int].0@ == root@,
                None => forall|i: int| 0 <= i < self.entries@.len() ==> self.entries@[i].0@ != root@,
            },
    {
        let mut i: usize = 0;
        while i < self.entries.len()
            invariant
                i <= self.entries@.len(),
                forall|j: int| 0 <= j < i ==> self.entries@[j].0@ != root@,
            decreases self.entries@.len() - i,
        {
            if str_eq(self.entries[i].0.as_str(), root) {
                return Some(i);
            }
            i = i + 1;
        }
        None
    }

    /// The registration of `root`, if any.
    pub fn get(&self, root: &str) -> (r: Option<RegisteredSession>)
        ensures
            r == (if self.view().contains_key(root@) { Some(self.view()[root@]) } else { None::<RegisteredSession> }),
    {
        proof {
            use_type_invariant(self);
        }
        match self.find(root) {
            Some(i) => {
                proof {
                    self.lemma_entry(i as int);
                }
                Some(self.entries[i].1)
            },
            None => {
                assert(!self.view().contains_key(root@));
                None
            },
        }
    }

    /// The root under which the session `session` is registered, if any.
    pub fn root_of(&self, session: u64) -> (r: Option<String>)
        ensures
            match r {
                Some(root) => self.view().contains_key(root@) && self.view()[root@].session == session
                    && forall|k: Seq<char>| self.view().contains_key(k) && #[trigger] self.view()[k].session == session
                        ==> k == root@,
                None => !self.holds_session(session),
            },
    {
        proof {
            use_type_invariant(self);
        }
        let mut i: usize = 0;
        while i < self.entries.len()
            invariant
                self.distinct(),
                i <= self.entries@.len(),
                forall|j: int| 0 <= j < i ==> self.entries@[j].1.session != session,
            decreases self.entries@.len() - i,
        {
            if self.entries[i].1.session == session {
                proof {
                    self.lemma_entry(i as int);
                    let root = self.entries@[i as int].0@;
                    assert forall|k: Seq<char>| self.view().contains_key(k) && #[trigger] self.view()[k].session == session
                        implies k == root by {
                        if k != root {
                            self.lemma_sessions_distinct(k, root);
                        }
                    }
                }
                return Some(self.entries[i].0.clone());
            }
            i = i + 1;
        }
        assert forall|k: Seq<char>| self.view().contains_key(k) implies #[trigger] self.view()[k].session != session by {
            self.lemma_key(k);
        }
        None
    }

    /// Keeps only the registrations whose session is among `live`, the
    /// sessions that are still open.
    pub fn retain_live(&mut self, live: &Vec<u64>)
        ensures
            final(self).view() == live_part(old(self).view(), live@),
    {
        self.retain_where(Some(live), None);
        assert(self.view() =~= live_part(old(self).view(), live@));
    }

    /// Drops the registrations of `session` under roots other than `root`.
    fn forget_elsewhere(&mut self, root: &str, session: u64)
        ensures
            final(self).view() == without_session_elsewhere(old(self).view(), root@, session),
    {
        self.retain_where(None, Some((root, session)));
        assert(self.view() =~= without_session_elsewhere(old(self).view(), root@, session));
    }

    /// Keeps the registrations that `keeps` accepts.
    fn retain_where(&mut self, live: Option<&Vec<u64>>, drop: Option<(&str, u64)>)
        ensures
            final(self).view() == Map::new(
                |k: Seq<char>| old(self).view().contains_key(k) && keeps(k, old(self).view()[k], live_view(live), drop_view(drop)),
                |k: Seq<char>| old(self).view()[k],
            ),
    {
        proof {
            use_type_invariant(&*self);
        }
        let ghost before = self.entries@;
        let ghost old_self = *self;
        let mut rest: Vec<(String, RegisteredSession)> = Vec::new();
        std::mem::swap(&mut rest, &mut self.entries);
        assert(rest@ == before);
        let mut kept: Vec<(String, RegisteredSession)> = Vec::new();
        let ghost mut consumed: int = 0;
        let ghost mut origin: Seq<int> = Seq::empty();
        while rest.len() > 0
            invariant
                old_self.distinct(),
                old_self.entries@ == before,
                0 <= consumed <= before.len(),
                rest@ == before.skip(consumed),
                origin.len() == kept@.len(),
                forall|j: int| 0 <= j < kept@.len() ==> 0 <= #[trigger] origin[j] < consumed,
                forall|j: int| 0 <= j < kept@.len() ==> kept@[j] == before[#[trigger] origin[j]],
                forall|j: int| 0 <= j < kept@.len() ==> keeps((#[trigger] kept@[j]).0@, kept@[j].1, live_view(live), drop_view(drop)),
                forall|a: int, b: int| 0 <= a < b < kept@.len() ==> #[trigger] origin[a] < #[trigger] origin[b],
                forall|i: int| 0 <= i < consumed && keeps((#[trigger] before[i]).0@, before[i].1, live_view(live), drop_view(drop))
                    ==> exists|j: int| 0 <= j < kept@.len() && origin[j] == i,
            decreases rest@.len(),
        {
            let entry = rest.remove(0);
            assert(entry == before[consumed]);
            let mut is_live: bool = true;
            match live {
                Some(live) => {
                    is_live = false;
                    let mut k: usize = 0;
                    while k < live.len()
                        invariant
                            k <= live@.len(),
                            is_live == (exists|m: int| 0 <= m < k && live@[m] == entry.1.session),
                        decreases live@.len() - k,
                    {
                        if live[k] == entry.1.session {
                            is_live = true;
                        }
                        k = k + 1;
                    }
                    assert(is_live == live@.contains(entry.1.session));
                },
                None => {},
            }
            let not_dropped: bool = match drop {
                Some((root, session)) => entry.1.session != session || str_eq(entry.0.as_str(), root),
                None => true,
            };
            let is_live: bool = is_live && not_dropped;
            assert(is_live == keeps(entry.0@, entry.1, live_view(live), drop_view(drop)));
            let ghost prev_origin = origin;
            let ghost prev_len = kept@.len();
            if is_live {
                kept.push(entry);
                proof {
                    origin = origin.push(consumed);
                }
            }
            proof {
                consumed = consumed + 1;
                assert forall|i: int| 0 <= i < consumed && keeps((#[trigger] before[i]).0@, before[i].1, live_view(live), drop_view(drop))
                    implies exists|j: int| 0 <= j < kept@.len() && origin[j] == i by {
                    if i == consumed - 1 {
                        assert(origin[kept@.len() - 1] == i);
                    } else {
                        let j = choose|j: int| 0 <= j < prev_len && prev_origin[j] == i;
                        assert(origin[j] == prev_origin[j]);
                    }
                }
            }
            assert(rest@ =~= before.skip(consumed));
        }
        proof {
            assert forall|a: int, b: int| 0 <= a < b < kept@.len() implies {
                &&& (#[trigger] kept@[a]).0@ != (#[trigger] kept@[b]).0@
                &&& kept@[a].1.session != kept@[b].1.session
            } by {
                assert(origin[a] < origin[b]);
            }
        }
        self.entries = kept;
        proof {
            let newv = self.view();
            let expected = Map::new(
                |k: Seq<char>| old_self.view().contains_key(k) && keeps(k, old_self.view()[k], live_view(live), drop_view(drop)),
                |k: Seq<char>| old_self.view()[k],
            );
            assert forall|key: Seq<char>| newv.contains_key(key) <==> expected.contains_key(key) by {
                if newv.contains_key(key) {
                    self.lemma_key(key);
                    let j = self.index_of(key);
                    old_self.lemma_entry(origin[j]);
                    assert(self.entries@[j] == before[origin[j]]);
                }
                if expected.contains_key(key) {
                    old_self.lemma_key(key);
                    let i = old_self.index_of(key);
                    let j = choose|j: int| 0 <= j < kept@.len() && origin[j] == i;
                    assert(0 <= j < self.entries@.len() && self.entries@[j].0@ == key);
                }
            }
            assert forall|key: Seq<char>| newv.contains_key(key) implies newv[key] == expected[key] by {
                self.lemma_key(key);
                let j = self.index_of(key);
                old_self.lemma_entry(origin[j]);
            }
            assert(newv =~= expected);
        }
    }

    /// Registers `registered` for `root`, replacing an earlier registration of
    /// that root. A registration of the same session under another root is
    /// dropped: a session belongs to one root.
    pub fn insert(&mut self, root: String, registered: RegisteredSession)
        ensures
            final(self).view() == without_session_elsewhere(old(self).view(), root@, registered.session).insert(
                root@,
                registered,
            ),
    {
        self.forget_elsewhere(root.as_str(), registered.session);
        self.insert_fresh(root, registered);
    }

    /// Registers `registered` for `root`, replacing an earlier registration of
    /// that root, when the session is not registered for another root.
    fn insert_fresh(&mut self, root: String, registered: RegisteredSession)
        requires
            forall|k: Seq<char>| old(self).view().contains_key(k) && k != root@
                ==> #[trigger] old(self).view()[k].session != registered.session,
        ensures
            final(self).view() == old(self).view().insert(root@, registered),
    {
        proof {
            use_type_invariant(&*self);
        }
        let ghost old_self = *self;
        let found = self.find(root.as_str());
        let ghost root_view = root@;
        proof {
            assert forall|i: int| 0 <= i < old_self.entries@.len() && old_self.entries@[i].0@ != root_view
                implies #[trigger] old_self.entries@[i].1.session != registered.session by {
                old_self.lemma_entry(i);
            }
        }
        match found {
            Some(i) => {
                let mut entries: Vec<(String, RegisteredSession)> = Vec::new();
                std::mem::swap(&mut entries, &mut self.entries);
                entries.set(i, (root, registered));
                self.entries = entries;
            },
            None => {
                let mut entries: Vec<(String, RegisteredSession)> = Vec::new();
                std::mem::swap(&mut entries, &mut self.entries);
                entries.push((root, registered));
                self.entries = entries;
            },
        }
        proof {
            let newv = self.view();
            let expected = old_self.view().insert(root_view, registered);
            assert forall|key: Seq<char>| newv.contains_key(key) <==> expected.contains_key(key) by {
                if newv.contains_key(key) {
                    self.lemma_key(key);
                    let j = self.index_of(key);
                    if key != root_view {
                        old_self.lemma_entry(j);
                    }
                }
                if expected.contains_key(key) && key != root_view {
                    old_self.lemma_key(key);
                    let j = old_self.index_of(key);
                    assert(0 <= j < self.entries@.len() && self.entries@[j].0@ == key);
                }
                if key == root_view {
                    let j = if found is Some { found->0 as int } else { old_self.entries@.len() as int };
                    assert(0 <= j < self.entries@.len() && self.entries@[j].0@ == key);
                }
            }
            assert forall|key: Seq<char>| newv.contains_key(key) implies newv[key] == expected[key] by {
                self.lemma_key(key);
                let j = self.index_of(key);
                if key != root_view {
                    old_self.lemma_entry(j);
                }
            }
            assert(newv =~= expected);
        }
    }
}


/// `a == b` on file identities.
pub fn same_identity(a: Option<(u64, u64)>, b: Option<(u64, u64)>) -> (r: bool)
    ensures
        r == (a == b),
{
    match (a, b) {
        (Some(x), Some(y)) => x.0 == y.0 && x.1 == y.1,
        (None, None) => true,
        _ => false,
    }
}

/// The file identity to register for a store just opened: the identity read
/// after opening, kept only when no file was seen before opening or the same
/// file was.
pub open spec fn opened_identity_spec(before: Option<(u64, u64)>, after: Option<(u64, u64)>) -> Option<(u64, u64)> {
    match after {
        Some(a) => if before is None || before == Some(a) { Some(a) } else { None },
        None => None,
    }
}

/// The file identity to register for a store just opened.
pub fn opened_identity(before: Option<(u64, u64)>, after: Option<(u64, u64)>) -> (r: Option<(u64, u64)>)
    ensures
        r == opened_identity_spec(before, after),
{
    match after {
        Some(a) => if before.is_none() || same_identity(before, Some(a)) { Some(a) } else { None },
        None => None,
    }
}

/// Whether a store registered for a root may be handed out again instead of
/// opening another: it was opened at the current epoch for the very file that
/// is there now.
pub open spec fn reusable_spec(registered: RegisteredSession, generation: u64, before: Option<(u64, u64)>) -> bool {
    registered.generation == generation && registered.identity == before && before is Some
}

/// How a registration check of `session` for a root ends: `Ok(true)` when it
/// is already ready, `Ok(false)` when its layout must still be checked.
pub open spec fn registration_check_spec(
    registered: Option<RegisteredSession>,
    session: u64,
    generation: u64,
    observed: Option<(u64, u64)>,
) -> Result<bool, AccountError> {
    match registered {
        None => Err(AccountError::Unavailable),
        Some(reg) => if reg.session != session || reg.generation != generation || !same_file(reg, observed) {
            Err(AccountError::SessionReplaced)
        } else {
            Ok(reg.ready)
        },
    }
}

/// The second registration step: a failed layout read is passed on; an
/// unregistered root is unavailable; a changed file or epoch is a replaced
/// session; otherwise the registration becomes ready.
pub open spec fn confirm_spec(
    m: Map<Seq<char>, RegisteredSession>,
    root: Seq<char>,
    layout: Result<Option<i64>, AccountError>,
    generation: u64,
    observed: Option<(u64, u64)>,
) -> (Result<(), AccountError>, Map<Seq<char>, RegisteredSession>) {
    match layout {
        Err(e) => (Err(e), m),
        Ok(_) => if !m.contains_key(root) {
            (Err(AccountError::Unavailable), m)
        } else if !same_file(m[root], observed) || m[root].generation != generation {
            (Err(AccountError::SessionReplaced), m)
        } else {
            (Ok(()), m.insert(root, RegisteredSession { ready: true, ..m[root] }))
        },
    }
}

/// Registering the store `session` for `root`, stated at once: the root must
/// be registered (else unavailable); the registration must name that very
/// store, at the epoch `generation` read first, for the file `observed` seen
/// first (else the session was replaced). A ready registration is done.
/// Otherwise the store's layout is read (`layout`): a failed read is passed
/// on; then the file seen again (`observed_after`) and the epoch read again
/// (`generation_after`) must still be the registered ones (else replaced),
/// and the registration becomes ready. Nothing changes on a refusal.
pub open spec fn register_session_spec(
    m: Map<Seq<char>, RegisteredSession>,
    root: Seq<char>,
    session: u64,
    generation: u64,
    observed: Option<(u64, u64)>,
    layout: Result<Option<i64>, AccountError>,
    generation_after: u64,
    observed_after: Option<(u64, u64)>,
) -> (Result<(), AccountError>, Map<Seq<char>, RegisteredSession>) {
    if !m.contains_key(root) {
        (Err(AccountError::Unavailable), m)
    } else {
        let e = m[root];
        if e.session != session || e.generation != generation || !same_file(e, observed) {
            (Err(AccountError::SessionReplaced), m)
        } else if e.ready {
            (Ok(()), m)
        } else {
            match layout {
                Err(x) => (Err(x), m),
                Ok(_) => if !same_file(e, observed_after) || e.generation != generation_after {
                    (Err(AccountError::SessionReplaced), m)
                } else {
                    (Ok(()), m.insert(root, RegisteredSession { ready: true, ..e }))
                },
            }
        }
    }
}

/// Registering a store is `check_registration`, then, when that asks for
/// it, reading the layout and `confirm_registration`: the two steps give
/// exactly what `register_session_spec` states. On success the root's
/// registration is that store and ready; a refusal changes nothing; and
/// registering again while the epoch and the file stay the same succeeds and
/// changes nothing.
pub proof fn lemma_register_session(
    m: Map<Seq<char>, RegisteredSession>,
    root: Seq<char>,
    session: u64,
    generation: u64,
    observed: Option<(u64, u64)>,
    layout: Result<Option<i64>, AccountError>,
    generation_after: u64,
    observed_after: Option<(u64, u64)>,
    later_layout: Result<Option<i64>, AccountError>,
)
    ensures
        (match registration_check_spec(
            if m.contains_key(root) { Some(m[root]) } else { None::<RegisteredSession> },
            session,
            generation,
            observed,
        ) {
            Err(e) => (Err(e), m),
            Ok(true) => (Ok(()), m),
            Ok(false) => confirm_spec(m, root, layout, generation_after, observed_after),
        }) == register_session_spec(m, root, session, generation, observed, layout, generation_after, observed_after),
        ({
            let (r, after) = register_session_spec(m, root, session, generation, observed, layout, generation_after, observed_after);
            &&& r is Ok ==> after.contains_key(root) && after[root].ready && after[root].session == session
            &&& r is Err ==> after == m
            &&& (r is Ok && generation_after == generation && observed_after == observed) ==>
                register_session_spec(after, root, session, generation, observed, later_layout, generation, observed)
                    == (Ok::<(), AccountError>(()), after)
        }),
{
}

impl SessionRegistry {
    proof fn lemma_sessions_distinct(self, k1: Seq<char>, k2: Seq<char>)
        requires
            self.distinct(),
            self.view().contains_key(k1),
            self.view().contains_key(k2),
            k1 != k2,
        ensures
            self.view()[k1].session != self.view()[k2].session,
    {
        let i = self.index_of(k1);
        let j = self.index_of(k2);
        assert(i != j);
        if i < j {
            assert(self.entries@[i].1.session != self.entries@[j].1.session);
        } else {
            assert(self.entries@[j].1.session != self.entries@[i].1.session);
        }
    }

    /// The store registered for `root`, if it was opened at the current epoch
    /// for the file seen before opening (`before`).
    pub fn reusable_session(&self, root: &str, generation: u64, before: Option<(u64, u64)>) -> (r: Option<u64>)
        ensures
            r == (if self.view().contains_key(root@) && reusable_spec(self.view()[root@], generation, before) {
                Some(self.view()[root@].session)
            } else {
                None::<u64>
            }),
    {
        match self.get(root) {
            Some(reg) => if reg.generation == generation && same_identity(reg.identity, before) && before.is_some() {
                Some(reg.session)
            } else {
                None
            },
            None => None,
        }
    }

    /// Registers a store just opened for `root`, not yet ready, after dropping
    /// the registrations of stores that are no longer open (`live` lists the
    /// open ones). A store just opened is registered under no other root (see
    /// `lemma_open_session`); a registration of its handle elsewhere is dropped.
    pub fn record_opened(
        &mut self,
        root: String,
        session: u64,
        generation: u64,
        identity: Option<(u64, u64)>,
        live: &Vec<u64>,
    )
        ensures
            final(self).view() == without_session_elsewhere(live_part(old(self).view(), live@), root@, session).insert(
                root@,
                RegisteredSession { session, identity, generation, ready: false },
            ),
    {
        self.retain_live(live);
        self.insert(root, RegisteredSession { session, identity, generation, ready: false });
    }

    /// The first registration check: the store `session` must be the one
    /// registered for `root`, at epoch `generation`, for the file seen now.
    pub fn check_registration(
        &self,
        root: &str,
        session: u64,
        generation: u64,
        observed: Option<(u64, u64)>,
    ) -> (r: Result<bool, AccountError>)
        ensures
            r == registration_check_spec(
                if self.view().contains_key(root@) { Some(self.view()[root@]) } else { None::<RegisteredSession> },
                session,
                generation,
                observed,
            ),
    {
        match self.get(root) {
            None => Err(AccountError::Unavailable),
            Some(reg) => {
                let file_ok: bool = reg.identity.is_some() && same_identity(observed, reg.identity);
                if reg.session != session || reg.generation != generation || !file_ok {
                    Err(AccountError::SessionReplaced)
                } else {
                    Ok(reg.ready)
                }
            },
        }
    }

    /// The second registration step, given what reading the store's layout
    /// gave (`layout`): a failed read is passed on; otherwise the file and
    /// epoch must still be the registered ones, and then the store is ready to
    /// serve owner reads (see `confirm_spec`).
    pub fn confirm_registration(
        &mut self,
        root: &str,
        layout: Result<Option<i64>, AccountError>,
        generation: u64,
        observed: Option<(u64, u64)>,
    ) -> (r: Result<(), AccountError>)
        ensures
            (r, final(self).view()) == confirm_spec(old(self).view(), root@, layout, generation, observed),
    {
        proof {
            use_type_invariant(&*self);
        }
        if let Err(e) = layout {
            return Err(e);
        }
        match self.get(root) {
            None => Err(AccountError::Unavailable),
            Some(reg) => {
                let file_ok: bool = reg.identity.is_some() && same_identity(observed, reg.identity);
                if !file_ok || reg.generation != generation {
                    Err(AccountError::SessionReplaced)
                } else {
                    let owned_root = root.to_owned();
                    proof {
                        assert forall|k: Seq<char>| self.view().contains_key(k) && k != owned_root@
                            implies #[trigger] self.view()[k].session != reg.session by {
                            self.lemma_sessions_distinct(k, root@);
                        }
                    }
                    self.insert_fresh(owned_root, RegisteredSession { ready: true, ..reg });
                    Ok(())
                }
            },
        }
    }
}

/// The self peer that a sign-in reply or the session store names: whether it
/// is a user, its id, and whether it is marked as the signed-in user.
#[derive(Clone, Copy, Debug, PartialEq, Eq)]
pub struct PeerSummary {
    pub user: bool,
    pub id: i64,
    pub is_self: Option<bool>,
}

/// The largest user id of the Bot API.
pub open spec fn max_user_id() -> i64 {
    0xffffffffff
}

/// Whether a peer is the signed-in user with a valid Bot API user id.
pub open spec fn is_verified_self(peer: PeerSummary) -> bool {
    peer.user && peer.is_self == Some(true) && 1 <= peer.id <= max_user_id()
}

/// The owner that a self peer names, when it is a valid signed-in user.
pub fn verified_owner(peer: Option<PeerSummary>) -> (r: Option<i64>)
    ensures
        r == (match peer {
            Some(p) => if is_verified_self(p) { Some(p.id) } else { None::<i64> },
            None => None::<i64>,
        }),
{
    match peer {
        Some(p) => if p.user && p.is_self == Some(true) && 1 <= p.id && p.id <= 0xffffffffff {
            Some(p.id)
        } else {
            None
        },
        None => None,
    }
}

/// A sign-in in progress, bound to the exact store that sent its request and
/// to the epoch at which it started.
#[derive(Debug)]
pub struct AuthenticationSession {
    root: String,
    session: u64,
    generation: u64,
}

/// Whether a sign-in bound to `root`, `session` and `generation` is still
/// current: the root's store is that very store, ready, registered at that
/// epoch for the file seen now, and no sign-out happened since.
pub open spec fn sign_in_current(
    registry: Map<Seq<char>, RegisteredSession>,
    lifecycle_generation: u64,
    root: Seq<char>,
    session: u64,
    generation: u64,
    observed: Option<(u64, u64)>,
) -> bool {
    &&& registry.contains_key(root)
    &&& registry[root].ready
    &&& registry[root].generation == generation
    &&& lifecycle_generation == generation
    &&& registry[root].session == session
    &&& same_file(registry[root], observed)
}

impl AuthenticationSession {
    /// The root of the store that the sign-in is bound to.
    pub closed spec fn root_path(&self) -> Seq<char> {
        self.root@
    }

    /// The store that the sign-in is bound to.
    pub closed spec fn store(&self) -> u64 {
        self.session
    }

    /// The epoch at which the sign-in started.
    pub closed spec fn epoch(&self) -> u64 {
        self.generation
    }

    /// Binds a sign-in to the store `session`. `observed` is the identity of
    /// the session file under the root that `registry.root_of(session)` names.
    pub fn capture_in(
        registry: &SessionRegistry,
        lifecycle: &WorkspaceLifecycle,
        session: u64,
        observed: Option<(u64, u64)>,
    ) -> (r: Result<Self, AccountError>)
        ensures
            !registry.holds_session(session) ==> r == Err::<Self, AccountError>(AccountError::RestartSignIn),
            forall|root: Seq<char>|
                registry.view().contains_key(root) && #[trigger] registry.view()[root].session == session ==> {
                    if sign_in_current(registry.view(), lifecycle.generation, root, session, lifecycle.generation, observed) {
                        r matches Ok(a) && a.root_path() == root && a.store() == session
                            && a.epoch() == lifecycle.generation
                    } else {
                        r == Err::<Self, AccountError>(AccountError::RestartSignIn)
                    }
                },
    {
        proof {
            use_type_invariant(registry);
        }
        let root = match registry.root_of(session) {
            Some(root) => root,
            None => return Err(AccountError::RestartSignIn),
        };
        let captured = AuthenticationSession { root, session, generation: lifecycle.generation };
        proof {
            assert forall|other: Seq<char>|
                registry.view().contains_key(other) && #[trigger] registry.view()[other].session == session
                implies other == captured.root@ by {
                if other != captured.root@ {
                    registry.lemma_sessions_distinct(other, captured.root@);
                }
            }
        }
        match captured.validate_in(registry, lifecycle, observed) {
            Ok(()) => Ok(captured),
            Err(e) => Err(e),
        }
    }

    /// Checks that the sign-in is still current (see `sign_in_current`);
    /// `observed` is the identity of the session file seen now.
    pub fn validate_in(
        &self,
        registry: &SessionRegistry,
        lifecycle: &WorkspaceLifecycle,
        observed: Option<(u64, u64)>,
    ) -> (r: Result<(), AccountError>)
        ensures
            r == (if sign_in_current(registry.view(), lifecycle.generation, self.root_path(), self.store(), self.epoch(), observed) {
                Ok::<(), AccountError>(())
            } else {
                Err(AccountError::RestartSignIn)
            }),
    {
        let valid: bool = match registry.get(self.root.as_str()) {
            Some(reg) => reg.ready && reg.generation == self.generation && lifecycle.generation == self.generation
                && reg.session == self.session && reg.identity.is_some() && same_identity(observed, reg.identity),
            None => false,
        };
        if valid {
            Ok(())
        } else {
            Err(AccountError::RestartSignIn)
        }
    }

    /// The checks before a sign-in reply is persisted: the sign-in must still
    /// be current, and the reply must name a valid signed-in user.
    pub fn begin_completion(
        &self,
        registry: &SessionRegistry,
        lifecycle: &WorkspaceLifecycle,
        observed: Option<(u64, u64)>,
        peer: &PeerSummary,
    ) -> (r: Result<(), AccountError>)
        ensures
            r == (if !sign_in_current(registry.view(), lifecycle.generation, self.root_path(), self.store(), self.epoch(), observed) {
                Err(AccountError::RestartSignIn)
            } else if !is_verified_self(*peer) {
                Err(AccountError::AccountNotConfirmed)
            } else {
                Ok::<(), AccountError>(())
            }),
    {
        match self.validate_in(registry, lifecycle, observed) {
            Err(e) => Err(e),
            Ok(()) => if peer.user && peer.is_self == Some(true) && 1 <= peer.id && peer.id <= 0xffffffffff {
                Ok(())
            } else {
                Err(AccountError::AccountNotConfirmed)
            },
        }
    }

    /// The last step of a sign-in, after its reply was persisted: if the
    /// sign-in is still current, the workspace stops signing out.
    pub fn finish_completion(
        &self,
        registry: &SessionRegistry,
        lifecycle: &mut WorkspaceLifecycle,
        observed: Option<(u64, u64)>,
    ) -> (r: Result<(), AccountError>)
        ensures
            final(lifecycle).generation == old(lifecycle).generation,
            if sign_in_current(registry.view(), old(lifecycle).generation, self.root_path(), self.store(), self.epoch(), observed) {
                r == Ok::<(), AccountError>(()) && !final(lifecycle).signing_out
            } else {
                r == Err::<(), AccountError>(AccountError::RestartSignIn)
                    && final(lifecycle).signing_out == old(lifecycle).signing_out
            },
    {
        match self.validate_in(registry, lifecycle, observed) {
            Err(e) => Err(e),
            Ok(()) => {
                lifecycle.signing_out = false;
                Ok(())
            },
        }
    }
}

/// A sign-in reply that arrives after a sign-out cannot complete: once the
/// epoch has advanced past the one the sign-in started at, the sign-in is no
/// longer current, whatever the registry and the session file look like.
pub proof fn lemma_sign_out_ends_sign_in(
    registry: Map<Seq<char>, RegisteredSession>,
    sign_in: AuthenticationSession,
    observed: Option<(u64, u64)>,
)
    ensures
        !sign_in_current(
            registry,
            next_generation(sign_in.epoch()),
            sign_in.root_path(),
            sign_in.store(),
            sign_in.epoch(),
            observed,
        ),
{
}

/// A sign-in bound to one store cannot complete through another: when the
/// root's registration names a different store, the sign-in is not current.
pub proof fn lemma_sign_in_bound_to_its_store(
    registry: Map<Seq<char>, RegisteredSession>,
    generation: u64,
    sign_in: AuthenticationSession,
    observed: Option<(u64, u64)>,
)
    requires
        registry.contains_key(sign_in.root_path()),
        registry[sign_in.root_path()].session != sign_in.store(),
    ensures
        !sign_in_current(registry, generation, sign_in.root_path(), sign_in.store(), sign_in.epoch(), observed),
{
}

/// A store just opened is not ready: checking it for the same file at the
/// same epoch asks for the layout check first; any other store, epoch or
/// file is refused as replaced.
pub proof fn lemma_opened_store_must_be_confirmed(
    session: u64,
    identity: Option<(u64, u64)>,
    generation: u64,
    other_session: u64,
    other_generation: u64,
    observed: Option<(u64, u64)>,
)
    ensures
        ({
            let reg = RegisteredSession { session, identity, generation, ready: false };
            &&& identity is Some ==> registration_check_spec(Some(reg), session, generation, identity) == Ok::<bool, AccountError>(false)
            &&& (other_session != session || other_generation != generation || observed != identity || identity is None)
                ==> registration_check_spec(Some(reg), other_session, other_generation, observed)
                    == Err::<bool, AccountError>(AccountError::SessionReplaced)
        }),
{
}

/// The registry keeps no store that is no longer open: after dropping the
/// closed ones, every registration names an open store, and every
/// registration of an open store is kept unchanged.
pub proof fn lemma_live_part(m: Map<Seq<char>, RegisteredSession>, live: Seq<u64>)
    ensures
        forall|k: Seq<char>| #[trigger] live_part(m, live).contains_key(k) ==> live.contains(live_part(m, live)[k].session),
        forall|k: Seq<char>| m.contains_key(k) && live.contains(#[trigger] m[k].session)
            ==> live_part(m, live).contains_key(k) && live_part(m, live)[k] == m[k],
{
}

/// Opening a new store for a root (when the registered one could not be
/// reused): the root is then registered with the new store, not yet ready, at
/// the epoch read when opening began, with the file identity read after
/// opening when no file or the same file was there before (else none); every
/// other root keeps its registration, unchanged, exactly while its store is
/// still open. A store just opened names no registered store, which is what
/// the `requires` says.
pub proof fn lemma_open_session(
    m: Map<Seq<char>, RegisteredSession>,
    root: Seq<char>,
    session: u64,
    generation: u64,
    before: Option<(u64, u64)>,
    after: Option<(u64, u64)>,
    live: Seq<u64>,
)
    requires
        forall|k: Seq<char>| #[trigger] m.contains_key(k) ==> m[k].session != session,
    ensures
        ({
            let n = without_session_elsewhere(live_part(m, live), root, session).insert(
                root,
                RegisteredSession { session, identity: opened_identity_spec(before, after), generation, ready: false },
            );
            &&& n.contains_key(root)
            &&& n[root] == RegisteredSession { session, identity: opened_identity_spec(before, after), generation, ready: false }
            &&& forall|k: Seq<char>| k != root ==> (#[trigger] n.contains_key(k) <==> (m.contains_key(k) && live.contains(m[k].session)))
            &&& forall|k: Seq<char>| k != root && #[trigger] n.contains_key(k) ==> n[k] == m[k]
            &&& n == live_part(m, live).insert(
                root,
                RegisteredSession { session, identity: opened_identity_spec(before, after), generation, ready: false },
            )
        }),
{
    let reg = RegisteredSession { session, identity: opened_identity_spec(before, after), generation, ready: false };
    assert(without_session_elsewhere(live_part(m, live), root, session) =~= live_part(m, live));
}

/// Any number of sign-outs, short of the epoch wrapping all the way around,
/// ends a sign-in that started before them.
pub proof fn lemma_sign_outs_end_sign_in(
    registry: Map<Seq<char>, RegisteredSession>,
    sign_in: AuthenticationSession,
    sign_outs: nat,
    observed: Option<(u64, u64)>,
)
    requires
        0 < sign_outs < 0x1_0000_0000_0000_0000,
    ensures
        !sign_in_current(
            registry,
            generation_after(sign_in.epoch(), sign_outs),
            sign_in.root_path(),
            sign_in.store(),
            sign_in.epoch(),
            observed,
        ),
{
    lemma_sign_outs_change_generation(sign_in.epoch(), sign_outs);
}

} // verus!
