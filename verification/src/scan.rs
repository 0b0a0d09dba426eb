//! Folder scans: how a scanned folder is named and when a scan request or a
//! finished scan is accepted, and when the background task applies an
//! owner's storage limits.
use vstd::prelude::*;
use crate::errors::AccountError;

verus! {

/// The text with every occurrence of `pattern` removed, occurrences found
/// left to right without overlapping, as `str::replace(pattern, "")` does;
/// an empty pattern removes nothing.
pub open spec fn remove_all(s: Seq<char>, pattern: Seq<char>) -> Seq<char>
    decreases s.len(),
{
    if pattern.len() == 0 || s.len() < pattern.len() {
        s
    } else if s.take(pattern.len() as int) == pattern {
        remove_all(s.skip(pattern.len() as int), pattern)
    } else {
        seq![s[0]] + remove_all(s.drop_first(), pattern)
    }
}

/// The marker that channel titles carry for storage channels.
pub open spec fn storage_marker() -> Seq<char> {
    seq![' ', '[', 'T', 'D', ']']
}

/// The name under which a scanned folder is shown: the channel's title
/// without its storage marker, or `Saved Messages`.
pub open spec fn scan_folder_name_spec(channel_title: Option<Seq<char>>) -> Seq<char> {
    match channel_title {
        Some(title) => remove_all(title, storage_marker()),
        None => "Saved Messages"@,
    }
}

fn matches_at(s: &str, len: usize, i: usize, pattern: &str, plen: usize) -> (r: bool)
    requires
        len == s@.len(),
        plen == pattern@.len(),
        i <= len,
    ensures
        r == (i + plen <= len && s@.skip(i as int).take(plen as int) == pattern@),
{
    if plen > len - i {
        return false;
    }
    let mut k: usize = 0;
    while k < plen
        invariant
            i + plen <= len,
            len == s@.len(),
            plen == pattern@.len(),
            k <= plen,
            forall|m: int| 0 <= m < k ==> s@[i + m] == pattern@[m],
        decreases plen - k,
    {
        if s.get_char(i + k) != pattern.get_char(k) {
            assert(s@.skip(i as int).take(plen as int)[k as int] != pattern@[k as int]);
            return false;
        }
        k = k + 1;
    }
    assert(s@.skip(i as int).take(plen as int) =~= pattern@);
    true
}

proof fn lemma_remove_all_step(s: Seq<char>, pattern: Seq<char>, i: int)
    requires
        pattern.len() > 0,
        0 <= i < s.len(),
    ensures
        s.skip(i).len() >= pattern.len() && s.skip(i).take(pattern.len() as int) == pattern
            ==> remove_all(s.skip(i), pattern) == remove_all(s.skip(i + pattern.len()), pattern),
        !(s.skip(i).len() >= pattern.len() && s.skip(i).take(pattern.len() as int) == pattern)
            ==> remove_all(s.skip(i), pattern) == seq![s[i]] + remove_all(s.skip(i + 1), pattern),
{
    let t = s.skip(i);
    if t.len() >= pattern.len() && t.take(pattern.len() as int) == pattern {
        assert(t.skip(pattern.len() as int) =~= s.skip(i + pattern.len()));
    } else {
        assert(t.drop_first() =~= s.skip(i + 1));
        if t.len() < pattern.len() {
            assert(remove_all(t, pattern) == t);
            assert(remove_all(s.skip(i + 1), pattern) == s.skip(i + 1));
            assert(t =~= seq![s[i]] + s.skip(i + 1));
        }
    }
}

/// `s.replace(pattern, "")`.
pub fn remove_pattern(s: &str, pattern: &str) -> (r: String)
    ensures
        r@ == remove_all(s@, pattern@),
{
    let len: usize = s.unicode_len();
    let plen: usize = pattern.unicode_len();
    if plen == 0 {
        return s.to_owned();
    }
    let mut out = String::new();
    let mut i: usize = 0;
    assert(s@.skip(0) =~= s@);
    assert(out@ + remove_all(s@, pattern@) =~= remove_all(s@, pattern@));
    while i < len
        invariant
            len == s@.len(),
            plen == pattern@.len(),
            plen > 0,
            i <= len,
            remove_all(s@, pattern@) == out@ + remove_all(s@.skip(i as int), pattern@),
        decreases len - i,
    {
        proof {
            lemma_remove_all_step(s@, pattern@, i as int);
        }
        if matches_at(s, len, i, pattern, plen) {
            i = i + plen;
        } else {
            let c = s.substring_char(i, i + 1);
            assert(c@ =~= seq![s@[i as int]]);
            out.append(c);
            i = i + 1;
        }
    }
    assert(s@.skip(len as int) =~= Seq::<char>::empty());
    assert(out@ + Seq::<char>::empty() =~= out@);
    out
}

/// The name under which a scanned folder is shown (see `scan_folder_name_spec`);
/// `channel_title` is the title of the scanned channel, `None` for Saved Messages.
pub fn scan_folder_name(channel_title: Option<&str>) -> (r: String)
    ensures
        r@ == scan_folder_name_spec(match channel_title { Some(t) => Some(t@), None => None }),
{
    match channel_title {
        Some(title) => {
            proof {
                reveal_strlit(" [TD]");
            }
            let marker = " [TD]";
            assert(marker@ =~= storage_marker());
            remove_pattern(title, marker)
        },
        None => "Saved Messages".to_owned(),
    }
}

/// Why a scan request or a scan was refused.
#[derive(Clone, Copy, Debug, PartialEq, Eq, Structural)]
pub enum ScanError {
    /// The request named too many folders.
    TooManyFolders,
    /// A folder scan stopped before it completed.
    Interrupted,
}

impl ScanError {
    /// The message text of the refusal.
    pub open spec fn text(self) -> Seq<char> {
        match self {
            ScanError::TooManyFolders => "Select fewer than 1,000 folders per scan"@,
            ScanError::Interrupted => "The folder scan was interrupted before it completed; try again"@,
        }
    }

    /// The message of the refusal.
    pub fn message(&self) -> (s: String)
        ensures
            s@ == self.text(),
    {
        match self {
            ScanError::TooManyFolders => "Select fewer than 1,000 folders per scan".to_owned(),
            ScanError::Interrupted => "The folder scan was interrupted before it completed; try again".to_owned(),
        }
    }
}

/// Indexing accepts at most 1000 folders per request.
pub fn check_index_request(folder_count: usize) -> (r: Result<(), ScanError>)
    ensures
        r == (if folder_count > 1000 { Err(ScanError::TooManyFolders) } else { Ok::<(), ScanError>(()) }),
{
    if folder_count > 1000 {
        Err(ScanError::TooManyFolders)
    } else {
        Ok(())
    }
}

/// A folder scan counts only when it completed.
pub fn check_scan_complete(complete: bool) -> (r: Result<(), ScanError>)
    ensures
        r == (if complete { Ok::<(), ScanError>(()) } else { Err(ScanError::Interrupted) }),
{
    if complete {
        Ok(())
    } else {
        Err(ScanError::Interrupted)
    }
}

/// Why indexing folders failed.
#[derive(Clone, Debug, PartialEq, Eq)]
pub enum IndexError {
    /// The request or a scan was refused.
    Refused(ScanError),
    /// The captured account no longer held before a folder was scanned.
    Account(AccountError),
    /// Scanning a folder failed.
    Failed(String),
}

impl IndexError {
    /// The message text of the failure.
    pub open spec fn text(self) -> Seq<char> {
        match self {
            IndexError::Refused(e) => e.text(),
            IndexError::Account(e) => e.text(),
            IndexError::Failed(m) => m@,
        }
    }

    /// The message of the failure.
    pub fn message(self) -> (s: String)
        ensures
            s@ == self.text(),
    {
        match self {
            IndexError::Refused(e) => e.message(),
            IndexError::Account(e) => e.message(),
            IndexError::Failed(m) => m,
        }
    }
}

/// Where indexing a list of folders stands.
#[derive(Debug)]
pub enum IndexRun {
    /// The account is to be checked before folder `next` of `total` is scanned.
    Validate { next: usize, total: usize },
    /// Folder `next` of `total` is to be scanned.
    Scan { next: usize, total: usize },
    /// Every folder was scanned completely; the workspace is to be read.
    Read,
    /// Indexing failed.
    Failed { error: IndexError },
}

/// What the caller saw.
#[derive(Debug)]
pub enum IndexEvent {
    /// The outcome of checking the captured account.
    Validated(Result<(), AccountError>),
    /// The outcome of scanning the folder: whether the scan completed.
    Scanned(Result<bool, String>),
}

/// What indexing waits for.
#[derive(Clone, Copy, Debug, PartialEq, Eq, Structural)]
pub enum IndexAction {
    Validate,
    Scan(usize),
    Read,
    Failed,
}

/// How indexing `total` folders begins: more than 1000 are refused.
pub open spec fn index_start_spec(total: usize) -> IndexRun {
    if total > 1000 {
        IndexRun::Failed { error: IndexError::Refused(ScanError::TooManyFolders) }
    } else if total == 0 {
        IndexRun::Read
    } else {
        IndexRun::Validate { next: 0, total }
    }
}

/// One step of indexing; an event of another kind than the one awaited
/// leaves indexing where it stands.
pub open spec fn index_step_spec(s: IndexRun, e: IndexEvent) -> IndexRun {
    match (s, e) {
        (IndexRun::Validate { next, total }, IndexEvent::Validated(checked)) => match checked {
            Err(a) => IndexRun::Failed { error: IndexError::Account(a) },
            Ok(_) => IndexRun::Scan { next, total },
        },
        (IndexRun::Scan { next, total }, IndexEvent::Scanned(scanned)) => match scanned {
            Err(m) => IndexRun::Failed { error: IndexError::Failed(m) },
            Ok(complete) => if !complete {
                IndexRun::Failed { error: IndexError::Refused(ScanError::Interrupted) }
            } else if next + 1 >= total {
                IndexRun::Read
            } else {
                IndexRun::Validate { next: (next + 1) as usize, total }
            },
        },
        (s, _) => s,
    }
}

/// What indexing waits for.
pub open spec fn index_action_spec(s: IndexRun) -> IndexAction {
    match s {
        IndexRun::Validate { .. } => IndexAction::Validate,
        IndexRun::Scan { next, .. } => IndexAction::Scan(next),
        IndexRun::Read => IndexAction::Read,
        IndexRun::Failed { .. } => IndexAction::Failed,
    }
}

impl IndexRun {
    /// Begins indexing `total` folders.
    pub fn start(total: usize) -> (r: Self)
        ensures
            r == index_start_spec(total),
    {
        if total > 1000 {
            IndexRun::Failed { error: IndexError::Refused(ScanError::TooManyFolders) }
        } else if total == 0 {
            IndexRun::Read
        } else {
            IndexRun::Validate { next: 0, total }
        }
    }

    /// Feeds what the caller saw.
    pub fn step(self, event: IndexEvent) -> (r: Self)
        ensures
            r == index_step_spec(self, event),
    {
        match (self, event) {
            (IndexRun::Validate { next, total }, IndexEvent::Validated(checked)) => match checked {
                Err(a) => IndexRun::Failed { error: IndexError::Account(a) },
                Ok(()) => IndexRun::Scan { next, total },
            },
            (IndexRun::Scan { next, total }, IndexEvent::Scanned(scanned)) => match scanned {
                Err(m) => IndexRun::Failed { error: IndexError::Failed(m) },
                Ok(complete) => if !complete {
                    IndexRun::Failed { error: IndexError::Refused(ScanError::Interrupted) }
                } else if next >= total || total - next <= 1 {
                    IndexRun::Read
                } else {
                    IndexRun::Validate { next: next + 1, total }
                },
            },
            (s, _) => s,
        }
    }

    /// What indexing waits for.
    pub fn next_action(&self) -> (r: IndexAction)
        ensures
            r == index_action_spec(*self),
    {
        match self {
            IndexRun::Validate { .. } => IndexAction::Validate,
            IndexRun::Scan { next, .. } => IndexAction::Scan(*next),
            IndexRun::Read => IndexAction::Read,
            IndexRun::Failed { .. } => IndexAction::Failed,
        }
    }

    /// The failure, once indexing failed.
    pub fn failure(self) -> (r: Option<IndexError>)
        ensures
            r == (match self {
                IndexRun::Failed { error } => Some(error),
                _ => None::<IndexError>,
            }),
    {
        match self {
            IndexRun::Failed { error } => Some(error),
            _ => None,
        }
    }
}

/// Indexing folders `next..total`, stated at once over what checking the
/// account and scanning each folder gave (`steps[k]` for folder `k`): the
/// first refused check, failed scan or incomplete scan ends it; otherwise
/// every folder was scanned completely.
pub open spec fn index_from(next: int, total: int, steps: Seq<(Result<(), AccountError>, Result<bool, String>)>) -> Result<(), IndexError>
    decreases total - next,
{
    if next >= total {
        Ok(())
    } else {
        match steps[next].0 {
            Err(a) => Err(IndexError::Account(a)),
            Ok(_) => match steps[next].1 {
                Err(m) => Err(IndexError::Failed(m)),
                Ok(complete) => if !complete {
                    Err(IndexError::Refused(ScanError::Interrupted))
                } else {
                    index_from(next + 1, total, steps)
                },
            },
        }
    }
}

/// Indexing `total` folders, stated at once: more than 1000 are refused;
/// else as `index_from` from the first folder.
pub open spec fn index_spec(total: usize, steps: Seq<(Result<(), AccountError>, Result<bool, String>)>) -> Result<(), IndexError> {
    if total > 1000 {
        Err(IndexError::Refused(ScanError::TooManyFolders))
    } else {
        index_from(0, total as int, steps)
    }
}

/// The event that answers what indexing waits for, taken from `steps`.
pub open spec fn index_answer(s: IndexRun, steps: Seq<(Result<(), AccountError>, Result<bool, String>)>) -> IndexEvent {
    match s {
        IndexRun::Validate { next, .. } => IndexEvent::Validated(steps[next as int].0),
        IndexRun::Scan { next, .. } => IndexEvent::Scanned(steps[next as int].1),
        _ => IndexEvent::Validated(Ok(())),
    }
}

/// Indexing after `n` answered steps.
pub open spec fn index_run(s: IndexRun, steps: Seq<(Result<(), AccountError>, Result<bool, String>)>, n: nat) -> IndexRun
    decreases n,
{
    if n == 0 {
        s
    } else {
        index_run(index_step_spec(s, index_answer(s, steps)), steps, (n - 1) as nat)
    }
}

/// The state that an outcome of indexing ends in.
pub open spec fn index_end(r: Result<(), IndexError>) -> IndexRun {
    match r {
        Ok(_) => IndexRun::Read,
        Err(e) => IndexRun::Failed { error: e },
    }
}

proof fn lemma_index_end_stays(r: Result<(), IndexError>, steps: Seq<(Result<(), AccountError>, Result<bool, String>)>, n: nat)
    ensures
        index_run(index_end(r), steps, n) == index_end(r),
    decreases n,
{
    if n > 0 {
        lemma_index_end_stays(r, steps, (n - 1) as nat);
    }
}

proof fn lemma_index_run_from(next: usize, total: usize, steps: Seq<(Result<(), AccountError>, Result<bool, String>)>)
    requires
        next < total,
        steps.len() >= total,
    ensures
        index_run(IndexRun::Validate { next, total }, steps, (2 * (total - next)) as nat)
            == index_end(index_from(next as int, total as int, steps)),
    decreases total - next,
{
    let s0 = IndexRun::Validate { next, total };
    let n = (2 * (total - next)) as nat;
    let s1 = index_step_spec(s0, index_answer(s0, steps));
    let s2 = index_step_spec(s1, index_answer(s1, steps));
    assert(index_run(s0, steps, n) == index_run(s1, steps, (n - 1) as nat));
    assert(index_run(s1, steps, (n - 1) as nat) == index_run(s2, steps, (n - 2) as nat));
    match steps[next as int].0 {
        Err(a) => {
            lemma_index_end_stays(Err(IndexError::Account(a)), steps, (n - 1) as nat);
        },
        Ok(_) => {
            match steps[next as int].1 {
                Err(m) => {
                    lemma_index_end_stays(Err(IndexError::Failed(m)), steps, (n - 2) as nat);
                },
                Ok(complete) => {
                    if !complete {
                        lemma_index_end_stays(Err(IndexError::Refused(ScanError::Interrupted)), steps, (n - 2) as nat);
                    } else if next + 1 >= total {
                        lemma_index_end_stays(Ok(()), steps, (n - 2) as nat);
                    } else {
                        lemma_index_run_from((next + 1) as usize, total, steps);
                        assert(s1 == IndexRun::Scan { next, total });
                        assert(s2 == IndexRun::Validate { next: (next + 1) as usize, total });
                        assert((n - 2) as nat == (2 * (total - (next + 1) as usize)) as nat);
                        assert(index_from(next as int, total as int, steps) == index_from(next + 1, total as int, steps));
                    }
                },
            }
        },
    }
}

/// Checking the account before each folder and scanning it, as indexing asks,
/// ends (after at most two steps per folder) in reading the workspace exactly
/// when every check held and every scan completed, and otherwise in the
/// first refusal or failure, as `index_spec` states.
pub proof fn lemma_index_run(total: usize, steps: Seq<(Result<(), AccountError>, Result<bool, String>)>)
    requires
        steps.len() >= total,
    ensures
        index_run(index_start_spec(total), steps, (2 * total) as nat) == index_end(index_spec(total, steps)),
{
    if total > 1000 {
        lemma_index_end_stays(index_spec(total, steps), steps, (2 * total) as nat);
    } else if total == 0 {
        lemma_index_end_stays(Ok(()), steps, 0);
    } else {
        lemma_index_run_from(0, total, steps);
    }
}

/// The owner whose storage limits the background task last applied.
pub struct BackgroundState {
    pub configured_owner: Option<i64>,
}

impl BackgroundState {
    /// No limits applied yet.
    pub fn new() -> (r: Self)
        ensures
            r.configured_owner is None,
    {
        BackgroundState { configured_owner: None }
    }

    /// Notes the current owner; the result says whether that owner's storage
    /// limits must be applied now (the owner changed since the last time).
    pub fn observe_owner(&mut self, owner: i64) -> (apply: bool)
        ensures
            apply == (old(self).configured_owner != Some(owner)),
            final(self).configured_owner == Some(owner),
    {
        let apply: bool = match self.configured_owner {
            Some(o) => o != owner,
            None => true,
        };
        self.configured_owner = Some(owner);
        apply
    }
}

} // verus!
