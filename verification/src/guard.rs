//! A captured account: the owner and epoch that an operation started under,
//! checked again before its effects are kept.
use vstd::prelude::*;
use crate::decimal::{decimal, format_i64};
use crate::errors::AccountError;
use crate::lifecycle::{next_generation, generation_after, lemma_sign_outs_change_generation};
use crate::text::str_eq;

verus! {

/// The workspace root, owner and epoch that an operation belongs to.
#[derive(Clone, Debug)]
pub struct AccountGuard {
    pub root: String,
    pub owner: i64,
    generation: u64,
}

/// What checking a captured account gives, when the lifecycle is at epoch
/// `generation` and reading the current owner gave `current_owner`.
pub open spec fn validate_outcome(
    captured_owner: i64,
    captured_generation: u64,
    generation: u64,
    current_owner: Result<i64, AccountError>,
) -> Result<(), AccountError> {
    if captured_generation != generation {
        Err(AccountError::DifferentSession)
    } else {
        match current_owner {
            Err(e) => Err(e),
            Ok(owner) => if owner != captured_owner {
                Err(AccountError::DifferentSession)
            } else {
                Ok(())
            },
        }
    }
}

/// What opening a workspace for `expected` gives, when the epoch read before
/// and after reading the current owner are `before` and `after`.
pub open spec fn open_outcome(
    expected: Option<Seq<char>>,
    before: u64,
    current_owner: Result<i64, AccountError>,
    after: u64,
) -> Result<i64, AccountError> {
    match current_owner {
        Err(e) => Err(e),
        Ok(owner) => if before != after || (expected is Some && expected->0 != decimal(owner as int)) {
            Err(AccountError::ReopenWorkspace)
        } else {
            Ok(owner)
        },
    }
}

/// Checks an account captured for `owner` at epoch `epoch` (see `validate_outcome`).
fn check_captured(
    owner: i64,
    epoch: u64,
    generation: u64,
    current_owner: Result<i64, AccountError>,
) -> (r: Result<(), AccountError>)
    ensures
        r == validate_outcome(owner, epoch, generation, current_owner),
{
    if epoch != generation {
        return Err(AccountError::DifferentSession);
    }
    match current_owner {
        Err(e) => Err(e),
        Ok(current) => if current != owner {
            Err(AccountError::DifferentSession)
        } else {
            Ok(())
        },
    }
}

impl AccountGuard {
    /// The owner that the account was captured for.
    pub fn owner(&self) -> (r: i64)
        ensures
            r == self.owner_id(),
    {
        self.owner
    }

    /// The workspace root that the account was captured for.
    pub fn root(&self) -> (r: &str)
        ensures
            r@ == self.root_path(),
    {
        self.root.as_str()
    }

    /// The epoch that the account was captured at.
    pub fn generation(&self) -> (r: u64)
        ensures
            r == self.epoch(),
    {
        self.generation
    }

    /// The epoch that the account was captured at.
    pub closed spec fn epoch(&self) -> u64 {
        self.generation
    }

    /// The owner that the account was captured for.
    pub closed spec fn owner_id(&self) -> i64 {
        self.owner
    }

    /// The workspace root that the account was captured for.
    pub closed spec fn root_path(&self) -> Seq<char> {
        self.root@
    }

    /// Captures the current owner of the workspace at `root`. `before` and
    /// `after` are the lifecycle epoch read before and after the owner was
    /// read; `expected`, when given, is the owner id (in decimal) that the
    /// caller believes is current.
    pub fn open(
        root: &str,
        expected: Option<&str>,
        before: u64,
        current_owner: Result<i64, AccountError>,
        after: u64,
    ) -> (r: Result<Self, AccountError>)
        ensures
            match open_outcome(
                match expected { Some(id) => Some(id@), None => None },
                before,
                current_owner,
                after,
            ) {
                Err(e) => r == Err::<Self, AccountError>(e),
                Ok(owner) => r matches Ok(g) && g.root_path() == root@ && g.owner_id() == owner && g.epoch() == before,
            },
    {
        let owner = match current_owner {
            Err(e) => return Err(e),
            Ok(owner) => owner,
        };
        let mismatch: bool = match expected {
            Some(id) => {
                let written = format_i64(owner);
                !str_eq(id, written.as_str())
            },
            None => false,
        };
        if before != after || mismatch {
            return Err(AccountError::ReopenWorkspace);
        }
        Ok(AccountGuard { root: root.to_owned(), owner, generation: before })
    }

    /// Checks that the account is still the current one: the lifecycle is
    /// still at the captured epoch and the workspace still has the captured owner.
    pub fn validate(&self, generation: u64, current_owner: Result<i64, AccountError>) -> (r: Result<(), AccountError>)
        ensures
            r == validate_outcome(self.owner_id(), self.epoch(), generation, current_owner),
    {
        check_captured(self.owner, self.generation, generation, current_owner)
    }

    /// Checks that the connected client is signed in to the captured owner,
    /// then that the account is still the current one.
    pub fn validate_client_owner(
        &self,
        client_owner: i64,
        generation: u64,
        current_owner: Result<i64, AccountError>,
    ) -> (r: Result<(), AccountError>)
        ensures
            r == (if client_owner != self.owner_id() {
                Err(AccountError::OtherClientAccount)
            } else {
                validate_outcome(self.owner_id(), self.epoch(), generation, current_owner)
            }),
    {
        if client_owner != self.owner {
            return Err(AccountError::OtherClientAccount);
        }
        self.validate(generation, current_owner)
    }
}

/// The account that the running operation was started for, checked again;
/// `None` when no operation scope is active.
pub fn operation_account(
    account: Option<AccountGuard>,
    generation: u64,
    current_owner: Result<i64, AccountError>,
) -> (r: Result<Option<AccountGuard>, AccountError>)
    ensures
        match account {
            None => r == Ok::<Option<AccountGuard>, AccountError>(None),
            Some(g) => match validate_outcome(g.owner_id(), g.epoch(), generation, current_owner) {
                Err(e) => r == Err::<Option<AccountGuard>, AccountError>(e),
                Ok(_) => r == Ok::<Option<AccountGuard>, AccountError>(Some(g)),
            },
        },
{
    match account {
        None => Ok(None),
        Some(g) => match g.validate(generation, current_owner) {
            Err(e) => Err(e),
            Ok(()) => Ok(Some(g)),
        },
    }
}

/// Why an operation run for a captured account failed.
#[derive(Clone, Debug, PartialEq, Eq)]
pub enum OperationError {
    /// Checking the account, before or after the operation, refused.
    Account(AccountError),
    /// The operation itself failed.
    Failed(String),
}

impl OperationError {
    /// The message text of the failure.
    pub open spec fn text(self) -> Seq<char> {
        match self {
            OperationError::Account(e) => e.text(),
            OperationError::Failed(m) => m@,
        }
    }

    /// The message of the failure.
    pub fn message(self) -> (s: String)
        ensures
            s@ == self.text(),
    {
        match self {
            OperationError::Account(e) => e.message(),
            OperationError::Failed(m) => m,
        }
    }
}

/// An operation run for a captured account: the account is checked before
/// the operation runs and again after it succeeded.
#[derive(Debug)]
pub enum OperationRun<T> {
    /// The account passed its first check; the operation is to run.
    Run { owner: i64, generation: u64 },
    /// The operation succeeded with this value; the account is to be checked again.
    Revalidate { owner: i64, generation: u64, value: T },
    /// Finished.
    Finished { result: Result<T, OperationError> },
}

/// What an operation run waits for.
#[derive(Clone, Copy, Debug, PartialEq, Eq, Structural)]
pub enum OperationAction {
    Run,
    Revalidate,
    Finished,
}

/// How a run begins: refused if the account fails its check, else ready to
/// run the operation.
pub open spec fn operation_start_spec<T>(
    owner: i64,
    epoch: u64,
    generation: u64,
    current_owner: Result<i64, AccountError>,
) -> OperationRun<T> {
    match validate_outcome(owner, epoch, generation, current_owner) {
        Err(e) => OperationRun::Finished { result: Err(OperationError::Account(e)) },
        Ok(_) => OperationRun::Run { owner, generation: epoch },
    }
}

/// A run after the operation returned `result`: a failure is the outcome,
/// a success waits for the second check. Other states stay.
pub open spec fn operation_done_spec<T>(s: OperationRun<T>, result: Result<T, String>) -> OperationRun<T> {
    match s {
        OperationRun::Run { owner, generation } => match result {
            Err(m) => OperationRun::Finished { result: Err(OperationError::Failed(m)) },
            Ok(value) => OperationRun::Revalidate { owner, generation, value },
        },
        _ => s,
    }
}

/// A run after the second check, at epoch `generation` with the workspace
/// reading `current_owner`: a refusal is the outcome, else the operation's
/// value. Other states stay.
pub open spec fn operation_revalidate_spec<T>(
    s: OperationRun<T>,
    generation: u64,
    current_owner: Result<i64, AccountError>,
) -> OperationRun<T> {
    match s {
        OperationRun::Revalidate { owner, generation: epoch, value } => match validate_outcome(owner, epoch, generation, current_owner) {
            Err(e) => OperationRun::Finished { result: Err(OperationError::Account(e)) },
            Ok(_) => OperationRun::Finished { result: Ok(value) },
        },
        _ => s,
    }
}

/// What a run waits for.
pub open spec fn operation_action_spec<T>(s: OperationRun<T>) -> OperationAction {
    match s {
        OperationRun::Run { .. } => OperationAction::Run,
        OperationRun::Revalidate { .. } => OperationAction::Revalidate,
        OperationRun::Finished { .. } => OperationAction::Finished,
    }
}

impl<T> OperationRun<T> {
    /// Begins a run for `account`, checking it at epoch `generation` with the
    /// workspace reading `current_owner`.
    pub fn start(account: &AccountGuard, generation: u64, current_owner: Result<i64, AccountError>) -> (r: Self)
        ensures
            r == operation_start_spec::<T>(account.owner_id(), account.epoch(), generation, current_owner),
    {
        match account.validate(generation, current_owner) {
            Err(e) => OperationRun::Finished { result: Err(OperationError::Account(e)) },
            Ok(()) => OperationRun::Run { owner: account.owner, generation: account.generation },
        }
    }

    /// Feeds the operation's result.
    pub fn operation_done(self, result: Result<T, String>) -> (r: Self)
        ensures
            r == operation_done_spec(self, result),
    {
        match self {
            OperationRun::Run { owner, generation } => match result {
                Err(m) => OperationRun::Finished { result: Err(OperationError::Failed(m)) },
                Ok(value) => OperationRun::Revalidate { owner, generation, value },
            },
            s => s,
        }
    }

    /// Feeds the second check: the epoch and the current owner read now.
    pub fn revalidate(self, generation: u64, current_owner: Result<i64, AccountError>) -> (r: Self)
        ensures
            r == operation_revalidate_spec(self, generation, current_owner),
    {
        match self {
            OperationRun::Revalidate { owner, generation: epoch, value } => {
                match check_captured(owner, epoch, generation, current_owner) {
                    Err(e) => OperationRun::Finished { result: Err(OperationError::Account(e)) },
                    Ok(()) => OperationRun::Finished { result: Ok(value) },
                }
            },
            s => s,
        }
    }

    /// What the run waits for.
    pub fn next_action(&self) -> (r: OperationAction)
        ensures
            r == operation_action_spec(*self),
    {
        match self {
            OperationRun::Run { .. } => OperationAction::Run,
            OperationRun::Revalidate { .. } => OperationAction::Revalidate,
            OperationRun::Finished { .. } => OperationAction::Finished,
        }
    }

    /// The outcome, once finished.
    pub fn outcome(self) -> (r: Option<Result<T, OperationError>>)
        ensures
            r == (match self {
                OperationRun::Finished { result } => Some(result),
                _ => None::<Result<T, OperationError>>,
            }),
    {
        match self {
            OperationRun::Finished { result } => Some(result),
            _ => None,
        }
    }
}

/// Running an operation for a captured account, stated at once: a refusal
/// of the first check is the outcome; else the operation's failure is; else
/// a refusal of the second check is; else the operation's value.
pub open spec fn with_operation_spec<T>(
    owner: i64,
    epoch: u64,
    generation_before: u64,
    owner_before: Result<i64, AccountError>,
    result: Result<T, String>,
    generation_after: u64,
    owner_after: Result<i64, AccountError>,
) -> Result<T, OperationError> {
    match validate_outcome(owner, epoch, generation_before, owner_before) {
        Err(e) => Err(OperationError::Account(e)),
        Ok(_) => match result {
            Err(m) => Err(OperationError::Failed(m)),
            Ok(v) => match validate_outcome(owner, epoch, generation_after, owner_after) {
                Err(e) => Err(OperationError::Account(e)),
                Ok(_) => Ok(v),
            },
        },
    }
}

/// An operation whose account fails its first check is never run; doing
/// what a run asks for gives exactly `with_operation_spec`.
pub proof fn lemma_with_operation_account<T>(
    account: AccountGuard,
    generation_before: u64,
    owner_before: Result<i64, AccountError>,
    result: Result<T, String>,
    generation_after: u64,
    owner_after: Result<i64, AccountError>,
)
    ensures
        ({
            let s0 = operation_start_spec::<T>(account.owner_id(), account.epoch(), generation_before, owner_before);
            let s1 = if operation_action_spec(s0) == OperationAction::Run { operation_done_spec(s0, result) } else { s0 };
            let s2 = if operation_action_spec(s1) == OperationAction::Revalidate {
                operation_revalidate_spec(s1, generation_after, owner_after)
            } else {
                s1
            };
            &&& validate_outcome(account.owner_id(), account.epoch(), generation_before, owner_before) is Err
                ==> operation_action_spec(s0) == OperationAction::Finished
            &&& s2 == OperationRun::Finished {
                result: with_operation_spec(
                    account.owner_id(),
                    account.epoch(),
                    generation_before,
                    owner_before,
                    result,
                    generation_after,
                    owner_after,
                ),
            }
        }),
{
}

/// A sign-out ends every captured account: after the epoch advances, checking
/// an account captured before it is refused as belonging to a different
/// session, whatever owner the workspace has now.
pub proof fn lemma_sign_out_invalidates_guard(
    guard: AccountGuard,
    current_owner: Result<i64, AccountError>,
)
    ensures
        validate_outcome(guard.owner_id(), guard.epoch(), next_generation(guard.epoch()), current_owner)
            == Err::<(), AccountError>(AccountError::DifferentSession),
{
}

/// A captured account stays valid exactly while the epoch is unchanged and
/// the workspace still reads the captured owner.
pub proof fn lemma_guard_valid_iff_same_epoch_and_owner(
    guard: AccountGuard,
    generation: u64,
    current_owner: Result<i64, AccountError>,
)
    ensures
        validate_outcome(guard.owner_id(), guard.epoch(), generation, current_owner) is Ok
            <==> (generation == guard.epoch() && current_owner == Ok::<i64, AccountError>(guard.owner_id())),
{
}

/// Any number of sign-outs, short of the epoch wrapping all the way around,
/// ends every account captured before them.
pub proof fn lemma_sign_outs_invalidate_guard(
    guard: AccountGuard,
    sign_outs: nat,
    current_owner: Result<i64, AccountError>,
)
    requires
        0 < sign_outs < 0x1_0000_0000_0000_0000,
    ensures
        validate_outcome(guard.owner_id(), guard.epoch(), generation_after(guard.epoch(), sign_outs), current_owner)
            == Err::<(), AccountError>(AccountError::DifferentSession),
{
    lemma_sign_outs_change_generation(guard.epoch(), sign_outs);
}

} // verus!
