//! The refusals of the account checks. Each carries a fixed message whose
//! prefix (`ACCOUNT_CHANGED`, `ACCOUNT_REQUIRED` or `ACCOUNT_UNAVAILABLE`)
//! tells the front end what to do next.
use vstd::prelude::*;

verus! {

/// Why an account check refused.
#[derive(Clone, Copy, Debug, PartialEq, Eq, Structural)]
pub enum AccountError {
    /// The workspace is signing out.
    SigningOut,
    /// No saved session, or the saved session has no confirmed owner.
    SignInRequired,
    /// The saved session file or its registration changed under the check.
    SessionReplaced,
    /// The saved account cannot be read right now.
    Unavailable,
    /// A sign-out or new sign-in happened while the owner was being read.
    SignedOutMeanwhile,
    /// The workspace was opened for an owner other than the current one.
    ReopenWorkspace,
    /// A captured account no longer matches the current session.
    DifferentSession,
    /// The connected client is signed in to another account.
    OtherClientAccount,
    /// A sign-in reply arrived for a session that is no longer current.
    RestartSignIn,
    /// Telegram's reply did not name a valid self user.
    AccountNotConfirmed,
}

impl AccountError {
    /// The message text of the refusal.
    pub open spec fn text(self) -> Seq<char> {
        match self {
            AccountError::SigningOut => "ACCOUNT_CHANGED: Sign in again to open this workspace"@,
            AccountError::SignInRequired => "ACCOUNT_REQUIRED: Sign in to open your workspace"@,
            AccountError::SessionReplaced => "ACCOUNT_CHANGED: The saved session has been replaced"@,
            AccountError::Unavailable => "ACCOUNT_UNAVAILABLE: The saved account is temporarily unavailable"@,
            AccountError::SignedOutMeanwhile => "ACCOUNT_CHANGED: Sign in again to open your workspace"@,
            AccountError::ReopenWorkspace => "ACCOUNT_CHANGED: Reopen your workspace for the current account"@,
            AccountError::DifferentSession => "ACCOUNT_CHANGED: This operation belongs to a different session"@,
            AccountError::OtherClientAccount => "ACCOUNT_CHANGED: Connected client belongs to another account"@,
            AccountError::RestartSignIn => "ACCOUNT_CHANGED: Restart sign-in for the current session"@,
            AccountError::AccountNotConfirmed => "ACCOUNT_UNAVAILABLE: Telegram did not confirm a valid account"@,
        }
    }

    /// The message of the refusal.
    pub fn message(&self) -> (s: String)
        ensures
            s@ == self.text(),
    {
        match self {
            AccountError::SigningOut => "ACCOUNT_CHANGED: Sign in again to open this workspace".to_owned(),
            AccountError::SignInRequired => "ACCOUNT_REQUIRED: Sign in to open your workspace".to_owned(),
            AccountError::SessionReplaced => "ACCOUNT_CHANGED: The saved session has been replaced".to_owned(),
            AccountError::Unavailable => "ACCOUNT_UNAVAILABLE: The saved account is temporarily unavailable".to_owned(),
            AccountError::SignedOutMeanwhile => "ACCOUNT_CHANGED: Sign in again to open your workspace".to_owned(),
            AccountError::ReopenWorkspace => "ACCOUNT_CHANGED: Reopen your workspace for the current account".to_owned(),
            AccountError::DifferentSession => "ACCOUNT_CHANGED: This operation belongs to a different session".to_owned(),
            AccountError::OtherClientAccount => "ACCOUNT_CHANGED: Connected client belongs to another account".to_owned(),
            AccountError::RestartSignIn => "ACCOUNT_CHANGED: Restart sign-in for the current session".to_owned(),
            AccountError::AccountNotConfirmed => "ACCOUNT_UNAVAILABLE: Telegram did not confirm a valid account".to_owned(),
        }
    }
}

} // verus!
