//! Personal file activity: when a file was last opened and how often, and
//! which files are favorites or pinned.
use vstd::prelude::*;
use crate::text::str_eq;

verus! {

/// What the workspace knows of a file stored as a Telegram message.
#[derive(Clone, Debug)]
pub struct FileMetadata {
    /// The message id.
    pub id: i64,
    /// The channel, or `None` for Saved Messages.
    pub folder_id: Option<i64>,
    pub name: String,
    pub size: u64,
    pub mime_type: Option<String>,
    pub file_ext: Option<String>,
    pub created_at: String,
    pub encryption_state: String,
    pub icon_type: String,
    pub is_favorite: bool,
    pub is_pinned: bool,
}

/// A file of a personal view, with when it was last opened (zero if never).
#[derive(Clone, Debug)]
pub struct LocalFileActivity {
    pub file: FileMetadata,
    pub last_opened_at: i64,
}

/// The opening record of a file.
#[derive(Clone, Copy, Debug, PartialEq, Eq)]
pub struct OpenedFile {
    pub folder_id: Option<i64>,
    pub message_id: i64,
    /// Unix seconds.
    pub last_opened_at: i64,
    pub open_count: u64,
}

/// A file known to the workspace, under its key (see `keys::file_key`).
#[derive(Clone, Debug)]
pub struct StoredFile {
    pub key: String,
    pub file: FileMetadata,
}

/// Why a file activity request was refused.
#[derive(Clone, Copy, Debug, PartialEq, Eq, Structural)]
pub enum ActivityError {
    InvalidMessage,
    UnknownFlag,
    UnknownView,
}

impl ActivityError {
    /// The message text of the refusal.
    pub open spec fn text(self) -> Seq<char> {
        match self {
            ActivityError::InvalidMessage => "Invalid message identifier"@,
            ActivityError::UnknownFlag => "Unknown file activity flag"@,
            ActivityError::UnknownView => "Unknown smart view"@,
        }
    }

    /// The message of the refusal.
    pub fn message(&self) -> (s: String)
        ensures
            s@ == self.text(),
    {
        match self {
            ActivityError::InvalidMessage => "Invalid message identifier".to_owned(),
            ActivityError::UnknownFlag => "Unknown file activity flag".to_owned(),
            ActivityError::UnknownView => "Unknown smart view".to_owned(),
        }
    }
}

/// The metadata of a file that the front end reports: an unknown creation
/// time is empty, an unknown encryption state is `plain`, the icon is the
/// generic file icon, and the file is neither a favorite nor pinned.
#[allow(clippy::too_many_arguments)]
pub fn metadata(
    folder_id: Option<i64>,
    message_id: i64,
    file_name: String,
    file_size: u64,
    mime_type: Option<String>,
    file_ext: Option<String>,
    created_at: Option<String>,
    encryption_state: Option<String>,
) -> (m: FileMetadata)
    ensures
        m.id == message_id,
        m.folder_id == folder_id,
        m.name == file_name,
        m.size == file_size,
        m.mime_type == mime_type,
        m.file_ext == file_ext,
        m.created_at@ == (match created_at { Some(c) => c@, None => Seq::<char>::empty() }),
        m.encryption_state@ == (match encryption_state { Some(e) => e@, None => "plain"@ }),
        m.icon_type@ == "file"@,
        !m.is_favorite,
        !m.is_pinned,
{
    let created: String = match created_at {
        Some(c) => c,
        None => String::new(),
    };
    let encryption: String = match encryption_state {
        Some(e) => e,
        None => "plain".to_owned(),
    };
    FileMetadata {
        id: message_id,
        folder_id,
        name: file_name,
        size: file_size,
        mime_type,
        file_ext,
        created_at: created,
        encryption_state: encryption,
        icon_type: "file".to_owned(),
        is_favorite: false,
        is_pinned: false,
    }
}

/// A change to the activity of a file: it was opened, or a flag was set.
pub enum ActivityChange<'a> {
    Open,
    Flag(&'a str, bool),
}

/// The record that a change writes.
#[derive(Clone, Copy, Debug, PartialEq, Eq)]
pub enum ActivityRecord {
    /// The new opening record (kind `opened`).
    Opened(OpenedFile),
    /// The favorite flag (kind `favorite`).
    Favorite(bool),
    /// The pinned flag (kind `pin`).
    Pin(bool),
}

impl ActivityRecord {
    /// The kind of record, as stored.
    pub open spec fn kind_text(self) -> Seq<char> {
        match self {
            ActivityRecord::Opened(_) => "opened"@,
            ActivityRecord::Favorite(_) => "favorite"@,
            ActivityRecord::Pin(_) => "pin"@,
        }
    }

    /// The kind of record, as stored.
    pub fn kind(&self) -> (s: &'static str)
        ensures
            s@ == self.kind_text(),
    {
        match self {
            ActivityRecord::Opened(_) => "opened",
            ActivityRecord::Favorite(_) => "favorite",
            ActivityRecord::Pin(_) => "pin",
        }
    }
}

/// `count + 1`, saturating at the largest count.
pub open spec fn saturating_next(count: u64) -> u64 {
    if count == u64::MAX { count } else { (count + 1) as u64 }
}

/// The opening record after the file was opened at `now`: the previous count
/// (zero if none) plus one, saturating.
pub open spec fn opened_spec(previous: Option<OpenedFile>, file_folder: Option<i64>, file_id: i64, now: i64) -> OpenedFile {
    OpenedFile {
        folder_id: file_folder,
        message_id: file_id,
        last_opened_at: now,
        open_count: saturating_next(match previous { Some(p) => p.open_count, None => 0 }),
    }
}

/// The record that a change writes, or why it is refused: a file must have a
/// positive message id, and the only flags are `favorite` and `pinned`.
pub open spec fn change_spec(
    file_folder: Option<i64>,
    file_id: i64,
    change_flag: Option<(Seq<char>, bool)>,
    previous: Option<OpenedFile>,
    now: i64,
) -> Result<ActivityRecord, ActivityError> {
    if file_id <= 0 {
        Err(ActivityError::InvalidMessage)
    } else {
        match change_flag {
            None => Ok(ActivityRecord::Opened(opened_spec(previous, file_folder, file_id, now))),
            Some((name, value)) => if name == "favorite"@ {
                Ok(ActivityRecord::Favorite(value))
            } else if name == "pinned"@ {
                Ok(ActivityRecord::Pin(value))
            } else {
                Err(ActivityError::UnknownFlag)
            },
        }
    }
}

/// The flag that a change sets, if it sets one.
pub open spec fn flag_of(change: ActivityChange) -> Option<(Seq<char>, bool)> {
    match change {
        ActivityChange::Open => None,
        ActivityChange::Flag(name, value) => Some((name@, value)),
    }
}

/// The record that a change made at `now` writes (see `change_spec`);
/// `previous` is the file's opening record, if it has one.
pub fn plan_activity_change(
    file: &FileMetadata,
    change: ActivityChange,
    previous: Option<OpenedFile>,
    now: i64,
) -> (r: Result<ActivityRecord, ActivityError>)
    ensures
        r == change_spec(file.folder_id, file.id, flag_of(change), previous, now),
        file.id > 0 && flag_of(change) == Some(("favorite"@, true)) ==> r == Ok::<ActivityRecord, ActivityError>(ActivityRecord::Favorite(true)),
        file.id > 0 && flag_of(change) == Some(("favorite"@, false)) ==> r == Ok::<ActivityRecord, ActivityError>(ActivityRecord::Favorite(false)),
        file.id > 0 && flag_of(change) == Some(("pinned"@, true)) ==> r == Ok::<ActivityRecord, ActivityError>(ActivityRecord::Pin(true)),
        file.id > 0 && flag_of(change) == Some(("pinned"@, false)) ==> r == Ok::<ActivityRecord, ActivityError>(ActivityRecord::Pin(false)),
        file.id > 0 && flag_of(change) is None ==> (r matches Ok(ActivityRecord::Opened(o))
            && o.folder_id == file.folder_id && o.message_id == file.id && o.last_opened_at == now
            && o.open_count as int == (match previous {
                None => 1int,
                Some(p) => if p.open_count < u64::MAX { p.open_count + 1 } else { p.open_count as int },
            })),
{
    proof {
        reveal_strlit("favorite");
        reveal_strlit("pinned");
        assert("favorite"@.len() != "pinned"@.len());
    }
    if file.id <= 0 {
        return Err(ActivityError::InvalidMessage);
    }
    match change {
        ActivityChange::Open => {
            let count: u64 = match previous {
                Some(p) => p.open_count,
                None => 0,
            };
            let next: u64 = if count == u64::MAX { count } else { count + 1 };
            Ok(ActivityRecord::Opened(OpenedFile {
                folder_id: file.folder_id,
                message_id: file.id,
                last_opened_at: now,
                open_count: next,
            }))
        },
        ActivityChange::Flag(name, value) => {
            proof {
                reveal_strlit("favorite");
                reveal_strlit("pinned");
            }
            if str_eq(name, "favorite") {
                Ok(ActivityRecord::Favorite(value))
            } else if str_eq(name, "pinned") {
                Ok(ActivityRecord::Pin(value))
            } else {
                Err(ActivityError::UnknownFlag)
            }
        },
    }
}

/// `chrono::Utc::now().timestamp()`: the current time in whole seconds since
/// the Unix epoch. `Utc::now` counts the seconds since the epoch (and does
/// not return when the clock reads earlier), so the value is not negative;
/// nothing more is stated of it, which the system clock gives.
#[verifier::external_body]
fn now_unix_seconds() -> (r: i64)
    ensures
        r >= 0,
{
    chrono::Utc::now().timestamp()
}

/// The record that a change made now writes: as `plan_activity_change` at
/// whatever time the clock reads. The clock is read only when a valid file is
/// opened; a flag change or a refused change does not depend on the time.
pub fn change_activity(
    file: &FileMetadata,
    change: ActivityChange,
    previous: Option<OpenedFile>,
) -> (r: Result<ActivityRecord, ActivityError>)
    ensures
        exists|now: i64| now >= 0 && r == change_spec(file.folder_id, file.id, flag_of(change), previous, now),
        flag_of(change) is Some || file.id <= 0 ==> r == change_spec(file.folder_id, file.id, flag_of(change), previous, 0),
{
    let now: i64 = match change {
        ActivityChange::Open => if file.id > 0 { now_unix_seconds() } else { 0 },
        ActivityChange::Flag(_, _) => 0,
    };
    plan_activity_change(file, change, previous, now)
}

/// A flag change writes exactly the value it was given, for either flag and
/// either value, whatever the file's opening record or the time.
pub proof fn lemma_flag_change_writes_its_value(
    folder_id: Option<i64>,
    id: i64,
    value: bool,
    previous: Option<OpenedFile>,
    now: i64,
)
    requires
        id > 0,
    ensures
        change_spec(folder_id, id, Some(("pinned"@, value)), previous, now) == Ok::<ActivityRecord, ActivityError>(ActivityRecord::Pin(value)),
        change_spec(folder_id, id, Some(("favorite"@, value)), previous, now) == Ok::<ActivityRecord, ActivityError>(ActivityRecord::Favorite(value)),
        change_spec(folder_id, id, Some(("pinned"@, true)), previous, now) != change_spec(folder_id, id, Some(("pinned"@, false)), previous, now),
        change_spec(folder_id, id, Some(("favorite"@, true)), previous, now) != change_spec(folder_id, id, Some(("favorite"@, false)), previous, now),
{
    assert("favorite"@ != "pinned"@) by {
        reveal_strlit("favorite");
        reveal_strlit("pinned");
        assert("favorite"@.len() != "pinned"@.len());
    }
}

/// Opening a file counts one more opening than its previous record had (the
/// first opening counts one; a count at its maximum stays there), stamps the
/// opening time, and names the opened file.
pub proof fn lemma_opening_counts_one_more(
    folder_id: Option<i64>,
    id: i64,
    previous: Option<OpenedFile>,
    now: i64,
)
    requires
        id > 0,
    ensures
        change_spec(folder_id, id, None, previous, now) matches Ok(ActivityRecord::Opened(o)) && {
            &&& o.folder_id == folder_id
            &&& o.message_id == id
            &&& o.last_opened_at == now
            &&& previous is None ==> o.open_count == 1
            &&& previous matches Some(p) ==> (p.open_count < u64::MAX ==> o.open_count == p.open_count + 1)
            &&& previous matches Some(p) ==> (p.open_count == u64::MAX ==> o.open_count == u64::MAX)
            &&& o.open_count >= 1
        },
{
}

} // verus!
