//! The favorite and pinned flags of the files of a folder, read as local
//! decoration for a remote listing. A damaged stored name or flag must not
//! stop the listing: each valid flag is recovered on its own.
use vstd::prelude::*;
use std::collections::HashMap;
use crate::activity::FileMetadata;
use crate::keys::{message_key, message_key_spec};

verus! {

broadcast use vstd::std_specs::hash::group_hash_axioms;

/// One stored file of a folder: its key, its stored metadata when that could
/// be read, and the text of its stored favorite and pin records, if any.
pub struct FolderFlagRow {
    pub key: String,
    pub metadata: Option<FileMetadata>,
    pub favorite: Option<String>,
    pub pinned: Option<String>,
}

/// Whether a character is JSON whitespace.
pub open spec fn is_json_space(c: char) -> bool {
    c == ' ' || c == '\n' || c == '\t' || c == '\r'
}

/// The text without its leading JSON whitespace.
pub open spec fn trim_json_start(s: Seq<char>) -> Seq<char>
    decreases s.len(),
{
    if s.len() > 0 && is_json_space(s[0]) { trim_json_start(s.drop_first()) } else { s }
}

/// The text without its trailing JSON whitespace.
pub open spec fn trim_json_end(s: Seq<char>) -> Seq<char>
    decreases s.len(),
{
    if s.len() > 0 && is_json_space(s.last()) { trim_json_end(s.drop_last()) } else { s }
}

/// The JSON boolean that a text holds: `true` or `false`, with nothing but
/// JSON whitespace around it.
pub open spec fn json_bool_spec(s: Seq<char>) -> Option<bool> {
    let t = trim_json_end(trim_json_start(s));
    if t == seq!['t', 'r', 'u', 'e'] {
        Some(true)
    } else if t == seq!['f', 'a', 'l', 's', 'e'] {
        Some(false)
    } else {
        None
    }
}

/// `serde_json::from_str::<bool>(text).ok()`. serde_json skips JSON
/// whitespace (space, line feed, tab, carriage return), reads the literal
/// `true` or `false`, and then accepts only whitespace up to the end.
#[verifier::external_body]
fn json_bool(text: &str) -> (r: Option<bool>)
    ensures
        r == json_bool_spec(text@),
{
    serde_json::from_str::<bool>(text).ok()
}

/// The value of a stored flag record: the JSON boolean it holds, or
/// `fallback` when there is no record or it does not hold one.
pub open spec fn flag_value(record: Option<String>, fallback: bool) -> bool {
    match record {
        Some(text) => match json_bool_spec(text@) {
            Some(b) => b,
            None => fallback,
        },
        None => fallback,
    }
}

/// The flags that one stored file contributes: nothing unless its key names a
/// positive message id in the folder; the flags of its stored metadata count
/// only when that metadata is of the same message and folder; a stored flag
/// record overrides them when it holds a JSON boolean.
pub open spec fn row_flags(folder_id: Option<i64>, row: FolderFlagRow) -> Option<(i32, (bool, bool))> {
    match message_key_spec(row.key@, folder_id) {
        None => None,
        Some(message) => {
            let matching = row.metadata matches Some(f) && f.id == message as i64 && f.folder_id == folder_id;
            let favorite = matching && row.metadata->0.is_favorite;
            let pinned = matching && row.metadata->0.is_pinned;
            Some((message, (flag_value(row.favorite, favorite), flag_value(row.pinned, pinned))))
        },
    }
}

/// The (favorite, pinned) flags of the folder's files by message id; a later
/// row for the same id replaces an earlier one.
pub open spec fn folder_flags_spec(folder_id: Option<i64>, rows: Seq<FolderFlagRow>) -> Map<i32, (bool, bool)>
    decreases rows.len(),
{
    if rows.len() == 0 {
        Map::empty()
    } else {
        let earlier = folder_flags_spec(folder_id, rows.drop_last());
        match row_flags(folder_id, rows.last()) {
            Some((message, flags)) => earlier.insert(message, flags),
            None => earlier,
        }
    }
}

fn flag_value_exec(record: &Option<String>, fallback: bool) -> (r: bool)
    ensures
        r == flag_value(*record, fallback),
{
    match record {
        Some(text) => match json_bool(text.as_str()) {
            Some(b) => b,
            None => fallback,
        },
        None => fallback,
    }
}

/// The (favorite, pinned) flags of a folder's files by message id (see
/// `folder_flags_spec`), from the folder's stored rows.
pub fn read_folder_flags(folder_id: Option<i64>, rows: &Vec<FolderFlagRow>) -> (r: HashMap<i32, (bool, bool)>)
    ensures
        r@ == folder_flags_spec(folder_id, rows@),
{
    let mut flags: HashMap<i32, (bool, bool)> = HashMap::new();
    let mut i: usize = 0;
    while i < rows.len()
        invariant
            i <= rows@.len(),
            flags@ == folder_flags_spec(folder_id, rows@.take(i as int)),
        decreases rows@.len() - i,
    {
        let row = &rows[i];
        proof {
            assert(rows@.take(i + 1).drop_last() =~= rows@.take(i as int));
            assert(rows@.take(i + 1).last() == *row);
        }
        match message_key(row.key.as_str(), folder_id) {
            None => {},
            Some(message) => {
                let matching: bool = match &row.metadata {
                    Some(f) => f.id == message as i64 && f.folder_id == folder_id,
                    None => false,
                };
                let favorite: bool = matching && row.metadata.as_ref().unwrap().is_favorite;
                let pinned: bool = matching && row.metadata.as_ref().unwrap().is_pinned;
                let fav = flag_value_exec(&row.favorite, favorite);
                let pin = flag_value_exec(&row.pinned, pinned);
                flags.insert(message, (fav, pin));
            },
        }
        i = i + 1;
    }
    assert(rows@.take(rows@.len() as int) =~= rows@);
    flags
}

/// The flags that the stored metadata of a folder's files carry, by message
/// id, for ids that fit in an `i32`; a later file with the same id replaces
/// an earlier one. (This is how flags are read where the workspace keeps no
/// separate flag records.)
pub open spec fn metadata_flags_spec(files: Seq<FileMetadata>) -> Map<i32, (bool, bool)>
    decreases files.len(),
{
    if files.len() == 0 {
        Map::empty()
    } else {
        let earlier = metadata_flags_spec(files.drop_last());
        let f = files.last();
        if i32::MIN <= f.id <= i32::MAX {
            earlier.insert(f.id as i32, (f.is_favorite, f.is_pinned))
        } else {
            earlier
        }
    }
}

/// The flags that the stored metadata of a folder's files carry (see
/// `metadata_flags_spec`).
pub fn metadata_flags(files: &Vec<FileMetadata>) -> (r: HashMap<i32, (bool, bool)>)
    ensures
        r@ == metadata_flags_spec(files@),
{
    let mut flags: HashMap<i32, (bool, bool)> = HashMap::new();
    let mut i: usize = 0;
    while i < files.len()
        invariant
            i <= files@.len(),
            flags@ == metadata_flags_spec(files@.take(i as int)),
        decreases files@.len() - i,
    {
        let f = &files[i];
        proof {
            assert(files@.take(i + 1).drop_last() =~= files@.take(i as int));
            assert(files@.take(i + 1).last() == *f);
        }
        if i32::MIN as i64 <= f.id && f.id <= i32::MAX as i64 {
            flags.insert(f.id as i32, (f.is_favorite, f.is_pinned));
        }
        i = i + 1;
    }
    assert(files@.take(files@.len() as int) =~= files@);
    flags
}

/// A stored flag record that holds a JSON boolean decides the flag, whatever
/// the stored metadata says or whether it could be read; a damaged record
/// leaves the flag of matching metadata, and otherwise no flag.
pub proof fn lemma_flag_record_decides(folder_id: Option<i64>, row: FolderFlagRow)
    requires
        message_key_spec(row.key@, folder_id) is Some,
    ensures
        (row.favorite matches Some(t) && json_bool_spec(t@) is Some)
            ==> (row_flags(folder_id, row) matches Some((_, (favorite, _))) && favorite == json_bool_spec(row.favorite->0@)->0),
        (row.pinned matches Some(t) && json_bool_spec(t@) is Some)
            ==> (row_flags(folder_id, row) matches Some((_, (_, pinned))) && pinned == json_bool_spec(row.pinned->0@)->0),
        row.metadata is None && (row.favorite is None || json_bool_spec(row.favorite->0@) is None)
            ==> (row_flags(folder_id, row) matches Some((_, (favorite, _))) && !favorite),
{
}

/// Each file of the listing with a recognized key has flags, and only those.
pub proof fn lemma_folder_flags_domain(folder_id: Option<i64>, rows: Seq<FolderFlagRow>, message: i32)
    ensures
        folder_flags_spec(folder_id, rows).contains_key(message)
            <==> exists|i: int| 0 <= i < rows.len() && #[trigger] message_key_spec(rows[i].key@, folder_id) == Some(message),
    decreases rows.len(),
{
    if rows.len() > 0 {
        let d = rows.drop_last();
        lemma_folder_flags_domain(folder_id, d, message);
        if exists|i: int| 0 <= i < d.len() && #[trigger] message_key_spec(d[i].key@, folder_id) == Some(message) {
            let i = choose|i: int| 0 <= i < d.len() && #[trigger] message_key_spec(d[i].key@, folder_id) == Some(message);
            assert(rows[i] == d[i]);
        }
        if exists|i: int| 0 <= i < rows.len() && #[trigger] message_key_spec(rows[i].key@, folder_id) == Some(message) {
            let i = choose|i: int| 0 <= i < rows.len() && #[trigger] message_key_spec(rows[i].key@, folder_id) == Some(message);
            if i < d.len() {
                assert(d[i] == rows[i]);
            }
        }
    }
}

/// The flags of a message id are those of the last stored file whose key
/// names it: its favorite record when that holds a JSON boolean, else the
/// favorite flag of its metadata when that metadata is of the same message
/// and folder, else false; and the same, independently, for the pin.
pub proof fn lemma_folder_flags_last_row(folder_id: Option<i64>, rows: Seq<FolderFlagRow>, i: int, message: i32)
    requires
        0 <= i < rows.len(),
        message_key_spec(rows[i].key@, folder_id) == Some(message),
        forall|j: int| i < j < rows.len() ==> message_key_spec(#[trigger] rows[j].key@, folder_id) != Some(message),
    ensures
        folder_flags_spec(folder_id, rows).contains_key(message),
        ({
            let row = rows[i];
            let matching = row.metadata matches Some(f) && f.id == message as i64 && f.folder_id == folder_id;
            folder_flags_spec(folder_id, rows)[message] == (
                flag_value(row.favorite, matching && row.metadata->0.is_favorite),
                flag_value(row.pinned, matching && row.metadata->0.is_pinned),
            )
        }),
    decreases rows.len(),
{
    let d = rows.drop_last();
    if i < rows.len() - 1 {
        assert forall|j: int| i < j < d.len() implies message_key_spec(#[trigger] d[j].key@, folder_id) != Some(message) by {
            assert(d[j] == rows[j]);
        }
        assert(d[i] == rows[i]);
        lemma_folder_flags_last_row(folder_id, d, i, message);
        assert(message_key_spec(rows[rows.len() - 1].key@, folder_id) != Some(message));
        assert(rows.last() == rows[rows.len() - 1]);
    }
}

/// Each file whose id fits in an `i32` gives that id its own two flags,
/// favorite and pinned, each as the file carries it, when no later file has
/// the same id.
pub proof fn lemma_metadata_flags_of_file(files: Seq<FileMetadata>, i: int)
    requires
        0 <= i < files.len(),
        i32::MIN <= files[i].id <= i32::MAX,
        forall|j: int| i < j < files.len() ==> (#[trigger] files[j]).id != files[i].id,
    ensures
        metadata_flags_spec(files).contains_key(files[i].id as i32),
        metadata_flags_spec(files)[files[i].id as i32] == (files[i].is_favorite, files[i].is_pinned),
    decreases files.len(),
{
    let d = files.drop_last();
    if i < files.len() - 1 {
        assert forall|j: int| i < j < d.len() implies (#[trigger] d[j]).id != d[i].id by {
            assert(d[j] == files[j]);
        }
        assert(d[i] == files[i]);
        lemma_metadata_flags_of_file(d, i);
        assert(files.last() == files[files.len() - 1]);
        assert(files.last().id != files[i].id);
        if i32::MIN <= files.last().id <= i32::MAX {
            assert(files.last().id as i32 != files[i].id as i32);
        }
    }
}

/// Only ids of files that fit in an `i32` have flags.
pub proof fn lemma_metadata_flags_domain(files: Seq<FileMetadata>, id: i32)
    ensures
        metadata_flags_spec(files).contains_key(id) <==> exists|i: int| 0 <= i < files.len() && #[trigger] files[i].id == id as i64,
    decreases files.len(),
{
    if files.len() > 0 {
        let d = files.drop_last();
        lemma_metadata_flags_domain(d, id);
        if exists|i: int| 0 <= i < d.len() && #[trigger] d[i].id == id as i64 {
            let i = choose|i: int| 0 <= i < d.len() && #[trigger] d[i].id == id as i64;
            assert(files[i] == d[i]);
        }
        if exists|i: int| 0 <= i < files.len() && #[trigger] files[i].id == id as i64 {
            let i = choose|i: int| 0 <= i < files.len() && #[trigger] files[i].id == id as i64;
            if i < d.len() {
                assert(d[i] == files[i]);
            } else {
                assert(files.last() == files[i]);
            }
        }
    }
}

} // verus!
