//! The keys under which a file is stored locally: the folder label (the
//! channel id, or `saved` for Saved Messages), a colon, and the message id.
use vstd::prelude::*;
use crate::decimal::{decimal, digits_of, parse_i32, parse_i32_spec, push_decimal, lemma_digits_of, unsigned_part, is_signed};
use crate::text::has_prefix;

verus! {

/// The label of a folder: its id in decimal, or `saved` for Saved Messages.
pub open spec fn folder_label_spec(folder_id: Option<i64>) -> Seq<char> {
    match folder_id {
        Some(id) => decimal(id as int),
        None => "saved"@,
    }
}

/// The key of message `message_id` in a folder.
pub open spec fn file_key_spec(folder_id: Option<i64>, message_id: i64) -> Seq<char> {
    folder_label_spec(folder_id) + seq![':'] + decimal(message_id as int)
}

/// The message id that a key of the folder names, when the key lies in that
/// folder and names a positive id that fits in an `i32`.
pub open spec fn message_key_spec(key: Seq<char>, folder_id: Option<i64>) -> Option<i32> {
    let prefix = folder_label_spec(folder_id) + seq![':'];
    if prefix.len() <= key.len() && key.take(prefix.len() as int) == prefix {
        match parse_i32_spec(key.skip(prefix.len() as int)) {
            Some(id) => if id > 0 { Some(id) } else { None },
            None => None,
        }
    } else {
        None
    }
}

/// The label of a folder.
pub fn folder_label(folder_id: Option<i64>) -> (s: String)
    ensures
        s@ == folder_label_spec(folder_id),
{
    match folder_id {
        Some(id) => {
            let mut s = String::new();
            push_decimal(&mut s, id);
            s
        },
        None => "saved".to_owned(),
    }
}

/// The key of message `message_id` in a folder, such as `saved:42` or `9:42`.
pub fn file_key(folder_id: Option<i64>, message_id: i64) -> (s: String)
    ensures
        s@ == file_key_spec(folder_id, message_id),
{
    let mut s = folder_label(folder_id);
    proof {
        reveal_strlit(":");
    }
    s.append(":");
    assert(":"@ =~= seq![':']);
    push_decimal(&mut s, message_id);
    s
}

/// The message id that `key` names in the folder (see `message_key_spec`).
pub fn message_key(key: &str, folder_id: Option<i64>) -> (r: Option<i32>)
    ensures
        r == message_key_spec(key@, folder_id),
{
    let mut prefix = folder_label(folder_id);
    proof {
        reveal_strlit(":");
    }
    prefix.append(":");
    assert(":"@ =~= seq![':']);
    assert(prefix@ =~= folder_label_spec(folder_id) + seq![':']);
    if !has_prefix(key, prefix.as_str()) {
        return None;
    }
    let start: usize = prefix.as_str().unicode_len();
    let end: usize = key.unicode_len();
    let rest = key.substring_char(start, end);
    assert(rest@ =~= key@.skip(start as int));
    match parse_i32(rest) {
        Some(id) => if id > 0 { Some(id) } else { None },
        None => None,
    }
}

/// The keys written for files are the keys that the folder flag reader
/// recognizes: the key of a positive message id that fits in an `i32` names
/// that id again in its own folder.
pub proof fn lemma_file_key_round_trip(folder_id: Option<i64>, message_id: i64)
    requires
        1 <= message_id <= i32::MAX,
    ensures
        message_key_spec(file_key_spec(folder_id, message_id), folder_id) == Some(message_id as i32),
{
    let prefix = folder_label_spec(folder_id) + seq![':'];
    let digits = decimal(message_id as int);
    let key = file_key_spec(folder_id, message_id);
    assert(key == prefix + digits);
    assert(key.take(prefix.len() as int) =~= prefix);
    assert(key.skip(prefix.len() as int) =~= digits);
    lemma_digits_of(message_id as nat);
    assert(digits == digits_of(message_id as nat));
    assert(!is_signed(digits));
    assert(unsigned_part(digits) == digits);
}

} // verus!
