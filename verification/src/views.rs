//! The personal views of a workspace: favorites, pinned files and recently
//! opened files, most recently opened first.
use vstd::prelude::*;
use crate::activity::{FileMetadata, LocalFileActivity, OpenedFile, StoredFile, ActivityError, opened_spec};
use crate::keys::{file_key, file_key_spec};
use crate::text::str_eq;

verus! {

/// A personal view.
#[derive(Clone, Copy, Debug, PartialEq, Eq, Structural)]
pub enum ActivityView {
    Favorites,
    Pinned,
    Recents,
}

/// The view that a name selects: `favorites`, `pinned` or `recents`.
pub open spec fn view_named(name: Seq<char>) -> Option<ActivityView> {
    if name == "favorites"@ {
        Some(ActivityView::Favorites)
    } else if name == "pinned"@ {
        Some(ActivityView::Pinned)
    } else if name == "recents"@ {
        Some(ActivityView::Recents)
    } else {
        None
    }
}

/// The view that a name selects.
pub fn parse_view(name: &str) -> (r: Option<ActivityView>)
    ensures
        r == view_named(name@),
{
    if str_eq(name, "favorites") {
        Some(ActivityView::Favorites)
    } else if str_eq(name, "pinned") {
        Some(ActivityView::Pinned)
    } else if str_eq(name, "recents") {
        Some(ActivityView::Recents)
    } else {
        None
    }
}

/// The opening record of the file stored under `key`: of the records whose
/// file has that key, the last one.
pub open spec fn last_opened(opened: Seq<OpenedFile>, key: Seq<char>) -> Option<OpenedFile>
    decreases opened.len(),
{
    if opened.len() == 0 {
        None
    } else if file_key_spec(opened.last().folder_id, opened.last().message_id) == key {
        Some(opened.last())
    } else {
        last_opened(opened.drop_last(), key)
    }
}

/// Whether a file belongs to a view: favorites and pinned files by their
/// flags, recents when the file was opened at least once.
pub open spec fn in_view(view: ActivityView, file: FileMetadata, activity: Option<OpenedFile>) -> bool {
    match view {
        ActivityView::Favorites => file.is_favorite,
        ActivityView::Pinned => file.is_pinned,
        ActivityView::Recents => activity matches Some(a) && a.open_count > 0,
    }
}

/// When a file was last opened according to its opening record; zero if none.
pub open spec fn opened_at(activity: Option<OpenedFile>) -> i64 {
    match activity {
        Some(a) => a.last_opened_at,
        None => 0,
    }
}

/// The files of a view, in stored order, each with when it was last opened.
pub open spec fn selected(files: Seq<StoredFile>, opened: Seq<OpenedFile>, view: ActivityView) -> Seq<LocalFileActivity>
    decreases files.len(),
{
    if files.len() == 0 {
        Seq::empty()
    } else {
        let earlier = selected(files.drop_last(), opened, view);
        let entry = files.last();
        let activity = last_opened(opened, entry.key@);
        if in_view(view, entry.file, activity) {
            earlier.push(LocalFileActivity { file: entry.file, last_opened_at: opened_at(activity) })
        } else {
            earlier
        }
    }
}

/// Folder order: Saved Messages first, then channels by id.
pub open spec fn folder_before(a: Option<i64>, b: Option<i64>) -> bool {
    match (a, b) {
        (None, Some(_)) => true,
        (Some(x), Some(y)) => x < y,
        _ => false,
    }
}

/// The order of a view: most recently opened first, then by folder, then by
/// message id.
pub open spec fn comes_before(a: LocalFileActivity, b: LocalFileActivity) -> bool {
    ||| a.last_opened_at > b.last_opened_at
    ||| (a.last_opened_at == b.last_opened_at && folder_before(a.file.folder_id, b.file.folder_id))
    ||| (a.last_opened_at == b.last_opened_at && a.file.folder_id == b.file.folder_id && a.file.id < b.file.id)
}

/// Where a stable insertion puts `x` into `s`: before the first element that
/// `x` comes before, or at the end.
pub open spec fn insert_pos(s: Seq<LocalFileActivity>, x: LocalFileActivity) -> int
    decreases s.len(),
{
    if s.len() == 0 {
        0
    } else if comes_before(x, s[0]) {
        0
    } else {
        1 + insert_pos(s.drop_first(), x)
    }
}

/// The elements of `s` in view order, elements of equal rank keeping their order.
pub open spec fn sorted_by_rank(s: Seq<LocalFileActivity>) -> Seq<LocalFileActivity>
    decreases s.len(),
{
    if s.len() == 0 {
        Seq::empty()
    } else {
        let earlier = sorted_by_rank(s.drop_last());
        earlier.insert(insert_pos(earlier, s.last()), s.last())
    }
}

/// How many files a view shows: the requested limit (200 if none) kept
/// within 1 to 1000.
pub open spec fn shown(limit: Option<i64>) -> int {
    let requested: int = match limit {
        Some(l) => l as int,
        None => 200,
    };
    if requested < 1 { 1 } else if requested > 1000 { 1000 } else { requested }
}

/// The result of reading a view.
pub open spec fn read_activity_spec(
    files: Seq<StoredFile>,
    opened: Seq<OpenedFile>,
    view: Seq<char>,
    limit: Option<i64>,
) -> Option<Seq<LocalFileActivity>> {
    match view_named(view) {
        None => None,
        Some(v) => {
            let sorted = sorted_by_rank(selected(files, opened, v));
            Some(if sorted.len() <= shown(limit) { sorted } else { sorted.take(shown(limit)) })
        },
    }
}

proof fn lemma_insert_pos_scan(s: Seq<LocalFileActivity>, x: LocalFileActivity, j: int)
    requires
        0 <= j <= s.len(),
        forall|k: int| 0 <= k < j ==> !comes_before(x, #[trigger] s[k]),
        j == s.len() || comes_before(x, s[j]),
    ensures
        insert_pos(s, x) == j,
    decreases j,
{
    if j > 0 {
        let t = s.drop_first();
        assert forall|k: int| 0 <= k < j - 1 implies !comes_before(x, #[trigger] t[k]) by {
            assert(t[k] == s[k + 1]);
        }
        if j < s.len() {
            assert(t[j - 1] == s[j]);
        }
        lemma_insert_pos_scan(t, x, j - 1);
        assert(!comes_before(x, s[0]));
    }
}

fn comes_before_exec(a: &LocalFileActivity, b: &LocalFileActivity) -> (r: bool)
    ensures
        r == comes_before(*a, *b),
{
    if a.last_opened_at != b.last_opened_at {
        return a.last_opened_at > b.last_opened_at;
    }
    match (a.file.folder_id, b.file.folder_id) {
        (None, Some(_)) => true,
        (Some(_), None) => false,
        (Some(x), Some(y)) => if x != y { x < y } else { a.file.id < b.file.id },
        (None, None) => a.file.id < b.file.id,
    }
}

/// Sorts into view order, stably.
fn sort_by_rank(items: Vec<LocalFileActivity>) -> (r: Vec<LocalFileActivity>)
    ensures
        r@ == sorted_by_rank(items@),
{
    let ghost input = items@;
    let mut rest = items;
    let mut sorted: Vec<LocalFileActivity> = Vec::new();
    let ghost mut done: int = 0;
    assert(input.take(0) =~= Seq::<LocalFileActivity>::empty());
    while rest.len() > 0
        invariant
            0 <= done <= input.len(),
            rest@ == input.skip(done),
            sorted@ == sorted_by_rank(input.take(done)),
        decreases rest@.len(),
    {
        let x = rest.remove(0);
        assert(x == input[done]);
        let mut j: usize = 0;
        while j < sorted.len() && !comes_before_exec(&x, &sorted[j])
            invariant
                j <= sorted@.len(),
                forall|k: int| 0 <= k < j ==> !comes_before(x, #[trigger] sorted@[k]),
            decreases sorted@.len() - j,
        {
            j = j + 1;
        }
        proof {
            lemma_insert_pos_scan(sorted@, x, j as int);
            assert(input.take(done + 1).drop_last() =~= input.take(done));
            assert(input.take(done + 1).last() == x);
        }
        sorted.insert(j, x);
        proof {
            done = done + 1;
        }
        assert(rest@ =~= input.skip(done));
    }
    assert(input.take(done) =~= input);
    sorted
}

/// The opening record of the file under `key` (see `last_opened`); `keys`
/// holds the key of each record.
fn find_opened(opened: &Vec<OpenedFile>, keys: &Vec<String>, key: &String) -> (r: Option<OpenedFile>)
    requires
        keys@.len() == opened@.len(),
        forall|k: int| 0 <= k < keys@.len() ==> (#[trigger] keys@[k])@ == file_key_spec(opened@[k].folder_id, opened@[k].message_id),
    ensures
        r == last_opened(opened@, key@),
{
    let mut k: usize = opened.len();
    assert(opened@.take(k as int) =~= opened@);
    while k > 0
        invariant
            k <= opened@.len(),
            keys@.len() == opened@.len(),
            forall|m: int| 0 <= m < keys@.len() ==> (#[trigger] keys@[m])@ == file_key_spec(opened@[m].folder_id, opened@[m].message_id),
            last_opened(opened@, key@) == last_opened(opened@.take(k as int), key@),
        decreases k,
    {
        let ghost prefix = opened@.take(k as int);
        assert(prefix.drop_last() =~= opened@.take(k - 1));
        assert(prefix.last() == opened@[k - 1]);
        if keys[k - 1] == *key {
            return Some(opened[k - 1]);
        }
        k = k - 1;
    }
    assert(opened@.take(0) =~= Seq::<OpenedFile>::empty());
    None
}

/// Reads a view: `files` are the files that the workspace knows, in stored
/// order, and `opened` the opening records. The files of the view come most
/// recently opened first (then by folder, then by message id, stably), at
/// most as many as `limit` asks (200 by default, kept within 1 to 1000).
pub fn read_activity(
    files: Vec<StoredFile>,
    opened: &Vec<OpenedFile>,
    view: &str,
    limit: Option<i64>,
) -> (r: Result<Vec<LocalFileActivity>, ActivityError>)
    ensures
        match read_activity_spec(files@, opened@, view@, limit) {
            None => r == Err::<Vec<LocalFileActivity>, ActivityError>(ActivityError::UnknownView),
            Some(out) => r matches Ok(v) && v@ == out,
        },
{
    let v = match parse_view(view) {
        Some(v) => v,
        None => return Err(ActivityError::UnknownView),
    };
    let mut keys: Vec<String> = Vec::new();
    let mut i: usize = 0;
    while i < opened.len()
        invariant
            i <= opened@.len(),
            keys@.len() == i,
            forall|k: int| 0 <= k < i ==> (#[trigger] keys@[k])@ == file_key_spec(opened@[k].folder_id, opened@[k].message_id),
        decreases opened@.len() - i,
    {
        keys.push(file_key(opened[i].folder_id, opened[i].message_id));
        i = i + 1;
    }
    let ghost input = files@;
    let mut rest = files;
    let mut chosen: Vec<LocalFileActivity> = Vec::new();
    let ghost mut done: int = 0;
    assert(input.take(0) =~= Seq::<StoredFile>::empty());
    while rest.len() > 0
        invariant
            0 <= done <= input.len(),
            rest@ == input.skip(done),
            chosen@ == selected(input.take(done), opened@, v),
            keys@.len() == opened@.len(),
            forall|k: int| 0 <= k < keys@.len() ==> (#[trigger] keys@[k])@ == file_key_spec(opened@[k].folder_id, opened@[k].message_id),
        decreases rest@.len(),
    {
        let entry = rest.remove(0);
        assert(entry == input[done]);
        let activity = find_opened(opened, &keys, &entry.key);
        let belongs: bool = match v {
            ActivityView::Favorites => entry.file.is_favorite,
            ActivityView::Pinned => entry.file.is_pinned,
            ActivityView::Recents => match activity {
                Some(a) => a.open_count > 0,
                None => false,
            },
        };
        let at: i64 = match activity {
            Some(a) => a.last_opened_at,
            None => 0,
        };
        proof {
            assert(input.take(done + 1).drop_last() =~= input.take(done));
            assert(input.take(done + 1).last() == entry);
        }
        if belongs {
            chosen.push(LocalFileActivity { file: entry.file, last_opened_at: at });
        }
        proof {
            done = done + 1;
        }
        assert(rest@ =~= input.skip(done));
    }
    assert(input.take(done) =~= input);
    let mut sorted = sort_by_rank(chosen);
    let count: usize = match limit {
        Some(l) => if l < 1 { 1 } else if l > 1000 { 1000 } else { l as usize },
        None => 200,
    };
    sorted.truncate(count);
    Ok(sorted)
}


/// Two files of equal rank in a view's order.
pub open spec fn same_rank(a: LocalFileActivity, b: LocalFileActivity) -> bool {
    a.last_opened_at == b.last_opened_at && a.file.folder_id == b.file.folder_id && a.file.id == b.file.id
}

/// No file comes before a file listed ahead of it.
pub open spec fn in_rank_order(s: Seq<LocalFileActivity>) -> bool {
    forall|a: int, b: int| 0 <= a < b < s.len() ==> !comes_before(#[trigger] s[b], #[trigger] s[a])
}

/// `out` lists the elements of `input`, the element at `k` being the one at
/// `perm[k]`, each once, elements of equal rank in their input order.
pub open spec fn stable_arrangement(out: Seq<LocalFileActivity>, input: Seq<LocalFileActivity>, perm: Seq<int>) -> bool {
    &&& out.len() == input.len()
    &&& perm.len() == input.len()
    &&& forall|k: int| 0 <= k < out.len() ==> 0 <= #[trigger] perm[k] < input.len() && out[k] == input[perm[k]]
    &&& forall|a: int, b: int| 0 <= a < b < out.len() ==> #[trigger] perm[a] != #[trigger] perm[b]
    &&& forall|a: int, b: int| 0 <= a < b < out.len() && same_rank(#[trigger] out[a], #[trigger] out[b]) ==> perm[a] < perm[b]
}

/// Where `sorted_by_rank` places each input element.
pub open spec fn rank_perm(s: Seq<LocalFileActivity>) -> Seq<int>
    decreases s.len(),
{
    if s.len() == 0 {
        Seq::empty()
    } else {
        let earlier = sorted_by_rank(s.drop_last());
        rank_perm(s.drop_last()).insert(insert_pos(earlier, s.last()), s.len() - 1)
    }
}

proof fn lemma_insert_pos(s: Seq<LocalFileActivity>, x: LocalFileActivity)
    ensures
        0 <= insert_pos(s, x) <= s.len(),
        forall|k: int| 0 <= k < insert_pos(s, x) ==> !comes_before(x, #[trigger] s[k]),
        insert_pos(s, x) < s.len() ==> comes_before(x, s[insert_pos(s, x)]),
    decreases s.len(),
{
    if s.len() > 0 && !comes_before(x, s[0]) {
        let t = s.drop_first();
        lemma_insert_pos(t, x);
        assert forall|k: int| 0 <= k < insert_pos(s, x) implies !comes_before(x, #[trigger] s[k]) by {
            if k > 0 {
                assert(s[k] == t[k - 1]);
            }
        }
        if insert_pos(s, x) < s.len() {
            assert(s[insert_pos(s, x)] == t[insert_pos(t, x)]);
        }
    }
}

proof fn lemma_order_facts(a: LocalFileActivity, b: LocalFileActivity, c: LocalFileActivity)
    ensures
        !comes_before(a, a),
        comes_before(a, b) && comes_before(b, c) ==> comes_before(a, c),
        same_rank(a, b) ==> (comes_before(a, c) == comes_before(b, c)),
{
}

/// A view's order is a stable sort: the listed files are in view order, and
/// they are the selected files, each once, files of equal rank keeping the
/// order in which they were stored.
pub proof fn lemma_sorted_by_rank_is_stable_sort(s: Seq<LocalFileActivity>)
    ensures
        in_rank_order(sorted_by_rank(s)),
        stable_arrangement(sorted_by_rank(s), s, rank_perm(s)),
    decreases s.len(),
{
    if s.len() > 0 {
        let d = s.drop_last();
        let x = s.last();
        let e = sorted_by_rank(d);
        let p = rank_perm(d);
        lemma_sorted_by_rank_is_stable_sort(d);
        lemma_insert_pos(e, x);
        let pos = insert_pos(e, x);
        let out = sorted_by_rank(s);
        let perm = rank_perm(s);
        let n = s.len() - 1;
        assert(out == e.insert(pos, x));
        assert(perm == p.insert(pos, n));
        assert forall|k: int| 0 <= k < out.len() implies 0 <= #[trigger] perm[k] < s.len() && out[k] == s[perm[k]] by {
            if k < pos {
                assert(out[k] == e[k] && perm[k] == p[k]);
            } else if k > pos {
                assert(out[k] == e[k - 1] && perm[k] == p[k - 1]);
            }
        }
        assert forall|a: int, b: int| 0 <= a < b < out.len() implies #[trigger] perm[a] != #[trigger] perm[b] by {
            if a != pos && b != pos {
                let a1 = if a < pos { a } else { a - 1 };
                let b1 = if b < pos { b } else { b - 1 };
                assert(perm[a] == p[a1] && perm[b] == p[b1]);
            } else if a == pos {
                assert(perm[b] == p[b - 1]);
            } else {
                assert(perm[a] == p[a]);
            }
        }
        assert forall|a: int, b: int| 0 <= a < b < out.len() implies !comes_before(#[trigger] out[b], #[trigger] out[a]) by {
            if a != pos && b != pos {
                let a1 = if a < pos { a } else { a - 1 };
                let b1 = if b < pos { b } else { b - 1 };
                assert(out[a] == e[a1] && out[b] == e[b1]);
            } else if a == pos {
                let y = e[b - 1];
                assert(out[b] == y);
                if b - 1 > pos {
                    assert(!comes_before(e[b - 1], e[pos]));
                }
                lemma_order_facts(y, x, e[pos]);
            } else {
                assert(out[a] == e[a]);
            }
        }
        assert forall|a: int, b: int| 0 <= a < b < out.len() && same_rank(#[trigger] out[a], #[trigger] out[b])
            implies perm[a] < perm[b] by {
            if a != pos && b != pos {
                let a1 = if a < pos { a } else { a - 1 };
                let b1 = if b < pos { b } else { b - 1 };
                assert(out[a] == e[a1] && out[b] == e[b1]);
                assert(perm[a] == p[a1] && perm[b] == p[b1]);
            } else if a == pos {
                let y = e[b - 1];
                assert(out[b] == y);
                if b - 1 > pos {
                    assert(!comes_before(e[b - 1], e[pos]));
                }
                lemma_order_facts(x, y, e[pos]);
                lemma_order_facts(y, y, y);
            } else {
                assert(perm[a] == p[a]);
            }
        }
    }
}

/// Every file that a view lists belongs to the view, and the list is in view
/// order and no longer than the view shows.
pub proof fn lemma_read_activity_shape(files: Seq<StoredFile>, opened: Seq<OpenedFile>, view: Seq<char>, limit: Option<i64>)
    requires
        read_activity_spec(files, opened, view, limit) is Some,
    ensures
        ({
            let out = read_activity_spec(files, opened, view, limit)->0;
            &&& out.len() <= shown(limit)
            &&& 1 <= shown(limit) <= 1000
            &&& in_rank_order(out)
            &&& forall|k: int| 0 <= k < out.len() ==> selected(files, opened, view_named(view)->0).contains(#[trigger] out[k])
        }),
{
    let v = view_named(view)->0;
    let sel = selected(files, opened, v);
    lemma_sorted_by_rank_is_stable_sort(sel);
    let sorted = sorted_by_rank(sel);
    let out = read_activity_spec(files, opened, view, limit)->0;
    let perm = rank_perm(sel);
    assert forall|k: int| 0 <= k < out.len() implies sel.contains(#[trigger] out[k]) by {
        assert(out[k] == sorted[k]);
        assert(sorted[k] == sel[perm[k]]);
    }
    assert forall|a: int, b: int| 0 <= a < b < out.len() implies !comes_before(#[trigger] out[b], #[trigger] out[a]) by {
        assert(out[a] == sorted[a] && out[b] == sorted[b]);
    }
}

/// Every file of a view belongs to it: favorites are flagged favorite,
/// pinned files are flagged pinned, and recents are stored files opened at
/// least once, listed with the time of their last opening.
pub proof fn lemma_selected_members(files: Seq<StoredFile>, opened: Seq<OpenedFile>, view: ActivityView, x: LocalFileActivity)
    requires
        selected(files, opened, view).contains(x),
    ensures
        view == ActivityView::Favorites ==> x.file.is_favorite,
        view == ActivityView::Pinned ==> x.file.is_pinned,
        view == ActivityView::Recents ==> exists|i: int| 0 <= i < files.len() && #[trigger] files[i].file == x.file
            && (last_opened(opened, files[i].key@) matches Some(a) && a.open_count > 0 && a.last_opened_at == x.last_opened_at),
    decreases files.len(),
{
    if files.len() > 0 {
        let earlier = selected(files.drop_last(), opened, view);
        let entry = files.last();
        let activity = last_opened(opened, entry.key@);
        if earlier.contains(x) {
            lemma_selected_members(files.drop_last(), opened, view, x);
            if view == ActivityView::Recents {
                let i = choose|i: int| 0 <= i < files.drop_last().len() && #[trigger] files.drop_last()[i].file == x.file
                    && (last_opened(opened, files.drop_last()[i].key@) matches Some(a) && a.open_count > 0 && a.last_opened_at == x.last_opened_at);
                assert(files[i] == files.drop_last()[i]);
            }
        } else {
            assert(in_view(view, entry.file, activity));
            assert(x == LocalFileActivity { file: entry.file, last_opened_at: opened_at(activity) });
            if view == ActivityView::Recents {
                assert(files[files.len() - 1] == entry);
            }
        }
    }
}

/// A file that belongs to a view is among the files the view selects, with
/// the time of its last opening.
pub proof fn lemma_selected_contains(files: Seq<StoredFile>, opened: Seq<OpenedFile>, view: ActivityView, i: int)
    requires
        0 <= i < files.len(),
        in_view(view, files[i].file, last_opened(opened, files[i].key@)),
    ensures
        selected(files, opened, view).contains(
            LocalFileActivity { file: files[i].file, last_opened_at: opened_at(last_opened(opened, files[i].key@)) },
        ),
    decreases files.len(),
{
    let x = LocalFileActivity { file: files[i].file, last_opened_at: opened_at(last_opened(opened, files[i].key@)) };
    let d = files.drop_last();
    let earlier = selected(d, opened, view);
    if i < files.len() - 1 {
        assert(d[i] == files[i]);
        lemma_selected_contains(d, opened, view, i);
        let k = choose|k: int| 0 <= k < earlier.len() && earlier[k] == x;
        let now = selected(files, opened, view);
        assert(now[k] == earlier[k]);
    } else {
        let now = selected(files, opened, view);
        assert(now[now.len() - 1] == x);
    }
}

/// What a read gives back of a write: right after a file is recorded as
/// opened at `now`, the recents view selects it with that time.
pub proof fn lemma_opened_file_is_recent(
    files: Seq<StoredFile>,
    opened: Seq<OpenedFile>,
    i: int,
    previous: Option<OpenedFile>,
    now: i64,
)
    requires
        0 <= i < files.len(),
        files[i].key@ == file_key_spec(files[i].file.folder_id, files[i].file.id),
    ensures
        selected(
            files,
            opened.push(opened_spec(previous, files[i].file.folder_id, files[i].file.id, now)),
            ActivityView::Recents,
        ).contains(LocalFileActivity { file: files[i].file, last_opened_at: now }),
{
    let record = opened_spec(previous, files[i].file.folder_id, files[i].file.id, now);
    let after = opened.push(record);
    assert(after.last() == record);
    assert(last_opened(after, files[i].key@) == Some(record));
    lemma_selected_contains(files, after, ActivityView::Recents, i);
}

/// The favorites and pinned views go by the file's own flags alone: an
/// opening record, or none, changes nothing about them.
pub proof fn lemma_flag_views_ignore_openings(f: FileMetadata, a: Option<OpenedFile>, b: Option<OpenedFile>)
    ensures
        in_view(ActivityView::Favorites, f, a) == f.is_favorite,
        in_view(ActivityView::Pinned, f, a) == f.is_pinned,
        in_view(ActivityView::Favorites, f, a) == in_view(ActivityView::Favorites, f, b),
        in_view(ActivityView::Pinned, f, a) == in_view(ActivityView::Pinned, f, b),
{
}

/// Every stored file flagged pinned is selected by the pinned view, and every
/// stored file flagged favorite by the favorites view, each with the time of
/// its last opening (zero if none), whatever the opening records say.
pub proof fn lemma_flagged_files_are_selected(files: Seq<StoredFile>, opened: Seq<OpenedFile>, i: int)
    requires
        0 <= i < files.len(),
    ensures
        files[i].file.is_pinned ==> selected(files, opened, ActivityView::Pinned).contains(
            LocalFileActivity { file: files[i].file, last_opened_at: opened_at(last_opened(opened, files[i].key@)) },
        ),
        files[i].file.is_favorite ==> selected(files, opened, ActivityView::Favorites).contains(
            LocalFileActivity { file: files[i].file, last_opened_at: opened_at(last_opened(opened, files[i].key@)) },
        ),
{
    if files[i].file.is_pinned {
        lemma_selected_contains(files, opened, ActivityView::Pinned, i);
    }
    if files[i].file.is_favorite {
        lemma_selected_contains(files, opened, ActivityView::Favorites, i);
    }
}

/// The number of stored files flagged for a flag view.
pub open spec fn flagged_count(files: Seq<StoredFile>, view: ActivityView) -> nat
    decreases files.len(),
{
    if files.len() == 0 {
        0
    } else {
        flagged_count(files.drop_last(), view) + if (view == ActivityView::Pinned && files.last().file.is_pinned)
            || (view == ActivityView::Favorites && files.last().file.is_favorite) { 1nat } else { 0nat }
    }
}

/// A flag view selects exactly as many files as are flagged.
pub proof fn lemma_flag_view_size(files: Seq<StoredFile>, opened: Seq<OpenedFile>, view: ActivityView)
    requires
        view != ActivityView::Recents,
    ensures
        selected(files, opened, view).len() == flagged_count(files, view),
    decreases files.len(),
{
    if files.len() > 0 {
        lemma_flag_view_size(files.drop_last(), opened, view);
    }
}

/// How many files a view shows: 200 when no limit is asked for; the limit
/// asked for when it lies within 1 to 1000; 1 below; 1000 above.
pub proof fn lemma_shown(limit: i64)
    ensures
        shown(None) == 200,
        1 <= limit <= 1000 ==> shown(Some(limit)) == limit,
        limit < 1 ==> shown(Some(limit)) == 1,
        limit > 1000 ==> shown(Some(limit)) == 1000,
{
}

/// A view lists every file it selects, as many as it selects, when they are
/// no more than it shows; otherwise exactly as many as it shows. Without a
/// limit that is up to 200 files.
pub proof fn lemma_view_length(files: Seq<StoredFile>, opened: Seq<OpenedFile>, view: Seq<char>, limit: Option<i64>)
    requires
        view_named(view) is Some,
    ensures
        ({
            let n = selected(files, opened, view_named(view)->0).len();
            let out = read_activity_spec(files, opened, view, limit)->0;
            &&& n <= shown(limit) ==> out.len() == n
            &&& n > shown(limit) ==> out.len() == shown(limit)
            &&& (limit is None && n <= 200) ==> out.len() == n
            &&& (limit is None && n > 200) ==> out.len() == 200
        }),
{
    let sel = selected(files, opened, view_named(view)->0);
    lemma_sorted_by_rank_is_stable_sort(sel);
}

/// With no limit, a flag view lists every flagged file when there are at
/// most 200 of them.
pub proof fn lemma_flag_view_lists_all(files: Seq<StoredFile>, opened: Seq<OpenedFile>)
    ensures
        flagged_count(files, ActivityView::Pinned) <= 200
            ==> read_activity_spec(files, opened, "pinned"@, None)->0.len() == flagged_count(files, ActivityView::Pinned),
        flagged_count(files, ActivityView::Favorites) <= 200
            ==> read_activity_spec(files, opened, "favorites"@, None)->0.len() == flagged_count(files, ActivityView::Favorites),
{
    reveal_strlit("favorites");
    reveal_strlit("pinned");
    assert("pinned"@.len() != "favorites"@.len());
    assert(view_named("pinned"@) == Some(ActivityView::Pinned));
    assert(view_named("favorites"@) == Some(ActivityView::Favorites));
    lemma_flag_view_size(files, opened, ActivityView::Pinned);
    lemma_flag_view_size(files, opened, ActivityView::Favorites);
    lemma_view_length(files, opened, "pinned"@, None);
    lemma_view_length(files, opened, "favorites"@, None);
}

} // verus!
