//! The diff codec: the `FileChange` event type, the splice semantics of
//! applying one event to a content string, and (further down) the greedy
//! positional encoder.
//!
//! Positions and deletion counts are Unicode-scalar (character) offsets,
//! never byte offsets; the model of a content string is its `Seq<char>` view.

use vstd::prelude::*;
use vstd::string::*;
use crate::FULL_CONTENT_LIMIT;

verus! {

/// One immutable description of a content change: either a full replacement
/// or a positional edit.
#[derive(Debug, PartialEq)]
pub enum FileChange {
    /// Complete file content: an authoritative resync point that supersedes
    /// any previous edit history for the file.
    FullContent { file_id: String, content: String },
    /// A positional edit: at character offset `position`, remove up to
    /// `delete_count` characters and put `insert_text` in their place.
    Diff { file_id: String, position: usize, delete_count: usize, insert_text: String },
}

/// Remove up to `delete_count` characters of `s` starting at `position` and
/// put `insert` in their place; the deleted range is clamped to the end of
/// `s`.
pub open spec fn spec_splice(
    s: Seq<char>,
    position: int,
    delete_count: int,
    insert: Seq<char>,
) -> Seq<char> {
    let end = if position + delete_count <= s.len() {
        position + delete_count
    } else {
        s.len() as int
    };
    s.subrange(0, position) + insert + s.subrange(end, s.len() as int)
}

/// Whether applying `ev` to content `s` must be rejected: only a positional
/// edit whose position lies beyond the end of `s` is.
pub open spec fn spec_rejected(ev: FileChange, s: Seq<char>) -> bool {
    match ev {
        FileChange::FullContent { .. } => false,
        FileChange::Diff { position, .. } => position > s.len(),
    }
}

/// The content that applying `ev` to content `s` leaves behind: a full
/// replacement, a clamped splice, or — for a rejected edit — `s` unchanged.
pub open spec fn spec_apply(ev: FileChange, s: Seq<char>) -> Seq<char> {
    match ev {
        FileChange::FullContent { content, .. } => content@,
        FileChange::Diff { position, delete_count, insert_text, .. } => {
            if position > s.len() {
                s
            } else {
                spec_splice(s, position as int, delete_count as int, insert_text@)
            }
        },
    }
}

/// The content left after applying every event of `evs`, in order, to `s`.
pub open spec fn spec_apply_all(evs: Seq<FileChange>, s: Seq<char>) -> Seq<char>
    decreases evs.len(),
{
    if evs.len() == 0 {
        s
    } else {
        spec_apply_all(evs.drop_first(), spec_apply(evs[0], s))
    }
}

/// Applying a sequence extended by one event equals applying the sequence,
/// then the event.
pub proof fn lemma_apply_all_push(evs: Seq<FileChange>, e: FileChange, s: Seq<char>)
    ensures
        spec_apply_all(evs.push(e), s) == spec_apply(e, spec_apply_all(evs, s)),
    decreases evs.len(),
{
    reveal_with_fuel(spec_apply_all, 2);
    if evs.len() == 0 {
        assert(evs.push(e)[0] == e);
        assert(evs.push(e).drop_first() =~= Seq::<FileChange>::empty());
    } else {
        assert(evs.push(e)[0] == evs[0]);
        assert(evs.push(e).drop_first() =~= evs.drop_first().push(e));
        lemma_apply_all_push(evs.drop_first(), e, spec_apply(evs[0], s));
        assert(spec_apply_all(evs.push(e), s) == spec_apply_all(
            evs.drop_first().push(e),
            spec_apply(evs[0], s),
        ));
    }
}

impl Clone for FileChange {
    /// An exact copy: the clone equals the original.
    fn clone(&self) -> (copy: Self)
        ensures
            copy == *self,
    {
        match self {
            FileChange::FullContent { file_id, content } => FileChange::FullContent {
                file_id: file_id.clone(),
                content: content.clone(),
            },
            FileChange::Diff { file_id, position, delete_count, insert_text } => FileChange::Diff {
                file_id: file_id.clone(),
                position: *position,
                delete_count: *delete_count,
                insert_text: insert_text.clone(),
            },
        }
    }
}

/// True when `c` occurs in `s` at or after index `from`.
pub open spec fn spec_occurs(s: Seq<char>, from: int, c: char) -> bool {
    exists|m: int| from <= m < s.len() && s[m] == c
}

/// Whether `ev` is a positional edit belonging to the file named `id`.
pub open spec fn spec_is_diff_for(ev: FileChange, id: Seq<char>) -> bool {
    match ev {
        FileChange::FullContent { .. } => false,
        FileChange::Diff { file_id, .. } => file_id@ == id,
    }
}

/// Whether `ev` is a full snapshot of the file named `id` carrying `text`.
pub open spec fn spec_is_full_for(ev: FileChange, id: Seq<char>, text: Seq<char>) -> bool {
    match ev {
        FileChange::FullContent { file_id, content } => file_id@ == id && content@ == text,
        FileChange::Diff { .. } => false,
    }
}

/// Whether `ev` belongs to the file named `id`, whichever variant it is.
pub open spec fn spec_for_file(ev: FileChange, id: Seq<char>) -> bool {
    match ev {
        FileChange::FullContent { file_id, .. } => file_id@ == id,
        FileChange::Diff { file_id, .. } => file_id@ == id,
    }
}

/// One event at the model level: views and mathematical integers in place
/// of strings and machine words.
pub enum ChangeModel {
    /// A full snapshot.
    Full { file_id: Seq<char>, content: Seq<char> },
    /// A positional edit.
    Edit { file_id: Seq<char>, position: int, delete_count: int, insert: Seq<char> },
}

impl FileChange {
    /// This event, seen at the model level.
    pub open spec fn model(&self) -> ChangeModel {
        match *self {
            FileChange::FullContent { file_id, content } => ChangeModel::Full {
                file_id: file_id@,
                content: content@,
            },
            FileChange::Diff { file_id, position, delete_count, insert_text } => ChangeModel::Edit {
                file_id: file_id@,
                position: position as int,
                delete_count: delete_count as int,
                insert: insert_text@,
            },
        }
    }
}

/// A sequence of events, seen at the model level.
pub open spec fn spec_models(events: Seq<FileChange>) -> Seq<ChangeModel> {
    events.map_values(|ev: FileChange| ev.model())
}

/// Whether an event does some work: a snapshot always; a positional edit
/// only when it deletes or inserts at least one character.
pub open spec fn spec_change_nonempty(ev: FileChange) -> bool {
    match ev {
        FileChange::FullContent { .. } => true,
        FileChange::Diff { delete_count, insert_text, .. } => delete_count > 0
            || insert_text@.len() > 0,
    }
}

/// The first index at or after `from` where `c` stands in `s`, or `s.len()`
/// when there is none.
pub open spec fn spec_find_char(s: Seq<char>, from: int, c: char) -> int
    decreases s.len() - from when 0 <= from <= s.len()
{
    if from >= s.len() {
        s.len() as int
    } else if s[from] == c {
        from
    } else {
        spec_find_char(s, from + 1, c)
    }
}

/// `spec_find_char` lands on the first occurrence, or on `s.len()` when
/// there is none.
pub proof fn lemma_find_char(s: Seq<char>, from: int, c: char)
    requires
        0 <= from <= s.len(),
    ensures
        from <= spec_find_char(s, from, c) <= s.len(),
        spec_find_char(s, from, c) < s.len() ==> s[spec_find_char(s, from, c)] == c,
        forall|m: int| from <= m < spec_find_char(s, from, c) ==> s[m] != c,
    decreases s.len() - from,
{
    if from < s.len() && s[from] != c {
        lemma_find_char(s, from + 1, c);
    }
}

/// The resync point of a deletion run begun at `i`: the first index at or
/// after `i` whose character of `old` reappears in `new` at or after `j`,
/// paired with the index of that first reappearance; `(old.len(), j)` when
/// no character reappears.
pub open spec fn spec_resync_point(old: Seq<char>, new: Seq<char>, i: int, j: int) -> (int, int)
    decreases old.len() - i when 0 <= i <= old.len() && 0 <= j <= new.len()
{
    if i >= old.len() {
        (old.len() as int, j)
    } else if spec_find_char(new, j, old[i]) < new.len() {
        (i, spec_find_char(new, j, old[i]))
    } else {
        spec_resync_point(old, new, i + 1, j)
    }
}

/// What `spec_resync_point` lands on: a first reappearing character and its
/// first reappearance, or the end of `old`.
pub proof fn lemma_resync_point(old: Seq<char>, new: Seq<char>, i: int, j: int)
    requires
        0 <= i <= old.len(),
        0 <= j <= new.len(),
    ensures
        i <= spec_resync_point(old, new, i, j).0 <= old.len(),
        spec_resync_point(old, new, i, j).0 < old.len() ==> spec_resync_point(old, new, i, j).1
            == spec_find_char(new, j, old[spec_resync_point(old, new, i, j).0]),
        spec_resync_point(old, new, i, j).0 < old.len() ==> j <= spec_resync_point(old, new, i, j).1
            < new.len(),
        spec_resync_point(old, new, i, j).0 < old.len() ==> new[spec_resync_point(old, new, i, j).1]
            == old[spec_resync_point(old, new, i, j).0],
        spec_resync_point(old, new, i, j).0 == old.len() ==> spec_resync_point(old, new, i, j).1
            == j,
    decreases old.len() - i,
{
    if i < old.len() {
        lemma_find_char(new, j, old[i]);
        if spec_find_char(new, j, old[i]) >= new.len() {
            lemma_resync_point(old, new, i + 1, j);
        }
    }
}

/// The greedy scan, in full: from position `i` of `old` and `j` of `new`, a
/// matching run is skipped; at a mismatch the deletion run extends to the
/// resync point and the skipped-over new characters become the inserted
/// text; a trailing unmatched suffix of either side becomes one final
/// delete-only or insert-only edit. Edit positions are in the coordinates
/// of the content as it stands after the preceding edits, so that applying
/// the edits in order reproduces the new content.
pub open spec fn spec_scan(
    id: Seq<char>,
    old: Seq<char>,
    new: Seq<char>,
    i: int,
    j: int,
) -> Seq<ChangeModel>
    decreases old.len() - i + new.len() - j when 0 <= i <= old.len() && 0 <= j <= new.len()
{
    if i < old.len() && j < new.len() {
        if old[i] == new[j] {
            spec_scan(id, old, new, i + 1, j + 1)
        } else {
            let r = spec_resync_point(old, new, i, j);
            proof {
                lemma_resync_point(old, new, i, j);
                lemma_find_char(new, j, old[i]);
            }
            seq![
                ChangeModel::Edit {
                    file_id: id,
                    position: j,
                    delete_count: r.0 - i,
                    insert: new.subrange(j, r.1),
                },
            ] + spec_scan(id, old, new, r.0, r.1)
        }
    } else if i < old.len() {
        seq![
            ChangeModel::Edit {
                file_id: id,
                position: j,
                delete_count: old.len() - i,
                insert: Seq::empty(),
            },
        ]
    } else if j < new.len() {
        seq![
            ChangeModel::Edit {
                file_id: id,
                position: j,
                delete_count: 0,
                insert: new.subrange(j, new.len() as int),
            },
        ]
    } else {
        Seq::empty()
    }
}

/// Equal contents scan to no edits at all.
pub proof fn lemma_scan_equal(id: Seq<char>, s: Seq<char>, i: int)
    requires
        0 <= i <= s.len(),
    ensures
        spec_scan(id, s, s, i, i) == Seq::<ChangeModel>::empty(),
    decreases s.len() - i,
{
    if i < s.len() {
        lemma_scan_equal(id, s, i + 1);
    }
}

/// A pure extension: when the old content is a strict prefix of the new
/// one, the scan yields exactly one insert-only edit at the end of the old
/// content, inserting the unmatched suffix.
pub proof fn lemma_scan_prefix_insert(id: Seq<char>, old: Seq<char>, new: Seq<char>, i: int)
    requires
        0 <= i <= old.len(),
        old.len() < new.len(),
        old == new.take(old.len() as int),
    ensures
        spec_scan(id, old, new, i, i) == seq![
            ChangeModel::Edit {
                file_id: id,
                position: old.len() as int,
                delete_count: 0,
                insert: new.skip(old.len() as int),
            },
        ],
    decreases old.len() - i,
{
    if i < old.len() {
        assert(old[i] == new.take(old.len() as int)[i]);
        lemma_scan_prefix_insert(id, old, new, i + 1);
    } else {
        assert(new.subrange(i, new.len() as int) =~= new.skip(old.len() as int));
    }
}

/// A pure truncation: when the new content is a strict prefix of the old
/// one, the scan yields exactly one delete-only edit at the end of the new
/// content, deleting the old content's unmatched suffix.
pub proof fn lemma_scan_suffix_delete(id: Seq<char>, old: Seq<char>, new: Seq<char>, i: int)
    requires
        0 <= i <= new.len(),
        new.len() < old.len(),
        new == old.take(new.len() as int),
    ensures
        spec_scan(id, old, new, i, i) == seq![
            ChangeModel::Edit {
                file_id: id,
                position: new.len() as int,
                delete_count: old.len() - new.len(),
                insert: Seq::empty(),
            },
        ],
    decreases new.len() - i,
{
    if i < new.len() {
        assert(new[i] == old.take(new.len() as int)[i]);
        lemma_scan_suffix_delete(id, old, new, i + 1);
    }
}

/// Finds the first occurrence of `c` in `s` at or after index `from`.
fn find_char_from(s: &str, from: usize, c: char) -> (r: Option<usize>)
    requires
        from <= s@.len(),
    ensures
        match r {
            Option::Some(k) => from <= k < s@.len() && s@[k as int] == c && (forall|m: int|
                from <= m < k ==> s@[m] != c),
            Option::None => !spec_occurs(s@, from as int, c),
        },
        spec_find_char(s@, from as int, c) == (match r {
            Option::Some(k) => k as int,
            Option::None => s@.len() as int,
        }),
{
    let len: usize = s.unicode_len();
    let mut k: usize = from;
    while k < len
        invariant
            from <= k <= len,
            len == s@.len(),
            forall|m: int| from <= m < k ==> s@[m] != c,
            spec_find_char(s@, from as int, c) == spec_find_char(s@, k as int, c),
        decreases len - k,
    {
        if s.get_char(k) == c {
            proof {
                assert(spec_find_char(s@, k as int, c) == k as int);
            }
            return Option::Some(k);
        }
        proof {
            assert(spec_find_char(s@, k as int, c) == spec_find_char(s@, k as int + 1, c));
        }
        k = k + 1;
    }
    proof {
        assert(spec_find_char(s@, k as int, c) == s@.len() as int);
    }
    Option::None
}

/// Extends a deletion run begun at `i0`: returns the first index at or after
/// `i0` whose character of `old_content` reappears in `new_content` at or
/// after `j`, together with the index of that first reappearance (the resync
/// point); returns `(old_content.len(), j)` when no character reappears.
fn find_resync(old_content: &str, new_content: &str, i0: usize, j: usize) -> (r: (usize, usize))
    requires
        i0 <= old_content@.len(),
        j <= new_content@.len(),
    ensures
        i0 <= r.0 <= old_content@.len(),
        forall|m: int| i0 <= m < r.0 ==> !spec_occurs(new_content@, j as int, old_content@[m]),
        r.0 < old_content@.len() ==> j <= r.1 < new_content@.len(),
        r.0 < old_content@.len() ==> new_content@[r.1 as int] == old_content@[r.0 as int],
        r.0 < old_content@.len() ==> forall|m: int|
            j <= m < r.1 ==> new_content@[m] != old_content@[r.0 as int],
        r.0 == old_content@.len() ==> r.1 == j,
        (r.0 as int, r.1 as int) == spec_resync_point(old_content@, new_content@, i0 as int, j as int),
{
    let old_len: usize = old_content.unicode_len();
    let mut i: usize = i0;
    while i < old_len
        invariant
            i0 <= i <= old_len,
            old_len == old_content@.len(),
            j <= new_content@.len(),
            forall|m: int| i0 <= m < i ==> !spec_occurs(new_content@, j as int, old_content@[m]),
            spec_resync_point(old_content@, new_content@, i0 as int, j as int)
                == spec_resync_point(old_content@, new_content@, i as int, j as int),
        decreases old_len - i,
    {
        let c: char = old_content.get_char(i);
        match find_char_from(new_content, j, c) {
            Option::Some(k) => {
                proof {
                    assert(spec_resync_point(old_content@, new_content@, i as int, j as int) == (
                        i as int,
                        k as int,
                    ));
                }
                return (i, k);
            },
            Option::None => {
                proof {
                    assert(spec_resync_point(old_content@, new_content@, i as int, j as int)
                        == spec_resync_point(old_content@, new_content@, i as int + 1, j as int));
                }
                i = i + 1;
            },
        }
    }
    proof {
        assert(spec_resync_point(old_content@, new_content@, i as int, j as int) == (
            old_len as int,
            j as int,
        ));
    }
    (old_len, j)
}

/// Character-for-character equality of two strings.
pub fn str_eq(a: &str, b: &str) -> (r: bool)
    ensures
        r <==> a@ == b@,
{
    let a_len: usize = a.unicode_len();
    let b_len: usize = b.unicode_len();
    if a_len != b_len {
        return false;
    }
    let mut t: usize = 0;
    while t < a_len
        invariant
            t <= a_len,
            a_len == a@.len(),
            a_len == b_len,
            b_len == b@.len(),
            forall|m: int| 0 <= m < t ==> a@[m] == b@[m],
        decreases a_len - t,
    {
        if a.get_char(t) != b.get_char(t) {
            return false;
        }
        t = t + 1;
    }
    proof {
        assert(a@ =~= b@);
    }
    true
}

impl FileChange {
    /// Applies this change to `content` in place. A positional edit whose
    /// `position` lies beyond the end of `content` is rejected: `content` is
    /// left unchanged and `false` signals the violation; every other change
    /// is applied and `true` returned.
    pub fn apply(&self, content: &mut String) -> (applied: bool)
        ensures
            final(content)@ == spec_apply(*self, old(content)@),
            applied == !spec_rejected(*self, old(content)@),
    {
        match self {
            FileChange::FullContent { content: new_content, .. } => {
                *content = new_content.clone();
                true
            },
            FileChange::Diff { position, delete_count, insert_text, .. } => {
                let len = content.as_str().unicode_len();
                if *position > len {
                    false
                } else {
                    let end = if *delete_count > len - *position {
                        len
                    } else {
                        *position + *delete_count
                    };
                    let head = content.as_str().substring_char(0, *position);
                    let mut result = head.to_owned();
                    result.append(insert_text.as_str());
                    let tail = content.as_str().substring_char(end, len);
                    result.append(tail);
                    proof {
                        assert(result@ =~= spec_apply(*self, content@));
                    }
                    *content = result;
                    true
                }
            },
        }
    }

    /// Applies every event of `events` to `content`, in order, each under
    /// the validate-and-clamp rule of `apply`.
    pub fn apply_all(events: &Vec<FileChange>, content: &mut String)
        ensures
            final(content)@ == spec_apply_all(events@, old(content)@),
    {
        proof {
            assert(events@.skip(0) =~= events@);
        }
        let mut idx: usize = 0;
        while idx < events.len()
            invariant
                idx <= events@.len(),
                spec_apply_all(events@, old(content)@) == spec_apply_all(
                    events@.skip(idx as int),
                    content@,
                ),
            decreases events@.len() - idx,
        {
            proof {
                assert(events@.skip(idx as int)[0] == events@[idx as int]);
                assert(events@.skip(idx as int).drop_first() =~= events@.skip(idx as int + 1));
            }
            let _applied: bool = events[idx].apply(content);
            idx = idx + 1;
        }
        proof {
            assert(events@.skip(events@.len() as int) =~= Seq::<FileChange>::empty());
        }
    }

    /// Encodes the change from `old_content` to `new_content` for the file
    /// named `file_id` as a single left-to-right greedy scan of positional
    /// edits: a matching run is skipped; at a mismatch the deletion run is
    /// extended until a character of the old content reappears in the new
    /// one, and the skipped-over new characters become the inserted text; a
    /// trailing unmatched suffix of either side becomes a final delete-only
    /// or insert-only edit. Applying the edits in order to `old_content`
    /// reproduces `new_content` exactly; equal contents produce no edits.
    pub fn create_diff(file_id: &str, old_content: &str, new_content: &str) -> (changes: Vec<
        FileChange,
    >)
        ensures
            spec_models(changes@) == spec_scan(file_id@, old_content@, new_content@, 0, 0),
            spec_apply_all(changes@, old_content@) == new_content@,
            old_content@ == new_content@ <==> changes@.len() == 0,
            forall|t: int| 0 <= t < changes@.len() ==> spec_is_diff_for(#[trigger] changes@[t], file_id@),
            forall|t: int| 0 <= t < changes@.len() ==> spec_change_nonempty(#[trigger] changes@[t]),
    {
        let old_len: usize = old_content.unicode_len();
        let new_len: usize = new_content.unicode_len();
        let mut changes: Vec<FileChange> = Vec::new();
        let mut i: usize = 0;
        let mut j: usize = 0;
        proof {
            assert(spec_models(changes@) =~= Seq::<ChangeModel>::empty());
            assert(Seq::<ChangeModel>::empty() + spec_scan(file_id@, old_content@, new_content@, 0, 0)
                =~= spec_scan(file_id@, old_content@, new_content@, 0, 0));
        }
        while i < old_len && j < new_len
            invariant
                i <= old_len,
                j <= new_len,
                old_len == old_content@.len(),
                new_len == new_content@.len(),
                spec_apply_all(changes@, old_content@) == new_content@.take(j as int)
                    + old_content@.skip(i as int),
                spec_scan(file_id@, old_content@, new_content@, 0, 0) == spec_models(changes@)
                    + spec_scan(file_id@, old_content@, new_content@, i as int, j as int),
                old_content@ == new_content@ ==> changes@.len() == 0 && i == j,
                forall|t: int| 0 <= t < changes@.len() ==> spec_is_diff_for(
                    #[trigger] changes@[t],
                    file_id@,
                ),
                forall|t: int| 0 <= t < changes@.len() ==> spec_change_nonempty(
                    #[trigger] changes@[t],
                ),
            decreases old_len - i + new_len - j,
        {
            let oc: char = old_content.get_char(i);
            let nc: char = new_content.get_char(j);
            if oc == nc {
                proof {
                    assert(new_content@.take(j + 1 as int) + old_content@.skip(i + 1 as int)
                        =~= new_content@.take(j as int) + old_content@.skip(i as int));
                    assert(spec_scan(file_id@, old_content@, new_content@, i as int, j as int)
                        == spec_scan(
                        file_id@,
                        old_content@,
                        new_content@,
                        i as int + 1,
                        j as int + 1,
                    ));
                }
                i = i + 1;
                j = j + 1;
            } else {
                let start: usize = i;
                let resync: (usize, usize) = find_resync(old_content, new_content, i, j);
                let i2: usize = resync.0;
                let k: usize = resync.1;
                let delete_count: usize = i2 - start;
                proof {
                    // equal contents never reach a mismatch
                    if old_content@ == new_content@ {
                        assert(old_content@[i as int] == new_content@[j as int]);
                        assert(false);
                    }
                    // the edit is never empty: a deletion run of zero means
                    // the mismatching character itself resynced, and it
                    // cannot resync at `j`, where the mismatch is
                    if delete_count == 0 && k == j {
                        assert(i2 < old_content@.len());
                        assert(new_content@[j as int] == old_content@[i as int]);
                        assert(false);
                    }
                }
                let insert_text: String = new_content.substring_char(j, k).to_owned();
                let ev = FileChange::Diff {
                    file_id: file_id.to_owned(),
                    position: j,
                    delete_count,
                    insert_text,
                };
                proof {
                    let c0 = new_content@.take(j as int) + old_content@.skip(i as int);
                    lemma_apply_all_push(changes@, ev, old_content@);
                    assert(j + delete_count <= c0.len());
                    assert(spec_apply(ev, c0) == c0.subrange(0, j as int) + new_content@.subrange(
                        j as int,
                        k as int,
                    ) + c0.subrange(j + delete_count, c0.len() as int));
                    assert(c0.subrange(0, j as int) =~= new_content@.take(j as int));
                    assert(c0.subrange(j + delete_count, c0.len() as int) =~= old_content@.skip(
                        i2 as int,
                    ));
                    assert(new_content@.take(j as int) + new_content@.subrange(j as int, k as int)
                        + old_content@.skip(i2 as int) =~= new_content@.take(k as int)
                        + old_content@.skip(i2 as int));
                    assert(spec_apply_all(changes@.push(ev), old_content@) == new_content@.take(
                        k as int,
                    ) + old_content@.skip(i2 as int));
                    // the emitted edit is the scan's next edit
                    let edit = ChangeModel::Edit {
                        file_id: file_id@,
                        position: j as int,
                        delete_count: i2 - i,
                        insert: new_content@.subrange(j as int, k as int),
                    };
                    assert(ev.model() == edit);
                    assert(spec_change_nonempty(ev));
                    assert(spec_scan(file_id@, old_content@, new_content@, i as int, j as int)
                        == seq![edit] + spec_scan(
                        file_id@,
                        old_content@,
                        new_content@,
                        i2 as int,
                        k as int,
                    ));
                    assert(spec_models(changes@.push(ev)) =~= spec_models(changes@).push(
                        ev.model(),
                    ));
                    assert(spec_models(changes@).push(edit) + spec_scan(
                        file_id@,
                        old_content@,
                        new_content@,
                        i2 as int,
                        k as int,
                    ) =~= spec_models(changes@) + (seq![edit] + spec_scan(
                        file_id@,
                        old_content@,
                        new_content@,
                        i2 as int,
                        k as int,
                    )));
                }
                changes.push(ev);
                i = i2;
                j = k;
            }
        }
        if i < old_len {
            // trailing unmatched suffix of the old content: delete it at the
            // current position
            let ev = FileChange::Diff {
                file_id: file_id.to_owned(),
                position: j,
                delete_count: old_len - i,
                insert_text: String::new(),
            };
            proof {
                let c0 = new_content@.take(j as int) + old_content@.skip(i as int);
                lemma_apply_all_push(changes@, ev, old_content@);
                assert(spec_apply(ev, c0) == c0.subrange(0, j as int) + Seq::<char>::empty()
                    + c0.subrange(c0.len() as int, c0.len() as int));
                assert(c0.subrange(0, j as int) =~= new_content@);
                assert(spec_apply_all(changes@.push(ev), old_content@) =~= new_content@);
                let edit = ChangeModel::Edit {
                    file_id: file_id@,
                    position: j as int,
                    delete_count: old_len - i,
                    insert: Seq::empty(),
                };
                assert(ev.model() == edit);
                assert(spec_scan(file_id@, old_content@, new_content@, i as int, j as int)
                    == seq![edit]);
                assert(spec_models(changes@.push(ev)) =~= spec_models(changes@).push(ev.model()));
                assert(spec_models(changes@).push(edit) =~= spec_models(changes@) + seq![edit]);
            }
            changes.push(ev);
        } else if j < new_len {
            // trailing unmatched suffix of the new content: insert it at the
            // current position (the end of the content built so far)
            let insert_text: String = new_content.substring_char(j, new_len).to_owned();
            let ev = FileChange::Diff {
                file_id: file_id.to_owned(),
                position: j,
                delete_count: 0,
                insert_text,
            };
            proof {
                let c0 = new_content@.take(j as int) + old_content@.skip(i as int);
                lemma_apply_all_push(changes@, ev, old_content@);
                assert(c0.len() == j);
                assert(spec_apply(ev, c0) == c0.subrange(0, j as int) + new_content@.subrange(
                    j as int,
                    new_len as int,
                ) + c0.subrange(j as int, j as int));
                assert(spec_apply_all(changes@.push(ev), old_content@) =~= new_content@);
                let edit = ChangeModel::Edit {
                    file_id: file_id@,
                    position: j as int,
                    delete_count: 0,
                    insert: new_content@.subrange(j as int, new_len as int),
                };
                assert(ev.model() == edit);
                assert(spec_scan(file_id@, old_content@, new_content@, i as int, j as int)
                    == seq![edit]);
                assert(spec_models(changes@.push(ev)) =~= spec_models(changes@).push(ev.model()));
                assert(spec_models(changes@).push(edit) =~= spec_models(changes@) + seq![edit]);
            }
            changes.push(ev);
        } else {
            proof {
                assert(new_content@.take(j as int) + old_content@.skip(i as int)
                    =~= new_content@);
                assert(spec_scan(file_id@, old_content@, new_content@, i as int, j as int)
                    =~= Seq::<ChangeModel>::empty());
                assert(spec_models(changes@) + Seq::<ChangeModel>::empty() =~= spec_models(
                    changes@,
                ));
            }
        }
        proof {
            if changes@.len() == 0 {
                assert(spec_apply_all(changes@, old_content@) == old_content@);
            }
        }
        changes
    }

    /// Encodes the change from `old_content` to `new_content`: no events when
    /// the contents are equal; exactly one full snapshot when the new content
    /// is small (under `FULL_CONTENT_LIMIT` characters); the greedy sequence
    /// of positional edits otherwise. Applying the events in order to
    /// `old_content` always reproduces `new_content`.
    pub fn encode(file_id: &str, old_content: &str, new_content: &str) -> (events: Vec<FileChange>)
        ensures
            spec_apply_all(events@, old_content@) == new_content@,
            old_content@ == new_content@ <==> events@.len() == 0,
            new_content@.len() < FULL_CONTENT_LIMIT && old_content@ != new_content@
                ==> events@.len() == 1 && spec_is_full_for(events@[0], file_id@, new_content@),
            new_content@.len() >= FULL_CONTENT_LIMIT ==> spec_models(events@) == spec_scan(
                file_id@,
                old_content@,
                new_content@,
                0,
                0,
            ),
            forall|t: int| 0 <= t < events@.len() ==> spec_for_file(#[trigger] events@[t], file_id@),
            forall|t: int| 0 <= t < events@.len() ==> spec_change_nonempty(#[trigger] events@[t]),
    {
        if str_eq(old_content, new_content) {
            let events: Vec<FileChange> = Vec::new();
            proof {
                assert(spec_apply_all(events@, old_content@) == old_content@);
                lemma_scan_equal(file_id@, new_content@, 0);
                assert(spec_models(events@) =~= Seq::<ChangeModel>::empty());
            }
            events
        } else if new_content.unicode_len() < FULL_CONTENT_LIMIT {
            let mut events: Vec<FileChange> = Vec::new();
            let ev = FileChange::FullContent {
                file_id: file_id.to_owned(),
                content: new_content.to_owned(),
            };
            proof {
                lemma_apply_all_push(events@, ev, old_content@);
                assert(spec_apply_all(events@, old_content@) == old_content@);
            }
            events.push(ev);
            events
        } else {
            let changes: Vec<FileChange> = FileChange::create_diff(
                file_id,
                old_content,
                new_content,
            );
            proof {
                assert(forall|t: int|
                    0 <= t < changes@.len() ==> spec_for_file(#[trigger] changes@[t], file_id@));
            }
            changes
        }
    }
}

} // verus!
