//! The debounced watcher's decision logic: classifying and filtering raw
//! notifications, matching affected paths against the watched target's file
//! name, the per-path debounce window, and turning an accepted snapshot into
//! events against the last known content.
//!
//! Reading the watched file itself is I/O and stays outside the library; the
//! freshly read snapshot is handed in as a plain string.

use vstd::prelude::*;
use vstd::string::*;
use vstd::hash_map::StringHashMap;
use crate::codec::FileChange;
use crate::codec::spec_apply_all;
use crate::codec::spec_is_full_for;
use crate::codec::spec_for_file;
use crate::codec::spec_models;
use crate::codec::spec_scan;
use crate::codec::str_eq;
use crate::FULL_CONTENT_LIMIT;

verus! {

/// Debounce window in milliseconds: a second accepted event for the same
/// path within this window is dropped.
pub const DEBOUNCE_MS: u64 = 25;

/// The kind of a filesystem notification, as the watcher classifies it.
#[derive(Debug, Clone, Copy, PartialEq, Eq, Structural)]
pub enum EventKind {
    /// The file was only read.
    Access,
    /// The file was created.
    Create,
    /// The file's content changed.
    ModifyContent,
    /// Only metadata (permissions, timestamps) changed.
    ModifyMetadata,
    /// The file was removed.
    Remove,
    /// An unclassified notification.
    Other,
}

/// Whether a notification of kind `kind` is dropped outright: access-only,
/// metadata-only and unclassified notifications never carry a content
/// change.
pub open spec fn spec_filtered(kind: EventKind) -> bool {
    match kind {
        EventKind::Access => true,
        EventKind::ModifyMetadata => true,
        EventKind::Other => true,
        EventKind::Create => false,
        EventKind::ModifyContent => false,
        EventKind::Remove => false,
    }
}

/// Drops access-only, metadata-only and unclassified notifications.
pub fn should_filter_event(kind: &EventKind) -> (filtered: bool)
    ensures
        filtered == spec_filtered(*kind),
{
    match kind {
        EventKind::Access => true,
        EventKind::ModifyMetadata => true,
        EventKind::Other => true,
        EventKind::Create => false,
        EventKind::ModifyContent => false,
        EventKind::Remove => false,
    }
}

/// The index where the file name of `path` begins: one past the last `/`
/// separator, or `0` when there is none.
pub open spec fn spec_filename_start(path: Seq<char>) -> int
    decreases path.len(),
{
    if path.len() == 0 {
        0
    } else if path[path.len() - 1] == '/' {
        path.len() as int
    } else {
        spec_filename_start(path.drop_last())
    }
}

/// `path` with its trailing `/` separators removed.
pub open spec fn spec_trim_slashes(path: Seq<char>) -> Seq<char>
    decreases path.len(),
{
    if path.len() > 0 && path[path.len() - 1] == '/' {
        spec_trim_slashes(path.drop_last())
    } else {
        path
    }
}

/// Trimming removes exactly the trailing separators: what stays is a
/// prefix that does not end in one, and everything removed was one.
pub proof fn lemma_trim_slashes(path: Seq<char>)
    ensures
        spec_trim_slashes(path).len() <= path.len(),
        spec_trim_slashes(path) == path.take(spec_trim_slashes(path).len() as int),
        spec_trim_slashes(path).len() > 0 ==> path[spec_trim_slashes(path).len() - 1] != '/',
        forall|t: int| spec_trim_slashes(path).len() <= t < path.len() ==> path[t] == '/',
    decreases path.len(),
{
    if path.len() > 0 && path[path.len() - 1] == '/' {
        lemma_trim_slashes(path.drop_last());
        assert(path.drop_last() =~= path.take(path.len() - 1));
        assert(path.take(path.len() - 1).take(spec_trim_slashes(path).len() as int)
            =~= path.take(spec_trim_slashes(path).len() as int));
        assert forall|t: int|
            spec_trim_slashes(path).len() <= t < path.len() implies path[t] == '/' by {
            if t < path.len() - 1 {
                assert(path.drop_last()[t] == path[t]);
            }
        }
    } else {
        assert(path.take(path.len() as int) =~= path);
    }
}

/// The file name of `path`: its suffix after the last `/` separator, with
/// trailing separators ignored (so `a/b/` names `b`, as the surrounding
/// platform's path handling does).
pub open spec fn spec_filename(path: Seq<char>) -> Seq<char> {
    spec_trim_slashes(path).skip(spec_filename_start(spec_trim_slashes(path)))
}

/// The file name starts right after a separator (or at the front), and no
/// separator follows it.
pub proof fn lemma_filename_start(path: Seq<char>)
    ensures
        0 <= spec_filename_start(path) <= path.len(),
        spec_filename_start(path) > 0 ==> path[spec_filename_start(path) - 1] == '/',
        forall|t: int| spec_filename_start(path) <= t < path.len() ==> path[t] != '/',
    decreases path.len(),
{
    if path.len() == 0 {
    } else if path[path.len() - 1] == '/' {
    } else {
        lemma_filename_start(path.drop_last());
        assert(forall|t: int|
            0 <= t < path.len() - 1 ==> path.drop_last()[t] == path[t]);
    }
}

/// How long `s` is once its trailing `/` separators are removed.
fn trimmed_len(s: &str) -> (e: usize)
    ensures
        e <= s@.len(),
        e as int == spec_trim_slashes(s@).len(),
        spec_trim_slashes(s@) == s@.take(e as int),
{
    let len: usize = s.unicode_len();
    let mut e: usize = len;
    while e > 0
        invariant
            e <= len,
            len == s@.len(),
            forall|t: int| e <= t < len ==> s@[t] == '/',
        decreases e,
    {
        if s.get_char(e - 1) != '/' {
            proof {
                lemma_trim_slashes(s@);
                let l: nat = spec_trim_slashes(s@).len();
                if l < e {
                    assert(s@[e - 1] == '/');
                }
                if l > e {
                    assert(s@[l - 1] != '/');
                    assert(s@[l - 1] == '/');
                }
            }
            return e;
        }
        e = e - 1;
    }
    proof {
        lemma_trim_slashes(s@);
        let l: nat = spec_trim_slashes(s@).len();
        if l > 0 {
            assert(s@[l - 1] != '/');
            assert(s@[l - 1] == '/');
        }
    }
    0
}

/// The file name of a path: the suffix after the last `/` separator, with
/// trailing separators ignored; the whole path when it holds no separator.
pub fn extract_filename(file_id: &str) -> (name: String)
    ensures
        name@ == spec_filename(file_id@),
{
    let e: usize = trimmed_len(file_id);
    let ghost trimmed = spec_trim_slashes(file_id@);
    let mut m: usize = e;
    while m > 0
        invariant
            m <= e,
            e <= file_id@.len(),
            e as int == trimmed.len(),
            trimmed == spec_trim_slashes(file_id@),
            trimmed == file_id@.take(e as int),
            forall|t: int| m <= t < e ==> file_id@[t] != '/',
        decreases m,
    {
        if file_id.get_char(m - 1) == '/' {
            proof {
                lemma_filename_start(trimmed);
                let s: int = spec_filename_start(trimmed);
                if s < m {
                    assert(trimmed[m - 1] != '/');
                    assert(trimmed[m - 1] == file_id@[m - 1]);
                }
                if s > m {
                    assert(trimmed[s - 1] == '/');
                    assert(trimmed[s - 1] == file_id@[s - 1]);
                }
                assert(file_id@.subrange(m as int, e as int) =~= trimmed.skip(m as int));
            }
            return file_id.substring_char(m, e).to_owned();
        }
        m = m - 1;
    }
    proof {
        lemma_filename_start(trimmed);
        let s: int = spec_filename_start(trimmed);
        if s > 0 {
            assert(trimmed[s - 1] == '/');
            assert(trimmed[s - 1] == file_id@[s - 1]);
        }
        assert(file_id@.subrange(0, e as int) =~= trimmed.skip(0));
    }
    file_id.substring_char(0, e).to_owned()
}

/// Keeps the affected paths whose file name equals the watched target's file
/// name: a notification from the parent directory's registration may name
/// unrelated siblings, which are dropped here.
pub fn filter_relevant_paths(paths: &Vec<String>, target_filename: &str) -> (relevant: Vec<
    String,
>)
    ensures
        relevant@ == paths@.filter(
            |p: String| spec_filename(p@) == target_filename@,
        ),
{
    let ghost pred = |p: String| spec_filename(p@) == target_filename@;
    let mut relevant: Vec<String> = Vec::new();
    let mut idx: usize = 0;
    proof {
        reveal(Seq::filter);
        assert(paths@.take(0).filter(pred) =~= Seq::<String>::empty());
    }
    while idx < paths.len()
        invariant
            idx <= paths@.len(),
            relevant@ == paths@.take(idx as int).filter(
                |p: String| spec_filename(p@) == target_filename@,
            ),
        decreases paths@.len() - idx,
    {
        let name: String = extract_filename(paths[idx].as_str());
        if str_eq(name.as_str(), target_filename) {
            relevant.push(paths[idx].clone());
        }
        proof {
            reveal(Seq::filter);
            assert(paths@.take(idx as int + 1).drop_last() =~= paths@.take(idx as int));
            assert(paths@.take(idx as int + 1).last() == paths@[idx as int]);
        }
        idx = idx + 1;
    }
    proof {
        assert(paths@.take(paths@.len() as int) =~= paths@);
    }
    relevant
}

/// Whether an event for `path` at time `now_ms` passes the debounce window,
/// given the per-path last-processed times.
pub open spec fn spec_debounce_accepts(
    times: Map<Seq<char>, u64>,
    path: Seq<char>,
    now_ms: u64,
) -> bool {
    !times.contains_key(path) || now_ms - times[path] >= DEBOUNCE_MS
}

/// The one watched target: its identity, its last-known content snapshot,
/// and the per-path debounce clock.
pub struct WatchTarget {
    /// The watched file's identity on the wire.
    pub file_id: String,
    /// The last content snapshot that produced events.
    pub last_content: String,
    /// The last-processed time (in milliseconds) of each accepted path.
    pub debounce: StringHashMap<u64>,
}

impl WatchTarget {
    /// A fresh target: no snapshot yet, no path processed yet.
    pub fn new(file_id: String) -> (target: Self)
        ensures
            target.file_id == file_id,
            target.last_content@ == Seq::<char>::empty(),
            target.debounce@ == Map::<Seq<char>, u64>::empty(),
    {
        WatchTarget { file_id, last_content: String::new(), debounce: StringHashMap::new() }
    }

    /// Debounce: an event for `path` is accepted only when no earlier event
    /// for the same path was accepted within the last `DEBOUNCE_MS`
    /// milliseconds; accepting updates the path's last-processed time to
    /// `now_ms`, rejecting changes nothing.
    pub fn should_process_path(&mut self, path: &str, now_ms: u64) -> (accepted: bool)
        ensures
            accepted == spec_debounce_accepts(old(self).debounce@, path@, now_ms),
            accepted ==> final(self).debounce@ == old(self).debounce@.insert(path@, now_ms),
            !accepted ==> *final(self) == *old(self),
            final(self).file_id == old(self).file_id,
            final(self).last_content == old(self).last_content,
    {
        let previous: Option<&u64> = self.debounce.get(path);
        match previous {
            Option::Some(last) => {
                let last: u64 = *last;
                if now_ms < last || now_ms - last < DEBOUNCE_MS {
                    return false;
                }
            },
            Option::None => {},
        }
        self.debounce.insert(path.to_owned(), now_ms);
        true
    }

    /// Decides what one freshly read snapshot produces: nothing when it
    /// equals the last known snapshot; otherwise the encoded events, with
    /// the snapshot becoming the last known content. The events applied in
    /// order to the previous snapshot reproduce the new one; a small new
    /// snapshot (under `FULL_CONTENT_LIMIT` characters) is sent whole as a
    /// single full-content event.
    pub fn detect_file_changes(&mut self, new_content: &str) -> (produced: Option<
        Vec<FileChange>,
    >)
        ensures
            produced is None <==> old(self).last_content@ == new_content@,
            produced is None ==> *final(self) == *old(self),
            produced matches Some(events) ==> {
                &&& final(self).last_content@ == new_content@
                &&& final(self).file_id == old(self).file_id
                &&& final(self).debounce == old(self).debounce
                &&& spec_apply_all(events@, old(self).last_content@) == new_content@
                &&& events@.len() > 0
                &&& (new_content@.len() < FULL_CONTENT_LIMIT ==> events@.len() == 1
                    && spec_is_full_for(events@[0], old(self).file_id@, new_content@))
                &&& (new_content@.len() >= FULL_CONTENT_LIMIT ==> spec_models(events@)
                    == spec_scan(
                    old(self).file_id@,
                    old(self).last_content@,
                    new_content@,
                    0,
                    0,
                ))
                &&& (forall|t: int|
                    0 <= t < events@.len() ==> spec_for_file(
                        #[trigger] events@[t],
                        old(self).file_id@,
                    ))
            },
    {
        let events: Vec<FileChange> = FileChange::encode(
            self.file_id.as_str(),
            self.last_content.as_str(),
            new_content,
        );
        if events.len() == 0 {
            Option::None
        } else {
            self.last_content = new_content.to_owned();
            Option::Some(events)
        }
    }
}

} // verus!
