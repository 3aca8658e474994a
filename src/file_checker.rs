//! Where a record's attachment lives on disk, what probing those places
//! found, per-group statistics, and which paths a cleaning run removes.
use vstd::prelude::*;
use vstd::string::*;

use crate::calendar::{month_dir_of, time_dir};
use crate::app::{is_stable_sort, sort_with_marks, SortBy};
use crate::models::{total_size_of, FileInfo, GroupInfo, GroupStats};
use crate::time_range::TimeRange;

verus! {

/// The position of the last `.` in `s`, if any.
pub open spec fn last_dot(s: Seq<char>) -> Option<int>
    decreases s.len(),
{
    if s.len() == 0 {
        None
    } else if s.last() == '.' {
        Some(s.len() - 1)
    } else {
        last_dot(s.drop_last())
    }
}

/// `name` with `suffix` inserted before its extension, or appended when it
/// has none (`a.jpg` becomes `a_0.jpg`).
pub open spec fn with_suffix(name: Seq<char>, suffix: Seq<char>) -> Seq<char> {
    match last_dot(name) {
        Some(p) => name.take(p) + suffix + name.skip(p),
        None => name + suffix,
    }
}

/// `name` inside directory `dir`.
pub open spec fn join(dir: Seq<char>, name: Seq<char>) -> Seq<char> {
    dir + seq!['/'] + name
}

/// The places an attachment may occupy under `root`: the original under
/// `<month>/Ori/`, and two thumbnails under `<month>/Thumb/`.
pub open spec fn candidate_paths_of(root: Seq<char>, name: Seq<char>, secs: i64) -> Seq<Seq<char>> {
    let base = join(root, month_dir_of(secs));
    seq![
        join(join(base, "Ori"@), name),
        join(join(base, "Thumb"@), with_suffix(name, "_0"@)),
        join(join(base, "Thumb"@), with_suffix(name, "_720"@)),
    ]
}

/// The texts of a sequence of strings.
pub open spec fn texts(v: Seq<String>) -> Seq<Seq<char>> {
    v.map_values(|p: String| p@)
}

/// The sum of the sizes that probing found.
pub open spec fn probe_total(sizes: Seq<Option<u64>>) -> nat
    decreases sizes.len(),
{
    if sizes.len() == 0 {
        0
    } else {
        probe_total(sizes.drop_last()) + match sizes.last() {
            Some(n) => n as nat,
            None => 0,
        }
    }
}

/// The resolved size from what probing found: `None` when nothing was found
/// (a total of zero), the total otherwise, held at `u64::MAX`.
pub open spec fn resolved_size(sizes: Seq<Option<u64>>) -> Option<u64> {
    let t = probe_total(sizes);
    if t == 0 {
        None
    } else if t > u64::MAX {
        Some(u64::MAX)
    } else {
        Some(t as u64)
    }
}

/// A record after resolution: a record without a file name is never found.
pub open spec fn resolve(f: FileInfo, sizes: Seq<Option<u64>>) -> FileInfo {
    if f.file_name@.len() == 0 {
        f.resized(None)
    } else {
        f.resized(resolved_size(sizes))
    }
}

pub open spec fn resolve_all(files: Seq<FileInfo>, sizes: Seq<Vec<Option<u64>>>) -> Seq<FileInfo> {
    Seq::new(files.len(), |i: int| resolve(files[i], sizes[i]@))
}

/// The name shown for a group: its recorded name, or a label made from the key.
pub open spec fn group_name_of(group_id: Seq<char>, groups: Seq<GroupInfo>) -> Seq<char>
    decreases groups.len(),
{
    if groups.len() == 0 {
        "群 "@ + group_id
    } else if groups[0].group_id@ == group_id {
        groups[0].group_name@
    } else {
        group_name_of(group_id, groups.skip(1))
    }
}

/// Whether a cleaning run with this window, at `now`, touches a record.
pub open spec fn clean_eligible(f: FileInfo, range: Option<TimeRange>, now: int) -> bool {
    &&& f.file_name@.len() > 0
    &&& match range {
        Some(r) => r.covers(now, f.msg_time as int),
        None => true,
    }
}

/// What removing one path came to.
#[derive(Debug, Clone, Copy, PartialEq, Eq, Structural)]
pub enum RemoveOutcome {
    Removed,
    NotFound,
    Failed,
}

pub open spec fn count_removed(o: Seq<RemoveOutcome>) -> nat
    decreases o.len(),
{
    if o.len() == 0 {
        0
    } else {
        count_removed(o.drop_last()) + if o.last() == RemoveOutcome::Removed {
            1nat
        } else {
            0nat
        }
    }
}

pub open spec fn count_failed(o: Seq<RemoveOutcome>) -> nat
    decreases o.len(),
{
    if o.len() == 0 {
        0
    } else {
        count_failed(o.drop_last()) + if o.last() == RemoveOutcome::Failed {
            1nat
        } else {
            0nat
        }
    }
}

proof fn lemma_counts_bounded(o: Seq<RemoveOutcome>)
    ensures
        count_removed(o) <= o.len(),
        count_failed(o) <= o.len(),
    decreases o.len(),
{
    if o.len() > 0 {
        lemma_counts_bounded(o.drop_last());
    }
}

/// Probes and cleans the attachment tree of one account.
pub struct FileChecker {
    qq_data_dir: String,
}

impl FileChecker {
    /// The root of the attachment tree.
    pub closed spec fn root(&self) -> Seq<char> {
        self.qq_data_dir@
    }

    /// The paths to probe for a record: none when it has no file name.
    pub open spec fn probe_plan(&self, f: FileInfo) -> Seq<Seq<char>> {
        if f.file_name@.len() == 0 {
            seq![]
        } else {
            candidate_paths_of(self.root(), f.file_name@, f.msg_time)
        }
    }

    /// The paths a cleaning run removes, record by record in order.
    pub open spec fn clean_plan(&self, files: Seq<FileInfo>, range: Option<TimeRange>, now: int) -> Seq<
        Seq<char>,
    >
        decreases files.len(),
    {
        if files.len() == 0 {
            seq![]
        } else {
            self.clean_plan(files.drop_last(), range, now) + if clean_eligible(
                files.last(),
                range,
                now,
            ) {
                candidate_paths_of(self.root(), files.last().file_name@, files.last().msg_time)
            } else {
                seq![]
            }
        }
    }

    pub fn new(qq_data_dir: String) -> (r: FileChecker)
        ensures
            r.root() == qq_data_dir@,
    {
        FileChecker { qq_data_dir }
    }

    /// The two thumbnail names of a file: `_0` and `_720` before the extension.
    pub fn get_thumb_filenames(filename: &str) -> (r: Vec<String>)
        ensures
            r@.len() == 2,
            texts(r@) == seq![with_suffix(filename@, "_0"@), with_suffix(filename@, "_720"@)],
    {
        let a = suffixed(filename, "_0");
        let b = suffixed(filename, "_720");
        let r = vec![a, b];
        assert(texts(r@) =~= seq![with_suffix(filename@, "_0"@), with_suffix(filename@, "_720"@)]);
        r
    }

    /// The original and thumbnail paths of a record.
    pub fn candidate_paths(&self, file_name: &str, msg_time: i64) -> (r: Vec<String>)
        ensures
            r@.len() == 3,
            texts(r@) == candidate_paths_of(self.root(), file_name@, msg_time),
    {
        let month = time_dir(msg_time);
        let base = join_path(self.qq_data_dir.as_str(), month.as_str());
        let ori_dir = join_path(base.as_str(), "Ori");
        let thumb_dir = join_path(base.as_str(), "Thumb");
        let ori = join_path(ori_dir.as_str(), file_name);
        let thumbs = Self::get_thumb_filenames(file_name);
        let t0 = join_path(thumb_dir.as_str(), thumbs[0].as_str());
        let t1 = join_path(thumb_dir.as_str(), thumbs[1].as_str());
        assert(texts(thumbs@)[0] == thumbs@[0]@);
        assert(texts(thumbs@)[1] == thumbs@[1]@);
        let r = vec![ori, t0, t1];
        assert(texts(r@) =~= candidate_paths_of(self.root(), file_name@, msg_time));
        r
    }

    /// The paths to probe for one record.
    pub fn probe_paths(&self, file: &FileInfo) -> (r: Vec<String>)
        ensures
            texts(r@) == self.probe_plan(*file),
    {
        if file.file_name.as_str().unicode_len() == 0 {
            let r: Vec<String> = Vec::new();
            assert(texts(r@) =~= self.probe_plan(*file));
            r
        } else {
            self.candidate_paths(file.file_name.as_str(), file.msg_time)
        }
    }

    /// Sets each record's resolved size from the sizes that probing its paths
    /// found (`None` for a path that is missing or unreadable). `sizes[i]`
    /// belongs to `files[i]`.
    pub fn check_files_exist_with_size(
        &self,
        files: &Vec<FileInfo>,
        sizes: &Vec<Vec<Option<u64>>>,
    ) -> (r: Vec<FileInfo>)
        requires
            sizes@.len() == files@.len(),
        ensures
            r@ == resolve_all(files@, sizes@),
    {
        let mut out: Vec<FileInfo> = Vec::new();
        let mut i: usize = 0;
        while i < files.len()
            invariant
                i <= files@.len(),
                sizes@.len() == files@.len(),
                out@ =~= resolve_all(files@, sizes@).take(i as int),
            decreases files@.len() - i,
        {
            let f = &files[i];
            let size = if f.file_name.as_str().unicode_len() == 0 {
                None
            } else {
                size_from_probes(&sizes[i])
            };
            out.push(f.with_actual_size(size));
            i = i + 1;
        }
        assert(resolve_all(files@, sizes@).take(i as int) =~= resolve_all(files@, sizes@));
        out
    }

    /// Recomputes one group's statistics after its files have been probed
    /// again. Returns false, leaving `stats` as it was, exactly when the new
    /// total does not fit in 64 bits.
    pub fn update_group_stats(&self, stats: &mut GroupStats, sizes: &Vec<Vec<Option<u64>>>) -> (ok:
        bool)
        requires
            sizes@.len() == old(stats).files@.len(),
        ensures
            ok <==> total_size_of(resolve_all(old(stats).files@, sizes@)) <= u64::MAX,
            ok ==> final(stats).summarizes(
                old(stats).group_id@,
                old(stats).group_name@,
                resolve_all(old(stats).files@, sizes@),
            ),
            !ok ==> *final(stats) == *old(stats),
    {
        let files = self.check_files_exist_with_size(&stats.files, sizes);
        let id = stats.group_id.clone();
        let name = stats.group_name.clone();
        match GroupStats::from_files(id, name, files) {
            Some(g) => {
                *stats = g;
                true
            },
            None => false,
        }
    }

    /// The paths that cleaning `files` removes at time `now`: every candidate
    /// path of each record that has a file name and lies in the window.
    pub fn deletion_plan_at(&self, files: &Vec<FileInfo>, time_range: Option<TimeRange>, now: i64) -> (r:
        Vec<String>)
        ensures
            texts(r@) == self.clean_plan(files@, time_range, now as int),
    {
        let mut plan: Vec<String> = Vec::new();
        let mut i: usize = 0;
        while i < files.len()
            invariant
                i <= files@.len(),
                texts(plan@) == self.clean_plan(files@.take(i as int), time_range, now as int),
            decreases files@.len() - i,
        {
            let f = &files[i];
            let in_window = match time_range {
                Some(r) => r.should_delete_at(now, f.msg_time),
                None => true,
            };
            let ghost before = plan@;
            assert(files@.take(i as int + 1).drop_last() =~= files@.take(i as int));
            if f.file_name.as_str().unicode_len() > 0 && in_window {
                let mut more = self.candidate_paths(f.file_name.as_str(), f.msg_time);
                let ghost added = more@;
                plan.append(&mut more);
                assert(texts(plan@) =~= texts(before) + texts(added));
            }
            i = i + 1;
        }
        assert(files@.take(i as int) =~= files@);
        plan
    }

    /// The paths that cleaning a group removes now.
    pub fn deletion_plan(&self, stats: &GroupStats, time_range: Option<TimeRange>) -> (r: Vec<String>)
        ensures
            exists|now: i64| texts(r@) == self.clean_plan(stats.files@, time_range, now as int),
    {
        let now = crate::calendar::now_timestamp();
        self.deletion_plan_at(&stats.files, time_range, now)
    }
}

/// The counts of a cleaning run: paths removed, and paths that existed but
/// could not be removed. A path that was not there counts as neither.
pub fn tally_deletions(outcomes: &Vec<RemoveOutcome>) -> (r: (usize, usize))
    ensures
        r.0 == count_removed(outcomes@),
        r.1 == count_failed(outcomes@),
{
    let mut deleted: usize = 0;
    let mut failed: usize = 0;
    let mut i: usize = 0;
    while i < outcomes.len()
        invariant
            i <= outcomes@.len(),
            deleted == count_removed(outcomes@.take(i as int)),
            failed == count_failed(outcomes@.take(i as int)),
        decreases outcomes@.len() - i,
    {
        proof {
            assert(outcomes@.take(i as int + 1).drop_last() =~= outcomes@.take(i as int));
            lemma_counts_bounded(outcomes@.take(i as int));
        }
        match outcomes[i] {
            RemoveOutcome::Removed => deleted = deleted + 1,
            RemoveOutcome::Failed => failed = failed + 1,
            RemoveOutcome::NotFound => {},
        }
        i = i + 1;
    }
    assert(outcomes@.take(i as int) =~= outcomes@);
    (deleted, failed)
}

/// The resolved size from the sizes found at a record's paths.
pub fn size_from_probes(sizes: &Vec<Option<u64>>) -> (r: Option<u64>)
    ensures
        r == resolved_size(sizes@),
{
    let mut total: u64 = 0;
    let mut i: usize = 0;
    while i < sizes.len()
        invariant
            i <= sizes@.len(),
            total as nat == if probe_total(sizes@.take(i as int)) > u64::MAX {
                u64::MAX as nat
            } else {
                probe_total(sizes@.take(i as int))
            },
        decreases sizes@.len() - i,
    {
        assert(sizes@.take(i as int + 1).drop_last() =~= sizes@.take(i as int));
        if let Some(n) = sizes[i] {
            total = total.saturating_add(n);
        }
        i = i + 1;
    }
    assert(sizes@.take(i as int) =~= sizes@);
    if total == 0 {
        None
    } else {
        Some(total)
    }
}

/// The name shown for a group, looked up among the recorded groups.
pub fn display_name(group_id: &String, groups: &Vec<GroupInfo>) -> (r: String)
    ensures
        r@ == group_name_of(group_id@, groups@),
{
    let mut i: usize = 0;
    assert(groups@.skip(0) =~= groups@);
    while i < groups.len()
        invariant
            i <= groups@.len(),
            group_name_of(group_id@, groups@.skip(i as int)) == group_name_of(group_id@, groups@),
        decreases groups@.len() - i,
    {
        if groups[i].group_id == *group_id {
            return groups[i].group_name.clone();
        }
        assert(groups@.skip(i as int).skip(1) =~= groups@.skip(i as int + 1));
        i = i + 1;
    }
    let mut s = String::from_str("群 ");
    s.append(group_id.as_str());
    s
}

/// `name` inside directory `dir`.
fn join_path(dir: &str, name: &str) -> (r: String)
    ensures
        r@ == join(dir@, name@),
{
    let mut s = String::from_str(dir);
    proof {
        reveal_strlit("/");
    }
    s.append("/");
    s.append(name);
    assert(s@ =~= join(dir@, name@));
    s
}

/// The position of the last `.` in `s`.
fn rfind_dot(s: &str) -> (r: Option<usize>)
    ensures
        r matches Some(p) ==> last_dot(s@) == Some(p as int),
        r is None ==> last_dot(s@) is None,
{
    let n = s.unicode_len();
    let mut i: usize = n;
    assert(s@.take(n as int) =~= s@);
    while i > 0
        invariant
            i <= s@.len(),
            last_dot(s@.take(i as int)) == last_dot(s@),
        decreases i,
    {
        let c = s.get_char(i - 1);
        assert(s@.take(i as int).drop_last() =~= s@.take(i as int - 1));
        if c == '.' {
            return Some(i - 1);
        }
        i = i - 1;
    }
    None
}

/// `name` with `suffix` before its extension.
fn suffixed(name: &str, suffix: &str) -> (r: String)
    ensures
        r@ == with_suffix(name@, suffix@),
{
    match rfind_dot(name) {
        Some(p) => {
            proof {
                lemma_last_dot_in_range(name@);
            }
            let mut s = String::from_str(name.substring_char(0, p));
            s.append(suffix);
            s.append(name.substring_char(p, name.unicode_len()));
            assert(s@ =~= with_suffix(name@, suffix@));
            s
        },
        None => {
            let mut s = String::from_str(name);
            s.append(suffix);
            s
        },
    }
}

proof fn lemma_last_dot_in_range(s: Seq<char>)
    ensures
        last_dot(s) matches Some(p) ==> 0 <= p < s.len(),
    decreases s.len(),
{
    if s.len() > 0 {
        lemma_last_dot_in_range(s.drop_last());
    }
}

/// The chat type of a group conversation.
pub const GROUP_CHAT: i64 = 2;

/// The group keys of the group-conversation records, in order of first appearance.
pub open spec fn group_keys(files: Seq<FileInfo>) -> Seq<Seq<char>>
    decreases files.len(),
{
    if files.len() == 0 {
        seq![]
    } else {
        let keys = group_keys(files.drop_last());
        let f = files.last();
        if f.chat_type == GROUP_CHAT && !keys.contains(f.peer_uid@) {
            keys.push(f.peer_uid@)
        } else {
            keys
        }
    }
}

/// The group-conversation records of the group `key`, in input order.
pub open spec fn records_of(files: Seq<FileInfo>, key: Seq<char>) -> Seq<FileInfo>
    decreases files.len(),
{
    if files.len() == 0 {
        seq![]
    } else {
        let rest = records_of(files.drop_last(), key);
        let f = files.last();
        if f.chat_type == GROUP_CHAT && f.peer_uid@ == key {
            rest.push(f)
        } else {
            rest
        }
    }
}

/// The records of group conversations, partitioned by group key: one entry
/// per key in order of first appearance, each holding that group's records in
/// input order. Records of other conversations are left out.
pub fn group_files_by_peer(files: &Vec<FileInfo>) -> (r: Vec<(String, Vec<FileInfo>)>)
    ensures
        r@.len() == group_keys(files@).len(),
        forall|j: int|
            0 <= j < r@.len() ==> (#[trigger] r@[j]).0@ == group_keys(files@)[j] && r@[j].1@
                == records_of(files@, group_keys(files@)[j]),
        forall|a: int, b: int| 0 <= a < b < r@.len() ==> (#[trigger] r@[a]).0@ != (#[trigger] r@[b]).0@,
{
    let mut out: Vec<(String, Vec<FileInfo>)> = Vec::new();
    let mut i: usize = 0;
    while i < files.len()
        invariant
            i <= files@.len(),
            out@.len() == group_keys(files@.take(i as int)).len(),
            forall|j: int|
                0 <= j < out@.len() ==> (#[trigger] out@[j]).0@ == group_keys(files@.take(i as int))[j]
                    && out@[j].1@ == records_of(files@.take(i as int), group_keys(files@.take(i as int))[j]),
            forall|a: int, b: int|
                0 <= a < b < out@.len() ==> #[trigger] group_keys(files@.take(i as int))[a]
                    != #[trigger] group_keys(files@.take(i as int))[b],
        decreases files@.len() - i,
    {
        let ghost pre = files@.take(i as int);
        let ghost post = files@.take(i as int + 1);
        assert(post.drop_last() =~= pre);
        let f = &files[i];
        assert(post.last() == *f);
        if f.chat_type == GROUP_CHAT {
            let mut j: usize = 0;
            let mut found: bool = false;
            while j < out.len() && !found
                invariant
                    j <= out@.len(),
                    found ==> j < out@.len() && out@[j as int].0@ == f.peer_uid@,
                    !found ==> forall|m: int| 0 <= m < j ==> (#[trigger] out@[m]).0@ != f.peer_uid@,
                decreases out@.len() - j + if found {
                    0int
                } else {
                    1int
                },
            {
                if out[j].0 == f.peer_uid {
                    found = true;
                } else {
                    j = j + 1;
                }
            }
            let copy = f.with_actual_size(f.actual_size);
            assert(copy == *f);
            if found {
                let ghost key = group_keys(pre)[j as int];
                let ghost old_out = out@;
                assert(group_keys(pre).contains(f.peer_uid@)) by {
                    assert(group_keys(pre)[j as int] == f.peer_uid@);
                }
                assert(group_keys(post) == group_keys(pre));
                let (k, mut v) = out.remove(j);
                v.push(copy);
                out.insert(j, (k, v));
                assert(out@ =~= old_out.update(j as int, (k, v)));
                assert(records_of(post, key) == records_of(pre, key).push(*f));
                assert forall|m: int| 0 <= m < out@.len() implies (#[trigger] out@[m]).0@ == group_keys(
                    post,
                )[m] && out@[m].1@ == records_of(post, group_keys(post)[m]) by {
                    if m != j as int {
                        assert(group_keys(pre)[m] != group_keys(pre)[j as int]);
                        assert(records_of(post, group_keys(pre)[m]) == records_of(pre, group_keys(pre)[m]));
                    }
                }
            } else {
                assert(!group_keys(pre).contains(f.peer_uid@)) by {
                    if group_keys(pre).contains(f.peer_uid@) {
                        let w = choose|w: int| 0 <= w < group_keys(pre).len() && group_keys(pre)[w] == f.peer_uid@;
                        assert(out@[w].0@ == f.peer_uid@);
                    }
                }
                assert(group_keys(post) == group_keys(pre).push(f.peer_uid@));
                let ghost old_out = out@;
                assert forall|a: int, b: int|
                    0 <= a < b < group_keys(post).len() implies #[trigger] group_keys(post)[a]
                        != #[trigger] group_keys(post)[b] by {
                    if b == group_keys(pre).len() {
                        assert(group_keys(pre)[a] == old_out[a].0@);
                    }
                }
                out.push((f.peer_uid.clone(), vec![copy]));
                assert forall|m: int| 0 <= m < out@.len() implies (#[trigger] out@[m]).0@ == group_keys(
                    post,
                )[m] && out@[m].1@ == records_of(post, group_keys(post)[m]) by {
                    if m < old_out.len() {
                        assert(out@[m] == old_out[m]);
                        assert(group_keys(pre)[m] != f.peer_uid@);
                        assert(records_of(post, group_keys(pre)[m]) == records_of(pre, group_keys(pre)[m]));
                    } else {
                        assert(records_of(pre, f.peer_uid@) =~= seq![]) by {
                            lemma_records_of_absent_key(pre, f.peer_uid@);
                        }
                        assert(out@[m].1@ =~= seq![copy]);
                    }
                }
            }
        } else {
            assert(group_keys(post) == group_keys(pre));
            assert forall|m: int| 0 <= m < out@.len() implies records_of(post, #[trigger] group_keys(post)[m])
                == records_of(pre, group_keys(pre)[m]) by {}
        }
        i = i + 1;
    }
    assert(files@.take(i as int) =~= files@);
    assert forall|a: int, b: int| 0 <= a < b < out@.len() implies (#[trigger] out@[a]).0@ != (
    #[trigger] out@[b]).0@ by {
        assert(group_keys(files@)[a] != group_keys(files@)[b]);
    }
    out
}

/// A key that is not among the group keys has no records.
proof fn lemma_records_of_absent_key(files: Seq<FileInfo>, key: Seq<char>)
    requires
        !group_keys(files).contains(key),
    ensures
        records_of(files, key).len() == 0,
    decreases files.len(),
{
    if files.len() > 0 {
        let keys = group_keys(files.drop_last());
        let f = files.last();
        if keys.contains(key) {
            let w = choose|w: int| 0 <= w < keys.len() && keys[w] == key;
            assert(group_keys(files)[w] == key);
            assert(group_keys(files).contains(key));
        }
        if f.chat_type == GROUP_CHAT && f.peer_uid@ == key {
            assert(group_keys(files) == keys.push(key));
            assert(group_keys(files)[keys.len() as int] == key);
            assert(group_keys(files).contains(key));
        }
        lemma_records_of_absent_key(files.drop_last(), key);
    }
}

/// What generating the statistics of `group_files` yields, before ordering:
/// each partition resolved from its probe sizes and summarized under its name.
pub open spec fn summarizes_all(
    u: Seq<GroupStats>,
    group_files: Seq<(String, Vec<FileInfo>)>,
    sizes: Seq<Vec<Vec<Option<u64>>>>,
    groups: Seq<GroupInfo>,
) -> bool {
    &&& u.len() == group_files.len()
    &&& forall|i: int|
        0 <= i < u.len() ==> (#[trigger] u[i]).summarizes(
            group_files[i].0@,
            group_name_of(group_files[i].0@, groups),
            resolve_all(group_files[i].1@, sizes[i]@),
        )
}

impl FileChecker {
    /// The statistics of every group, largest total first (groups of equal
    /// total keep their input order). Each partition's records are resolved
    /// from the sizes that probing their paths found. `None` exactly when some
    /// group's total does not fit in 64 bits.
    pub fn generate_group_stats(
        &self,
        group_files: Vec<(String, Vec<FileInfo>)>,
        sizes: &Vec<Vec<Vec<Option<u64>>>>,
        groups: &Vec<GroupInfo>,
    ) -> (r: Option<Vec<GroupStats>>)
        requires
            sizes@.len() == group_files@.len(),
            forall|i: int|
                0 <= i < sizes@.len() ==> (#[trigger] sizes@[i])@.len() == group_files@[i].1@.len(),
        ensures
            r is Some <==> forall|i: int|
                0 <= i < group_files@.len() ==> total_size_of(
                    resolve_all(group_files@[i].1@, #[trigger] sizes@[i]@),
                ) <= u64::MAX,
            r matches Some(v) ==> exists|u: Seq<GroupStats>|
                #[trigger] summarizes_all(u, group_files@, sizes@, groups@) && is_stable_sort(
                    v@,
                    u,
                    SortBy::Size,
                ),
    {
        let mut stats: Vec<GroupStats> = Vec::new();
        let mut i: usize = 0;
        while i < group_files.len()
            invariant
                i <= group_files@.len(),
                sizes@.len() == group_files@.len(),
                forall|k: int|
                    0 <= k < sizes@.len() ==> (#[trigger] sizes@[k])@.len() == group_files@[k].1@.len(),
                stats@.len() == i,
                forall|k: int|
                    0 <= k < i ==> (#[trigger] stats@[k]).summarizes(
                        group_files@[k].0@,
                        group_name_of(group_files@[k].0@, groups@),
                        resolve_all(group_files@[k].1@, sizes@[k]@),
                    ),
                forall|k: int|
                    0 <= k < i ==> total_size_of(resolve_all(group_files@[k].1@, #[trigger] sizes@[k]@))
                        <= u64::MAX,
            decreases group_files@.len() - i,
        {
            let files = self.check_files_exist_with_size(&group_files[i].1, &sizes[i]);
            let id = group_files[i].0.clone();
            let name = display_name(&group_files[i].0, groups);
            match GroupStats::from_files(id, name, files) {
                Some(g) => stats.push(g),
                None => {
                    return None;
                },
            }
            i = i + 1;
        }
        let ghost u = stats@;
        assert(summarizes_all(u, group_files@, sizes@, groups@));
        let n = stats.len();
        let (sorted, _marks) = sort_with_marks(stats, vec![false; n], SortBy::Size);
        assert(summarizes_all(u, group_files@, sizes@, groups@) && is_stable_sort(sorted@, u, SortBy::Size));
        Some(sorted)
    }
}

/// Every group that aggregation yields keeps its counters in agreement with
/// its records: each record is existing or missing, and the total size is the
/// sum of the resolved sizes.
pub proof fn lemma_generated_stats_agree(
    v: Seq<GroupStats>,
    u: Seq<GroupStats>,
    group_files: Seq<(String, Vec<FileInfo>)>,
    sizes: Seq<Vec<Vec<Option<u64>>>>,
    groups: Seq<GroupInfo>,
)
    requires
        summarizes_all(u, group_files, sizes, groups),
        is_stable_sort(v, u, SortBy::Size),
    ensures
        forall|i: int|
            0 <= i < v.len() ==> (#[trigger] v[i]).file_count == v[i].exist_count + v[i].missing_count
                && v[i].total_size == total_size_of(v[i].files@),
{
    let p = choose|p: Seq<int>| crate::app::stable_sort_with(p, v, u, SortBy::Size);
    assert forall|i: int| 0 <= i < v.len() implies (#[trigger] v[i]).file_count == v[i].exist_count
        + v[i].missing_count && v[i].total_size == total_size_of(v[i].files@) by {
        assert(0 <= p[i] < u.len());
        assert(v[i] == u[p[i]]);
        assert(u[p[i]].wf());
    }
}

/// What removing `p` comes to on a file system holding exactly `present`,
/// where every removal of an existing path succeeds.
pub open spec fn removal_on(present: Set<Seq<char>>, p: Seq<char>) -> RemoveOutcome {
    if present.contains(p) {
        RemoveOutcome::Removed
    } else {
        RemoveOutcome::NotFound
    }
}

pub open spec fn removals_on(present: Set<Seq<char>>, plan: Seq<Seq<char>>) -> Seq<RemoveOutcome> {
    plan.map_values(|p: Seq<char>| removal_on(present, p))
}

/// A record without a file name is never probed, and resolves to no size
/// whatever the probes report.
pub proof fn lemma_nameless_record_unprobed(
    checker: FileChecker,
    f: FileInfo,
    sizes: Seq<Option<u64>>,
)
    requires
        f.file_name@.len() == 0,
    ensures
        checker.probe_plan(f).len() == 0,
        resolve(f, sizes).actual_size is None,
{
}

proof fn lemma_clean_plan_covered(
    checker: FileChecker,
    files: Seq<FileInfo>,
    range: Option<TimeRange>,
    now1: int,
    now2: int,
    p: Seq<char>,
)
    requires
        forall|i: int|
            0 <= i < files.len() && #[trigger] clean_eligible(files[i], range, now2)
                ==> clean_eligible(files[i], range, now1),
        checker.clean_plan(files, range, now2).contains(p),
    ensures
        checker.clean_plan(files, range, now1).contains(p),
    decreases files.len(),
{
    let head2 = checker.clean_plan(files.drop_last(), range, now2);
    let head1 = checker.clean_plan(files.drop_last(), range, now1);
    let whole2 = checker.clean_plan(files, range, now2);
    let whole1 = checker.clean_plan(files, range, now1);
    let k = choose|k: int| 0 <= k < whole2.len() && whole2[k] == p;
    if k < head2.len() {
        assert forall|i: int|
            0 <= i < files.drop_last().len() && #[trigger] clean_eligible(
                files.drop_last()[i],
                range,
                now2,
            ) implies clean_eligible(files.drop_last()[i], range, now1) by {
            assert(files.drop_last()[i] == files[i]);
        }
        assert(head2[k] == p);
        lemma_clean_plan_covered(checker, files.drop_last(), range, now1, now2, p);
        let m = choose|m: int| 0 <= m < head1.len() && head1[m] == p;
        assert(whole1[m] == p);
    } else {
        let last = files.last();
        assert(clean_eligible(last, range, now2));
        assert(clean_eligible(files[files.len() - 1], range, now1));
        assert(whole1[head1.len() + (k - head2.len())] == p);
    }
}

proof fn lemma_nothing_found_counts_nothing(o: Seq<RemoveOutcome>)
    requires
        forall|i: int| 0 <= i < o.len() ==> o[i] == RemoveOutcome::NotFound,
    ensures
        count_removed(o) == 0,
        count_failed(o) == 0,
    decreases o.len(),
{
    if o.len() > 0 {
        lemma_nothing_found_counts_nothing(o.drop_last());
    }
}

/// Cleaning twice without probing again finds nothing the second time: once
/// a run has removed every path it planned, a second run whose window holds
/// no record the first did not removes nothing and fails nothing.
pub proof fn lemma_second_clean_finds_nothing(
    checker: FileChecker,
    files: Seq<FileInfo>,
    range: Option<TimeRange>,
    now1: int,
    now2: int,
    present: Set<Seq<char>>,
)
    requires
        forall|i: int|
            0 <= i < files.len() && #[trigger] clean_eligible(files[i], range, now2)
                ==> clean_eligible(files[i], range, now1),
    ensures
        ({
            let after = present.difference(checker.clean_plan(files, range, now1).to_set());
            let second = removals_on(after, checker.clean_plan(files, range, now2));
            count_removed(second) == 0 && count_failed(second) == 0
        }),
{
    let first = checker.clean_plan(files, range, now1);
    let plan2 = checker.clean_plan(files, range, now2);
    let after = present.difference(first.to_set());
    let second = removals_on(after, plan2);
    assert forall|i: int| 0 <= i < second.len() implies second[i] == RemoveOutcome::NotFound by {
        let p = plan2[i];
        assert(plan2.contains(p));
        lemma_clean_plan_covered(checker, files, range, now1, now2, p);
        assert(first.to_set().contains(p));
    }
    lemma_nothing_found_counts_nothing(second);
}

} // verus!
