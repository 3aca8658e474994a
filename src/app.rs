//! The state behind the interface: the group list in its current order, the
//! filtered view over it, the selection, the time window and the dialogs.
use core::cmp::Ordering;
use vstd::prelude::*;
use vstd::string::*;

use crate::calendar::now_timestamp;
use crate::models::{size_or_zero, FileInfo, GroupStats};
use crate::text::{decimal, push_decimal};
use crate::time_range::{cutoff, TimeRange};

verus! {

#[derive(Debug, Clone, Copy, PartialEq, Eq, Structural)]
pub enum AppTab {
    Analysis,
    Clean,
    Migrate,
}

pub open spec fn tab_of(index: int) -> AppTab {
    if index == 1 {
        AppTab::Clean
    } else if index == 2 {
        AppTab::Migrate
    } else {
        AppTab::Analysis
    }
}

pub open spec fn tab_index(tab: AppTab) -> int {
    match tab {
        AppTab::Analysis => 0,
        AppTab::Clean => 1,
        AppTab::Migrate => 2,
    }
}

impl AppTab {
    pub fn titles() -> (r: Vec<&'static str>)
        ensures
            r@.len() == 3,
            r@[0]@ == "分析"@,
            r@[1]@ == "清理"@,
            r@[2]@ == "迁移"@,
    {
        vec!["分析", "清理", "迁移"]
    }

    /// The tab at a position; any position past the last gives the first tab.
    pub fn from_index(index: usize) -> (r: AppTab)
        ensures
            r == tab_of(index as int),
    {
        if index == 1 {
            AppTab::Clean
        } else if index == 2 {
            AppTab::Migrate
        } else {
            AppTab::Analysis
        }
    }

    pub fn index(&self) -> (r: usize)
        ensures
            r == tab_index(*self),
    {
        match self {
            AppTab::Analysis => 0,
            AppTab::Clean => 1,
            AppTab::Migrate => 2,
        }
    }
}

/// The order of the group list.
#[derive(Debug, Clone, Copy, PartialEq, Eq, Structural)]
pub enum SortBy {
    /// Largest total size first.
    Size,
    /// Most existing files first.
    FileCount,
    /// By name, in code point order.
    Name,
}

impl SortBy {
    /// The order that follows this one: size, then existing files, then name.
    pub fn next(&self) -> (r: SortBy)
        ensures
            r == match *self {
                SortBy::Size => SortBy::FileCount,
                SortBy::FileCount => SortBy::Name,
                SortBy::Name => SortBy::Size,
            },
    {
        match self {
            SortBy::Size => SortBy::FileCount,
            SortBy::FileCount => SortBy::Name,
            SortBy::Name => SortBy::Size,
        }
    }
}

/// A condition on when a group last received an attachment.
#[derive(Debug, Clone, Copy, PartialEq, Eq, Structural)]
pub enum ActivityFilter {
    All,
    /// Received one within the last so many days.
    Active(i64),
    /// Received none within the last so many days.
    Inactive(i64),
}

#[derive(Debug, Clone, Copy, PartialEq, Eq, Structural)]
pub struct GroupFilter {
    pub min_size: u64,
    pub min_file_count: usize,
    pub hide_empty: bool,
    pub activity: ActivityFilter,
}

impl Default for GroupFilter {
    fn default() -> (r: GroupFilter)
        ensures
            r == (GroupFilter {
                min_size: 0,
                min_file_count: 0,
                hide_empty: true,
                activity: ActivityFilter::All,
            }),
    {
        GroupFilter { min_size: 0, min_file_count: 0, hide_empty: true, activity: ActivityFilter::All }
    }
}

#[derive(Debug, Clone, Copy, PartialEq, Eq, Structural)]
pub enum LogLevel {
    Info,
    Success,
    Warning,
    Error,
}

impl LogLevel {
    pub open spec fn label_of(self) -> Seq<char> {
        match self {
            LogLevel::Info => "INFO"@,
            LogLevel::Success => "OK"@,
            LogLevel::Warning => "WARN"@,
            LogLevel::Error => "ERR"@,
        }
    }

    /// The tag that marks a line of this level in the log file.
    pub fn label(&self) -> (r: &'static str)
        ensures
            r@ == self.label_of(),
    {
        match self {
            LogLevel::Info => "INFO",
            LogLevel::Success => "OK",
            LogLevel::Warning => "WARN",
            LogLevel::Error => "ERR",
        }
    }
}

/// A log line waiting to be written.
#[derive(Debug, Clone)]
pub struct LogEntry {
    pub level: LogLevel,
    pub message: String,
}

#[derive(Debug, Clone)]
pub struct OperationProgress {
    pub total: usize,
    pub current: usize,
    pub current_file: String,
    pub is_running: bool,
}

impl Default for OperationProgress {
    fn default() -> (r: OperationProgress)
        ensures
            r.total == 0,
            r.current == 0,
            r.current_file@.len() == 0,
            !r.is_running,
    {
        OperationProgress { total: 0, current: 0, current_file: String::new(), is_running: false }
    }
}

#[derive(Debug, Clone, Copy, PartialEq, Eq, Structural)]
pub enum ConfirmAction {
    Clean,
    Migrate,
}

/// The kind of a run over the selected groups.
#[derive(Debug, Clone, Copy, PartialEq, Eq, Structural)]
pub enum BatchKind {
    Clean,
    Migrate { delete_after_migrate: bool },
}

/// How the work on one group of a run ended.
#[derive(Debug, Clone, Copy, PartialEq, Eq, Structural)]
pub enum GroupRunResult {
    /// The group's files were processed: so many paths done, so many failed.
    Finished { succeeded: usize, failed: usize },
    /// The group's setup (its target directory) failed; nothing was done.
    SetupFailed,
}

impl GroupRunResult {
    pub open spec fn level_of(self) -> LogLevel {
        match self {
            GroupRunResult::Finished { failed, .. } => if failed > 0 {
                LogLevel::Warning
            } else {
                LogLevel::Success
            },
            GroupRunResult::SetupFailed => LogLevel::Error,
        }
    }

    /// The level at which a group's result is logged: an error for a failed
    /// setup, a warning when some path failed, success otherwise.
    pub fn level(&self) -> (r: LogLevel)
        ensures
            r == self.level_of(),
    {
        match self {
            GroupRunResult::Finished { failed, .. } => if *failed > 0 {
                LogLevel::Warning
            } else {
                LogLevel::Success
            },
            GroupRunResult::SetupFailed => LogLevel::Error,
        }
    }
}

/// Whether a group's statistics must be recomputed after its part of a run:
/// when files were removed from it, that is, cleaned, or migrated with their
/// sources deleted.
pub open spec fn needs_refresh(kind: BatchKind, res: GroupRunResult) -> bool {
    match res {
        GroupRunResult::SetupFailed => false,
        GroupRunResult::Finished { succeeded, .. } => succeeded > 0 && match kind {
            BatchKind::Clean => true,
            BatchKind::Migrate { delete_after_migrate } => delete_after_migrate,
        },
    }
}

/// The selected positions of the list, ascending; a mark past the end of the
/// list selects nothing.
pub open spec fn selected_positions(sel: Seq<bool>, n: nat) -> Seq<usize>
    decreases sel.len(),
{
    if sel.len() == 0 {
        seq![]
    } else {
        let rest = selected_positions(sel.drop_last(), n);
        if sel.last() && sel.len() - 1 < n {
            rest.push((sel.len() - 1) as usize)
        } else {
            rest
        }
    }
}

/// The records of the group at `idx`, none past the end of the list.
pub open spec fn file_count_at(stats: Seq<GroupStats>, idx: int) -> nat {
    if 0 <= idx < stats.len() {
        stats[idx].file_count as nat
    } else {
        0
    }
}

/// The records of the groups at `targets`.
pub open spec fn targets_file_count(stats: Seq<GroupStats>, targets: Seq<usize>) -> nat
    decreases targets.len(),
{
    if targets.len() == 0 {
        0
    } else {
        targets_file_count(stats, targets.drop_last()) + file_count_at(stats, targets.last() as int)
    }
}

/// `n` held at `usize::MAX`.
pub open spec fn capped_count(n: nat) -> nat {
    if n > usize::MAX {
        usize::MAX as nat
    } else {
        n
    }
}

pub open spec fn batch_start_text(kind: BatchKind, n: nat) -> Seq<char> {
    match kind {
        BatchKind::Clean => "开始清理 "@ + decimal(n) + " 个群组"@,
        BatchKind::Migrate { .. } => "开始迁移 "@ + decimal(n) + " 个群组"@,
    }
}

pub open spec fn batch_end_text(kind: BatchKind) -> Seq<char> {
    match kind {
        BatchKind::Clean => "清理操作完成"@,
        BatchKind::Migrate { .. } => "迁移操作完成"@,
    }
}

/// The latest message time among `files`, 0 when there are none.
pub open spec fn latest_time(files: Seq<FileInfo>) -> int
    decreases files.len(),
{
    if files.len() == 0 {
        0
    } else if files.len() == 1 {
        files[0].msg_time as int
    } else {
        let rest = latest_time(files.drop_last());
        let t = files.last().msg_time as int;
        if t > rest {
            t
        } else {
            rest
        }
    }
}

pub open spec fn activity_passes(activity: ActivityFilter, latest: int, now: int) -> bool {
    match activity {
        ActivityFilter::All => true,
        ActivityFilter::Active(days) => latest >= cutoff(now, days as int),
        ActivityFilter::Inactive(days) => latest < cutoff(now, days as int),
    }
}

/// Whether a group is shown under `filter` at time `now`.
pub open spec fn passes(g: GroupStats, filter: GroupFilter, now: int) -> bool {
    &&& (filter.hide_empty ==> g.exist_count > 0)
    &&& g.total_size >= filter.min_size
    &&& g.file_count >= filter.min_file_count
    &&& activity_passes(filter.activity, latest_time(g.files@), now)
}

/// The positions of the groups shown under `filter`, in list order.
pub open spec fn filtered_indices(stats: Seq<GroupStats>, filter: GroupFilter, now: int) -> Seq<usize>
    decreases stats.len(),
{
    if stats.len() == 0 {
        seq![]
    } else {
        let rest = filtered_indices(stats.drop_last(), filter, now);
        if passes(stats.last(), filter, now) {
            rest.push((stats.len() - 1) as usize)
        } else {
            rest
        }
    }
}

/// A cursor kept inside a view of `len` entries.
pub open spec fn clamped(index: usize, len: nat) -> usize {
    if index >= len {
        if len > 0 {
            (len - 1) as usize
        } else {
            0
        }
    } else {
        index
    }
}

/// `n` held at `u64::MAX`.
pub open spec fn capped(n: nat) -> nat {
    if n > u64::MAX {
        u64::MAX as nat
    } else {
        n
    }
}

/// The resolved bytes of the records in the window.
pub open spec fn size_in_range(files: Seq<FileInfo>, range: TimeRange, now: int) -> nat
    decreases files.len(),
{
    if files.len() == 0 {
        0
    } else {
        size_in_range(files.drop_last(), range, now) + if range.covers(
            now,
            files.last().msg_time as int,
        ) {
            size_or_zero(files.last())
        } else {
            0
        }
    }
}

/// How many resolved records lie in the window.
pub open spec fn exist_count_in_range(files: Seq<FileInfo>, range: TimeRange, now: int) -> nat
    decreases files.len(),
{
    if files.len() == 0 {
        0
    } else {
        exist_count_in_range(files.drop_last(), range, now) + if range.covers(
            now,
            files.last().msg_time as int,
        ) && files.last().actual_size is Some {
            1nat
        } else {
            0nat
        }
    }
}

/// How many records lie in the window.
pub open spec fn file_count_in_range(files: Seq<FileInfo>, range: TimeRange, now: int) -> nat
    decreases files.len(),
{
    if files.len() == 0 {
        0
    } else {
        file_count_in_range(files.drop_last(), range, now) + if range.covers(
            now,
            files.last().msg_time as int,
        ) {
            1nat
        } else {
            0nat
        }
    }
}

/// How many groups are selected.
pub open spec fn selected_count_of(sel: Seq<bool>) -> nat
    decreases sel.len(),
{
    if sel.len() == 0 {
        0
    } else {
        selected_count_of(sel.drop_last()) + if sel.last() {
            1nat
        } else {
            0nat
        }
    }
}

/// The total size of the selected groups; a mark past the end of the list
/// counts for nothing.
pub open spec fn selected_size_of(sel: Seq<bool>, stats: Seq<GroupStats>) -> nat
    decreases sel.len(),
{
    if sel.len() == 0 {
        0
    } else {
        let k = sel.len() - 1;
        selected_size_of(sel.drop_last(), stats) + if sel.last() && k < stats.len() {
            stats[k].total_size as nat
        } else {
            0
        }
    }
}

/// The bytes in the window over the selected groups.
pub open spec fn selected_range_size_of(
    sel: Seq<bool>,
    stats: Seq<GroupStats>,
    range: TimeRange,
    now: int,
) -> nat
    decreases sel.len(),
{
    if sel.len() == 0 {
        0
    } else {
        let k = sel.len() - 1;
        selected_range_size_of(sel.drop_last(), stats, range, now) + if sel.last() && k
            < stats.len() {
            size_in_range(stats[k].files@, range, now)
        } else {
            0
        }
    }
}

/// The next option of the activity condition in the filter dialog.
pub open spec fn next_activity(a: ActivityFilter) -> ActivityFilter {
    match a {
        ActivityFilter::All => ActivityFilter::Active(7),
        ActivityFilter::Active(d) => if d == 7 {
            ActivityFilter::Active(30)
        } else if d == 30 {
            ActivityFilter::Active(90)
        } else {
            ActivityFilter::Inactive(7)
        },
        ActivityFilter::Inactive(d) => if d == 7 {
            ActivityFilter::Inactive(30)
        } else if d == 30 {
            ActivityFilter::Inactive(90)
        } else {
            ActivityFilter::All
        },
    }
}

/// `a` comes no later than `b` in code point order.
pub open spec fn text_le(a: Seq<char>, b: Seq<char>) -> bool
    decreases a.len(),
{
    if a.len() == 0 {
        true
    } else if b.len() == 0 {
        false
    } else if a[0] != b[0] {
        (a[0] as u32) < (b[0] as u32)
    } else {
        text_le(a.skip(1), b.skip(1))
    }
}

/// `a` may stand before `b` in the list ordered by `by`.
pub open spec fn sort_le(a: GroupStats, b: GroupStats, by: SortBy) -> bool {
    match by {
        SortBy::Size => a.total_size >= b.total_size,
        SortBy::FileCount => a.exist_count >= b.exist_count,
        SortBy::Name => text_le(a.group_name@, b.group_name@),
    }
}

/// `out` is `inp` rearranged by the permutation `p`, in order by `by`, with
/// groups of equal key left in their relative order.
pub open spec fn stable_sort_with(
    p: Seq<int>,
    out: Seq<GroupStats>,
    inp: Seq<GroupStats>,
    by: SortBy,
) -> bool {
    &&& p.len() == inp.len()
    &&& out.len() == inp.len()
    &&& forall|i: int| 0 <= i < p.len() ==> 0 <= #[trigger] p[i] < inp.len() && out[i] == inp[p[i]]
    &&& forall|i: int, j: int| 0 <= i < j < p.len() ==> #[trigger] p[i] != #[trigger] p[j]
    &&& forall|i: int, j: int|
        0 <= i < j < out.len() ==> sort_le(#[trigger] out[i], #[trigger] out[j], by) && (sort_le(
            out[j],
            out[i],
            by,
        ) ==> p[i] < p[j])
}

pub open spec fn is_stable_sort(out: Seq<GroupStats>, inp: Seq<GroupStats>, by: SortBy) -> bool {
    exists|p: Seq<int>| stable_sort_with(p, out, inp, by)
}

/// Compares two texts in code point order.
fn compare_text(a: &str, b: &str) -> (r: Ordering)
    ensures
        (r == Ordering::Less) == (text_le(a@, b@) && !text_le(b@, a@)),
        (r == Ordering::Equal) == (text_le(a@, b@) && text_le(b@, a@)),
        (r == Ordering::Greater) == !text_le(a@, b@),
{
    let n = a.unicode_len();
    let m = b.unicode_len();
    let mut i: usize = 0;
    assert(a@.skip(0) =~= a@ && b@.skip(0) =~= b@);
    while i < n && i < m
        invariant
            i <= n == a@.len(),
            i <= m == b@.len(),
            text_le(a@, b@) == text_le(a@.skip(i as int), b@.skip(i as int)),
            text_le(b@, a@) == text_le(b@.skip(i as int), a@.skip(i as int)),
        decreases n - i,
    {
        let x = a.get_char(i);
        let y = b.get_char(i);
        assert(a@.skip(i as int)[0] == x && b@.skip(i as int)[0] == y);
        if x != y {
            if (x as u32) < (y as u32) {
                return Ordering::Less;
            } else {
                return Ordering::Greater;
            }
        }
        assert(a@.skip(i as int).skip(1) =~= a@.skip(i as int + 1));
        assert(b@.skip(i as int).skip(1) =~= b@.skip(i as int + 1));
        i = i + 1;
    }
    if n == m {
        Ordering::Equal
    } else if i == n {
        Ordering::Less
    } else {
        Ordering::Greater
    }
}

/// Compares two groups under the list order `by`.
pub fn compare_stats(a: &GroupStats, b: &GroupStats, by: SortBy) -> (r: Ordering)
    ensures
        (r == Ordering::Less) == (sort_le(*a, *b, by) && !sort_le(*b, *a, by)),
        (r == Ordering::Equal) == (sort_le(*a, *b, by) && sort_le(*b, *a, by)),
        (r == Ordering::Greater) == !sort_le(*a, *b, by),
{
    match by {
        SortBy::Size => if a.total_size > b.total_size {
            Ordering::Less
        } else if a.total_size == b.total_size {
            Ordering::Equal
        } else {
            Ordering::Greater
        },
        SortBy::FileCount => if a.exist_count > b.exist_count {
            Ordering::Less
        } else if a.exist_count == b.exist_count {
            Ordering::Equal
        } else {
            Ordering::Greater
        },
        SortBy::Name => compare_text(a.group_name.as_str(), b.group_name.as_str()),
    }
}

/// The groups of a sequence of (group, mark) pairs.
pub open spec fn firsts(v: Seq<(GroupStats, bool)>) -> Seq<GroupStats> {
    v.map_values(|e: (GroupStats, bool)| e.0)
}

/// The marks `out` are the marks `inp` rearranged by the permutation `p`.
pub open spec fn marks_follow(p: Seq<int>, out: Seq<bool>, inp: Seq<bool>) -> bool {
    &&& out.len() == p.len()
    &&& forall|i: int| 0 <= i < p.len() ==> #[trigger] out[i] == inp[p[i]]
}

/// Relies on `slice::sort_by`, which sorts stably: the result is a
/// permutation of the input, ordered by the comparison `compare_stats` gives
/// on the groups, with pairs that compare equal kept in their original order.
#[verifier::external_body]
fn stable_sort(v: &mut Vec<(GroupStats, bool)>, by: SortBy)
    ensures
        exists|p: Seq<int>|
            #[trigger] stable_sort_with(p, firsts(final(v)@), firsts(old(v)@), by) && forall|i: int|
                0 <= i < p.len() ==> final(v)@[i].1 == old(v)@[p[i]].1,
{
    v.sort_by(|a, b| compare_stats(&a.0, &b.0, by))
}

/// Sorts groups stably by `by`, carrying each group's mark along with it.
pub(crate) fn sort_with_marks(stats: Vec<GroupStats>, marks: Vec<bool>, by: SortBy) -> (r: (
    Vec<GroupStats>,
    Vec<bool>,
))
    requires
        stats@.len() == marks@.len(),
    ensures
        exists|p: Seq<int>|
            #[trigger] stable_sort_with(p, r.0@, stats@, by) && marks_follow(p, r.1@, marks@),
{
    let ghost s0 = stats@;
    let ghost m0 = marks@;
    let mut rest = stats;
    let mut rest_marks = marks;
    let mut pairs: Vec<(GroupStats, bool)> = Vec::new();
    while rest.len() > 0
        invariant
            s0.len() == m0.len(),
            pairs@.len() <= s0.len(),
            rest@ == s0.skip(pairs@.len() as int),
            rest_marks@ == m0.skip(pairs@.len() as int),
            forall|k: int| 0 <= k < pairs@.len() ==> #[trigger] pairs@[k] == (s0[k], m0[k]),
        decreases rest@.len(),
    {
        let ghost n = pairs@.len() as int;
        let g = rest.remove(0);
        let m = rest_marks.remove(0);
        pairs.push((g, m));
        assert(rest@ =~= s0.skip(n + 1));
        assert(rest_marks@ =~= m0.skip(n + 1));
    }
    assert(firsts(pairs@) =~= s0);
    let ghost before = pairs@;
    stable_sort(&mut pairs, by);
    let ghost sorted = pairs@;
    let ghost p = choose|p: Seq<int>|
        #[trigger] stable_sort_with(p, firsts(sorted), firsts(before), by) && forall|i: int|
            0 <= i < p.len() ==> sorted[i].1 == before[p[i]].1;
    let mut out_stats: Vec<GroupStats> = Vec::new();
    let mut out_marks: Vec<bool> = Vec::new();
    while pairs.len() > 0
        invariant
            out_stats@.len() == out_marks@.len(),
            out_stats@.len() <= sorted.len(),
            pairs@ == sorted.skip(out_stats@.len() as int),
            forall|k: int|
                0 <= k < out_stats@.len() ==> #[trigger] out_stats@[k] == sorted[k].0 && out_marks@[k]
                    == sorted[k].1,
        decreases pairs@.len(),
    {
        let ghost n = out_stats@.len() as int;
        assert(pairs@[0] == sorted[n]);
        let (g, m) = pairs.remove(0);
        assert(g == sorted[n].0);
        assert(m == sorted[n].1);
        out_stats.push(g);
        out_marks.push(m);
        assert(out_stats@[n] == sorted[n].0);
        assert(pairs@ =~= sorted.skip(n + 1));
    }
    assert(out_stats@ =~= firsts(sorted));
    assert(pairs@.len() == 0);
    assert forall|i: int| 0 <= i < p.len() implies #[trigger] out_marks@[i] == m0[p[i]] by {
        assert(0 <= p[i] < before.len());
        assert(before[p[i]] == (s0[p[i]], m0[p[i]]));
        assert(out_marks@[i] == sorted[i].1);
    }
    assert(marks_follow(p, out_marks@, m0));
    assert(stable_sort_with(p, out_stats@, s0, by));
    let r = (out_stats, out_marks);
    assert(stable_sort_with(p, r.0@, s0, by) && marks_follow(p, r.1@, m0));
    r
}

/// Whether a group is shown under `filter` at time `now`.
pub fn group_passes(g: &GroupStats, filter: &GroupFilter, now: i64) -> (r: bool)
    ensures
        r == passes(*g, *filter, now as int),
{
    if filter.hide_empty && g.exist_count == 0 {
        return false;
    }
    if g.total_size < filter.min_size {
        return false;
    }
    if g.file_count < filter.min_file_count {
        return false;
    }
    match filter.activity {
        ActivityFilter::All => true,
        ActivityFilter::Active(days) => {
            let latest = latest_of(&g.files);
            (latest as i128) >= cutoff_at(now, days)
        },
        ActivityFilter::Inactive(days) => {
            let latest = latest_of(&g.files);
            (latest as i128) < cutoff_at(now, days)
        },
    }
}

fn cutoff_at(now: i64, days: i64) -> (r: i128)
    ensures
        r == cutoff(now as int, days as int),
{
    let d: i128 = days as i128;
    assert(-0x8000_0000_0000_0000 * 86400 <= d * 86400 <= 0x7fff_ffff_ffff_ffff * 86400)
        by (nonlinear_arith)
        requires
            -0x8000_0000_0000_0000 <= d <= 0x7fff_ffff_ffff_ffff,
    ;
    now as i128 - d * 86400
}

fn latest_of(files: &Vec<FileInfo>) -> (r: i64)
    ensures
        r == latest_time(files@),
{
    if files.len() == 0 {
        return 0;
    }
    let mut latest: i64 = files[0].msg_time;
    let mut i: usize = 1;
    assert(files@.take(1).drop_last() =~= files@.take(0));
    while i < files.len()
        invariant
            1 <= i <= files@.len(),
            latest == latest_time(files@.take(i as int)),
        decreases files@.len() - i,
    {
        assert(files@.take(i as int + 1).drop_last() =~= files@.take(i as int));
        if files[i].msg_time > latest {
            latest = files[i].msg_time;
        }
        i = i + 1;
    }
    assert(files@.take(i as int) =~= files@);
    latest
}

/// The positions of the groups of `stats` shown under `filter` at `now`.
pub fn filter_indices(stats: &Vec<GroupStats>, filter: &GroupFilter, now: i64) -> (r: Vec<usize>)
    ensures
        r@ == filtered_indices(stats@, *filter, now as int),
{
    let mut out: Vec<usize> = Vec::new();
    let mut i: usize = 0;
    while i < stats.len()
        invariant
            i <= stats@.len(),
            out@ == filtered_indices(stats@.take(i as int), *filter, now as int),
        decreases stats@.len() - i,
    {
        assert(stats@.take(i as int + 1).drop_last() =~= stats@.take(i as int));
        if group_passes(&stats[i], filter, now) {
            out.push(i);
        }
        i = i + 1;
    }
    assert(stats@.take(i as int) =~= stats@);
    out
}

/// The bytes of `files` in the window at `now`, held at `u64::MAX`.
pub fn size_in_range_at(files: &Vec<FileInfo>, range: &TimeRange, now: i64) -> (r: u64)
    ensures
        r as nat == capped(size_in_range(files@, *range, now as int)),
{
    let mut total: u64 = 0;
    let mut i: usize = 0;
    while i < files.len()
        invariant
            i <= files@.len(),
            total as nat == capped(size_in_range(files@.take(i as int), *range, now as int)),
        decreases files@.len() - i,
    {
        assert(files@.take(i as int + 1).drop_last() =~= files@.take(i as int));
        if range.should_delete_at(now, files[i].msg_time) {
            if let Some(n) = files[i].actual_size {
                total = total.saturating_add(n);
            }
        }
        i = i + 1;
    }
    assert(files@.take(i as int) =~= files@);
    total
}

/// The bytes in the window over the groups at `indices`; an index past the
/// end of the list counts for nothing, and a repeated one counts again.
pub open spec fn indices_range_size(
    stats: Seq<GroupStats>,
    indices: Seq<usize>,
    range: TimeRange,
    now: int,
) -> nat
    decreases indices.len(),
{
    if indices.len() == 0 {
        0
    } else {
        let k = indices.last() as int;
        indices_range_size(stats, indices.drop_last(), range, now) + if k < stats.len() {
            size_in_range(stats[k].files@, range, now)
        } else {
            0
        }
    }
}

/// The bytes that cleaning the groups at `indices` with window `range` would
/// free at `now`, held at `u64::MAX`.
pub fn calculate_deletable_size(
    stats: &Vec<GroupStats>,
    selected_indices: &Vec<usize>,
    time_range: &TimeRange,
    now: i64,
) -> (r: u64)
    ensures
        r as nat == capped(indices_range_size(stats@, selected_indices@, *time_range, now as int)),
{
    let mut total: u64 = 0;
    let mut i: usize = 0;
    while i < selected_indices.len()
        invariant
            i <= selected_indices@.len(),
            total as nat == capped(
                indices_range_size(stats@, selected_indices@.take(i as int), *time_range, now as int),
            ),
        decreases selected_indices@.len() - i,
    {
        assert(selected_indices@.take(i as int + 1).drop_last() =~= selected_indices@.take(i as int));
        let k = selected_indices[i];
        if k < stats.len() {
            let part = size_in_range_at(&stats[k].files, time_range, now);
            total = total.saturating_add(part);
        }
        i = i + 1;
    }
    assert(selected_indices@.take(i as int) =~= selected_indices@);
    total
}

/// The sequence of pending log lines after one more.
pub open spec fn logged(before: Seq<LogEntry>, after: Seq<LogEntry>, level: LogLevel, message: Seq<char>) -> bool {
    &&& after.len() == before.len() + 1
    &&& after.take(before.len() as int) == before
    &&& after.last().level == level
    &&& after.last().message@ == message
}

/// Raising the minimum size or the minimum file count never enlarges the
/// filtered view: every position shown under the stricter filter is shown
/// under the looser one, and there are no more of them.
pub proof fn lemma_raising_minimums_never_enlarges(
    stats: Seq<GroupStats>,
    loose: GroupFilter,
    strict: GroupFilter,
    now: int,
)
    requires
        strict.hide_empty == loose.hide_empty,
        strict.activity == loose.activity,
        strict.min_size >= loose.min_size,
        strict.min_file_count >= loose.min_file_count,
    ensures
        forall|k: usize|
            #[trigger] filtered_indices(stats, strict, now).contains(k) ==> filtered_indices(
                stats,
                loose,
                now,
            ).contains(k),
        filtered_indices(stats, strict, now).len() <= filtered_indices(stats, loose, now).len(),
    decreases stats.len(),
{
    if stats.len() > 0 {
        lemma_raising_minimums_never_enlarges(stats.drop_last(), loose, strict, now);
        let s0 = filtered_indices(stats.drop_last(), strict, now);
        let l0 = filtered_indices(stats.drop_last(), loose, now);
        let s1 = filtered_indices(stats, strict, now);
        let l1 = filtered_indices(stats, loose, now);
        assert forall|k: usize| #[trigger] s1.contains(k) implies l1.contains(k) by {
            let w = choose|w: int| 0 <= w < s1.len() && s1[w] == k;
            if w < s0.len() {
                assert(s0[w] == k);
                assert(s0.contains(k));
                let v = choose|v: int| 0 <= v < l0.len() && l0[v] == k;
                assert(l1[v] == k);
            } else {
                assert(passes(stats.last(), loose, now));
                assert(l1[l1.len() - 1] == k);
            }
        }
    }
}

pub struct App {
    pub should_quit: bool,
    pub current_tab: AppTab,
    /// The groups, in the current list order.
    pub stats: Vec<GroupStats>,
    /// Positions in `stats` of the groups shown.
    pub filtered_stats: Vec<usize>,
    /// Cursor into `filtered_stats`.
    pub selected_index: usize,
    /// One mark per position in `stats`.
    pub selected_groups: Vec<bool>,
    pub sort_by: SortBy,
    pub filter: GroupFilter,
    pub time_range: TimeRange,
    pub progress: OperationProgress,
    pub migrate_target_path: String,
    pub migrate_presets: Vec<String>,
    pub migrate_path_index: usize,
    pub show_help: bool,
    pub show_filter_dialog: bool,
    pub show_confirm_dialog: bool,
    pub confirm_action: Option<ConfirmAction>,
    pub temp_migrate_keep_original: bool,
    pub temp_filter: GroupFilter,
    pub filter_cursor: usize,
    /// Log lines not yet written out.
    pub logs: Vec<LogEntry>,
}

impl App {
    /// One selection mark per group, and the migration target cycles through a
    /// non-empty list of presets.
    pub open spec fn wf(&self) -> bool {
        &&& self.selected_groups@.len() == self.stats@.len()
        &&& self.migrate_presets@.len() > 0
        &&& self.migrate_path_index < self.migrate_presets@.len()
    }

    /// A fresh state over `stats`, with nothing selected and the default
    /// filter applied; the migration target starts at the first preset.
    pub fn new(stats: Vec<GroupStats>, migrate_presets: Vec<String>) -> (r: App)
        requires
            migrate_presets@.len() > 0,
        ensures
            r.wf(),
            r.stats@ == stats@,
            r.selected_groups@ == Seq::new(stats@.len(), |i: int| false),
            exists|now: i64|
                r.filtered_stats@ == filtered_indices(
                    stats@,
                    GroupFilter {
                        min_size: 0,
                        min_file_count: 0,
                        hide_empty: true,
                        activity: ActivityFilter::All,
                    },
                    now as int,
                ),
            r.selected_index == 0,
            r.current_tab == AppTab::Analysis,
            r.sort_by == SortBy::Size,
            r.time_range == TimeRange::All,
            r.migrate_presets@ == migrate_presets@,
            r.migrate_target_path@ == migrate_presets@[0]@,
            r.migrate_path_index == 0,
            !r.should_quit && !r.show_help && !r.show_filter_dialog && !r.show_confirm_dialog,
            r.confirm_action is None,
            r.temp_migrate_keep_original,
            r.filter_cursor == 0,
            r.logs@.len() == 1,
            r.logs@[0].level == LogLevel::Info,
            r.logs@[0].message@ == "应用启动成功"@,
    {
        let len = stats.len();
        let mut filtered: Vec<usize> = Vec::new();
        let selected_groups = vec![false; len];
        let first = migrate_presets[0].clone();
        let mut app = App {
            should_quit: false,
            current_tab: AppTab::Analysis,
            stats,
            filtered_stats: filtered,
            selected_index: 0,
            selected_groups,
            sort_by: SortBy::Size,
            filter: GroupFilter::default(),
            time_range: TimeRange::All,
            progress: OperationProgress::default(),
            migrate_target_path: first,
            migrate_presets,
            migrate_path_index: 0,
            show_help: false,
            show_filter_dialog: false,
            show_confirm_dialog: false,
            confirm_action: None,
            temp_migrate_keep_original: true,
            temp_filter: GroupFilter::default(),
            filter_cursor: 0,
            logs: Vec::new(),
        };
        assert(app.selected_groups@ =~= Seq::new(app.stats@.len(), |i: int| false));
        app.apply_filter();
        app.add_log(LogLevel::Info, "应用启动成功");
        app
    }

    pub fn quit(&mut self)
        ensures
            *final(self) == (App { should_quit: true, ..*old(self) }),
    {
        self.should_quit = true;
    }

    /// Moves to the next tab, from the last back to the first.
    pub fn next_tab(&mut self)
        ensures
            *final(self) == (App {
                current_tab: tab_of((tab_index(old(self).current_tab) + 1) % 3),
                ..*old(self)
            }),
    {
        let next = (self.current_tab.index() + 1) % 3;
        self.current_tab = AppTab::from_index(next);
    }

    /// Moves to the previous tab, from the first to the last.
    pub fn prev_tab(&mut self)
        ensures
            *final(self) == (App {
                current_tab: tab_of(
                    if tab_index(old(self).current_tab) == 0 {
                        2
                    } else {
                        tab_index(old(self).current_tab) - 1
                    },
                ),
                ..*old(self)
            }),
    {
        let current = self.current_tab.index();
        let prev = if current == 0 {
            AppTab::titles().len() - 1
        } else {
            current - 1
        };
        self.current_tab = AppTab::from_index(prev);
    }

    /// Moves the cursor down the filtered view, wrapping at the end.
    pub fn next_item(&mut self)
        requires
            old(self).selected_index < usize::MAX,
        ensures
            *final(self) == (App {
                selected_index: if old(self).filtered_stats@.len() == 0 {
                    old(self).selected_index
                } else {
                    ((old(self).selected_index + 1) % (old(self).filtered_stats@.len() as int)) as usize
                },
                ..*old(self)
            }),
    {
        if self.filtered_stats.len() > 0 {
            self.selected_index = (self.selected_index + 1) % self.filtered_stats.len();
        }
    }

    /// Moves the cursor up the filtered view, wrapping at the top.
    pub fn prev_item(&mut self)
        ensures
            *final(self) == (App {
                selected_index: if old(self).filtered_stats@.len() == 0 {
                    old(self).selected_index
                } else if old(self).selected_index == 0 {
                    (old(self).filtered_stats@.len() - 1) as usize
                } else {
                    (old(self).selected_index - 1) as usize
                },
                ..*old(self)
            }),
    {
        if self.filtered_stats.len() > 0 {
            self.selected_index = if self.selected_index == 0 {
                self.filtered_stats.len() - 1
            } else {
                self.selected_index - 1
            };
        }
    }

    /// Flips the mark of the group under the cursor.
    pub fn toggle_selected_group(&mut self)
        ensures
            ({
                let o = old(self);
                let ok = o.selected_index < o.filtered_stats@.len() && o.filtered_stats@[o.selected_index as int] < o.selected_groups@.len();
                let k = o.filtered_stats@[o.selected_index as int] as int;
                *final(self) == (App { selected_groups: final(self).selected_groups, ..*o })
                && final(self).selected_groups@ == if ok {
                    o.selected_groups@.update(k, !o.selected_groups@[k])
                } else {
                    o.selected_groups@
                }
            }),
    {
        if self.selected_index < self.filtered_stats.len() {
            let k = self.filtered_stats[self.selected_index];
            if k < self.selected_groups.len() {
                let v = self.selected_groups[k];
                self.selected_groups.set(k, !v);
            }
        }
    }

    /// Marks every group in the filtered view, and logs how many that was.
    pub fn select_all_filtered(&mut self)
        ensures
            final(self).selected_groups@.len() == old(self).selected_groups@.len(),
            forall|k: int|
                0 <= k < old(self).selected_groups@.len() ==> #[trigger] final(self).selected_groups@[k]
                    == (old(self).selected_groups@[k] || old(self).filtered_stats@.contains(k as usize)),
            logged(
                old(self).logs@,
                final(self).logs@,
                LogLevel::Info,
                "已选择 "@ + decimal(old(self).filtered_stats@.len()) + " 个群组"@,
            ),
            *final(self) == (App {
                selected_groups: final(self).selected_groups,
                logs: final(self).logs,
                ..*old(self)
            }),
    {
        let mut i: usize = 0;
        while i < self.filtered_stats.len()
            invariant
                i <= self.filtered_stats@.len(),
                self.selected_groups@.len() == old(self).selected_groups@.len(),
                *self == (App { selected_groups: self.selected_groups, ..*old(self) }),
                forall|k: int|
                    0 <= k < old(self).selected_groups@.len() ==> #[trigger] self.selected_groups@[k]
                        == (old(self).selected_groups@[k] || self.filtered_stats@.take(i as int).contains(
                        k as usize,
                    )),
            decreases self.filtered_stats@.len() - i,
        {
            let k = self.filtered_stats[i];
            let ghost prev = self.selected_groups@;
            if k < self.selected_groups.len() {
                self.selected_groups.set(k, true);
            }
            assert forall|j: int| 0 <= j < old(self).selected_groups@.len() implies
                #[trigger] self.selected_groups@[j] == (old(self).selected_groups@[j]
                    || self.filtered_stats@.take(i as int + 1).contains(j as usize)) by {
                let t = self.filtered_stats@.take(i as int);
                let t1 = self.filtered_stats@.take(i as int + 1);
                assert(t1 =~= t.push(k));
                assert(t1[i as int] == k);
                if j == k as int {
                    assert(t1.contains(j as usize));
                } else {
                    assert(self.selected_groups@[j] == prev[j]);
                    if t1.contains(j as usize) {
                        let w = choose|w: int| 0 <= w < t1.len() && t1[w] == j as usize;
                        assert(w < t.len());
                        assert(t[w] == j as usize);
                    }
                    if t.contains(j as usize) {
                        let w = choose|w: int| 0 <= w < t.len() && t[w] == j as usize;
                        assert(t1[w] == j as usize);
                    }
                }
            }
            i = i + 1;
        }
        assert(self.filtered_stats@.take(i as int) =~= self.filtered_stats@);
        let mut message = String::from_str("已选择 ");
        push_decimal(&mut message, self.filtered_stats.len() as u64);
        message.append(" 个群组");
        self.push_log(LogLevel::Info, message);
    }

    /// Clears every mark.
    pub fn deselect_all(&mut self)
        ensures
            final(self).selected_groups@ == Seq::new(old(self).selected_groups@.len(), |i: int| false),
            logged(old(self).logs@, final(self).logs@, LogLevel::Info, "已取消所有选择"@),
            *final(self) == (App {
                selected_groups: final(self).selected_groups,
                logs: final(self).logs,
                ..*old(self)
            }),
    {
        let n = self.selected_groups.len();
        self.selected_groups = vec![false; n];
        assert(self.selected_groups@ =~= Seq::new(old(self).selected_groups@.len(), |i: int| false));
        self.add_log(LogLevel::Info, "已取消所有选择");
    }

    /// Re-sorts the list by the current order at time `now`, moving each
    /// selection mark along with its group, and recomputes the filtered view,
    /// whose old positions no longer hold.
    pub fn apply_sort_at(&mut self, now: i64)
        requires
            old(self).wf(),
        ensures
            final(self).wf(),
            exists|p: Seq<int>|
                #[trigger] stable_sort_with(p, final(self).stats@, old(self).stats@, old(self).sort_by)
                    && marks_follow(p, final(self).selected_groups@, old(self).selected_groups@),
            final(self).filtered_stats@ == filtered_indices(
                final(self).stats@,
                old(self).filter,
                now as int,
            ),
            final(self).selected_index == clamped(
                old(self).selected_index,
                final(self).filtered_stats@.len(),
            ),
            *final(self) == (App {
                stats: final(self).stats,
                selected_groups: final(self).selected_groups,
                filtered_stats: final(self).filtered_stats,
                selected_index: final(self).selected_index,
                ..*old(self)
            }),
    {
        let mut stats: Vec<GroupStats> = Vec::new();
        core::mem::swap(&mut stats, &mut self.stats);
        let mut marks: Vec<bool> = Vec::new();
        core::mem::swap(&mut marks, &mut self.selected_groups);
        let (sorted, moved) = sort_with_marks(stats, marks, self.sort_by);
        self.stats = sorted;
        self.selected_groups = moved;
        self.apply_filter_at(now);
    }

    /// Re-sorts the list by the current order, marks moving with their
    /// groups, and recomputes the filtered view at the current time.
    pub fn apply_sort(&mut self)
        requires
            old(self).wf(),
        ensures
            final(self).wf(),
            exists|p: Seq<int>|
                #[trigger] stable_sort_with(p, final(self).stats@, old(self).stats@, old(self).sort_by)
                    && marks_follow(p, final(self).selected_groups@, old(self).selected_groups@),
            exists|now: i64|
                final(self).filtered_stats@ == filtered_indices(
                    final(self).stats@,
                    old(self).filter,
                    now as int,
                ),
            final(self).selected_index == clamped(
                old(self).selected_index,
                final(self).filtered_stats@.len(),
            ),
            *final(self) == (App {
                stats: final(self).stats,
                selected_groups: final(self).selected_groups,
                filtered_stats: final(self).filtered_stats,
                selected_index: final(self).selected_index,
                ..*old(self)
            }),
    {
        let now = now_timestamp();
        self.apply_sort_at(now);
    }

    /// Recomputes the filtered view at time `now` and keeps the cursor inside it.
    pub fn apply_filter_at(&mut self, now: i64)
        ensures
            final(self).filtered_stats@ == filtered_indices(
                old(self).stats@,
                old(self).filter,
                now as int,
            ),
            final(self).selected_index == clamped(
                old(self).selected_index,
                final(self).filtered_stats@.len(),
            ),
            *final(self) == (App {
                filtered_stats: final(self).filtered_stats,
                selected_index: final(self).selected_index,
                ..*old(self)
            }),
    {
        self.filtered_stats = filter_indices(&self.stats, &self.filter, now);
        if self.selected_index >= self.filtered_stats.len() {
            self.selected_index = if self.filtered_stats.len() > 0 {
                self.filtered_stats.len() - 1
            } else {
                0
            };
        }
    }

    /// Recomputes the filtered view at the current time.
    pub fn apply_filter(&mut self)
        ensures
            exists|now: i64|
                final(self).filtered_stats@ == filtered_indices(
                    old(self).stats@,
                    old(self).filter,
                    now as int,
                ),
            final(self).selected_index == clamped(
                old(self).selected_index,
                final(self).filtered_stats@.len(),
            ),
            *final(self) == (App {
                filtered_stats: final(self).filtered_stats,
                selected_index: final(self).selected_index,
                ..*old(self)
            }),
    {
        let now = now_timestamp();
        self.apply_filter_at(now);
    }

    fn push_log(&mut self, level: LogLevel, message: String)
        ensures
            logged(old(self).logs@, final(self).logs@, level, message@),
            *final(self) == (App { logs: final(self).logs, ..*old(self) }),
    {
        self.logs.push(LogEntry { level, message });
        assert(self.logs@.take(old(self).logs@.len() as int) =~= old(self).logs@);
    }

    /// Queues a log line.
    pub fn add_log(&mut self, level: LogLevel, message: &str)
        ensures
            logged(old(self).logs@, final(self).logs@, level, message@),
            *final(self) == (App { logs: final(self).logs, ..*old(self) }),
    {
        self.push_log(level, String::from_str(message));
    }

    pub fn start_operation(&mut self, total: usize)
        ensures
            final(self).progress.total == total,
            final(self).progress.current == 0,
            final(self).progress.current_file@.len() == 0,
            final(self).progress.is_running,
            *final(self) == (App { progress: final(self).progress, ..*old(self) }),
    {
        self.progress = OperationProgress {
            total,
            current: 0,
            current_file: String::new(),
            is_running: true,
        };
    }

    pub fn update_progress(&mut self, current: usize, file: &str)
        ensures
            final(self).progress.current == current,
            final(self).progress.current_file@ == file@,
            final(self).progress.total == old(self).progress.total,
            final(self).progress.is_running == old(self).progress.is_running,
            *final(self) == (App { progress: final(self).progress, ..*old(self) }),
    {
        self.progress.current = current;
        self.progress.current_file = String::from_str(file);
    }

    pub fn finish_operation(&mut self)
        ensures
            !final(self).progress.is_running,
            final(self).progress.current == old(self).progress.current,
            final(self).progress.total == old(self).progress.total,
            final(self).progress.current_file == old(self).progress.current_file,
            *final(self) == (App { progress: final(self).progress, ..*old(self) }),
    {
        self.progress.is_running = false;
    }

    pub fn toggle_help(&mut self)
        ensures
            *final(self) == (App { show_help: !old(self).show_help, ..*old(self) }),
    {
        self.show_help = !self.show_help;
    }

    /// Asks for confirmation of `action`; a migration starts out keeping the originals.
    pub fn show_confirm(&mut self, action: ConfirmAction)
        ensures
            *final(self) == (App {
                confirm_action: Some(action),
                show_confirm_dialog: true,
                temp_migrate_keep_original: if action == ConfirmAction::Migrate {
                    true
                } else {
                    old(self).temp_migrate_keep_original
                },
                ..*old(self)
            }),
    {
        self.confirm_action = Some(action);
        self.show_confirm_dialog = true;
        if action == ConfirmAction::Migrate {
            self.temp_migrate_keep_original = true;
        }
    }

    pub fn hide_confirm(&mut self)
        ensures
            *final(self) == (App { show_confirm_dialog: false, confirm_action: None, ..*old(self) }),
    {
        self.show_confirm_dialog = false;
        self.confirm_action = None;
    }

    pub fn toggle_confirm_migrate_option(&mut self)
        ensures
            *final(self) == (App {
                temp_migrate_keep_original: !old(self).temp_migrate_keep_original,
                ..*old(self)
            }),
    {
        self.temp_migrate_keep_original = !self.temp_migrate_keep_original;
    }

    pub fn get_migrate_keep_original(&self) -> (r: bool)
        ensures
            r == self.temp_migrate_keep_original,
    {
        self.temp_migrate_keep_original
    }

    pub fn selected_count(&self) -> (r: usize)
        ensures
            r == selected_count_of(self.selected_groups@),
    {
        let mut n: usize = 0;
        let mut i: usize = 0;
        while i < self.selected_groups.len()
            invariant
                i <= self.selected_groups@.len(),
                n == selected_count_of(self.selected_groups@.take(i as int)),
                n <= i,
            decreases self.selected_groups@.len() - i,
        {
            assert(self.selected_groups@.take(i as int + 1).drop_last() =~= self.selected_groups@.take(i as int));
            if self.selected_groups[i] {
                n = n + 1;
            }
            i = i + 1;
        }
        assert(self.selected_groups@.take(i as int) =~= self.selected_groups@);
        n
    }

    /// The total size of the selected groups, held at `u64::MAX`.
    pub fn selected_total_size(&self) -> (r: u64)
        ensures
            r as nat == capped(selected_size_of(self.selected_groups@, self.stats@)),
    {
        let mut total: u64 = 0;
        let mut i: usize = 0;
        while i < self.selected_groups.len()
            invariant
                i <= self.selected_groups@.len(),
                total as nat == capped(selected_size_of(self.selected_groups@.take(i as int), self.stats@)),
            decreases self.selected_groups@.len() - i,
        {
            assert(self.selected_groups@.take(i as int + 1).drop_last() =~= self.selected_groups@.take(i as int));
            if self.selected_groups[i] && i < self.stats.len() {
                total = total.saturating_add(self.stats[i].total_size);
            }
            i = i + 1;
        }
        assert(self.selected_groups@.take(i as int) =~= self.selected_groups@);
        total
    }

    /// The bytes in the time window, at `now`, over the selected groups, held
    /// at `u64::MAX`.
    pub fn selected_deletable_size_at(&self, now: i64) -> (r: u64)
        ensures
            r as nat == capped(
                selected_range_size_of(self.selected_groups@, self.stats@, self.time_range, now as int),
            ),
    {
        let mut total: u64 = 0;
        let mut i: usize = 0;
        while i < self.selected_groups.len()
            invariant
                i <= self.selected_groups@.len(),
                total as nat == capped(
                    selected_range_size_of(
                        self.selected_groups@.take(i as int),
                        self.stats@,
                        self.time_range,
                        now as int,
                    ),
                ),
            decreases self.selected_groups@.len() - i,
        {
            assert(self.selected_groups@.take(i as int + 1).drop_last() =~= self.selected_groups@.take(i as int));
            if self.selected_groups[i] && i < self.stats.len() {
                let part = size_in_range_at(&self.stats[i].files, &self.time_range, now);
                total = total.saturating_add(part);
            }
            i = i + 1;
        }
        assert(self.selected_groups@.take(i as int) =~= self.selected_groups@);
        total
    }

    /// The bytes in the time window over the selected groups, now.
    pub fn selected_deletable_size(&self) -> (r: u64)
        ensures
            exists|now: i64|
                r as nat == capped(
                    selected_range_size_of(self.selected_groups@, self.stats@, self.time_range, now as int),
                ),
    {
        let now = now_timestamp();
        self.selected_deletable_size_at(now)
    }

    /// A group's bytes in the time window at `now`, held at `u64::MAX`.
    pub fn group_size_in_range_at(&self, stat: &GroupStats, now: i64) -> (r: u64)
        ensures
            r as nat == capped(size_in_range(stat.files@, self.time_range, now as int)),
    {
        size_in_range_at(&stat.files, &self.time_range, now)
    }

    pub fn group_size_in_range(&self, stat: &GroupStats) -> (r: u64)
        ensures
            exists|now: i64| r as nat == capped(size_in_range(stat.files@, self.time_range, now as int)),
    {
        let now = now_timestamp();
        self.group_size_in_range_at(stat, now)
    }

    /// How many of a group's resolved records lie in the time window at `now`.
    pub fn group_exist_count_in_range_at(&self, stat: &GroupStats, now: i64) -> (r: usize)
        ensures
            r == exist_count_in_range(stat.files@, self.time_range, now as int),
    {
        let mut n: usize = 0;
        let mut i: usize = 0;
        while i < stat.files.len()
            invariant
                i <= stat.files@.len(),
                n == exist_count_in_range(stat.files@.take(i as int), self.time_range, now as int),
                n <= i,
            decreases stat.files@.len() - i,
        {
            assert(stat.files@.take(i as int + 1).drop_last() =~= stat.files@.take(i as int));
            if self.time_range.should_delete_at(now, stat.files[i].msg_time) && stat.files[i].actual_size.is_some() {
                n = n + 1;
            }
            i = i + 1;
        }
        assert(stat.files@.take(i as int) =~= stat.files@);
        n
    }

    pub fn group_exist_count_in_range(&self, stat: &GroupStats) -> (r: usize)
        ensures
            exists|now: i64| r == exist_count_in_range(stat.files@, self.time_range, now as int),
    {
        let now = now_timestamp();
        self.group_exist_count_in_range_at(stat, now)
    }

    /// How many of a group's records lie in the time window at `now`.
    pub fn group_file_count_in_range_at(&self, stat: &GroupStats, now: i64) -> (r: usize)
        ensures
            r == file_count_in_range(stat.files@, self.time_range, now as int),
    {
        let mut n: usize = 0;
        let mut i: usize = 0;
        while i < stat.files.len()
            invariant
                i <= stat.files@.len(),
                n == file_count_in_range(stat.files@.take(i as int), self.time_range, now as int),
                n <= i,
            decreases stat.files@.len() - i,
        {
            assert(stat.files@.take(i as int + 1).drop_last() =~= stat.files@.take(i as int));
            if self.time_range.should_delete_at(now, stat.files[i].msg_time) {
                n = n + 1;
            }
            i = i + 1;
        }
        assert(stat.files@.take(i as int) =~= stat.files@);
        n
    }

    pub fn group_file_count_in_range(&self, stat: &GroupStats) -> (r: usize)
        ensures
            exists|now: i64| r == file_count_in_range(stat.files@, self.time_range, now as int),
    {
        let now = now_timestamp();
        self.group_file_count_in_range_at(stat, now)
    }

    /// The positions of the selected groups, ascending: the groups a run
    /// works on, in list order.
    pub fn batch_targets(&self) -> (r: Vec<usize>)
        ensures
            r@ == selected_positions(self.selected_groups@, self.stats@.len()),
    {
        let mut out: Vec<usize> = Vec::new();
        let mut i: usize = 0;
        while i < self.selected_groups.len()
            invariant
                i <= self.selected_groups@.len(),
                out@ == selected_positions(self.selected_groups@.take(i as int), self.stats@.len()),
            decreases self.selected_groups@.len() - i,
        {
            assert(self.selected_groups@.take(i as int + 1).drop_last() =~= self.selected_groups@.take(i as int));
            if self.selected_groups[i] && i < self.stats.len() {
                out.push(i);
            }
            i = i + 1;
        }
        assert(self.selected_groups@.take(i as int) =~= self.selected_groups@);
        out
    }

    /// Starts a run over the groups at `targets`: the progress counts their
    /// records (held at `usize::MAX`), from zero, and a line announcing the
    /// run is queued.
    pub fn start_batch(&mut self, kind: BatchKind, targets: &Vec<usize>)
        ensures
            final(self).progress.total == capped_count(targets_file_count(old(self).stats@, targets@)),
            final(self).progress.current == 0,
            final(self).progress.current_file@.len() == 0,
            final(self).progress.is_running,
            logged(old(self).logs@, final(self).logs@, LogLevel::Info, batch_start_text(kind, targets@.len())),
            *final(self) == (App { progress: final(self).progress, logs: final(self).logs, ..*old(self) }),
    {
        let mut total: usize = 0;
        let mut i: usize = 0;
        while i < targets.len()
            invariant
                i <= targets@.len(),
                total as nat == capped_count(targets_file_count(self.stats@, targets@.take(i as int))),
            decreases targets@.len() - i,
        {
            assert(targets@.take(i as int + 1).drop_last() =~= targets@.take(i as int));
            let k = targets[i];
            if k < self.stats.len() {
                total = total.saturating_add(self.stats[k].file_count);
            }
            i = i + 1;
        }
        assert(targets@.take(i as int) =~= targets@);
        self.start_operation(total);
        let mut message = match kind {
            BatchKind::Clean => String::from_str("开始清理 "),
            BatchKind::Migrate { .. } => String::from_str("开始迁移 "),
        };
        push_decimal(&mut message, targets.len() as u64);
        message.append(" 个群组");
        self.push_log(LogLevel::Info, message);
    }

    /// Records how the group at `idx` fared in a run. A finished group
    /// advances the progress by its records (held at `usize::MAX`) and names
    /// it as the current one; a failed setup changes nothing, and the run goes
    /// on with the other groups. Returns whether the group's statistics must
    /// be recomputed.
    pub fn record_group_result(&mut self, kind: BatchKind, idx: usize, res: GroupRunResult) -> (refresh:
        bool)
        ensures
            refresh == needs_refresh(kind, res),
            res is SetupFailed ==> *final(self) == *old(self),
            res is Finished ==> {
                &&& final(self).progress.current == capped_count(
                    (old(self).progress.current + file_count_at(old(self).stats@, idx as int)) as nat,
                )
                &&& final(self).progress.current_file@ == if idx < old(self).stats@.len() {
                    old(self).stats@[idx as int].group_name@
                } else {
                    old(self).progress.current_file@
                }
                &&& final(self).progress.total == old(self).progress.total
                &&& final(self).progress.is_running == old(self).progress.is_running
                &&& *final(self) == (App { progress: final(self).progress, ..*old(self) })
            },
    {
        match res {
            GroupRunResult::SetupFailed => false,
            GroupRunResult::Finished { succeeded, .. } => {
                if idx < self.stats.len() {
                    let count = self.stats[idx].file_count;
                    let name = self.stats[idx].group_name.clone();
                    self.progress.current = self.progress.current.saturating_add(count);
                    self.progress.current_file = name;
                } else {
                    self.progress.current = self.progress.current.saturating_add(0);
                }
                succeeded > 0 && match kind {
                    BatchKind::Clean => true,
                    BatchKind::Migrate { delete_after_migrate } => delete_after_migrate,
                }
            },
        }
    }

    /// Ends a run at time `now`: the list is re-sorted (marks moving with their
    /// groups) and re-filtered, the selection is cleared, the progress stops,
    /// and a closing line is queued.
    pub fn finish_batch_at(&mut self, kind: BatchKind, now: i64)
        requires
            old(self).wf(),
        ensures
            final(self).wf(),
            is_stable_sort(final(self).stats@, old(self).stats@, old(self).sort_by),
            final(self).filtered_stats@ == filtered_indices(
                final(self).stats@,
                old(self).filter,
                now as int,
            ),
            final(self).selected_index == clamped(
                old(self).selected_index,
                final(self).filtered_stats@.len(),
            ),
            final(self).selected_groups@ == Seq::new(final(self).stats@.len(), |i: int| false),
            !final(self).progress.is_running,
            final(self).progress.total == old(self).progress.total,
            final(self).progress.current == old(self).progress.current,
            final(self).progress.current_file == old(self).progress.current_file,
            logged(old(self).logs@, final(self).logs@, LogLevel::Success, batch_end_text(kind)),
            *final(self) == (App {
                stats: final(self).stats,
                selected_groups: final(self).selected_groups,
                filtered_stats: final(self).filtered_stats,
                selected_index: final(self).selected_index,
                progress: final(self).progress,
                logs: final(self).logs,
                ..*old(self)
            }),
    {
        self.apply_sort_at(now);
        let n = self.stats.len();
        self.selected_groups = vec![false; n];
        assert(self.selected_groups@ =~= Seq::new(self.stats@.len(), |i: int| false));
        self.finish_operation();
        match kind {
            BatchKind::Clean => self.add_log(LogLevel::Success, "清理操作完成"),
            BatchKind::Migrate { .. } => self.add_log(LogLevel::Success, "迁移操作完成"),
        }
    }

    /// Ends a run at the current time.
    pub fn finish_batch(&mut self, kind: BatchKind)
        requires
            old(self).wf(),
        ensures
            final(self).wf(),
            is_stable_sort(final(self).stats@, old(self).stats@, old(self).sort_by),
            exists|now: i64|
                final(self).filtered_stats@ == filtered_indices(
                    final(self).stats@,
                    old(self).filter,
                    now as int,
                ),
            final(self).selected_index == clamped(
                old(self).selected_index,
                final(self).filtered_stats@.len(),
            ),
            final(self).selected_groups@ == Seq::new(final(self).stats@.len(), |i: int| false),
            !final(self).progress.is_running,
            final(self).progress.total == old(self).progress.total,
            final(self).progress.current == old(self).progress.current,
            final(self).progress.current_file == old(self).progress.current_file,
            logged(old(self).logs@, final(self).logs@, LogLevel::Success, batch_end_text(kind)),
            *final(self) == (App {
                stats: final(self).stats,
                selected_groups: final(self).selected_groups,
                filtered_stats: final(self).filtered_stats,
                selected_index: final(self).selected_index,
                progress: final(self).progress,
                logs: final(self).logs,
                ..*old(self)
            }),
    {
        let now = now_timestamp();
        self.finish_batch_at(kind, now);
    }

    /// Moves the migration target to the next preset, wrapping around.
    pub fn next_migrate_path(&mut self)
        requires
            old(self).wf(),
        ensures
            final(self).wf(),
            final(self).migrate_path_index == (old(self).migrate_path_index + 1) % (old(self).migrate_presets@.len() as int),
            final(self).migrate_target_path@ == final(self).migrate_presets@[final(self).migrate_path_index as int]@,
            *final(self) == (App {
                migrate_path_index: final(self).migrate_path_index,
                migrate_target_path: final(self).migrate_target_path,
                ..*old(self)
            }),
    {
        let n = self.migrate_presets.len();
        self.migrate_path_index = (self.migrate_path_index + 1) % n;
        self.migrate_target_path = self.migrate_presets[self.migrate_path_index].clone();
    }

    /// Moves the migration target to the previous preset, wrapping around.
    pub fn prev_migrate_path(&mut self)
        requires
            old(self).wf(),
        ensures
            final(self).wf(),
            final(self).migrate_path_index == if old(self).migrate_path_index == 0 {
                old(self).migrate_presets@.len() - 1
            } else {
                old(self).migrate_path_index - 1
            },
            final(self).migrate_target_path@ == final(self).migrate_presets@[final(self).migrate_path_index as int]@,
            *final(self) == (App {
                migrate_path_index: final(self).migrate_path_index,
                migrate_target_path: final(self).migrate_target_path,
                ..*old(self)
            }),
    {
        if self.migrate_path_index == 0 {
            self.migrate_path_index = self.migrate_presets.len() - 1;
        } else {
            self.migrate_path_index = self.migrate_path_index - 1;
        }
        self.migrate_target_path = self.migrate_presets[self.migrate_path_index].clone();
    }

    /// Opens the filter dialog on a copy of the current filter.
    pub fn open_filter_dialog(&mut self)
        ensures
            *final(self) == (App {
                temp_filter: old(self).filter,
                filter_cursor: 0,
                show_filter_dialog: true,
                ..*old(self)
            }),
    {
        self.temp_filter = self.filter;
        self.filter_cursor = 0;
        self.show_filter_dialog = true;
    }

    /// Adopts the dialog's filter, recomputes the view and closes the dialog.
    pub fn apply_filter_dialog(&mut self)
        ensures
            final(self).filter == old(self).temp_filter,
            exists|now: i64|
                final(self).filtered_stats@ == filtered_indices(
                    old(self).stats@,
                    old(self).temp_filter,
                    now as int,
                ),
            final(self).selected_index == clamped(
                old(self).selected_index,
                final(self).filtered_stats@.len(),
            ),
            !final(self).show_filter_dialog,
            logged(old(self).logs@, final(self).logs@, LogLevel::Info, "过滤器已应用"@),
            *final(self) == (App {
                filter: final(self).filter,
                filtered_stats: final(self).filtered_stats,
                selected_index: final(self).selected_index,
                show_filter_dialog: false,
                logs: final(self).logs,
                ..*old(self)
            }),
    {
        self.filter = self.temp_filter;
        self.apply_filter();
        self.show_filter_dialog = false;
        self.add_log(LogLevel::Info, "过滤器已应用");
    }

    pub fn cancel_filter_dialog(&mut self)
        ensures
            *final(self) == (App { show_filter_dialog: false, ..*old(self) }),
    {
        self.show_filter_dialog = false;
    }

    /// Moves the dialog cursor down through its four lines, wrapping.
    pub fn filter_next_item(&mut self)
        requires
            old(self).filter_cursor < usize::MAX,
        ensures
            *final(self) == (App {
                filter_cursor: ((old(self).filter_cursor + 1) % 4) as usize,
                ..*old(self)
            }),
    {
        self.filter_cursor = (self.filter_cursor + 1) % 4;
    }

    /// Moves the dialog cursor up through its four lines, wrapping.
    pub fn filter_prev_item(&mut self)
        ensures
            *final(self) == (App {
                filter_cursor: if old(self).filter_cursor == 0 {
                    3
                } else {
                    (old(self).filter_cursor - 1) as usize
                },
                ..*old(self)
            }),
    {
        if self.filter_cursor == 0 {
            self.filter_cursor = 3;
        } else {
            self.filter_cursor = self.filter_cursor - 1;
        }
    }

    /// Changes the dialog line under the cursor: the first flips hiding of
    /// empty groups, the second steps through the activity conditions.
    pub fn toggle_filter_option(&mut self)
        ensures
            *final(self) == (App {
                temp_filter: if old(self).filter_cursor == 0 {
                    GroupFilter { hide_empty: !old(self).temp_filter.hide_empty, ..old(self).temp_filter }
                } else if old(self).filter_cursor == 1 {
                    GroupFilter { activity: next_activity(old(self).temp_filter.activity), ..old(self).temp_filter }
                } else {
                    old(self).temp_filter
                },
                ..*old(self)
            }),
    {
        if self.filter_cursor == 0 {
            self.temp_filter.hide_empty = !self.temp_filter.hide_empty;
        } else if self.filter_cursor == 1 {
            self.temp_filter.activity = match self.temp_filter.activity {
                ActivityFilter::All => ActivityFilter::Active(7),
                ActivityFilter::Active(d) => if d == 7 {
                    ActivityFilter::Active(30)
                } else if d == 30 {
                    ActivityFilter::Active(90)
                } else {
                    ActivityFilter::Inactive(7)
                },
                ActivityFilter::Inactive(d) => if d == 7 {
                    ActivityFilter::Inactive(30)
                } else if d == 30 {
                    ActivityFilter::Inactive(90)
                } else {
                    ActivityFilter::All
                },
            };
        }
    }
}

} // verus!
