//! Migration of a group's attachments: where each copy goes, when a source
//! may be removed, and what a run counts.
use vstd::prelude::*;
use vstd::string::*;

use crate::calendar::{month_dir_of, time_dir};
use crate::file_checker::{candidate_paths_of, join, texts, with_suffix, FileChecker};
use crate::models::{FileInfo, GroupStats};

verus! {

/// Where and how a group's files are migrated.
#[derive(Debug, Clone)]
pub struct MigrateOptions {
    pub target_dir: String,
    /// Mirror the `<month>/<Ori|Thumb>/` layout under a directory per group.
    pub keep_structure: bool,
    /// Remove each source once its copy has succeeded.
    pub delete_after_migrate: bool,
}

impl Default for MigrateOptions {
    fn default() -> (r: MigrateOptions)
        ensures
            r.target_dir@ == "./backup"@,
            r.keep_structure,
            !r.delete_after_migrate,
    {
        MigrateOptions {
            target_dir: String::from_str("./backup"),
            keep_structure: true,
            delete_after_migrate: false,
        }
    }
}

/// The counts of a migration run.
#[derive(Debug, Clone, Copy, PartialEq, Eq, Structural)]
pub struct MigrateResult {
    pub migrated_files: usize,
    pub failed_files: usize,
    pub total_size: u64,
}

/// One copy to make: from a source path to a destination path, on behalf of
/// the record at `file_index` in the group.
#[derive(Debug, Clone)]
pub struct CopyStep {
    pub file_index: usize,
    pub source: String,
    pub destination: String,
}

/// What carrying out one copy step came to.
#[derive(Debug, Clone, Copy, PartialEq, Eq, Structural)]
pub enum CopyOutcome {
    /// The source was not there; the step counts as nothing.
    SourceMissing,
    /// The destination's directory could not be created.
    DirFailed,
    /// The copy itself failed.
    CopyFailed,
    /// The copy succeeded with this many bytes.
    Copied(u64),
}

pub open spec fn step_view(s: CopyStep) -> (int, Seq<char>, Seq<char>) {
    (s.file_index as int, s.source@, s.destination@)
}

pub open spec fn steps_view(v: Seq<CopyStep>) -> Seq<(int, Seq<char>, Seq<char>)> {
    v.map_values(|s: CopyStep| step_view(s))
}

/// The directory a group's files go to.
pub open spec fn group_dir_of(
    target: Seq<char>,
    keep_structure: bool,
    group_name: Seq<char>,
    group_id: Seq<char>,
) -> Seq<char> {
    if keep_structure {
        join(target, group_name + seq!['_'] + group_id)
    } else {
        target
    }
}

/// Where the copy of a file named `name`, found in `sub` (`Ori` or `Thumb`)
/// of `month`, goes inside `group_dir`.
pub open spec fn destination_of(
    group_dir: Seq<char>,
    keep_structure: bool,
    month: Seq<char>,
    sub: Seq<char>,
    name: Seq<char>,
) -> Seq<char> {
    if keep_structure {
        join(join(join(group_dir, month), sub), name)
    } else {
        join(group_dir, name)
    }
}

/// The copy steps of the record at index `k`: one per candidate path, and
/// none for a record that was not resolved or has no file name.
pub open spec fn file_steps(
    root: Seq<char>,
    group_dir: Seq<char>,
    keep_structure: bool,
    k: int,
    f: FileInfo,
) -> Seq<(int, Seq<char>, Seq<char>)> {
    if f.actual_size is None || f.file_name@.len() == 0 {
        seq![]
    } else {
        let srcs = candidate_paths_of(root, f.file_name@, f.msg_time);
        let month = month_dir_of(f.msg_time);
        seq![
            (k, srcs[0], destination_of(group_dir, keep_structure, month, "Ori"@, f.file_name@)),
            (
                k,
                srcs[1],
                destination_of(
                    group_dir,
                    keep_structure,
                    month,
                    "Thumb"@,
                    with_suffix(f.file_name@, "_0"@),
                ),
            ),
            (
                k,
                srcs[2],
                destination_of(
                    group_dir,
                    keep_structure,
                    month,
                    "Thumb"@,
                    with_suffix(f.file_name@, "_720"@),
                ),
            ),
        ]
    }
}

/// The copy steps of a group's records, record by record in order.
pub open spec fn migration_steps(
    root: Seq<char>,
    group_dir: Seq<char>,
    keep_structure: bool,
    files: Seq<FileInfo>,
) -> Seq<(int, Seq<char>, Seq<char>)>
    decreases files.len(),
{
    if files.len() == 0 {
        seq![]
    } else {
        migration_steps(root, group_dir, keep_structure, files.drop_last()) + file_steps(
            root,
            group_dir,
            keep_structure,
            files.len() - 1,
            files.last(),
        )
    }
}

/// Whether a step's source is removed after it came to `outcome`.
pub open spec fn removes_source(delete_after_migrate: bool, outcome: CopyOutcome) -> bool {
    delete_after_migrate && outcome is Copied
}

pub open spec fn count_copied(o: Seq<CopyOutcome>) -> nat
    decreases o.len(),
{
    if o.len() == 0 {
        0
    } else {
        count_copied(o.drop_last()) + if o.last() is Copied {
            1nat
        } else {
            0nat
        }
    }
}

pub open spec fn count_copy_failures(o: Seq<CopyOutcome>) -> nat
    decreases o.len(),
{
    if o.len() == 0 {
        0
    } else {
        count_copy_failures(o.drop_last()) + if o.last() == CopyOutcome::DirFailed || o.last()
            == CopyOutcome::CopyFailed {
            1nat
        } else {
            0nat
        }
    }
}

pub open spec fn copied_bytes(o: Seq<CopyOutcome>) -> nat
    decreases o.len(),
{
    if o.len() == 0 {
        0
    } else {
        copied_bytes(o.drop_last()) + match o.last() {
            CopyOutcome::Copied(n) => n as nat,
            _ => 0,
        }
    }
}

proof fn lemma_copy_counts_bounded(o: Seq<CopyOutcome>)
    ensures
        count_copied(o) + count_copy_failures(o) <= o.len(),
    decreases o.len(),
{
    if o.len() > 0 {
        lemma_copy_counts_bounded(o.drop_last());
    }
}

/// Copies a group's attachments out of the attachment tree.
pub struct Migrator {
    qq_data_dir: String,
}

impl Migrator {
    /// The root of the attachment tree.
    pub closed spec fn root(&self) -> Seq<char> {
        self.qq_data_dir@
    }

    pub fn new(qq_data_dir: String) -> (r: Migrator)
        ensures
            r.root() == qq_data_dir@,
    {
        Migrator { qq_data_dir }
    }

    /// The thumbnail names of a file, as the attachment tree stores them.
    pub fn get_thumb_filenames(filename: &str) -> (r: Vec<String>)
        ensures
            r@.len() == 2,
            texts(r@) == seq![with_suffix(filename@, "_0"@), with_suffix(filename@, "_720"@)],
    {
        FileChecker::get_thumb_filenames(filename)
    }

    /// The directory that a group's files are copied into.
    pub fn group_dir(stats: &GroupStats, options: &MigrateOptions) -> (r: String)
        ensures
            r@ == group_dir_of(
                options.target_dir@,
                options.keep_structure,
                stats.group_name@,
                stats.group_id@,
            ),
    {
        if options.keep_structure {
            let mut sub = stats.group_name.clone();
            proof {
                reveal_strlit("_");
            }
            sub.append("_");
            sub.append(stats.group_id.as_str());
            let mut s = options.target_dir.clone();
            proof {
                reveal_strlit("/");
            }
            s.append("/");
            s.append(sub.as_str());
            assert(s@ =~= group_dir_of(
                options.target_dir@,
                options.keep_structure,
                stats.group_name@,
                stats.group_id@,
            ));
            s
        } else {
            options.target_dir.clone()
        }
    }

    /// The copy steps for migrating a group into `group_dir`: for each
    /// resolved record, its original and its two thumbnails.
    pub fn get_file_paths(&self, stats: &GroupStats, group_dir: &String, keep_structure: bool) -> (r:
        Vec<CopyStep>)
        ensures
            steps_view(r@) == migration_steps(self.root(), group_dir@, keep_structure, stats.files@),
    {
        let checker = FileChecker::new(self.qq_data_dir.clone());
        let mut steps: Vec<CopyStep> = Vec::new();
        let mut k: usize = 0;
        while k < stats.files.len()
            invariant
                k <= stats.files@.len(),
                checker.root() == self.root(),
                steps_view(steps@) == migration_steps(
                    self.root(),
                    group_dir@,
                    keep_structure,
                    stats.files@.take(k as int),
                ),
            decreases stats.files@.len() - k,
        {
            let f = &stats.files[k];
            assert(stats.files@.take(k as int + 1).drop_last() =~= stats.files@.take(k as int));
            let ghost before = steps@;
            if f.actual_size.is_some() && f.file_name.as_str().unicode_len() > 0 {
                let srcs = checker.candidate_paths(f.file_name.as_str(), f.msg_time);
                let thumbs = FileChecker::get_thumb_filenames(f.file_name.as_str());
                let month = time_dir(f.msg_time);
                assert(texts(srcs@)[0] == srcs@[0]@ && texts(srcs@)[1] == srcs@[1]@ && texts(
                    srcs@,
                )[2] == srcs@[2]@);
                assert(texts(thumbs@)[0] == thumbs@[0]@ && texts(thumbs@)[1] == thumbs@[1]@);
                let d0 = destination(group_dir, keep_structure, &month, "Ori", f.file_name.as_str());
                let d1 = destination(group_dir, keep_structure, &month, "Thumb", thumbs[0].as_str());
                let d2 = destination(group_dir, keep_structure, &month, "Thumb", thumbs[1].as_str());
                steps.push(CopyStep { file_index: k, source: srcs[0].clone(), destination: d0 });
                steps.push(CopyStep { file_index: k, source: srcs[1].clone(), destination: d1 });
                steps.push(CopyStep { file_index: k, source: srcs[2].clone(), destination: d2 });
                assert(steps_view(steps@) =~= steps_view(before) + file_steps(
                    self.root(),
                    group_dir@,
                    keep_structure,
                    k as int,
                    *f,
                ));
            } else {
                assert(steps_view(steps@) =~= steps_view(before) + file_steps(
                    self.root(),
                    group_dir@,
                    keep_structure,
                    k as int,
                    *f,
                ));
            }
            k = k + 1;
        }
        assert(stats.files@.take(k as int) =~= stats.files@);
        steps
    }
}

/// Where the copy of `name`, found in `sub` of `month`, goes.
fn destination(group_dir: &String, keep_structure: bool, month: &String, sub: &str, name: &str) -> (r:
    String)
    ensures
        r@ == destination_of(group_dir@, keep_structure, month@, sub@, name@),
{
    proof {
        reveal_strlit("/");
    }
    let mut s = group_dir.clone();
    if keep_structure {
        s.append("/");
        s.append(month.as_str());
        s.append("/");
        s.append(sub);
    }
    s.append("/");
    s.append(name);
    assert(s@ =~= destination_of(group_dir@, keep_structure, month@, sub@, name@));
    s
}

/// Whether a step's source is to be removed after it came to `outcome`: only
/// when the options ask for it and the step's own copy succeeded.
pub fn should_remove_source(options: &MigrateOptions, outcome: CopyOutcome) -> (r: bool)
    ensures
        r == removes_source(options.delete_after_migrate, outcome),
{
    options.delete_after_migrate && matches!(outcome, CopyOutcome::Copied(_))
}

/// The counts of a run from the outcomes of its steps: copies made, copies or
/// directories that failed, and the bytes copied (held at `u64::MAX`).
pub fn migrate_group_files(outcomes: &Vec<CopyOutcome>) -> (r: MigrateResult)
    ensures
        r.migrated_files == count_copied(outcomes@),
        r.failed_files == count_copy_failures(outcomes@),
        r.total_size as nat == if copied_bytes(outcomes@) > u64::MAX {
            u64::MAX as nat
        } else {
            copied_bytes(outcomes@)
        },
{
    let mut result = MigrateResult { migrated_files: 0, failed_files: 0, total_size: 0 };
    let mut i: usize = 0;
    while i < outcomes.len()
        invariant
            i <= outcomes@.len(),
            result.migrated_files == count_copied(outcomes@.take(i as int)),
            result.failed_files == count_copy_failures(outcomes@.take(i as int)),
            result.total_size as nat == if copied_bytes(outcomes@.take(i as int)) > u64::MAX {
                u64::MAX as nat
            } else {
                copied_bytes(outcomes@.take(i as int))
            },
        decreases outcomes@.len() - i,
    {
        proof {
            assert(outcomes@.take(i as int + 1).drop_last() =~= outcomes@.take(i as int));
            lemma_copy_counts_bounded(outcomes@.take(i as int));
        }
        match outcomes[i] {
            CopyOutcome::Copied(n) => {
                result.migrated_files = result.migrated_files + 1;
                result.total_size = result.total_size.saturating_add(n);
            },
            CopyOutcome::DirFailed | CopyOutcome::CopyFailed => {
                result.failed_files = result.failed_files + 1;
            },
            CopyOutcome::SourceMissing => {},
        }
        i = i + 1;
    }
    assert(outcomes@.take(i as int) =~= outcomes@);
    result
}

/// Without the mirrored layout, every copy lands directly in the target
/// directory (`group_dir_of` is then the target itself) under an on-disk name
/// of its record: the original's or a thumbnail's. Records of the same name
/// therefore share a destination.
pub proof fn lemma_flat_migration_targets(root: Seq<char>, target: Seq<char>, files: Seq<FileInfo>)
    ensures
        forall|i: int|
            0 <= i < migration_steps(root, target, false, files).len() ==> {
                let st = #[trigger] migration_steps(root, target, false, files)[i];
                &&& 0 <= st.0 < files.len()
                &&& (st.2 == join(target, files[st.0].file_name@) || st.2 == join(
                    target,
                    with_suffix(files[st.0].file_name@, "_0"@),
                ) || st.2 == join(target, with_suffix(files[st.0].file_name@, "_720"@)))
            },
    decreases files.len(),
{
    if files.len() > 0 {
        let head = files.drop_last();
        lemma_flat_migration_targets(root, target, head);
        let steps = migration_steps(root, target, false, files);
        let prefix = migration_steps(root, target, false, head);
        let k = files.len() - 1;
        let tail = file_steps(root, target, false, k, files.last());
        assert(steps == prefix + tail);
        assert forall|i: int| 0 <= i < steps.len() implies {
            let st = #[trigger] steps[i];
            &&& 0 <= st.0 < files.len()
            &&& (st.2 == join(target, files[st.0].file_name@) || st.2 == join(
                target,
                with_suffix(files[st.0].file_name@, "_0"@),
            ) || st.2 == join(target, with_suffix(files[st.0].file_name@, "_720"@)))
        } by {
            if i < prefix.len() {
                let st = prefix[i];
                assert(steps[i] == st);
                assert(head[st.0] == files[st.0]);
            } else {
                assert(steps[i] == tail[i - prefix.len()]);
                assert(files[k] == files.last());
            }
        }
    }
}

/// The sources that a run removes, given each step's source and outcome.
pub open spec fn removed_sources(
    delete_after_migrate: bool,
    sources: Seq<Seq<char>>,
    outcomes: Seq<CopyOutcome>,
) -> Set<Seq<char>> {
    Set::new(
        |p: Seq<char>|
            exists|j: int|
                0 <= j < sources.len() && j < outcomes.len() && sources[j] == p && removes_source(
                    delete_after_migrate,
                    #[trigger] outcomes[j],
                ),
    )
}

/// A failed copy never costs its source: when step `i` could not be copied,
/// and no other step with the same source was copied, that source is still
/// there after the run, whether or not sources are removed after migration.
pub proof fn lemma_failed_copy_keeps_source(
    delete_after_migrate: bool,
    sources: Seq<Seq<char>>,
    outcomes: Seq<CopyOutcome>,
    present: Set<Seq<char>>,
    i: int,
)
    requires
        sources.len() == outcomes.len(),
        0 <= i < sources.len(),
        outcomes[i] == CopyOutcome::DirFailed || outcomes[i] == CopyOutcome::CopyFailed,
        present.contains(sources[i]),
        forall|j: int|
            0 <= j < sources.len() && sources[j] == sources[i] ==> !(#[trigger] outcomes[j] is Copied),
    ensures
        present.difference(removed_sources(delete_after_migrate, sources, outcomes)).contains(
            sources[i],
        ),
{
}

} // verus!
