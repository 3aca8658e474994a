use qqcleaner::migrator::{
    migrate_group_files, should_remove_source, CopyOutcome, MigrateOptions, Migrator,
};
use qqcleaner::models::{FileInfo, GroupStats};

fn rec(name: &str, time: i64, size: Option<u64>) -> FileInfo {
    FileInfo {
        client_seq: 0,
        msg_random: 0,
        msg_id: 0,
        filepath: String::new(),
        thumbpath: String::new(),
        nt_uid: String::new(),
        peer_uid: "g".to_string(),
        chat_type: 2,
        element_type: 0,
        sub_element_type: 0,
        file_name: name.to_string(),
        file_size: 0,
        msg_time: time,
        original: 0,
        actual_size: size,
    }
}

const MARCH_2024: i64 = 1709251200;

fn stats() -> GroupStats {
    GroupStats::from_files(
        "123".to_string(),
        "Team".to_string(),
        vec![rec("p.png", MARCH_2024, Some(10)), rec("q.png", MARCH_2024, None)],
    )
    .unwrap()
}

#[test]
fn flat_migration_puts_original_and_thumbnails_together() {
    let migrator = Migrator::new("/data".to_string());
    let options = MigrateOptions {
        target_dir: "/out".to_string(),
        keep_structure: false,
        delete_after_migrate: false,
    };
    let s = stats();
    let dir = Migrator::group_dir(&s, &options);
    assert_eq!(dir, "/out");
    let steps = migrator.get_file_paths(&s, &dir, options.keep_structure);
    let pairs: Vec<(usize, &str, &str)> =
        steps.iter().map(|c| (c.file_index, c.source.as_str(), c.destination.as_str())).collect();
    assert_eq!(
        pairs,
        vec![
            (0, "/data/2024-03/Ori/p.png", "/out/p.png"),
            (0, "/data/2024-03/Thumb/p_0.png", "/out/p_0.png"),
            (0, "/data/2024-03/Thumb/p_720.png", "/out/p_720.png"),
        ]
    );
}

#[test]
fn structured_migration_mirrors_layout_per_group() {
    let migrator = Migrator::new("/data".to_string());
    let options = MigrateOptions::default();
    assert_eq!(options.target_dir, "./backup");
    let s = stats();
    let dir = Migrator::group_dir(&s, &options);
    assert_eq!(dir, "./backup/Team_123");
    let steps = migrator.get_file_paths(&s, &dir, true);
    assert_eq!(steps.len(), 3);
    assert_eq!(steps[0].destination, "./backup/Team_123/2024-03/Ori/p.png");
    assert_eq!(steps[2].destination, "./backup/Team_123/2024-03/Thumb/p_720.png");
}

#[test]
fn failed_copy_never_removes_source() {
    let options = MigrateOptions { delete_after_migrate: true, ..MigrateOptions::default() };
    assert!(!should_remove_source(&options, CopyOutcome::CopyFailed));
    assert!(!should_remove_source(&options, CopyOutcome::DirFailed));
    assert!(!should_remove_source(&options, CopyOutcome::SourceMissing));
    assert!(should_remove_source(&options, CopyOutcome::Copied(4)));
    assert!(!should_remove_source(&MigrateOptions::default(), CopyOutcome::Copied(4)));
}

#[test]
fn migration_counts_copies_failures_and_bytes() {
    let r = migrate_group_files(&vec![
        CopyOutcome::Copied(7),
        CopyOutcome::SourceMissing,
        CopyOutcome::CopyFailed,
        CopyOutcome::DirFailed,
        CopyOutcome::Copied(5),
    ]);
    assert_eq!(r.migrated_files, 2);
    assert_eq!(r.failed_files, 2);
    assert_eq!(r.total_size, 12);
}

#[test]
fn thumbnail_names_for_migration() {
    assert_eq!(Migrator::get_thumb_filenames("v.mp4"), vec!["v_0.mp4", "v_720.mp4"]);
}
