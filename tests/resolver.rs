use qqcleaner::calendar::{month_dir_text, time_dir};
use qqcleaner::file_checker::{
    display_name, group_files_by_peer, size_from_probes, tally_deletions, FileChecker,
    RemoveOutcome,
};
use qqcleaner::models::{FileInfo, GroupInfo, GroupStats};
use qqcleaner::time_range::TimeRange;

fn rec(name: &str, peer: &str, chat_type: i64, time: i64, size: Option<u64>) -> FileInfo {
    FileInfo {
        client_seq: 0,
        msg_random: 0,
        msg_id: 0,
        filepath: String::new(),
        thumbpath: String::new(),
        nt_uid: String::new(),
        peer_uid: peer.to_string(),
        chat_type,
        element_type: 0,
        sub_element_type: 0,
        file_name: name.to_string(),
        file_size: 0,
        msg_time: time,
        original: 0,
        actual_size: size,
    }
}

const MARCH_2024: i64 = 1709251200;

#[test]
fn month_directory_from_timestamp() {
    assert_eq!(time_dir(0), "1970-01");
    assert_eq!(time_dir(MARCH_2024), "2024-03");
    assert_eq!(time_dir(1703980800), "2023-12");
    assert_eq!(time_dir(-1), "1969-12");
}

#[test]
fn month_directory_of_unrepresentable_timestamp_is_epoch() {
    assert_eq!(time_dir(i64::MIN), "1970-01");
    assert_eq!(time_dir(i64::MAX), "1970-01");
}

#[test]
fn month_directory_text_pads_month() {
    assert_eq!(month_dir_text(2024, 3), "2024-03");
    assert_eq!(month_dir_text(2023, 11), "2023-11");
    assert_eq!(month_dir_text(-44, 1), "-44-01");
}

#[test]
fn thumbnail_names_insert_before_extension() {
    assert_eq!(FileChecker::get_thumb_filenames("a.jpg"), vec!["a_0.jpg", "a_720.jpg"]);
    assert_eq!(FileChecker::get_thumb_filenames("a.b.png"), vec!["a.b_0.png", "a.b_720.png"]);
    assert_eq!(FileChecker::get_thumb_filenames("noext"), vec!["noext_0", "noext_720"]);
    assert_eq!(FileChecker::get_thumb_filenames(".hidden"), vec!["_0.hidden", "_720.hidden"]);
}

#[test]
fn candidate_paths_follow_month_layout() {
    let checker = FileChecker::new("/data".to_string());
    assert_eq!(
        checker.candidate_paths("x.jpg", MARCH_2024),
        vec![
            "/data/2024-03/Ori/x.jpg",
            "/data/2024-03/Thumb/x_0.jpg",
            "/data/2024-03/Thumb/x_720.jpg",
        ]
    );
}

#[test]
fn nameless_record_is_not_probed_and_stays_missing() {
    let checker = FileChecker::new("/data".to_string());
    let f = rec("", "g", 2, MARCH_2024, Some(9));
    assert!(checker.probe_paths(&f).is_empty());
    let out = checker.check_files_exist_with_size(&vec![f], &vec![vec![Some(5)]]);
    assert_eq!(out[0].actual_size, None);
}

#[test]
fn resolution_sums_found_sizes() {
    assert_eq!(size_from_probes(&vec![Some(10), None, Some(5)]), Some(15));
    assert_eq!(size_from_probes(&vec![None, None, None]), None);
    assert_eq!(size_from_probes(&vec![Some(0), None]), None);
    assert_eq!(size_from_probes(&vec![Some(u64::MAX), Some(1)]), Some(u64::MAX));
}

#[test]
fn resolution_keeps_record_order_and_fields() {
    let checker = FileChecker::new("/data".to_string());
    let files = vec![rec("a.jpg", "g", 2, 5, None), rec("b.jpg", "g", 2, 6, Some(1))];
    let out = checker.check_files_exist_with_size(&files, &vec![vec![Some(3), Some(4)], vec![]]);
    assert_eq!(out.len(), 2);
    assert_eq!(out[0].file_name, "a.jpg");
    assert_eq!(out[0].actual_size, Some(7));
    assert_eq!(out[1].file_name, "b.jpg");
    assert_eq!(out[1].actual_size, None);
    assert_eq!(out[1].msg_time, 6);
}

#[test]
fn counters_agree_after_aggregation() {
    let files = vec![
        rec("a", "g", 2, 1, Some(10)),
        rec("b", "g", 2, 2, None),
        rec("c", "g", 2, 3, Some(5)),
    ];
    let g = GroupStats::from_files("g".to_string(), "G".to_string(), files).unwrap();
    assert_eq!(g.file_count, 3);
    assert_eq!(g.exist_count, 2);
    assert_eq!(g.missing_count, 1);
    assert_eq!(g.file_count, g.exist_count + g.missing_count);
    assert_eq!(g.total_size, 15);
    assert_eq!(g.format_size(), "15 B");
}

#[test]
fn aggregation_refuses_total_past_u64() {
    let files = vec![rec("a", "g", 2, 1, Some(u64::MAX)), rec("b", "g", 2, 2, Some(1))];
    assert!(GroupStats::from_files("g".to_string(), "G".to_string(), files).is_none());
}

#[test]
fn counters_agree_after_reaggregation() {
    let checker = FileChecker::new("/data".to_string());
    let files = vec![rec("a", "g", 2, 1, Some(10)), rec("b", "g", 2, 2, Some(20))];
    let mut g = GroupStats::from_files("g".to_string(), "G".to_string(), files).unwrap();
    let ok = checker.update_group_stats(&mut g, &vec![vec![None, None, None], vec![Some(4)]]);
    assert!(ok);
    assert_eq!(g.file_count, 2);
    assert_eq!(g.exist_count, 1);
    assert_eq!(g.missing_count, 1);
    assert_eq!(g.total_size, 4);
    assert_eq!(g.group_name, "G");
}

#[test]
fn group_statistics_ordered_by_size_then_input() {
    let checker = FileChecker::new("/data".to_string());
    let groups = vec![GroupInfo {
        group_id: "2".to_string(),
        group_name: "Two".to_string(),
        group_remark: None,
        owner_uid: String::new(),
        create_time: 0,
        max_member: 0,
        member_count: 0,
        quit_flag: 0,
    }];
    let input = vec![
        ("1".to_string(), vec![rec("a", "1", 2, 1, None)]),
        ("2".to_string(), vec![rec("b", "2", 2, 1, None)]),
        ("3".to_string(), vec![rec("c", "3", 2, 1, None)]),
    ];
    let sizes = vec![vec![vec![Some(5)]], vec![vec![Some(9)]], vec![vec![Some(5)]]];
    let stats = checker.generate_group_stats(input, &sizes, &groups).unwrap();
    let ids: Vec<&str> = stats.iter().map(|g| g.group_id.as_str()).collect();
    assert_eq!(ids, vec!["2", "1", "3"]);
    assert_eq!(stats[0].group_name, "Two");
    assert_eq!(stats[1].group_name, "群 1");
    assert_eq!(stats[0].total_size, 9);
}

#[test]
fn display_name_falls_back_to_key() {
    assert_eq!(display_name(&"42".to_string(), &vec![]), "群 42");
}

#[test]
fn partition_keeps_group_chats_in_first_appearance_order() {
    let files = vec![
        rec("a", "g2", 2, 1, None),
        rec("b", "friend", 1, 2, None),
        rec("c", "g1", 2, 3, None),
        rec("d", "g2", 2, 4, None),
    ];
    let parts = group_files_by_peer(&files);
    assert_eq!(parts.len(), 2);
    assert_eq!(parts[0].0, "g2");
    let names: Vec<&str> = parts[0].1.iter().map(|f| f.file_name.as_str()).collect();
    assert_eq!(names, vec!["a", "d"]);
    assert_eq!(parts[1].0, "g1");
    assert_eq!(parts[1].1.len(), 1);
}

#[test]
fn cleaning_counts_removed_and_failed_paths() {
    let outcomes = vec![
        RemoveOutcome::Removed,
        RemoveOutcome::NotFound,
        RemoveOutcome::Failed,
        RemoveOutcome::Removed,
    ];
    assert_eq!(tally_deletions(&outcomes), (2, 1));
}

#[test]
fn second_cleaning_run_finds_nothing() {
    let checker = FileChecker::new("/data".to_string());
    let files = vec![rec("a.jpg", "g", 2, MARCH_2024, Some(3)), rec("", "g", 2, MARCH_2024, None)];
    let plan = checker.deletion_plan_at(&files, None, MARCH_2024);
    assert_eq!(plan.len(), 3);
    let mut present: std::collections::HashSet<String> = plan.iter().cloned().collect();
    let run = |present: &mut std::collections::HashSet<String>| -> (usize, usize) {
        let outcomes: Vec<RemoveOutcome> = checker
            .deletion_plan_at(&files, None, MARCH_2024)
            .iter()
            .map(|p| if present.remove(p) { RemoveOutcome::Removed } else { RemoveOutcome::NotFound })
            .collect();
        tally_deletions(&outcomes)
    };
    assert_eq!(run(&mut present), (3, 0));
    assert_eq!(run(&mut present), (0, 0));
}

#[test]
fn cleaning_window_selects_older_files() {
    let checker = FileChecker::new("/data".to_string());
    let files = vec![
        rec("jan.jpg", "g", 2, 1673740800, Some(1)),
        rec("jun.jpg", "g", 2, 1686787200, Some(1)),
        rec("next.jpg", "g", 2, 1705276800, Some(1)),
    ];
    let window = TimeRange::DaysAgo(180);
    assert!(window.should_delete_at(MARCH_2024, files[0].msg_time));
    assert!(window.should_delete_at(MARCH_2024, files[1].msg_time));
    assert!(!window.should_delete_at(MARCH_2024, files[2].msg_time));
    let plan = checker.deletion_plan_at(&files, Some(window), MARCH_2024);
    assert_eq!(
        plan,
        vec![
            "/data/2023-01/Ori/jan.jpg",
            "/data/2023-01/Thumb/jan_0.jpg",
            "/data/2023-01/Thumb/jan_720.jpg",
            "/data/2023-06/Ori/jun.jpg",
            "/data/2023-06/Thumb/jun_0.jpg",
            "/data/2023-06/Thumb/jun_720.jpg",
        ]
    );
}

#[test]
fn generation_refuses_group_total_past_u64() {
    let checker = FileChecker::new("/data".to_string());
    let input = vec![("1".to_string(), vec![rec("a", "1", 2, 1, None), rec("b", "1", 2, 1, None)])];
    let sizes = vec![vec![vec![Some(u64::MAX)], vec![Some(1)]]];
    assert!(checker.generate_group_stats(input, &sizes, &vec![]).is_none());
}

#[test]
fn reaggregation_past_u64_leaves_group_unchanged() {
    let checker = FileChecker::new("/data".to_string());
    let files = vec![rec("a", "g", 2, 1, Some(1)), rec("b", "g", 2, 2, Some(2))];
    let mut g = GroupStats::from_files("g".to_string(), "G".to_string(), files).unwrap();
    let ok = checker.update_group_stats(&mut g, &vec![vec![Some(u64::MAX)], vec![Some(1)]]);
    assert!(!ok);
    assert_eq!(g.total_size, 3);
    assert_eq!(g.files[0].actual_size, Some(1));
}

#[test]
fn partition_keys_are_distinct() {
    let files = vec![rec("a", "x", 2, 1, None), rec("b", "y", 2, 1, None), rec("c", "x", 2, 1, None)];
    let parts = group_files_by_peer(&files);
    let keys: Vec<&str> = parts.iter().map(|(k, _)| k.as_str()).collect();
    assert_eq!(keys, vec!["x", "y"]);
}
