use qqcleaner::keys::{Command, Key};
use qqcleaner::app::{
    calculate_deletable_size, compare_stats, filter_indices, group_passes, ActivityFilter, App,
    AppTab, BatchKind, ConfirmAction, GroupFilter, GroupRunResult, LogLevel, SortBy,
};
use qqcleaner::models::{FileInfo, GroupStats};
use qqcleaner::time_range::TimeRange;

fn rec(time: i64, size: Option<u64>) -> FileInfo {
    FileInfo {
        client_seq: 0,
        msg_random: 0,
        msg_id: 0,
        filepath: String::new(),
        thumbpath: String::new(),
        nt_uid: String::new(),
        peer_uid: "g".to_string(),
        chat_type: 2,
        element_type: 0,
        sub_element_type: 0,
        file_name: "f.jpg".to_string(),
        file_size: 0,
        msg_time: time,
        original: 0,
        actual_size: size,
    }
}

fn group(name: &str, files: Vec<FileInfo>) -> GroupStats {
    GroupStats::from_files(name.to_string(), name.to_string(), files).unwrap()
}

const MARCH_2024: i64 = 1709251200;
const DAY: i64 = 86400;

fn no_filter() -> GroupFilter {
    GroupFilter { min_size: 0, min_file_count: 0, hide_empty: false, activity: ActivityFilter::All }
}

#[test]
fn hide_empty_excludes_groups_without_existing_files() {
    let empty = group("e", vec![rec(1, None), rec(2, None)]);
    let zero_byte = group("z", vec![rec(1, Some(0))]);
    let filter = GroupFilter { hide_empty: true, ..no_filter() };
    assert_eq!(empty.exist_count, 0);
    assert!(!group_passes(&empty, &filter, MARCH_2024));
    assert_eq!(zero_byte.exist_count, 1);
    assert_eq!(zero_byte.total_size, 0);
    assert!(group_passes(&zero_byte, &filter, MARCH_2024));
}

#[test]
fn raising_minimums_never_enlarges_view() {
    let stats = vec![
        group("a", vec![rec(1, Some(100))]),
        group("b", vec![rec(1, Some(10)), rec(2, Some(10))]),
        group("c", vec![rec(1, Some(1000)), rec(2, None), rec(3, None)]),
    ];
    let loose = filter_indices(&stats, &no_filter(), MARCH_2024);
    let by_size = filter_indices(&stats, &GroupFilter { min_size: 50, ..no_filter() }, MARCH_2024);
    let by_count =
        filter_indices(&stats, &GroupFilter { min_size: 50, min_file_count: 2, ..no_filter() }, MARCH_2024);
    assert_eq!(loose, vec![0, 1, 2]);
    assert_eq!(by_size, vec![0, 2]);
    assert_eq!(by_count, vec![2]);
}

#[test]
fn activity_conditions_use_latest_message() {
    let recent = group("r", vec![rec(MARCH_2024 - 100 * DAY, Some(1)), rec(MARCH_2024 - DAY, Some(1))]);
    let old = group("o", vec![rec(MARCH_2024 - 100 * DAY, Some(1))]);
    let none = GroupStats::from_files("n".to_string(), "n".to_string(), vec![]).unwrap();
    let active = GroupFilter { activity: ActivityFilter::Active(7), ..no_filter() };
    let inactive = GroupFilter { activity: ActivityFilter::Inactive(30), ..no_filter() };
    assert!(group_passes(&recent, &active, MARCH_2024));
    assert!(!group_passes(&old, &active, MARCH_2024));
    assert!(group_passes(&old, &inactive, MARCH_2024));
    assert!(!group_passes(&recent, &inactive, MARCH_2024));
    assert!(group_passes(&none, &inactive, MARCH_2024));
}

fn app_with(stats: Vec<GroupStats>) -> App {
    App::new(stats, vec!["/backup/a".to_string(), "/backup/b".to_string()])
}

#[test]
fn new_state_shows_nonempty_groups_by_default() {
    let app = app_with(vec![group("a", vec![rec(1, Some(5))]), group("b", vec![rec(1, None)])]);
    assert_eq!(app.filtered_stats, vec![0]);
    assert_eq!(app.selected_groups, vec![false, false]);
    assert_eq!(app.migrate_target_path, "/backup/a");
    assert_eq!(app.logs.len(), 1);
    assert_eq!(app.logs[0].level, LogLevel::Info);
    assert_eq!(app.logs[0].message, "应用启动成功");
}

#[test]
fn cursor_wraps_and_is_clamped_when_view_shrinks() {
    let mut app = app_with(vec![
        group("a", vec![rec(1, Some(5))]),
        group("b", vec![rec(1, Some(3))]),
        group("c", vec![rec(1, Some(1))]),
    ]);
    app.prev_item();
    assert_eq!(app.selected_index, 2);
    app.next_item();
    assert_eq!(app.selected_index, 0);
    app.prev_item();
    app.filter.min_size = 4;
    app.apply_filter_at(MARCH_2024);
    assert_eq!(app.filtered_stats, vec![0]);
    assert_eq!(app.selected_index, 0);
    app.filter.min_size = 100;
    app.apply_filter_at(MARCH_2024);
    assert!(app.filtered_stats.is_empty());
    assert_eq!(app.selected_index, 0);
}

#[test]
fn selection_tracks_original_positions() {
    let mut app = app_with(vec![
        group("a", vec![rec(1, Some(5))]),
        group("b", vec![rec(1, None)]),
        group("c", vec![rec(1, Some(7))]),
    ]);
    assert_eq!(app.filtered_stats, vec![0, 2]);
    app.next_item();
    app.toggle_selected_group();
    assert_eq!(app.selected_groups, vec![false, false, true]);
    assert_eq!(app.selected_count(), 1);
    assert_eq!(app.selected_total_size(), 7);
    app.select_all_filtered();
    assert_eq!(app.selected_groups, vec![true, false, true]);
    assert_eq!(app.logs.last().unwrap().message, "已选择 2 个群组");
    app.deselect_all();
    assert_eq!(app.selected_groups, vec![false, false, false]);
}

#[test]
fn sorting_reorders_and_refilters() {
    let mut app = app_with(vec![
        group("b", vec![rec(1, Some(5)), rec(2, Some(1))]),
        group("a", vec![rec(1, Some(9))]),
        group("c", vec![rec(1, None)]),
    ]);
    app.sort_by = SortBy::Name;
    app.apply_sort_at(MARCH_2024);
    let names: Vec<&str> = app.stats.iter().map(|g| g.group_name.as_str()).collect();
    assert_eq!(names, vec!["a", "b", "c"]);
    assert_eq!(app.filtered_stats, vec![0, 1]);
    app.sort_by = SortBy::FileCount;
    app.apply_sort_at(MARCH_2024);
    let names: Vec<&str> = app.stats.iter().map(|g| g.group_name.as_str()).collect();
    assert_eq!(names, vec!["b", "a", "c"]);
    app.sort_by = SortBy::Size;
    app.apply_sort();
    let names: Vec<&str> = app.stats.iter().map(|g| g.group_name.as_str()).collect();
    assert_eq!(names, vec!["a", "b", "c"]);
}

#[test]
fn comparison_by_name_uses_code_points() {
    let a = group("ab", vec![]);
    let b = group("b", vec![]);
    let c = group("abc", vec![]);
    assert_eq!(compare_stats(&a, &b, SortBy::Name), std::cmp::Ordering::Less);
    assert_eq!(compare_stats(&c, &a, SortBy::Name), std::cmp::Ordering::Greater);
    assert_eq!(compare_stats(&a, &a, SortBy::Name), std::cmp::Ordering::Equal);
}

#[test]
fn window_projections_do_not_change_groups() {
    let mut app = app_with(vec![group(
        "a",
        vec![rec(MARCH_2024 - 200 * DAY, Some(5)), rec(MARCH_2024 - 200 * DAY, None), rec(MARCH_2024, Some(3))],
    )]);
    app.time_range = TimeRange::DaysAgo(180);
    let g = &app.stats[0];
    assert_eq!(app.group_size_in_range_at(g, MARCH_2024), 5);
    assert_eq!(app.group_exist_count_in_range_at(g, MARCH_2024), 1);
    assert_eq!(app.group_file_count_in_range_at(g, MARCH_2024), 2);
    assert_eq!(app.stats[0].total_size, 8);
    app.toggle_selected_group();
    assert_eq!(app.selected_deletable_size_at(MARCH_2024), 5);
    assert_eq!(calculate_deletable_size(&app.stats, &vec![0, 0, 5], &app.time_range, MARCH_2024), 10);
}

#[test]
fn tabs_presets_and_dialogs() {
    let mut app = app_with(vec![]);
    assert_eq!(AppTab::titles(), vec!["分析", "清理", "迁移"]);
    assert_eq!(AppTab::from_index(7), AppTab::Analysis);
    app.prev_tab();
    assert_eq!(app.current_tab, AppTab::Migrate);
    app.next_tab();
    assert_eq!(app.current_tab, AppTab::Analysis);
    app.next_migrate_path();
    assert_eq!(app.migrate_target_path, "/backup/b");
    app.next_migrate_path();
    assert_eq!(app.migrate_target_path, "/backup/a");
    app.prev_migrate_path();
    assert_eq!(app.migrate_target_path, "/backup/b");
    app.show_confirm(ConfirmAction::Migrate);
    app.toggle_confirm_migrate_option();
    assert!(!app.get_migrate_keep_original());
    app.hide_confirm();
    assert!(app.confirm_action.is_none());
    app.open_filter_dialog();
    app.filter_next_item();
    let mut seen = Vec::new();
    for _ in 0..7 {
        app.toggle_filter_option();
        seen.push(app.temp_filter.activity);
    }
    assert_eq!(
        seen,
        vec![
            ActivityFilter::Active(7),
            ActivityFilter::Active(30),
            ActivityFilter::Active(90),
            ActivityFilter::Inactive(7),
            ActivityFilter::Inactive(30),
            ActivityFilter::Inactive(90),
            ActivityFilter::All,
        ]
    );
    app.filter_prev_item();
    app.toggle_filter_option();
    assert!(!app.temp_filter.hide_empty);
    app.apply_filter_dialog();
    assert!(!app.filter.hide_empty);
    assert!(!app.show_filter_dialog);
}

#[test]
fn progress_lifecycle() {
    let mut app = app_with(vec![]);
    app.start_operation(4);
    app.update_progress(2, "x.jpg");
    assert_eq!(app.progress.current, 2);
    assert_eq!(app.progress.current_file, "x.jpg");
    assert!(app.progress.is_running);
    app.finish_operation();
    assert!(!app.progress.is_running);
    assert_eq!(app.progress.total, 4);
}

#[test]
fn keys_map_to_commands_by_state() {
    let mut app = app_with(vec![group("a", vec![rec(1, Some(5))])]);
    assert_eq!(app.key_command(Key::Char('c'), true), Some(Command::Quit));
    assert_eq!(app.key_command(Key::Char('j'), false), None);
    assert_eq!(app.key_command(Key::Char('2'), false), Some(Command::ShowTab(AppTab::Clean)));
    app.current_tab = AppTab::Clean;
    assert_eq!(app.key_command(Key::Char('j'), false), Some(Command::NextItem));
    assert_eq!(app.key_command(Key::Char('t'), false), Some(Command::CycleWindow));
    assert_eq!(app.key_command(Key::Delete, false), Some(Command::RequestClean));
    assert_eq!(app.key_command(Key::Left, false), None);
    app.current_tab = AppTab::Migrate;
    assert_eq!(app.key_command(Key::Enter, false), Some(Command::RequestMigrate));
    assert_eq!(app.key_command(Key::Left, false), Some(Command::PrevPreset));
    app.show_filter_dialog = true;
    assert_eq!(app.key_command(Key::Enter, false), Some(Command::FilterToggle));
    app.show_help = true;
    assert_eq!(app.key_command(Key::Char('q'), false), None);
    assert_eq!(app.key_command(Key::Esc, false), Some(Command::ToggleHelp));
}

#[test]
fn request_needs_a_selection() {
    let mut app = app_with(vec![group("a", vec![rec(1, Some(5))])]);
    app.request(ConfirmAction::Clean);
    assert!(!app.show_confirm_dialog);
    assert_eq!(app.logs.last().unwrap().level, LogLevel::Warning);
    assert_eq!(app.logs.last().unwrap().message, "请先选择要清理的群组");
    app.toggle_selected_group();
    app.request(ConfirmAction::Migrate);
    assert!(app.show_confirm_dialog);
    assert_eq!(app.confirm_action, Some(ConfirmAction::Migrate));
}

#[test]
fn cycles_of_order_and_window() {
    assert_eq!(SortBy::Size.next(), SortBy::FileCount);
    assert_eq!(SortBy::Name.next(), SortBy::Size);
    assert_eq!(TimeRange::All.next_window(), TimeRange::DaysAgo(7));
    assert_eq!(TimeRange::DaysAgo(90).next_window(), TimeRange::DaysAgo(180));
    assert_eq!(TimeRange::DaysAgo(180).next_window(), TimeRange::All);
    assert_eq!(LogLevel::Success.label(), "OK");
}

#[test]
fn selection_follows_groups_through_a_sort() {
    let mut app = app_with(vec![group("small", vec![rec(1, Some(1))]), group("big", vec![rec(1, Some(9))])]);
    app.toggle_selected_group();
    assert_eq!(app.selected_groups, vec![true, false]);
    app.sort_by = SortBy::Size;
    app.apply_sort_at(MARCH_2024);
    assert_eq!(app.stats[0].group_name, "big");
    assert_eq!(app.selected_groups, vec![false, true]);
    assert_eq!(app.stats[1].group_name, "small");
}

#[test]
fn batch_runs_over_selected_groups_and_ends_cleared() {
    let mut app = app_with(vec![
        group("a", vec![rec(1, Some(5)), rec(2, Some(1))]),
        group("b", vec![rec(1, Some(7))]),
        group("c", vec![rec(1, Some(3)), rec(2, None), rec(3, None)]),
    ]);
    app.selected_groups = vec![true, false, true];
    let targets = app.batch_targets();
    assert_eq!(targets, vec![0, 2]);
    app.start_batch(BatchKind::Clean, &targets);
    assert_eq!(app.progress.total, 5);
    assert!(app.progress.is_running);
    assert_eq!(app.logs.last().unwrap().message, "开始清理 2 个群组");

    let done = GroupRunResult::Finished { succeeded: 3, failed: 1 };
    assert_eq!(done.level(), LogLevel::Warning);
    assert!(app.record_group_result(BatchKind::Clean, 0, done));
    assert_eq!(app.progress.current, 2);
    assert_eq!(app.progress.current_file, "a");
    assert!(!app.record_group_result(BatchKind::Clean, 2, GroupRunResult::SetupFailed));
    assert_eq!(app.progress.current, 2);
    assert_eq!(GroupRunResult::SetupFailed.level(), LogLevel::Error);

    app.finish_batch_at(BatchKind::Clean, MARCH_2024);
    assert!(!app.progress.is_running);
    assert_eq!(app.selected_groups, vec![false, false, false]);
    assert_eq!(app.logs.last().unwrap().message, "清理操作完成");
    let names: Vec<&str> = app.stats.iter().map(|g| g.group_name.as_str()).collect();
    assert_eq!(names, vec!["b", "a", "c"]);
}

#[test]
fn migration_refreshes_only_when_sources_are_deleted() {
    let mut app = app_with(vec![group("a", vec![rec(1, Some(5))])]);
    let copied = GroupRunResult::Finished { succeeded: 2, failed: 0 };
    assert_eq!(copied.level(), LogLevel::Success);
    assert!(!app.record_group_result(BatchKind::Migrate { delete_after_migrate: false }, 0, copied));
    assert!(app.record_group_result(BatchKind::Migrate { delete_after_migrate: true }, 0, copied));
    let nothing = GroupRunResult::Finished { succeeded: 0, failed: 2 };
    assert!(!app.record_group_result(BatchKind::Migrate { delete_after_migrate: true }, 0, nothing));
    assert!(!app.record_group_result(BatchKind::Clean, 0, nothing));
}
