use qqcleaner::config::Config;
use qqcleaner::decryptor::Decryptor;
use qqcleaner::event::EventHandler;
use qqcleaner::logger::Logger;
use qqcleaner::text::{format_bytes, truncate};
use qqcleaner::time_range::TimeRange;

#[test]
fn byte_sizes_in_binary_units() {
    assert_eq!(format_bytes(0), "0 B");
    assert_eq!(format_bytes(1023), "1023 B");
    assert_eq!(format_bytes(1024), "1.00 KB");
    assert_eq!(format_bytes(1536), "1.50 KB");
    assert_eq!(format_bytes(1048576), "1.00 MB");
    assert_eq!(format_bytes(1610612736), "1.50 GB");
    assert_eq!(format_bytes(5 * 1073741824), "5.00 GB");
}

#[test]
fn byte_sizes_round_like_float_formatting() {
    for b in [1029u64, 1152, 1153, 1048575, 123456789, 1073741823, 999999999999] {
        let expected = if b >= 1073741824 {
            format!("{:.2} GB", b as f64 / 1073741824.0)
        } else if b >= 1048576 {
            format!("{:.2} MB", b as f64 / 1048576.0)
        } else if b >= 1024 {
            format!("{:.2} KB", b as f64 / 1024.0)
        } else {
            format!("{} B", b)
        };
        assert_eq!(format_bytes(b), expected, "bytes = {}", b);
    }
}

#[test]
fn truncation_for_display() {
    assert_eq!(truncate("hello world", 8), "hello...");
    assert_eq!(truncate("short", 8), "short");
    assert_eq!(truncate("群组名称很长很长", 5), "群组...");
}

#[test]
fn time_window_descriptions() {
    assert_eq!(TimeRange::All.description(), "全部时间");
    assert_eq!(TimeRange::DaysAgo(30).description(), "30 天前");
    assert_eq!(TimeRange::DaysAgo(7).display_text(), "7 天前（保留最近 7 天）");
    assert_eq!(TimeRange::All.display_text(), "全部时间（删除所有文件）");
}

#[test]
fn time_window_cutoff() {
    let now = 1709251200;
    assert!(TimeRange::All.should_delete(now + 1000));
    assert!(TimeRange::DaysAgo(1).should_delete_at(now, now - 86401));
    assert!(!TimeRange::DaysAgo(1).should_delete_at(now, now - 86400));
    assert!(!TimeRange::DaysAgo(i64::MAX).should_delete_at(now, i64::MIN));
    assert!(TimeRange::DaysAgo(1).should_delete(0));
}

#[test]
fn configuration_defaults_and_paths() {
    let c = Config::default();
    assert_eq!(c.database.db_dir, "nt_db");
    assert_eq!(c.get_files_db_path_in("/w"), "/w/files_in_chat.clean.db");
    assert_eq!(c.get_group_db_path_in("/w"), "/w/group_info.clean.db");
    assert_eq!(
        c.get_qq_base_dir_in("/home/u"),
        "/home/u/Library/Containers/com.tencent.qq/Data/Library/Application Support/QQ"
    );
}

#[test]
fn decrypted_copy_names() {
    assert_eq!(Decryptor::output_name("files_in_chat.db"), "files_in_chat.clean.db");
    assert_eq!(Decryptor::output_name("a.db.db"), "a.clean.db");
    assert_eq!(Decryptor::output_name("plain"), "plain.clean.db");
    let d = Decryptor::with_key_path("/k/sqlcipher.key".to_string());
    assert_eq!(d.get_key_path(), "/k/sqlcipher.key");
}

#[test]
fn log_lines_pad_level() {
    assert_eq!(Logger::log_line("12:00:00", "OK", "hi"), "[12:00:00] OK    hi");
    assert_eq!(Logger::log_line("12:00:00", "WARNING", "x"), "[12:00:00] WARNING x");
    let l = Logger::with_path("/tmp/a.log".to_string());
    assert_eq!(l.get_log_path(), "/tmp/a.log");
    let _ = EventHandler::new();
}
