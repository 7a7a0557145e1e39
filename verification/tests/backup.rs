use treq_app::backup::{
    auto_backup_due, choices_with, interval_choices, interval_label, keep_choices, keep_label,
    restore_message, safety_name,
};
use treq_app::i18n::Locale;

#[test]
fn restore_report_counts_and_names_the_safety_copy() {
    assert_eq!(
        restore_message(Locale::En, false, "treq-backup-2.zip", 3, 17, "treq-backup-before-restore-9.zip"),
        "Merged: treq-backup-2.zip · 3 collections · 17 requests · safety copy treq-backup-before-restore-9.zip"
    );
    assert_eq!(
        restore_message(Locale::En, true, "b.zip", 0, 0, ""),
        "Replaced with: b.zip · 0 collections · 0 requests"
    );
    assert_eq!(restore_message(Locale::Zh, true, "b.zip", 1, 2, ""), "已覆盖：b.zip · 1 集合 · 2 接口");
}

#[test]
fn safety_copy_of_the_restore_wins_over_the_one_before() {
    assert_eq!(safety_name(Some("core.zip".to_string()), "pre.zip".to_string()), "core.zip");
    assert_eq!(safety_name(Some(String::new()), "pre.zip".to_string()), "pre.zip");
    assert_eq!(safety_name(None, String::new()), "");
}

#[test]
fn automatic_backup_needs_time_and_a_change() {
    assert!(auto_backup_due(true, 11, 10));
    assert!(!auto_backup_due(true, 10, 10));
    assert!(!auto_backup_due(false, 11, 10));
}

#[test]
fn settings_choices_include_an_unusual_current_value_in_order() {
    assert_eq!(interval_choices(60), vec![0, 30, 60, 1440]);
    assert_eq!(interval_choices(45), vec![0, 30, 45, 60, 1440]);
    assert_eq!(interval_choices(5000), vec![0, 30, 60, 1440, 5000]);
    assert_eq!(keep_choices(1), vec![1, 3, 5, 10, 20, 30]);
    assert_eq!(keep_choices(10), vec![3, 5, 10, 20, 30]);
    assert_eq!(choices_with(&[], 7), vec![7]);
}

#[test]
fn interval_and_keep_labels() {
    assert_eq!(interval_label(Locale::En, 0), "Off");
    assert_eq!(interval_label(Locale::En, 1440), "1 day");
    assert_eq!(interval_label(Locale::En, 30), "30 min");
    assert_eq!(interval_label(Locale::Zh, 60), "60 分钟");
    assert_eq!(keep_label(Locale::En, 5), "5 copies");
    assert_eq!(keep_label(Locale::Zh, 10), "10 份");
}
