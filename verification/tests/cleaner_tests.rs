use cleancore::cleaner::{
    cache_files_response, cache_summary, clear_report, clear_response, large_files_response,
    large_files_summary, log_files_response, log_summary, not_found_response, preview_response,
    preview_text, reason_of, scan_error_response, summary_response, summarize_sizes,
    trash_files_response, trash_summary, ClearReport, DeleteOutcome, PREVIEW_BYTE_CAP,
};
use cleancore::models::{
    CacheFileModel, LargeFileModel, LogFileModel, ScanSummaryModel, TrashFileModel,
};
use cleancore::response::{DataValue, ResponseStatus};

fn cache_file(path: &str, size: u64) -> CacheFileModel {
    CacheFileModel {
        path: path.to_string(),
        size,
        modified: "2024-01-01 00:00:00".to_string(),
    }
}

#[test]
fn summary_counts_and_sums_sizes() {
    let files = vec![cache_file("/tmp/a", 100), cache_file("/tmp/b", 200), cache_file("/tmp/c", 50)];
    let s = cache_summary(&files);
    assert_eq!(s.fileCount, 3);
    assert_eq!(s.totalSize, 350);
}

#[test]
fn summary_of_empty_scan_is_zero() {
    let s = cache_summary(&vec![]);
    assert_eq!(s.totalSize, 0);
    assert_eq!(s.fileCount, 0);
    let t = trash_summary(&vec![]);
    assert_eq!((t.totalSize, t.fileCount), (0, 0));
    let l = log_summary(&vec![]);
    assert_eq!((l.totalSize, l.fileCount), (0, 0));
    let g = large_files_summary(&vec![]);
    assert_eq!((g.totalSize, g.fileCount), (0, 0));
}

#[test]
fn summary_total_saturates_at_max() {
    let s = summarize_sizes(&vec![u64::MAX, 1]);
    assert_eq!(s.totalSize, u64::MAX);
    assert_eq!(s.fileCount, 2);
}

#[test]
fn summary_response_carries_both_numbers() {
    let r = summary_response(ScanSummaryModel { totalSize: 350, fileCount: 3 });
    assert_eq!(r.status, ResponseStatus::Success);
    let expected = DataValue::Object(vec![
        ("totalSize".to_string(), DataValue::Number(350)),
        ("fileCount".to_string(), DataValue::Number(3)),
    ]);
    assert_eq!(r.data, expected);
}

#[test]
fn empty_cache_scan_returns_empty_array() {
    let r = cache_files_response(vec![]);
    assert_eq!(r.status, ResponseStatus::Success);
    assert_eq!(r.data, DataValue::Array(vec![]));
}

#[test]
fn cache_scan_lists_each_file_in_order() {
    let r = cache_files_response(vec![cache_file("/tmp/a", 7)]);
    let expected = DataValue::Array(vec![DataValue::Object(vec![
        ("path".to_string(), DataValue::Str("/tmp/a".to_string())),
        ("size".to_string(), DataValue::Number(7)),
        ("modified".to_string(), DataValue::Str("2024-01-01 00:00:00".to_string())),
    ])]);
    assert_eq!(r.data, expected);
    assert_eq!(r.message, "cache files scanned");
}

#[test]
fn trash_scan_lists_all_four_fields() {
    let f = TrashFileModel {
        name: "old.txt".to_string(),
        path: "/trash/old.txt".to_string(),
        size: 12,
        deletedDate: "2024-02-02".to_string(),
    };
    let r = trash_files_response(vec![f]);
    let expected = DataValue::Array(vec![DataValue::Object(vec![
        ("name".to_string(), DataValue::Str("old.txt".to_string())),
        ("path".to_string(), DataValue::Str("/trash/old.txt".to_string())),
        ("size".to_string(), DataValue::Number(12)),
        ("deletedDate".to_string(), DataValue::Str("2024-02-02".to_string())),
    ])]);
    assert_eq!(r.data, expected);
}

#[test]
fn clearing_nonexistent_path_is_noop_success() {
    let outcomes = vec![("/nonexistent/path".to_string(), DeleteOutcome::AlreadyAbsent)];
    let report = clear_report(&outcomes);
    assert_eq!(report.deleted, 0);
    assert!(report.failed.is_empty());
    let r = clear_response(report);
    assert_eq!(r.status, ResponseStatus::Success);
}

#[test]
fn clearing_twice_reports_zero_deleted_second_time() {
    let first = clear_report(&vec![("/tmp/x".to_string(), DeleteOutcome::Deleted)]);
    assert_eq!(first.deleted, 1);
    assert!(first.failed.is_empty());
    let second = clear_report(&vec![("/tmp/x".to_string(), DeleteOutcome::AlreadyAbsent)]);
    assert_eq!(second.deleted, 0);
    assert!(second.failed.is_empty());
    let r = clear_response(second);
    assert_eq!(r.status, ResponseStatus::Success);
}

#[test]
fn batch_deletion_preserves_partial_progress() {
    let outcomes = vec![
        ("/tmp/a".to_string(), DeleteOutcome::Deleted),
        ("/tmp/b".to_string(), DeleteOutcome::Denied),
        ("/tmp/c".to_string(), DeleteOutcome::Deleted),
    ];
    let report = clear_report(&outcomes);
    assert_eq!(report.deleted, 2);
    assert_eq!(report.failed.len(), 1);
    assert_eq!(report.failed[0].path, "/tmp/b");
    assert_eq!(report.failed[0].reason, "permission denied");
    let r = clear_response(report);
    assert_eq!(r.status, ResponseStatus::Warning);
}

#[test]
fn io_failure_reason_carries_access_layer_message() {
    let outcomes = vec![(
        "/tmp/busy".to_string(),
        DeleteOutcome::Io("device busy".to_string()),
    )];
    let report = clear_report(&outcomes);
    assert_eq!(report.deleted, 0);
    assert_eq!(report.failed[0].reason, "device busy");
    assert_eq!(reason_of(&DeleteOutcome::Io("device busy".to_string())), "device busy");
}

#[test]
fn clear_response_encodes_deleted_and_failed() {
    let report = clear_report(&vec![
        ("/tmp/a".to_string(), DeleteOutcome::Deleted),
        ("/tmp/b".to_string(), DeleteOutcome::Denied),
    ]);
    let r = clear_response(report);
    let expected = DataValue::Object(vec![
        ("deleted".to_string(), DataValue::Number(1)),
        (
            "failed".to_string(),
            DataValue::Array(vec![DataValue::Object(vec![
                ("path".to_string(), DataValue::Str("/tmp/b".to_string())),
                ("reason".to_string(), DataValue::Str("permission denied".to_string())),
            ])]),
        ),
    ]);
    assert_eq!(r.data, expected);
}

#[test]
fn clear_response_for_untouched_report_is_success() {
    let r = clear_response(ClearReport { deleted: 0, failed: vec![] });
    assert_eq!(r.status, ResponseStatus::Success);
    assert_eq!(r.message, "selected items cleared");
}

#[test]
fn preview_decodes_text_bytes() {
    let bytes = b"hello\nworld".to_vec();
    let t = preview_text(&bytes, 1024);
    assert_eq!(t.as_deref(), Some("hello\nworld"));
}

#[test]
fn preview_never_exceeds_cap() {
    let bytes = vec![b'a'; PREVIEW_BYTE_CAP + 10];
    let t = preview_text(&bytes, PREVIEW_BYTE_CAP).unwrap();
    assert_eq!(t.len(), PREVIEW_BYTE_CAP);
    let small = preview_text(&b"hello".to_vec(), 3);
    assert_eq!(small.as_deref(), Some("hel"));
}

#[test]
fn preview_of_binary_file_is_marked_not_previewable() {
    let bytes = vec![0u8, 159, 146, 150];
    assert_eq!(preview_text(&bytes, 1024), None);
    let r = preview_response(&bytes);
    assert_eq!(r.status, ResponseStatus::Success);
    let expected = DataValue::Object(vec![
        ("previewable".to_string(), DataValue::Bool(false)),
        ("content".to_string(), DataValue::Str(String::new())),
    ]);
    assert_eq!(r.data, expected);
    assert_eq!(r.message, "file is not previewable");
}

#[test]
fn preview_response_carries_text_content() {
    let r = preview_response(&b"log line".to_vec());
    let expected = DataValue::Object(vec![
        ("previewable".to_string(), DataValue::Bool(true)),
        ("content".to_string(), DataValue::Str("log line".to_string())),
    ]);
    assert_eq!(r.data, expected);
}

#[test]
fn missing_file_yields_error_envelope() {
    let r = not_found_response("/gone/file.txt");
    assert_eq!(r.status, ResponseStatus::Error);
    assert_eq!(r.message, "file not found: /gone/file.txt");
    assert_eq!(r.data, DataValue::Str(String::new()));
}

#[test]
fn unreadable_root_yields_error_envelope() {
    let r = scan_error_response("permission denied on /var/cache");
    assert_eq!(r.status, ResponseStatus::Error);
    assert_eq!(r.message, "could not read location: permission denied on /var/cache");
}

#[test]
fn clearing_an_empty_selection_is_success() {
    let report = clear_report(&vec![]);
    assert_eq!(report.deleted, 0);
    assert!(report.failed.is_empty());
    let r = clear_response(report);
    assert_eq!(r.status, ResponseStatus::Success);
}

#[test]
fn log_scan_lists_each_file() {
    let f = LogFileModel {
        path: "/var/log/sys.log".to_string(),
        size: 4096,
        modified: "2024-03-03".to_string(),
    };
    let r = log_files_response(vec![f]);
    let expected = DataValue::Array(vec![DataValue::Object(vec![
        ("path".to_string(), DataValue::Str("/var/log/sys.log".to_string())),
        ("size".to_string(), DataValue::Number(4096)),
        ("modified".to_string(), DataValue::Str("2024-03-03".to_string())),
    ])]);
    assert_eq!(r.data, expected);
    assert_eq!(r.message, "log files scanned");
}

#[test]
fn large_file_scan_lists_each_file() {
    let f = LargeFileModel {
        name: "big.iso".to_string(),
        path: "/home/big.iso".to_string(),
        size: 5_000_000_000,
        modified: "2024-04-04".to_string(),
    };
    let r = large_files_response(vec![f]);
    let expected = DataValue::Array(vec![DataValue::Object(vec![
        ("name".to_string(), DataValue::Str("big.iso".to_string())),
        ("path".to_string(), DataValue::Str("/home/big.iso".to_string())),
        ("size".to_string(), DataValue::Number(5_000_000_000)),
        ("modified".to_string(), DataValue::Str("2024-04-04".to_string())),
    ])]);
    assert_eq!(r.data, expected);
}

#[test]
fn log_and_large_summaries_fold_sizes() {
    let logs = vec![LogFileModel {
        path: "/var/log/sys.log".to_string(),
        size: 4096,
        modified: "2024-03-03".to_string(),
    }];
    let s = log_summary(&logs);
    assert_eq!((s.totalSize, s.fileCount), (4096, 1));
    let larges = vec![
        LargeFileModel {
            name: "big.iso".to_string(),
            path: "/home/big.iso".to_string(),
            size: 5_000_000_000,
            modified: "2024-04-04".to_string(),
        },
        LargeFileModel {
            name: "huge.bin".to_string(),
            path: "/home/huge.bin".to_string(),
            size: 7_000_000_000,
            modified: "2024-04-05".to_string(),
        },
    ];
    let s = large_files_summary(&larges);
    assert_eq!((s.totalSize, s.fileCount), (12_000_000_000, 2));
}
