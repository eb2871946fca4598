use rust_log_collector::cycle::{build_batch, run_cycle, FileData, ServiceScan};
use rust_log_collector::level::LogLevel;
use rust_log_collector::scan::{Directory, FileEntry, ScanError};

fn file(path: &str, content: Option<&str>) -> FileData {
    FileData { path: path.to_string(), content: content.map(|c| c.to_string()) }
}

#[test]
fn full_cycle_yields_one_batch_per_service() {
    let scans = vec![
        ServiceScan {
            service_id: "697dff2cbfc969fe967002b7".to_string(),
            scan: Ok(vec![file("/logs/payments/app.log", Some("INFO one\n"))]),
        },
        ServiceScan {
            service_id: "697dff2cbfc969fe967002b8".to_string(),
            scan: Ok(vec![file("/logs/billing/app.log", Some("boom ERROR\nWARN two\n"))]),
        },
    ];
    let observed = "2024-05-30T10:00:00.000Z".to_string();

    let batches = run_cycle(&scans, &observed);

    assert_eq!(batches.len(), 2);
    assert_eq!(batches[0].service_id, "697dff2cbfc969fe967002b7");
    assert_eq!(batches[0].entries.len(), 1);
    assert_eq!(batches[0].entries[0].my_service_id, "697dff2cbfc969fe967002b7");
    assert_eq!(batches[1].service_id, "697dff2cbfc969fe967002b8");
    assert_eq!(batches[1].entries.len(), 2);
    assert_eq!(batches[1].entries[0].level, LogLevel::ERROR);
    assert_eq!(batches[1].entries[1].level, LogLevel::WARN);
}

#[test]
fn missing_directory_skips_only_that_service() {
    let scans = vec![
        ServiceScan {
            service_id: "697dff2cbfc969fe967002b7".to_string(),
            scan: Ok(vec![file("/logs/payments/app.log", Some("INFO one\n"))]),
        },
        ServiceScan {
            service_id: "697dff2cbfc969fe967002b9".to_string(),
            scan: Err(ScanError::DirectoryMissing),
        },
        ServiceScan {
            service_id: "697dff2cbfc969fe967002b8".to_string(),
            scan: Ok(vec![file("/logs/billing/app.log", Some("WARN two\n"))]),
        },
    ];
    let observed = "t".to_string();

    let batches = run_cycle(&scans, &observed);

    assert_eq!(batches.len(), 2);
    assert_eq!(batches[0].service_id, "697dff2cbfc969fe967002b7");
    assert_eq!(batches[1].service_id, "697dff2cbfc969fe967002b8");
}

#[test]
fn unreadable_file_contributes_nothing() {
    let sid = "697dff2cbfc969fe967002b7".to_string();
    let files = vec![
        file("/logs/a.log", Some("INFO one\n")),
        file("/logs/b.log", None),
        file("/logs/c.log", Some("DEBUG two\n")),
    ];

    let entries = build_batch(&sid, &files, &"t".to_string());

    assert_eq!(entries.len(), 2);
    assert_eq!(entries[0].line_content, "INFO one");
    assert_eq!(entries[1].line_content, "DEBUG two");
}

#[test]
fn scenario_payments_catalog_single_file() {
    // catalog: one application over one directory
    let mut dir = Directory {
        application_name: "payments".to_string(),
        service_id: Some("697dff2cbfc969fe967002b7".to_string()),
        files: Vec::new(),
    };
    let listing = vec![FileEntry {
        path: "/logs/payments/app.log".to_string(),
        name: "app.log".to_string(),
        is_file: true,
    }];
    dir.select_log_files(&listing);
    assert_eq!(dir.files.len(), 1);

    // the one file holds the lines "INFO ok", "boom ERROR" and a blank
    let scans = vec![ServiceScan {
        service_id: "697dff2cbfc969fe967002b7".to_string(),
        scan: Ok(vec![file(&dir.files[0], Some("INFO ok\nboom ERROR\n\n"))]),
    }];
    let batches = run_cycle(&scans, &"2024-05-30T10:00:00.000Z".to_string());

    // one write call with exactly two entries, the blank line skipped
    assert_eq!(batches.len(), 1);
    assert_eq!(batches[0].entries.len(), 2);
    assert_eq!(batches[0].entries[0].level, LogLevel::INFO);
    assert_eq!(batches[0].entries[1].level, LogLevel::ERROR);
    assert_eq!(batches[0].entries[0].my_service_id, "697dff2cbfc969fe967002b7");
}
