use rust_log_collector::catalog::{validate_catalog, Config, ConfigError};
use rust_log_collector::level::LogLevel;
use rust_log_collector::log_model::{Log, LogRequest, PersistError};
use rust_log_collector::parse::ALogFile;

fn request(id: &str, created_at: &str) -> LogRequest {
    LogRequest {
        level: LogLevel::INFO,
        my_service_id: id.to_string(),
        line_content: "INFO ok".to_string(),
        created_at: created_at.to_string(),
    }
}

#[test]
fn valid_request_converts_with_exact_millis() {
    let item = request("697dff2cbfc969fe967002b7", "2024-05-30T10:00:00.000Z");

    let log = Log::try_from_request(&item).expect("a well-formed request must convert");

    assert_eq!(log.my_service_id, "697dff2cbfc969fe967002b7");
    assert_eq!(log.level, LogLevel::INFO);
    assert_eq!(log.line_content, "INFO ok");
    assert_eq!(log.created_at_millis, 1_717_063_200_000);
}

#[test]
fn offset_timestamps_resolve_to_utc() {
    let item = request("697dff2cbfc969fe967002b7", "2024-05-30T12:00:00.000+02:00");

    let log = Log::try_from_request(&item).expect("an offset timestamp must convert");

    assert_eq!(log.created_at_millis, 1_717_063_200_000);
}

#[test]
fn malformed_service_id_is_rejected() {
    let short = request("697dff2c", "2024-05-30T10:00:00.000Z");
    assert!(matches!(Log::try_from_request(&short), Err(PersistError::InvalidServiceId)));

    let not_hex = request("697dff2cbfc969fe967002zz", "2024-05-30T10:00:00.000Z");
    assert!(matches!(Log::try_from_request(&not_hex), Err(PersistError::InvalidServiceId)));
}

#[test]
fn malformed_timestamp_is_rejected() {
    let item = request("697dff2cbfc969fe967002b7", "not a date");

    assert!(matches!(Log::try_from_request(&item), Err(PersistError::InvalidTimestamp)));
}

#[test]
fn empty_batch_is_a_no_op_success() {
    let logs = Log::from_bulk(&Vec::new()).expect("an empty batch must convert");

    assert_eq!(logs.len(), 0);
}

#[test]
fn whole_batch_converts_or_first_error_wins() {
    let good = vec![
        request("697dff2cbfc969fe967002b7", "2024-05-30T10:00:00.000Z"),
        request("697dff2cbfc969fe967002b8", "2024-05-30T10:00:01.000Z"),
    ];
    let logs = Log::from_bulk(&good).expect("a fully valid batch must convert");
    assert_eq!(logs.len(), 2);
    assert_eq!(logs[1].created_at_millis, 1_717_063_201_000);

    let mixed = vec![
        request("697dff2cbfc969fe967002b7", "nope"),
        request("bad id", "2024-05-30T10:00:00.000Z"),
    ];
    assert!(matches!(Log::from_bulk(&mixed), Err(PersistError::InvalidTimestamp)));
}

#[test]
fn ingested_entries_carry_a_parsable_timestamp() {
    let mut store = ALogFile { application_name: "payments".to_string(), logs_in_file: Vec::new() };

    store.ingest_content("697dff2cbfc969fe967002b7", "INFO ok\nboom ERROR\n");

    assert_eq!(store.application_name, "payments");
    assert_eq!(store.logs_in_file.len(), 2);
    let stamp = store.logs_in_file[0].created_at.clone();
    assert!(stamp.len() >= 24);
    assert_eq!(store.logs_in_file[1].created_at, stamp);
    // the stamp the pipeline writes is itself a valid RFC 3339 instant,
    // so the sink accepts what the parser produced
    assert!(chrono::DateTime::parse_from_rfc3339(&stamp).is_ok());
    let logs = Log::from_bulk(&store.logs_in_file).expect("ingested entries must convert");
    assert_eq!(logs.len(), 2);
}

#[test]
fn duplicate_application_names_are_rejected() {
    let unique = vec![
        Config {
            application_name: "payments".to_string(),
            log_location: "/logs/payments".to_string(),
            service_id: None,
        },
        Config {
            application_name: "billing".to_string(),
            log_location: "/logs/billing".to_string(),
            service_id: None,
        },
    ];
    assert!(validate_catalog(&unique).is_ok());

    let duplicated = vec![
        Config {
            application_name: "payments".to_string(),
            log_location: "/logs/a".to_string(),
            service_id: None,
        },
        Config {
            application_name: "payments".to_string(),
            log_location: "/logs/b".to_string(),
            service_id: None,
        },
    ];
    assert_eq!(validate_catalog(&duplicated), Err(ConfigError::DuplicateApplicationName));
}
