use meterlog::codec::MeasurementRecord;
use meterlog::logfile::format_row;
use meterlog::logfile::header_line;
use meterlog::logfile::timestamped_row;
use meterlog::logfile::LogFile;

fn sample_record() -> MeasurementRecord {
    MeasurementRecord {
        total_power_import_t1_kwh: "100.1".to_string(),
        total_power_import_t2_kwh: "200.2".to_string(),
        total_power_export_t1_kwh: "10.0".to_string(),
        total_power_export_t2_kwh: "5.0".to_string(),
        total_gas_m3: "50.3".to_string(),
    }
}

#[test]
fn header_names_the_five_columns() {
    assert_eq!(header_line(), "dal,normaal,terug dal,terug normaal,gas");
}

#[test]
fn row_holds_timestamp_then_counters() {
    let row = format_row("2024-01-02 03:04:05 +01:00", &sample_record());
    assert_eq!(row, "2024-01-02 03:04:05 +01:00,100.1,200.2,10.0,5.0,50.3");
}

#[test]
fn create_step_writes_header_at_most_once() {
    let mut log = LogFile::at_fresh_path();
    assert!(!log.is_present());
    log.create_if_absent();
    log.create_if_absent();
    assert!(log.is_present());
    assert_eq!(log.line_count(), 1);
    assert_eq!(log.line_at(0), "dal,normaal,terug dal,terug normaal,gas");
}

#[test]
fn appends_write_header_once_and_one_row_each() {
    let mut log = LogFile::at_fresh_path();
    log.append("t0", &sample_record());
    log.append("t1", &sample_record());
    log.append("t2", &sample_record());
    assert_eq!(log.line_count(), 4);
    assert_eq!(log.line_at(0), "dal,normaal,terug dal,terug normaal,gas");
    assert_eq!(log.line_at(1), "t0,100.1,200.2,10.0,5.0,50.3");
    assert_eq!(log.line_at(2), "t1,100.1,200.2,10.0,5.0,50.3");
    assert_eq!(log.line_at(3), "t2,100.1,200.2,10.0,5.0,50.3");
}

#[test]
fn existing_file_gets_no_header() {
    let mut log = LogFile::at_existing_path(Vec::new());
    log.append("t0", &sample_record());
    assert_eq!(log.line_count(), 1);
    assert_eq!(log.line_at(0), "t0,100.1,200.2,10.0,5.0,50.3");
}

#[test]
fn existing_lines_are_never_rewritten() {
    let mut log = LogFile::at_existing_path(vec![
        "dal,normaal,terug dal,terug normaal,gas".to_string(),
        "t0,1,2,3,4,5".to_string(),
    ]);
    log.create_if_absent();
    log.append("t1", &sample_record());
    assert_eq!(log.line_count(), 3);
    assert_eq!(log.line_at(0), "dal,normaal,terug dal,terug normaal,gas");
    assert_eq!(log.line_at(1), "t0,1,2,3,4,5");
    assert_eq!(log.line_at(2), "t1,100.1,200.2,10.0,5.0,50.3");
}

#[test]
fn timestamped_row_ends_with_the_counters() {
    let row = timestamped_row(&sample_record());
    assert!(row.ends_with(",100.1,200.2,10.0,5.0,50.3"));
    let ts = &row[..row.len() - ",100.1,200.2,10.0,5.0,50.3".len()];
    assert!(!ts.is_empty());
    assert!(!ts.contains(','));
    assert!(!ts.contains('\n'));
}
