use meterlog::client::device_url;
use meterlog::client::evaluate_response;
use meterlog::logfile::LogFile;
use meterlog::scheduler::delay_for;
use meterlog::scheduler::PollOutcome;

#[test]
fn url_joins_scheme_address_and_path() {
    assert_eq!(device_url("10.0.0.5"), "http://10.0.0.5/api/v1/data");
}

#[test]
fn missing_body_is_a_fetch_failure() {
    let (outcome, rec) = evaluate_response(&None);
    assert_eq!(outcome, PollOutcome::FetchFailure);
    assert!(rec.is_none());
}

#[test]
fn malformed_body_is_a_parse_failure() {
    let (outcome, rec) = evaluate_response(&Some("not json".to_string()));
    assert_eq!(outcome, PollOutcome::ParseFailure);
    assert!(rec.is_none());
}

#[test]
fn well_formed_body_is_a_success() {
    let body = "{\"total_power_import_t1_kwh\":100.1,\"total_power_import_t2_kwh\":200.2,\"total_power_export_t1_kwh\":10.0,\"total_power_export_t2_kwh\":5.0,\"total_gas_m3\":50.3}";
    let (outcome, rec) = evaluate_response(&Some(body.to_string()));
    assert_eq!(outcome, PollOutcome::Success);
    assert_eq!(rec.unwrap().total_gas_m3, "50.3");
}

#[test]
fn supplied_address_to_appended_row() {
    let url = device_url("10.0.0.5");
    assert_eq!(url, "http://10.0.0.5/api/v1/data");
    let body = "{\"total_power_import_t1_kwh\":100.1,\"total_power_import_t2_kwh\":200.2,\"total_power_export_t1_kwh\":10.0,\"total_power_export_t2_kwh\":5.0,\"total_gas_m3\":50.3}";
    let (outcome, rec) = evaluate_response(&Some(body.to_string()));
    assert_eq!(outcome, PollOutcome::Success);
    let rec = rec.unwrap();
    let mut log = LogFile::at_fresh_path();
    log.append("2024-01-02 03:04:05 +01:00", &rec);
    assert_eq!(log.line_count(), 2);
    assert_eq!(log.line_at(0), "dal,normaal,terug dal,terug normaal,gas");
    assert_eq!(
        log.line_at(1),
        "2024-01-02 03:04:05 +01:00,100.1,200.2,10.0,5.0,50.3"
    );
    assert_eq!(delay_for(outcome), 300);
}
