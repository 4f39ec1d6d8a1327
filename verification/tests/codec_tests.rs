use meterlog::codec::decode;
use meterlog::codec::encode;
use meterlog::codec::MeasurementRecord;

fn body_with(t1: &str, t2: &str, e1: &str, e2: &str, gas: &str) -> String {
    format!(
        "{{\"total_power_import_t1_kwh\":{},\"total_power_import_t2_kwh\":{},\"total_power_export_t1_kwh\":{},\"total_power_export_t2_kwh\":{},\"total_gas_m3\":{}}}",
        t1, t2, e1, e2, gas
    )
}

fn valid_body() -> String {
    body_with("100.1", "200.2", "10.0", "5.0", "50.3")
}

#[test]
fn decode_valid_document() {
    let rec = decode(&valid_body()).unwrap();
    assert_eq!(rec.total_power_import_t1_kwh, "100.1");
    assert_eq!(rec.total_power_import_t2_kwh, "200.2");
    assert_eq!(rec.total_power_export_t1_kwh, "10.0");
    assert_eq!(rec.total_power_export_t2_kwh, "5.0");
    assert_eq!(rec.total_gas_m3, "50.3");
}

#[test]
fn decode_accepts_any_member_order() {
    let body = "{\"total_gas_m3\":50.3,\"total_power_export_t2_kwh\":5.0,\"total_power_import_t1_kwh\":100.1,\"total_power_export_t1_kwh\":10.0,\"total_power_import_t2_kwh\":200.2}";
    let rec = decode(body).unwrap();
    assert_eq!(rec.total_power_import_t1_kwh, "100.1");
    assert_eq!(rec.total_power_import_t2_kwh, "200.2");
    assert_eq!(rec.total_power_export_t1_kwh, "10.0");
    assert_eq!(rec.total_power_export_t2_kwh, "5.0");
    assert_eq!(rec.total_gas_m3, "50.3");
}

#[test]
fn decode_accepts_whitespace() {
    let body = " {\n\t\"total_power_import_t1_kwh\" : 1 , \"total_power_import_t2_kwh\" :\t2, \"total_power_export_t1_kwh\": 3, \"total_power_export_t2_kwh\": 4 , \"total_gas_m3\": 5 }\r\n";
    let rec = decode(body).unwrap();
    assert_eq!(rec.total_power_import_t1_kwh, "1");
    assert_eq!(rec.total_gas_m3, "5");
}

#[test]
fn decode_keeps_sign_and_exponent_tokens() {
    let body = body_with("-1.5e3", "0", "0.5", "1E+2", "7e-1");
    let rec = decode(&body).unwrap();
    assert_eq!(rec.total_power_import_t1_kwh, "-1.5e3");
    assert_eq!(rec.total_power_import_t2_kwh, "0");
    assert_eq!(rec.total_power_export_t1_kwh, "0.5");
    assert_eq!(rec.total_power_export_t2_kwh, "1E+2");
    assert_eq!(rec.total_gas_m3, "7e-1");
}

#[test]
fn decode_rejects_missing_member() {
    let body = "{\"total_power_import_t1_kwh\":100.1,\"total_power_import_t2_kwh\":200.2,\"total_power_export_t1_kwh\":10.0,\"total_power_export_t2_kwh\":5.0}";
    assert!(decode(body).is_err());
}

#[test]
fn decode_rejects_duplicate_member() {
    let body = "{\"total_power_import_t1_kwh\":100.1,\"total_power_import_t1_kwh\":200.2,\"total_power_export_t1_kwh\":10.0,\"total_power_export_t2_kwh\":5.0,\"total_gas_m3\":50.3}";
    assert!(decode(body).is_err());
}

#[test]
fn decode_rejects_unknown_key() {
    let body = "{\"total_power_import_t1_kwh\":100.1,\"total_power_import_t2_kwh\":200.2,\"total_power_export_t1_kwh\":10.0,\"total_power_export_t2_kwh\":5.0,\"wifi_strength\":50.3}";
    assert!(decode(body).is_err());
}

#[test]
fn decode_rejects_non_numeric_value() {
    let body = body_with("\"100.1\"", "200.2", "10.0", "5.0", "50.3");
    assert!(decode(&body).is_err());
}

#[test]
fn decode_rejects_leading_zero() {
    let body = body_with("01", "200.2", "10.0", "5.0", "50.3");
    assert!(decode(&body).is_err());
}

#[test]
fn decode_rejects_truncated_document() {
    let body = "{\"total_power_import_t1_kwh\":100.1,";
    assert!(decode(body).is_err());
}

#[test]
fn decode_rejects_trailing_content() {
    let mut body = valid_body();
    body.push_str("x");
    assert!(decode(&body).is_err());
}

#[test]
fn decode_rejects_sixth_member() {
    let mut body = valid_body();
    body.pop();
    body.push_str(",\"active_power_w\":1}");
    assert!(decode(&body).is_err());
}

#[test]
fn decode_rejects_empty_input() {
    assert!(decode("").is_err());
    assert!(decode("{}").is_err());
}

#[test]
fn encode_decode_round_trips_exactly() {
    let rec = MeasurementRecord {
        total_power_import_t1_kwh: "100.1".to_string(),
        total_power_import_t2_kwh: "200.2".to_string(),
        total_power_export_t1_kwh: "-10.0".to_string(),
        total_power_export_t2_kwh: "5.0e2".to_string(),
        total_gas_m3: "0.333".to_string(),
    };
    let doc = encode(&rec);
    let back = decode(&doc).unwrap();
    assert_eq!(back, rec);
}

#[test]
fn decode_encode_round_trips_exactly() {
    let body = valid_body();
    let rec = decode(&body).unwrap();
    assert_eq!(encode(&rec), body);
}
