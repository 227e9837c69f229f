use win_count::license::{
    check_license_expiry, check_license_status, is_same_activation, license_entry_verdict,
    license_from_response, license_gate_verdict, license_heartbeat_verdict,
    validate_license_format, ActivationRequest, ActivationResponse, CustomerInfo, LicenseData,
    OfflineLicense,
};
use win_count::update::UpdateInfo;

#[test]
fn the_three_key_formats_are_accepted() {
    assert!(validate_license_format("WC-2025-ABCDE-1234"));
    assert!(validate_license_format("WC-2025-00000-ZZZZ"));
    assert!(validate_license_format("DEMO-1234-5678-9ABC"));
    assert!(validate_license_format("PRO-2024-ARTY-WOOF"));
}

#[test]
fn anything_else_is_refused() {
    for key in [
        "",
        "WC-2025-ABCDE-123",
        "WC-2025-ABCDE-12345",
        "WC-2024-ABCDE-1234",
        "WC-2025-abcde-1234",
        "WC-2025-ABCD-E1234",
        "WC-2025-ABCDE_1234",
        " WC-2025-ABCDE-1234",
        "WC-2025-ABCDE-1234\n",
        "DEMO-1234-5678-9AB",
        "DEMO-1234-5678-9ABCD",
        "DEMO-1234-5678_9ABC",
        "demo-1234-5678-9ABC",
        "PRO-2024-ARTY-WOO",
        "PRO-2024-ARTY-WOOFS",
        "PRO-2024-ÄRTY-WOOF",
        "PRO2024-ARTY-WOOF0",
        "MONTH-AAAA-AAAA-AAAA",
    ] {
        assert!(!validate_license_format(key), "{:?}", key);
    }
}

#[test]
fn the_two_offline_licenses_are_known_by_their_keys() {
    assert_eq!(OfflineLicense::for_key("DEMO-1234-5678-9ABC"), Some(OfflineLicense::Demo));
    assert_eq!(OfflineLicense::for_key("PRO-2024-ARTY-WOOF"), Some(OfflineLicense::Pro));
    assert_eq!(OfflineLicense::for_key("DEMO-1234-5678-9ABD"), None);
    assert_eq!(OfflineLicense::Demo.valid_days(), 30);
    assert_eq!(OfflineLicense::Pro.valid_days(), 365);
}

#[test]
fn offline_licenses_answer_for_the_server() {
    let demo = OfflineLicense::Demo.response("2030-01-01T00:00:00+00:00".to_string());
    assert!(demo.success);
    assert_eq!(demo.message, "Demo license activated");
    assert_eq!(demo.expires_at.as_deref(), Some("2030-01-01T00:00:00+00:00"));
    assert_eq!(demo.features, Some(vec!["basic".to_string(), "premium".to_string()]));
    let customer = demo.customer_info.unwrap();
    assert_eq!((customer.name.as_str(), customer.email.as_str()), ("Demo User", "demo@example.com"));
    let pro = OfflineLicense::Pro.response("later".to_string());
    assert_eq!(pro.message, "Pro license activated");
    assert_eq!(
        pro.features,
        Some(vec!["basic".to_string(), "premium".to_string(), "enterprise".to_string()])
    );
    let customer = pro.customer_info.unwrap();
    assert_eq!((customer.name.as_str(), customer.email.as_str()), ("ArtYWoof", "artywoof@example.com"));
}

#[test]
fn a_successful_answer_becomes_a_license() {
    let response = ActivationResponse {
        success: true,
        message: "ok".to_string(),
        expires_at: Some("2031".to_string()),
        features: None,
        customer_info: Some(CustomerInfo { name: "N".to_string(), email: "E".to_string() }),
    };
    let license =
        license_from_response("WC-2025-ABCDE-1234", "M1".to_string(), "now".to_string(), response)
            .unwrap();
    assert_eq!(license.key, "WC-2025-ABCDE-1234");
    assert_eq!(license.machine_id, "M1");
    assert_eq!(license.activated_at, "now");
    assert_eq!(license.expires_at.as_deref(), Some("2031"));
    assert!(license.features.is_empty());
    assert_eq!(license.customer_info.unwrap().name, "N");
    let license = license_from_response(
        "K",
        "M".to_string(),
        "t".to_string(),
        OfflineLicense::Pro.response("x".to_string()),
    )
    .unwrap();
    assert_eq!(license.features.len(), 3);
}

#[test]
fn a_failed_answer_yields_its_message() {
    let response = ActivationResponse {
        success: false,
        message: "License revoked".to_string(),
        expires_at: None,
        features: None,
        customer_info: None,
    };
    let r = license_from_response("K", "M".to_string(), "t".to_string(), response);
    assert_eq!(r.err(), Some("License revoked".to_string()));
}

#[test]
fn an_activation_is_the_same_for_the_same_key_and_machine() {
    let license = LicenseData {
        key: "K".to_string(),
        machine_id: "M".to_string(),
        activated_at: "t".to_string(),
        customer_info: None,
        expires_at: None,
        features: Vec::new(),
    };
    assert!(is_same_activation(&license, "K", "M"));
    assert!(!is_same_activation(&license, "K", "N"));
    assert!(!is_same_activation(&license, "L", "M"));
}

#[test]
fn an_activation_request_carries_key_machine_and_version() {
    let r = ActivationRequest {
        license_key: "K".to_string(),
        machine_id: "M".to_string(),
        app_version: "1.0.0".to_string(),
    };
    assert_eq!(format!("{:?}", r).contains("1.0.0"), true);
}

#[test]
fn update_info_for_a_found_update() {
    let info = UpdateInfo::found("2.0.0".to_string(), "1.0.0".to_string(), None, Some("d".to_string()));
    assert!(info.available);
    assert_eq!(info.version, "2.0.0");
    assert_eq!(info.current_version, "1.0.0");
    assert_eq!(info.body, "");
    assert_eq!(info.date.as_deref(), Some("d"));
    let info = UpdateInfo::found("2".to_string(), "1".to_string(), Some("notes".to_string()), None);
    assert_eq!(info.body, "notes");
    assert_eq!(info.date, None);
}

#[test]
fn update_info_when_nothing_is_newer() {
    let info = UpdateInfo::up_to_date("1.0.0".to_string());
    assert!(!info.available);
    assert_eq!(info.version, "1.0.0");
    assert_eq!(info.current_version, "1.0.0");
    assert_eq!(info.body, "You are using the latest version");
    assert_eq!(info.date, None);
}

#[test]
fn the_machine_id_is_the_head_of_a_salted_digest() {
    assert_eq!(
        win_count::license::get_machine_id(Ok("abc".to_string())),
        Ok("536A98A9BF3E5C1E".to_string())
    );
    assert_eq!(
        win_count::license::get_machine_id(Ok(String::new())),
        Ok("D2545D52A1DD1B6B".to_string())
    );
    assert_eq!(
        win_count::license::get_machine_id(Err("no id".to_string())),
        Err("Failed to get machine ID: no id".to_string())
    );
}

#[test]
fn digests_are_written_in_lower_case_hexadecimal() {
    assert_eq!(
        win_count::license::sha256_hex(""),
        "e3b0c44298fc1c149afbf4c8996fb92427ae41e4649b934ca495991b7852b855"
    );
    assert_eq!(
        win_count::license::sha256_hex("hello world"),
        "b94d27b9934d3e08a52e52d7da7dabfac484efe37a5380ee9088f7ace2efcde9"
    );
}

#[test]
fn a_heartbeat_is_signed_over_machine_time_and_key() {
    assert_eq!(
        win_count::license::heartbeat_signature("M1", 1700000000, "KEY"),
        "aefc509be5ce40677057a967268634e6608e2c9c147a1398c125ca484a00cd7b"
    );
    assert_eq!(
        win_count::license::heartbeat_signature("M1", -5, "KEY"),
        "eb13b55b15ace3c6f72c36a2e106ed815aad5c51dbf8cb609289fc639dff8298"
    );
}

#[test]
fn the_gate_needs_a_true_success_in_a_successful_answer() {
    assert!(license_gate_verdict(true, r#"{"success":true}"#));
    assert!(!license_gate_verdict(true, r#"{"success":false}"#));
    assert!(!license_gate_verdict(false, r#"{"success":true}"#));
    assert!(!license_gate_verdict(true, r#"{"valid":true}"#));
    assert!(!license_gate_verdict(true, r#"{"success":"true"}"#));
    assert!(!license_gate_verdict(true, "success"));
    assert!(!license_gate_verdict(true, ""));
}

#[test]
fn a_heartbeat_needs_a_true_valid_in_a_successful_answer() {
    assert!(license_heartbeat_verdict(true, r#"{"valid":true}"#));
    assert!(!license_heartbeat_verdict(true, r#"{"valid":false}"#));
    assert!(!license_heartbeat_verdict(false, r#"{"valid":true}"#));
    assert!(!license_heartbeat_verdict(true, r#"{"success":true}"#));
    assert!(!license_heartbeat_verdict(true, "not json"));
}

#[test]
fn an_entered_key_is_judged_by_the_first_sign_in_the_answer() {
    assert!(license_entry_verdict(true, r#"{"success":true,"valid":false}"#));
    assert!(!license_entry_verdict(true, r#"{"success":false,"valid":true}"#));
    assert!(license_entry_verdict(true, r#"{"valid":true,"status":"revoked"}"#));
    assert!(!license_entry_verdict(true, r#"{"valid":false,"status":"valid"}"#));
    assert!(license_entry_verdict(true, r#"{"status":"valid"}"#));
    assert!(license_entry_verdict(true, r#"{"status":"success"}"#));
    assert!(!license_entry_verdict(true, r#"{"status":"Valid"}"#));
    assert!(!license_entry_verdict(true, r#"{"status":"revoked","note":"was valid"}"#));
    assert!(license_entry_verdict(true, r#"{"result":"VALID"}"#));
    assert!(license_entry_verdict(true, r#"{"state":"Success"}"#));
    assert!(license_entry_verdict(true, r#"{"ok":true}"#));
    assert!(license_entry_verdict(true, r#"{"ok":"TRUE"}"#));
    assert!(license_entry_verdict(true, r#"{"note":"invalid"}"#));
    assert!(!license_entry_verdict(true, r#"{"ok":false}"#));
    assert!(!license_entry_verdict(true, "{}"));
    assert!(!license_entry_verdict(true, "valid"));
    assert!(!license_entry_verdict(true, ""));
    assert!(!license_entry_verdict(false, r#"{"success":true}"#));
}

fn license_that_expires(expires_at: Option<&str>) -> LicenseData {
    LicenseData {
        key: "K".to_string(),
        machine_id: "M".to_string(),
        activated_at: "t".to_string(),
        customer_info: None,
        expires_at: expires_at.map(|e| e.to_string()),
        features: Vec::new(),
    }
}

#[test]
fn a_license_expires_after_its_last_instant() {
    let license = license_that_expires(Some("2023-11-14T22:13:20+00:00"));
    assert_eq!(check_license_expiry(&license, 1700000000, 0), Ok(()));
    assert_eq!(check_license_expiry(&license, 1699999999, 999_999_999), Ok(()));
    assert_eq!(
        check_license_expiry(&license, 1700000000, 1),
        Err("License has expired".to_string())
    );
    assert_eq!(
        check_license_expiry(&license, 1700000001, 0),
        Err("License has expired".to_string())
    );
    let license = license_that_expires(Some("2023-11-15T05:13:20.5+07:00"));
    assert_eq!(check_license_expiry(&license, 1700000000, 500_000_000), Ok(()));
    assert_eq!(
        check_license_expiry(&license, 1700000000, 500_000_001),
        Err("License has expired".to_string())
    );
    assert_eq!(check_license_expiry(&license_that_expires(None), i64::MAX, 0), Ok(()));
}

#[test]
fn an_unreadable_expiry_is_an_error() {
    let e = check_license_expiry(&license_that_expires(Some("tomorrow")), 0, 0).unwrap_err();
    assert!(e.starts_with("Invalid expiration date: "));
    assert!(e.len() > "Invalid expiration date: ".len());
    assert!(check_license_expiry(&license_that_expires(Some("")), 0, 0).is_err());
    assert!(check_license_expiry(&license_that_expires(Some("2023-11-14")), 0, 0).is_err());
}

#[test]
fn the_status_of_a_license_follows_expiry_then_the_server() {
    let license = license_that_expires(Some("2023-11-14T22:13:20Z"));
    assert_eq!(check_license_status(&license, 1600000000, 0, Some(true)), Ok(true));
    assert_eq!(check_license_status(&license, 1600000000, 0, Some(false)), Ok(false));
    assert_eq!(check_license_status(&license, 1600000000, 0, None), Ok(true));
    assert_eq!(
        check_license_status(&license, 1800000000, 0, Some(true)),
        Err("License has expired".to_string())
    );
    assert!(check_license_status(&license_that_expires(Some("x")), 0, 0, Some(true)).is_err());
}
