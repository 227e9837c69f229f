use base64::Engine;
use win_count::promptpay::{
    base64_encode, payment_picture, calculate_crc16_ccitt, check_promptpay_status, clean_phone, create_thai_promptpay_qr,
    generate_license_key, is_payment_expired, license_key_from, new_payment_reference,
    payment_reference, payment_status, simulate_payment_check,
};

#[test]
fn the_checksum_matches_the_known_check_value() {
    assert_eq!(calculate_crc16_ccitt("123456789"), 0x29B1);
    assert_eq!(calculate_crc16_ccitt(""), 0xFFFF);
    assert_eq!(calculate_crc16_ccitt("é"), 0x7ACB);
}

#[test]
fn a_payload_with_an_amount_is_built_field_by_field() {
    assert_eq!(
        create_thai_promptpay_qr("0909783454", Some("100.00"), "PP17000000001234"),
        Ok("00020101021129330016A000000677010111006690978345462200116PP1700000000123453037645406100.005802TH5913Win Count App6007Bangkok63783E".to_string())
    );
}

#[test]
fn a_payload_without_an_amount_leaves_the_field_out() {
    assert_eq!(
        create_thai_promptpay_qr("0909783454", None, "PP1"),
        Ok("00020101021129330016A000000677010111006690978345462160112000000000PP153037645802TH5913Win Count App6007Bangkok6310C2".to_string())
    );
}

#[test]
fn a_nine_digit_phone_is_taken_as_it_is() {
    assert_eq!(
        create_thai_promptpay_qr("812345678", Some("5.50"), "REF"),
        Ok("00020101021129330016A000000677010111006681234567862160112000000000REF530376454045.505802TH5913Win Count App6007Bangkok630650".to_string())
    );
}

#[test]
fn other_phone_numbers_are_refused() {
    let refused = Err("Invalid phone number format".to_string());
    assert_eq!(create_thai_promptpay_qr("", None, "R"), refused);
    assert_eq!(create_thai_promptpay_qr("1909783454", None, "R"), refused);
    assert_eq!(create_thai_promptpay_qr("09097834541", None, "R"), refused);
    assert_eq!(create_thai_promptpay_qr("09097834", None, "R"), refused);
    assert_eq!(create_thai_promptpay_qr("ééééé", None, "R"), refused);
}

#[test]
fn phones_are_cleaned_of_hyphens_blanks_and_the_country_prefix() {
    assert_eq!(clean_phone("090-978-3454"), "0909783454");
    assert_eq!(clean_phone("090 978 3454"), "0909783454");
    assert_eq!(clean_phone("+66909783454"), "0909783454");
    assert_eq!(clean_phone("+66 90-978 3454"), "0909783454");
    assert_eq!(clean_phone(""), "");
}

#[test]
fn references_spell_time_and_a_padded_number() {
    assert_eq!(payment_reference(1700000000, 7), "PP17000000000007");
    assert_eq!(payment_reference(1700000000, 1234), "PP17000000001234");
    assert_eq!(payment_reference(1700000000, 65535), "PP170000000065535");
    assert_eq!(payment_reference(0, 0), "PP00000");
    assert_eq!(payment_reference(-5, 42), "PP-50042");
    assert_eq!(payment_reference(i64::MIN, 1), "PP-92233720368547758080001");
    assert_eq!(payment_reference(i64::MAX, 1), "PP92233720368547758070001");
}

#[test]
fn a_new_reference_starts_with_the_time() {
    let r = new_payment_reference(1700000000);
    assert!(r.starts_with("PP1700000000"));
    assert!(r.len() == 16 || r.len() == 17);
    assert!(r[2..].chars().all(|c| c.is_ascii_digit()));
}

#[test]
fn a_payment_expires_after_fifteen_minutes() {
    let r = "PP17000000001234";
    assert!(!is_payment_expired(r, 1700000000, 0));
    assert!(!is_payment_expired(r, 1700000899, 999_999_999));
    assert!(!is_payment_expired(r, 1700000900, 0));
    assert!(is_payment_expired(r, 1700000900, 1));
    assert!(is_payment_expired(r, 1700000901, 0));
    assert!(!is_payment_expired(r, 0, 0));
}

#[test]
fn a_reference_that_tells_no_time_never_expires() {
    let late = i64::MAX;
    assert!(!is_payment_expired("", late, 0));
    assert!(!is_payment_expired("PP", late, 0));
    assert!(!is_payment_expired("PP123456789", late, 0));
    assert!(!is_payment_expired("XX17000000001234", late, 0));
    assert!(!is_payment_expired("PP17000x00001234", late, 0));
    assert!(!is_payment_expired("PP1700000é001234", late, 0));
    assert!(!is_payment_expired("PP+-00000001234", late, 0));
    assert!(is_payment_expired("PP0000000000", late, 0));
    assert!(is_payment_expired("PP+000000005xyz", 906, 0));
    assert!(!is_payment_expired("PP+000000005xyz", 905, 0));
    assert!(is_payment_expired("PP-000000005xyz", 896, 0));
    assert!(!is_payment_expired("PP-000000005xyz", 895, 0));
}

#[test]
fn no_payment_is_confirmed_from_here() {
    assert!(!simulate_payment_check("PP17000000001234"));
    assert!(!simulate_payment_check(""));
}

#[test]
fn a_license_key_is_spelled_from_its_picks() {
    let picks: Vec<usize> = vec![0, 1, 2, 3, 25, 26, 35, 34, 10, 11, 12, 13];
    assert_eq!(license_key_from(&picks), Some("MONTH-ABCD-Z098-KLMN".to_string()));
    assert_eq!(license_key_from(&vec![0; 12]), Some("MONTH-AAAA-AAAA-AAAA".to_string()));
    assert_eq!(license_key_from(&vec![0; 11]), None);
    assert_eq!(license_key_from(&vec![0; 13]), None);
    let mut bad = vec![0; 12];
    bad[7] = 36;
    assert_eq!(license_key_from(&bad), None);
}

#[test]
fn a_generated_license_key_has_the_documented_shape() {
    for _ in 0..50 {
        let key = generate_license_key();
        assert_eq!(key.len(), 20);
        assert!(key.starts_with("MONTH-"));
        let groups: Vec<&str> = key[6..].split('-').collect();
        assert_eq!(groups.len(), 3);
        for g in groups {
            assert_eq!(g.len(), 4);
            assert!(g.chars().all(|c| c.is_ascii_uppercase() || c.is_ascii_digit()));
        }
    }
}

#[test]
fn the_status_of_a_payment_follows_time_and_receipt() {
    let r = "PP17000000001234".to_string();
    let s = payment_status(r.clone(), 1700000901, 0, true, "KEY".to_string(), "now".to_string());
    assert_eq!(s.status, "expired");
    assert_eq!(s.payment_ref, r);
    assert_eq!(s.license_key, None);
    assert_eq!(s.paid_at, None);
    let s = payment_status(r.clone(), 1700000100, 0, true, "KEY".to_string(), "now".to_string());
    assert_eq!(s.status, "completed");
    assert_eq!(s.license_key, Some("KEY".to_string()));
    assert_eq!(s.paid_at, Some("now".to_string()));
    let s = payment_status(r.clone(), 1700000100, 0, false, "KEY".to_string(), "now".to_string());
    assert_eq!(s.status, "pending");
    assert_eq!(s.license_key, None);
    assert_eq!(s.paid_at, None);
}

#[test]
fn a_payment_that_is_looked_into_is_pending_or_expired() {
    let r = "PP17000000001234".to_string();
    let s = check_promptpay_status(r.clone(), 1700000100, 0, "t".to_string());
    assert_eq!(s.status, "pending");
    assert_eq!(s.payment_ref, r);
    let s = check_promptpay_status(r.clone(), 1800000000, 0, "t".to_string());
    assert_eq!(s.status, "expired");
    assert_eq!(s.license_key, None);
}

#[test]
fn base64_matches_the_standard_vectors() {
    assert_eq!(base64_encode(b""), Some("".to_string()));
    assert_eq!(base64_encode(b"f"), Some("Zg==".to_string()));
    assert_eq!(base64_encode(b"fo"), Some("Zm8=".to_string()));
    assert_eq!(base64_encode(b"foo"), Some("Zm9v".to_string()));
    assert_eq!(base64_encode(b"foob"), Some("Zm9vYg==".to_string()));
    assert_eq!(base64_encode(b"fooba"), Some("Zm9vYmE=".to_string()));
    assert_eq!(base64_encode(b"foobar"), Some("Zm9vYmFy".to_string()));
    assert_eq!(base64_encode(&[0xff, 0xfe, 0xfd]), Some("//79".to_string()));
    assert_eq!(base64_encode(&[0xfb, 0xff]), Some("+/8=".to_string()));
}

#[test]
fn the_picture_of_a_payment_is_an_svg_in_base64() {
    let data = create_thai_promptpay_qr("0909783454", Some("100.00"), "PP17000000001234").unwrap();
    let picture = payment_picture(&data).unwrap();
    assert_ne!(picture, data);
    let svg = base64::engine::general_purpose::STANDARD.decode(picture.as_bytes()).unwrap();
    let svg = String::from_utf8(svg).unwrap();
    assert!(svg.contains("<svg"));
    assert!(svg.contains("#000000"));
    assert!(svg.contains("#FFFFFF"));
    assert_eq!(payment_picture(&data).unwrap(), picture);
}

#[test]
fn a_payload_that_no_code_can_carry_is_refused() {
    let huge = "9".repeat(8000);
    let e = payment_picture(&huge).unwrap_err();
    assert_eq!(e, "QR Code creation failed: data too long");
}
