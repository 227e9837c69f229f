use base64::Engine;
use win_count::license::validate_license_format;
use win_count::promptpay::base64_encode;

fn matches_a_pattern(key: &str) -> bool {
    let patterns = [
        r"^WC-2025-[A-Z0-9]{5}-[A-Z0-9]{4}$",
        r"^DEMO-[A-Z0-9]{4}-[A-Z0-9]{4}-[A-Z0-9]{4}$",
        r"^PRO-[A-Z0-9]{4}-[A-Z0-9]{4}-[A-Z0-9]{4}$",
    ];
    patterns.iter().any(|p| regex::Regex::new(p).unwrap().is_match(key))
}

#[test]
fn the_key_format_is_what_the_three_patterns_describe() {
    let bases = [
        "WC-2025-ABCDE-1234",
        "DEMO-1234-5678-9ABC",
        "PRO-2024-ARTY-WOOF",
        "WC-2025-00000-0000",
        "PRO-ZZZZ-ZZZZ-ZZZZ",
    ];
    let replacements = ['A', 'Z', '0', '9', 'a', 'z', '-', '_', ' ', '@', '[', '/', ':', 'é', '\n'];
    let mut checked = 0;
    for base in bases {
        assert!(validate_license_format(base));
        assert!(matches_a_pattern(base));
        let chars: Vec<char> = base.chars().collect();
        for i in 0..chars.len() {
            for r in replacements {
                let mut changed = chars.clone();
                changed[i] = r;
                let key: String = changed.iter().collect();
                assert_eq!(validate_license_format(&key), matches_a_pattern(&key), "{:?}", key);
                checked += 1;
            }
            let mut shorter = chars.clone();
            shorter.remove(i);
            let key: String = shorter.iter().collect();
            assert_eq!(validate_license_format(&key), matches_a_pattern(&key), "{:?}", key);
            let mut longer = chars.clone();
            longer.insert(i, 'X');
            let key: String = longer.iter().collect();
            assert_eq!(validate_license_format(&key), matches_a_pattern(&key), "{:?}", key);
        }
        for extra in ["\n", " ", "X", "-"] {
            let key = format!("{}{}", base, extra);
            assert_eq!(validate_license_format(&key), matches_a_pattern(&key), "{:?}", key);
            let key = format!("{}{}", extra, base);
            assert_eq!(validate_license_format(&key), matches_a_pattern(&key), "{:?}", key);
        }
    }
    assert!(checked > 1000);
}

#[test]
fn base64_is_undone_by_the_standard_decoder() {
    let mut bytes: Vec<u8> = Vec::new();
    let mut seed: u32 = 12345;
    for n in 0..200 {
        let encoded = base64_encode(&bytes).unwrap();
        assert_eq!(encoded.len(), (n + 2) / 3 * 4, "length {}", n);
        assert_eq!(
            base64::engine::general_purpose::STANDARD.decode(encoded.as_bytes()).unwrap(),
            bytes,
            "length {}",
            n
        );
        seed = seed.wrapping_mul(1664525).wrapping_add(1013904223);
        bytes.push((seed >> 24) as u8);
    }
    let all: Vec<u8> = (0..=255).collect();
    let encoded = base64_encode(&all).unwrap();
    assert_eq!(base64::engine::general_purpose::STANDARD.decode(encoded.as_bytes()).unwrap(), all);
    assert!(encoded.chars().all(|c| c.is_ascii_alphanumeric() || c == '+' || c == '/' || c == '='));
}
