use imbik::parts::{detect_encoding, utf16_le_units, TextEncoding};
use imbik::preset::{model_not_found_issue, ValidationSeverity};

#[test]
fn byte_order_marks_choose_the_decoding() {
    assert_eq!(detect_encoding(&[0xFF, 0xFE, 0x41, 0x00]), TextEncoding::Utf16Le);
    assert_eq!(detect_encoding(&[0xEF, 0xBB, 0xBF, b'x']), TextEncoding::Utf8Bom);
    assert_eq!(detect_encoding(&[0xEF, 0xBB]), TextEncoding::Utf8);
    assert_eq!(detect_encoding(&[0xFF]), TextEncoding::Utf8);
    assert_eq!(detect_encoding(b".model Q1 NPN"), TextEncoding::Utf8);
    assert_eq!(detect_encoding(&[]), TextEncoding::Utf8);
}

#[test]
fn utf16_units_pair_bytes_low_first() {
    assert_eq!(utf16_le_units(&[0x41, 0x00, 0xAC, 0x20]), vec![0x0041, 0x20AC]);
    assert_eq!(utf16_le_units(&[0x41, 0x00, 0x42]), vec![0x0041]);
    assert_eq!(utf16_le_units(&[]), Vec::<u16>::new());
    let units = utf16_le_units(&[0x2E, 0x00, 0x6D, 0x00]);
    assert_eq!(String::from_utf16(&units).unwrap(), ".m");
}

#[test]
fn missing_model_finding_lists_the_alternatives() {
    let available = vec!["TL072".to_string(), "LM358".to_string()];
    let i = model_not_found_issue("Op-Amp", "OPA2134", &available);
    assert_eq!(i.severity, ValidationSeverity::Error);
    assert_eq!(i.component, "Op-Amp (OPA2134)");
    assert_eq!(i.message, "Component model 'OPA2134' not found in PartCatalog.");
    assert_eq!(
        i.suggestion.as_deref(),
        Some(
            "Check 'parts/opa2134.toml' or run 'imbik part add <file>'. Available Op-Amp models: [\"TL072\", \"LM358\"]"
        )
    );
    let none = model_not_found_issue("Diode", "X", &Vec::new());
    assert_eq!(none.suggestion.as_deref(), Some("Check 'parts/x.toml' or run 'imbik part add <file>'. Available Diode models: []"));
}
