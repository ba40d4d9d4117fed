use school_ledger::pix::{
    build_school_pix_payload, crc16_ccitt_false, pix_crc_matches, sanitize_pix_description,
    sanitize_pix_field, tlv,
};

#[test]
fn crc16_matches_the_reference_check_value() {
    assert_eq!(crc16_ccitt_false("123456789"), 0x29B1);
    assert_eq!(crc16_ccitt_false(""), 0xFFFF);
}

#[test]
fn tlv_pads_the_length_to_two_digits() {
    assert_eq!(tlv("00", "01"), "000201");
    assert_eq!(tlv("59", "ESCOLA"), "5906ESCOLA");
    assert_eq!(tlv("26", "br.gov.bcb.pix"), "2614br.gov.bcb.pix");
}

#[test]
fn tlv_counts_characters_not_bytes() {
    assert_eq!(tlv("02", "AÇÃO"), "0204AÇÃO");
}

#[test]
fn merchant_name_sanitizes_to_plain_uppercase() {
    assert_eq!(sanitize_pix_field("Escola Ação & Cia!!", 25, "ESCOLA"), "ESCOLA AO CIA");
}

#[test]
fn merchant_field_falls_back_when_empty() {
    assert_eq!(sanitize_pix_field("  !!  ", 25, "ESCOLA"), "ESCOLA");
    assert_eq!(sanitize_pix_field("", 15, "CIDADE"), "CIDADE");
}

#[test]
fn merchant_field_truncates_to_the_limit() {
    assert_eq!(sanitize_pix_field("abcdefghijklmnopqrstuvwxyz", 25, "ESCOLA"), "ABCDEFGHIJKLMNOPQRSTUVWXY");
}

#[test]
fn description_keeps_its_extra_punctuation() {
    assert_eq!(sanitize_pix_description("Olá;  mundo/teste.", 50), "OL MUNDO/TESTE.");
    assert_eq!(sanitize_pix_description("   ", 50), "");
}

#[test]
fn payload_holds_the_expected_fields() {
    let payload = build_school_pix_payload("abc@bank", 10000, 0x1234_5678_9abc_def0_1122_3344_5566_7788, "Aluno - Plano", "Escola", "Cidade");
    assert!(payload.starts_with("000201"));
    assert!(payload.contains("br.gov.bcb.pix"));
    assert!(payload.contains("0108abc@bank"));
    assert!(payload.contains("52040000"));
    assert!(payload.contains("5303986"));
    assert!(payload.contains("5406100.00"));
    assert!(payload.contains("5802BR"));
    assert!(payload.contains("5906ESCOLA"));
    assert!(payload.contains("6006CIDADE"));
    assert!(payload.contains("0525123456789ABCDEF0112233445"));
}

#[test]
fn payload_checksum_verifies_itself() {
    let payload = build_school_pix_payload(
        "chave@banco.example",
        123456,
        0xfeed_beef_feed_beef_feed_beef_feed_beef,
        "Maria - Mensalidade 2025",
        "Escola Modelo",
        "Sao Paulo",
    );
    assert!(payload.is_ascii());
    let cut = payload.len() - 4;
    let prefix = &payload[..cut];
    let expected = format!("{:04X}", crc16_ccitt_false(prefix));
    assert_eq!(&payload[cut..], expected);
    assert!(pix_crc_matches(&payload));
    assert!(payload[cut..].chars().all(|c| c.is_ascii_hexdigit()));
}

#[test]
fn crc_check_rejects_a_corrupted_payload() {
    let payload = build_school_pix_payload("abc@bank", 10000, 7, "x", "Escola", "Cidade");
    let mut corrupted = payload.clone();
    corrupted.insert(6, 'X');
    assert!(pix_crc_matches(&payload));
    assert!(!pix_crc_matches(&corrupted));
    assert!(!pix_crc_matches("abc"));
}

#[test]
fn payload_amount_carries_two_decimals() {
    let payload = build_school_pix_payload("k@b.co", 5, 1, "", "E", "C");
    assert!(payload.contains("54040.05"));
}

#[test]
fn crc_check_holds_for_non_ascii_keys() {
    let payload = build_school_pix_payload("chavé-ção@banco", 999, 42, "Aluno", "Escola", "Cidade");
    assert!(pix_crc_matches(&payload));
    let tail: String = payload.chars().rev().take(4).collect();
    assert!(tail.chars().all(|c| c.is_ascii_hexdigit()));
}
