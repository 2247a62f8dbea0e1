use pigauge::obd::{
    decode_pid_reply, ensure_mode01_pid, extract_hex_bytes, parse_rpm, parse_speed,
    parse_temp_coolant, parse_throttle, snapshot_pids, voltage_request, voltage_text, ObdError,
    Pid, Reading,
};
use pigauge::text::clean_elm_text;

#[test]
fn clean_strips_prompt_and_noise() {
    assert_eq!(clean_elm_text("SEARCHING...\r41 0C 1A F8\r\r>"), "41 0C 1A F8");
    assert_eq!(clean_elm_text("searching...\r\nSTOPPED\r\n>"), "");
    assert_eq!(clean_elm_text("  12.4V  \r>"), "12.4V");
    assert_eq!(clean_elm_text("41 0D 32\r41 0D 33\r>"), "41 0D 32\n41 0D 33");
    assert_eq!(clean_elm_text(""), "");
    assert_eq!(clean_elm_text(">>>"), "");
    assert_eq!(clean_elm_text("Stopped\rOK"), "OK");
    assert_eq!(clean_elm_text("a>b\r\n\r\nc"), "ab\nc");
}

#[test]
fn clean_keeps_inner_spaces_and_tabs_trimmed() {
    assert_eq!(clean_elm_text("\t ELM327 v1.5 \t\r>"), "ELM327 v1.5");
    assert_eq!(clean_elm_text("SEARCHING....\r"), "SEARCHING....");
}

#[test]
fn extract_spaced_and_compact() {
    assert_eq!(extract_hex_bytes("41 0C 1A F8").unwrap(), vec![0x41, 0x0C, 0x1A, 0xF8]);
    assert_eq!(extract_hex_bytes("410C1AF8").unwrap(), vec![0x41, 0x0C, 0x1A, 0xF8]);
    assert_eq!(extract_hex_bytes("41 0c\n1a f8").unwrap(), vec![0x41, 0x0C, 0x1A, 0xF8]);
}

#[test]
fn extract_skips_non_hex_words() {
    assert_eq!(extract_hex_bytes("BUS INIT: ...OK\n41 0D 32").unwrap(), vec![0x41, 0x0D, 0x32]);
    assert_eq!(extract_hex_bytes("ABC 41").unwrap(), vec![0x41]);
    assert_eq!(extract_hex_bytes("4 1 0D").unwrap(), vec![0x0D]);
}

#[test]
fn extract_errors_without_bytes() {
    match extract_hex_bytes("NO DATA") {
        Err(ObdError::NoHexBytes(t)) => assert_eq!(t, "NO DATA"),
        other => panic!("unexpected {other:?}"),
    }
    assert!(matches!(extract_hex_bytes(""), Err(ObdError::NoHexBytes(_))));
    assert!(matches!(extract_hex_bytes("G1 Z2"), Err(ObdError::NoHexBytes(_))));
}

#[test]
fn mode01_header_checks() {
    assert_eq!(ensure_mode01_pid(&[0x41, 0x0C, 0x1A, 0xF8], 0x0C).unwrap(), &[0x1A, 0xF8]);
    assert_eq!(ensure_mode01_pid(&[0x41, 0x0C], 0x0C), Err(ObdError::ShortResponse(vec![0x41, 0x0C])));
    assert_eq!(
        ensure_mode01_pid(&[0x41, 0x0D, 0x32], 0x0C),
        Err(ObdError::UnexpectedHeader(vec![0x41, 0x0D, 0x32]))
    );
    assert_eq!(
        ensure_mode01_pid(&[0x7F, 0x01, 0x12], 0x01),
        Err(ObdError::UnexpectedHeader(vec![0x7F, 0x01, 0x12]))
    );
}

#[test]
fn rpm_formula() {
    // ((0x1A * 256) + 0xF8) / 4 = 6904 / 4 = 1726
    assert_eq!(parse_rpm(&[0x41, 0x0C, 0x1A, 0xF8]).unwrap(), 1726);
    assert_eq!(parse_rpm(&[0x41, 0x0C, 0xFF, 0xFF]).unwrap(), 16383);
    assert_eq!(parse_rpm(&[0x41, 0x0C, 0x00, 0x00]).unwrap(), 0);
    assert_eq!(
        parse_rpm(&[0x41, 0x0C, 0x1A]),
        Err(ObdError::MissingRpmBytes(vec![0x41, 0x0C, 0x1A]))
    );
    assert!(matches!(parse_rpm(&[0x41, 0x0D, 0x1A, 0xF8]), Err(ObdError::UnexpectedHeader(_))));
}

#[test]
fn speed_coolant_throttle_formulas() {
    assert_eq!(parse_speed(&[0x41, 0x0D, 0x32]).unwrap(), 50);
    assert_eq!(parse_temp_coolant(&[0x41, 0x05, 0x7B]).unwrap(), 83);
    assert_eq!(parse_temp_coolant(&[0x41, 0x05, 0x00]).unwrap(), -40);
    assert_eq!(parse_temp_coolant(&[0x41, 0x05, 0xFF]).unwrap(), 215);
    assert_eq!(parse_throttle(&[0x41, 0x11, 0xFF]).unwrap(), 100);
    assert_eq!(parse_throttle(&[0x41, 0x11, 0x80]).unwrap(), 50);
    assert_eq!(parse_throttle(&[0x41, 0x11, 0x00]).unwrap(), 0);
    assert!(matches!(parse_speed(&[0x41, 0x0D]), Err(ObdError::ShortResponse(_))));
    assert!(matches!(parse_throttle(&[0x41, 0x05, 0x10]), Err(ObdError::UnexpectedHeader(_))));
}

#[test]
fn decode_replies_by_pid() {
    assert_eq!(decode_pid_reply(Pid::EngineRpm, "41 0C 1A F8"), Ok(Reading::Rpm(1726)));
    assert_eq!(decode_pid_reply(Pid::VehicleSpeed, "410D32"), Ok(Reading::SpeedKph(50)));
    assert_eq!(decode_pid_reply(Pid::CoolantTemp, "41 05 7B"), Ok(Reading::CoolantC(83)));
    assert_eq!(decode_pid_reply(Pid::ThrottlePosition, "41 11 80"), Ok(Reading::ThrottlePct(50)));
    assert!(matches!(decode_pid_reply(Pid::EngineRpm, "NO DATA"), Err(ObdError::NoHexBytes(_))));
    assert!(matches!(
        decode_pid_reply(Pid::EngineRpm, "41 0D 32"),
        Err(ObdError::UnexpectedHeader(_))
    ));
}

#[test]
fn requests_are_mode01() {
    let texts: Vec<String> = snapshot_pids().iter().map(|p| p.request()).collect();
    assert_eq!(texts, vec!["010C", "010D", "0105", "0111"]);
    assert_eq!(voltage_request(), "ATRV");
}

#[test]
fn voltage_text_picks_volt_line() {
    assert_eq!(voltage_text("12.4V"), "12.4");
    assert_eq!(voltage_text(" 12.4v \n"), "12.4");
    assert_eq!(voltage_text("OK\n13.9V"), "13.9");
    assert_eq!(voltage_text("14.1VV"), "14.1");
    assert_eq!(voltage_text("12.6"), "12.6");
    assert_eq!(voltage_text("  "), "");
    assert_eq!(voltage_text("V\n12V"), "");
}

#[test]
fn every_byte_round_trips_through_hex() {
    let all: Vec<u8> = (0..=255u8).collect();
    let spaced: Vec<String> = all.iter().map(|b| format!("{b:02X}")).collect();
    assert_eq!(extract_hex_bytes(&spaced.join(" ")).unwrap(), all);
    assert_eq!(extract_hex_bytes(&spaced.concat()).unwrap(), all);
}

#[test]
fn cleaned_reply_has_no_prompt_or_cr() {
    let t = clean_elm_text("\r\r>41 0C>1A\rSTOPPED\r\n> F8 \r>");
    assert!(!t.contains('>'));
    assert!(!t.contains('\r'));
    assert_eq!(t, "41 0C1A\nF8");
}
