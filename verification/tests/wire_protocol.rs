use adb_client::adb::SyncCmd;
use adb_client::response::{
    decode_exchange, error_body_len, process_banner, BannerStep, LengthWarning,
};
use adb_client::server::{AdbServer, AdbServerError};
use adb_client::wire::{hex4, parse_hex4};

#[test]
fn command_codes_are_their_tags() {
    assert_eq!(SyncCmd::Okay.code(), *b"OKAY");
    assert_eq!(SyncCmd::Fail.code(), *b"FAIL");
    assert_eq!(SyncCmd::Data.code(), *b"DATA");
    assert_eq!(SyncCmd::Dent.code(), *b"DENT");
    assert_eq!(SyncCmd::Done.code(), *b"DONE");
    assert_eq!(SyncCmd::List.code(), *b"LIST");
    assert_eq!(SyncCmd::Quit.code(), *b"QUIT");
    assert_eq!(SyncCmd::Recv.code(), *b"RECV");
    assert_eq!(SyncCmd::Send.code(), *b"SEND");
    assert_eq!(SyncCmd::Stat.code(), *b"STAT");
}

#[test]
fn hex_prefix_is_uppercase_and_zero_padded() {
    assert_eq!(hex4(0xABCD), b"ABCD".to_vec());
    assert_eq!(hex4(0), b"0000".to_vec());
    assert_eq!(hex4(12), b"000C".to_vec());
}

#[test]
fn hex_parse_accepts_both_cases_and_rejects_the_rest() {
    assert_eq!(parse_hex4(b"00ff"), Some(255));
    assert_eq!(parse_hex4(b"00FF"), Some(255));
    assert_eq!(parse_hex4(b"FFFF"), Some(65535));
    assert_eq!(parse_hex4(b"+123"), None);
    assert_eq!(parse_hex4(b"12G4"), None);
}

#[test]
fn encode_prefixes_the_exact_length() {
    let frame = AdbServer::encode_message("host:version").unwrap();
    assert_eq!(frame, b"000Chost:version".to_vec());
}

#[test]
fn encode_of_the_empty_command() {
    assert_eq!(AdbServer::encode_message("").unwrap(), b"0000".to_vec());
}

#[test]
fn encode_rejects_an_oversized_command() {
    let long = "a".repeat(65536);
    let r = AdbServer::encode_message(&long);
    assert!(matches!(r, Err(AdbServerError::EncodingOverflow)));
    let fits = "a".repeat(65535);
    assert!(AdbServer::encode_message(&fits).is_ok());
}

#[test]
fn encode_then_parse_round_trips_the_command() {
    let frame = AdbServer::encode_message("devices").unwrap();
    assert_eq!(parse_hex4(&frame[0..4]), Some(7));
    assert_eq!(&frame[4..], b"devices");
}

#[test]
fn banner_branches_on_okay_and_output() {
    assert_eq!(process_banner(b"OKAY", false), BannerStep::Empty);
    assert_eq!(process_banner(b"OKAY", true), BannerStep::Output);
    assert_eq!(process_banner(b"FAIL", false), BannerStep::Failed);
    assert_eq!(process_banner(b"WHAT", true), BannerStep::Failed);
}

#[test]
fn fail_response_reports_the_daemon_error() {
    let r = decode_exchange(b"FAIL0005hello", false, false);
    assert!(matches!(r, Err(AdbServerError::AdbError(m)) if m == "hello"));
    let r = decode_exchange(b"FAIL0005hello", true, true);
    assert!(matches!(r, Err(AdbServerError::AdbError(m)) if m == "hello"));
}

#[test]
fn fail_response_decodes_multibyte_text() {
    let mut data = b"FAIL0005".to_vec();
    data.extend_from_slice("m\u{fc}ll".as_bytes());
    let r = decode_exchange(&data, false, false);
    assert!(matches!(r, Err(AdbServerError::AdbError(m)) if m == "m\u{fc}ll"));
}

#[test]
fn fail_response_with_invalid_utf8_is_a_decoding_error() {
    let r = decode_exchange(b"FAIL0001\xff", false, false);
    assert!(matches!(r, Err(AdbServerError::DecodingError(b)) if b == vec![0xff]));
}

#[test]
fn fail_response_with_bad_hex_is_a_decoding_error() {
    let r = decode_exchange(b"FAILzzzz", false, false);
    assert!(matches!(r, Err(AdbServerError::DecodingError(b)) if b == b"zzzz".to_vec()));
}

#[test]
fn error_length_is_capped_at_the_buffer() {
    assert_eq!(error_body_len(b"FFFF").unwrap(), 1024);
    assert_eq!(error_body_len(b"0400").unwrap(), 1024);
    assert_eq!(error_body_len(b"0005").unwrap(), 5);
    assert!(matches!(
        error_body_len(b"00x0"),
        Err(AdbServerError::DecodingError(b)) if b == b"00x0".to_vec()
    ));
}

#[test]
fn okay_without_output_is_empty_whatever_trails() {
    let r = decode_exchange(b"OKAYtrailing bytes", false, false).unwrap();
    assert_eq!(r.0, Vec::<u8>::new());
    assert_eq!(r.1, None);
}

#[test]
fn short_banner_is_a_decoding_error() {
    let r = decode_exchange(b"OK", false, false);
    assert!(matches!(r, Err(AdbServerError::DecodingError(b)) if b == b"OK".to_vec()));
}

#[test]
fn okay_with_output_returns_the_bytes() {
    let r = decode_exchange(b"OKAYhello", true, false).unwrap();
    assert_eq!(r.0, b"hello".to_vec());
    assert_eq!(r.1, None);
}

#[test]
fn continuation_banner_is_stripped() {
    let r = decode_exchange(b"OKAYOKAYdata", true, false).unwrap();
    assert_eq!(r.0, b"data".to_vec());
}

#[test]
fn embedded_fail_overrides_the_successful_banner() {
    let r = decode_exchange(b"OKAYFAIL0003boo", true, false);
    assert!(matches!(r, Err(AdbServerError::AdbError(m)) if m == "boo"));
}

#[test]
fn matching_length_prefix_carries_no_warning() {
    let r = decode_exchange(b"OKAY0003abc", true, true).unwrap();
    assert_eq!(r.0, b"abc".to_vec());
    assert_eq!(r.1, None);
}

#[test]
fn length_mismatch_is_a_warning_not_a_failure() {
    let r = decode_exchange(b"OKAY0005abc", true, true).unwrap();
    assert_eq!(r.0, b"abc".to_vec());
    assert_eq!(r.1, Some(LengthWarning { declared: 5, actual: 3 }));
}

#[test]
fn output_too_short_for_a_length_prefix_is_a_decoding_error() {
    let r = decode_exchange(b"OKAYab", true, true);
    assert!(matches!(r, Err(AdbServerError::DecodingError(b)) if b == b"ab".to_vec()));
}

#[test]
fn final_payload_decodes_as_utf8() {
    let r = AdbServer::payload_to_string(b"devices attached".to_vec()).unwrap();
    assert_eq!(r, "devices attached");
    let bad = AdbServer::payload_to_string(vec![0xC3, 0x28]);
    assert!(matches!(bad, Err(AdbServerError::DecodingError(b)) if b == vec![0xC3, 0x28]));
}
