use balance_board::bluez::{board_from_answer, reports_paired};
use balance_board::pairing::{
    classify_auth_failure, is_wii_name, pair_command, wide_to_string, AuthFailure, PairCommand,
    WiiDevice, ERROR_DEVICE_NOT_CONNECTED, ERROR_NOT_AUTHENTICATED, WAIT_TIMEOUT,
};
use balance_board::bluez::parse_boards;
use balance_board::pin::{format_bd_addr, format_pin, sync_passkey, wii_pin_for_address, WII_PIN_LEN};

#[test]
fn pin_is_rg_bytes_unchanged() {
    let rg = [0xA7, 0x2F, 0x31, 0x59, 0x26, 0x00];
    let pin = wii_pin_for_address(rg);
    assert_eq!(pin, rg, "PIN must be rgBytes verbatim");
}

#[test]
fn pin_format_is_colon_hex_in_rg_byte_order() {
    let pin = [0xA7, 0x2F, 0x31, 0x59, 0x26, 0x00];
    assert_eq!(format_pin(pin), "A7:2F:31:59:26:00");
}

#[test]
fn bd_addr_formats_in_human_readable_big_endian() {
    let rg = [0xA7, 0x2F, 0x31, 0x59, 0x26, 0x00];
    assert_eq!(format_bd_addr(rg), "00:26:59:31:2F:A7");
}

#[test]
fn legacy_passkey_preserves_zero_and_high_bytes_without_packing() {
    assert_eq!(
        sync_passkey([0x04, 0xb1, 0x9e, 0xef, 0xdc, 0xb0]),
        [0x04, 0xb1, 0x9e, 0xef, 0xdc, 0xb0, 0]
    );
    assert_eq!(sync_passkey([0, 1, 0x80, 0xff, 0, 6]), [0, 1, 0x80, 0xff, 0, 6, 0]);
}

#[test]
fn pin_length_is_six() {
    assert_eq!(WII_PIN_LEN, 6);
    let pin = wii_pin_for_address([0; 6]);
    assert_eq!(pin.len(), 6);
}

#[test]
fn pairs_only_named_boards_with_valid_addresses() {
    let result = parse_boards("Device AA:BB:CC:DD:EE:FF Nintendo RVL-WBC-01\nDevice 11:22:33:44:55:66 Nintendo RVL-CNT-01\nDevice --bad Nintendo RVL-WBC-01\n[NEW] Device 11:22:33:44:55:66 Nintendo RVL-WBC-01\n");
    assert_eq!(result, ["AA:BB:CC:DD:EE:FF"]);
}

#[test]
fn board_list_accepts_any_white_space_and_crlf() {
    let text = "Device\taa:bb:cc:dd:ee:0f   Nintendo RVL-WBC-01\r\nDevice 01:02:03:04:05:06 Nintendo RVL-WBC-01 extra\nDevice 01:02:03:04:05:0G Nintendo RVL-WBC-01\nDevice 10:20:30:40:50:60 Nintendo RVL-WBC-01";
    assert_eq!(parse_boards(text), ["aa:bb:cc:dd:ee:0f", "10:20:30:40:50:60"]);
    assert!(parse_boards("").is_empty());
}

#[test]
fn paired_status_is_read_from_trimmed_lines() {
    assert!(reports_paired("Device AA:BB\n\tName: x\n\tPaired: yes\n\tTrusted: no\n"));
    assert!(!reports_paired("Device AA:BB\n\tPaired: no\n"));
    assert!(!reports_paired("Paired: yes please"));
    assert!(reports_paired("  Paired: yes  "));
}

#[test]
fn board_number_counts_from_one() {
    assert_eq!(board_from_answer(Some(1), 2), Some(0));
    assert_eq!(board_from_answer(Some(2), 2), Some(1));
    assert_eq!(board_from_answer(Some(3), 2), None);
    assert_eq!(board_from_answer(Some(0), 2), None);
    assert_eq!(board_from_answer(None, 2), None);
}

#[test]
fn timeout_is_distinguished_from_rejected_authentication() {
    let (kind, advice) = classify_auth_failure(WAIT_TIMEOUT);
    assert_eq!(kind, AuthFailure::TimedOut);
    assert!(advice.contains("does not prove a bad PIN"));
    assert_eq!(classify_auth_failure(ERROR_NOT_AUTHENTICATED).0, AuthFailure::PermissionDenied);
    assert_eq!(classify_auth_failure(ERROR_DEVICE_NOT_CONNECTED).0, AuthFailure::NotConnected);
    assert_eq!(classify_auth_failure(5).0, AuthFailure::Other);
}

#[test]
fn win32_codes_match_windows_sys() {
    assert_eq!(WAIT_TIMEOUT, windows_sys::Win32::Foundation::WAIT_TIMEOUT);
    assert_eq!(ERROR_NOT_AUTHENTICATED, windows_sys::Win32::Foundation::ERROR_NOT_AUTHENTICATED);
    assert_eq!(ERROR_DEVICE_NOT_CONNECTED, windows_sys::Win32::Foundation::ERROR_DEVICE_NOT_CONNECTED);
}

#[test]
fn wii_names_and_balance_boards() {
    assert!(is_wii_name("Nintendo RVL-WBC-01"));
    assert!(is_wii_name("Nintendo RVL-CNT-01TR"));
    assert!(!is_wii_name("Nintendo RVL"));
    assert!(!is_wii_name("Pro Controller"));
    let board = WiiDevice {
        address: [0; 6],
        name: "Nintendo RVL-WBC-01".into(),
        authenticated: false,
        connected: false,
        remembered: true,
    };
    assert!(board.is_balance_board());
    let remote = WiiDevice { name: "Nintendo RVL-CNT-01".into(), ..board.clone() };
    assert!(!remote.is_balance_board());
}

#[test]
fn wide_names_stop_at_the_first_nul() {
    let mut wide = [0u16; 8];
    for (slot, c) in wide.iter_mut().zip("Wii".encode_utf16()) {
        *slot = c;
    }
    assert_eq!(wide_to_string(&wide), "Wii");
    let full: Vec<u16> = "Nintendo".encode_utf16().collect();
    assert_eq!(wide_to_string(&full), "Nintendo");
    assert_eq!(wide_to_string(&[0xD800, 0]), "\u{FFFD}");
    assert_eq!(wide_to_string(&[0xD834, 0xDD1E, 0x6D, 0xDD1E, 0x69, 0]), "\u{1D11E}m\u{FFFD}i");
    assert_eq!(wide_to_string(&[0x4E, 0, 0x41]), "N");
}

fn args(list: &[&str]) -> Vec<String> {
    list.iter().map(|s| s.to_string()).collect()
}

#[test]
fn pairing_tool_commands() {
    assert_eq!(pair_command(&args(&[])), PairCommand::Pair);
    assert_eq!(pair_command(&args(&["--scan"])), PairCommand::Scan);
    assert_eq!(pair_command(&args(&["--forget", "--scan"])), PairCommand::Scan);
    assert_eq!(pair_command(&args(&["--forget"])), PairCommand::Forget);
    assert_eq!(pair_command(&args(&["--bogus", "-h"])), PairCommand::Help);
    assert_eq!(pair_command(&args(&["--bogus"])), PairCommand::Unknown);
}
