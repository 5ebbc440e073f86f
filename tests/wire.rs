use vault_cli::error::VaultError;
use vault_cli::protocol::{
    decimal_bytes, frame_blob, parse_reset_response, parse_vault_header, parse_vault_state, request_line,
    split_blob, update_salt_message, update_vault_message, Request,
};
use vault_cli::transport::{exact_step, line_step, line_text, select_port, ReadEvent, ReadStep};

#[test]
fn request_lines_are_ascii_commands() {
    assert_eq!(request_line(Request::CheckVaultFile), b"CHECK_VAULT_FILE\n".to_vec());
    assert_eq!(request_line(Request::GetSalt), b"GET_SALT\n".to_vec());
    assert_eq!(request_line(Request::GetVault), b"GET_VAULT\n".to_vec());
    assert_eq!(request_line(Request::ResetVault), b"RESET_VAULT\n".to_vec());
}

#[test]
fn vault_header_below_minimum_is_protocol_error() {
    assert_eq!(parse_vault_header("VAULT:27"), Err(VaultError::Protocol));
    assert_eq!(parse_vault_header("VAULT:28"), Ok(28));
    assert_eq!(parse_vault_header("VAULT:+1234"), Ok(1234));
    assert_eq!(parse_vault_header("VAULT:"), Err(VaultError::Protocol));
    assert_eq!(parse_vault_header("VAULT:12x"), Err(VaultError::Protocol));
    assert_eq!(parse_vault_header("VALUT:100"), Err(VaultError::Protocol));
    assert_eq!(parse_vault_header("VAULT:99999999999999999999999"), Err(VaultError::Protocol));
}

#[test]
fn update_salt_needs_thirty_two_bytes() {
    assert_eq!(update_salt_message(&[7u8; 31]), Err(VaultError::Protocol));
    assert_eq!(update_salt_message(&[7u8; 33]), Err(VaultError::Protocol));
    let m = update_salt_message(&[7u8; 32]).unwrap();
    let mut expected = b"UPDATE_SALT:32\n".to_vec();
    expected.extend_from_slice(&[7u8; 32]);
    assert_eq!(m, expected);
}

#[test]
fn update_vault_header_carries_length() {
    let m = update_vault_message(&[1u8, 2, 3]);
    assert_eq!(m, b"UPDATE_VAULT:3\n\x01\x02\x03".to_vec());
    assert_eq!(decimal_bytes(0), b"0".to_vec());
    assert_eq!(decimal_bytes(1040), b"1040".to_vec());
}

#[test]
fn blob_frame_and_split() {
    let nonce = [1u8; 12];
    let ct = [2u8, 3, 4];
    let tag = [5u8; 16];
    let blob = frame_blob(&nonce, &ct, &tag);
    assert_eq!(blob.len(), 31);
    let (n, c, t) = split_blob(&blob).unwrap();
    assert_eq!((n, c, t), (nonce.to_vec(), ct.to_vec(), tag.to_vec()));
    assert_eq!(split_blob(&[0u8; 27]), Err(VaultError::Protocol));
    let (n, c, t) = split_blob(&[9u8; 28]).unwrap();
    assert_eq!((n.len(), c.len(), t.len()), (12, 0, 16));
}

#[test]
fn device_answers() {
    assert_eq!(parse_vault_state("VAULT_EXISTS"), Ok(true));
    assert_eq!(parse_vault_state("VAULT_NOT_EXISTS\r"), Ok(false));
    assert_eq!(parse_vault_state("VAULT?"), Err(VaultError::Protocol));
    assert_eq!(parse_reset_response("RESET_OK"), Ok(true));
    assert_eq!(parse_reset_response("RESET_FAILED"), Ok(false));
    assert_eq!(parse_reset_response("OK"), Err(VaultError::Protocol));
}

#[test]
fn line_reading_steps() {
    let mut line = Vec::new();
    assert_eq!(line_step(&mut line, ReadEvent::Data(1), b'O'), ReadStep::Again);
    assert_eq!(line_step(&mut line, ReadEvent::TimedOut, 0), ReadStep::Again);
    assert_eq!(line_step(&mut line, ReadEvent::Empty, 0), ReadStep::Again);
    assert_eq!(line_step(&mut line, ReadEvent::Data(1), b'K'), ReadStep::Again);
    assert_eq!(line_step(&mut line, ReadEvent::Data(1), b'\n'), ReadStep::Done);
    assert_eq!(line, b"OK".to_vec());
    assert_eq!(line_step(&mut line, ReadEvent::Failed, 0), ReadStep::Fail);
}

#[test]
fn exact_reading_steps() {
    let mut filled = 0usize;
    assert_eq!(exact_step(&mut filled, 10, ReadEvent::Data(4)), ReadStep::Again);
    assert_eq!(exact_step(&mut filled, 10, ReadEvent::TimedOut), ReadStep::Again);
    assert_eq!(exact_step(&mut filled, 10, ReadEvent::Data(6)), ReadStep::Done);
    assert_eq!(filled, 10);
    let mut other = 0usize;
    assert_eq!(exact_step(&mut other, 3, ReadEvent::Failed), ReadStep::Fail);
}

#[test]
fn line_text_rejects_bad_utf8() {
    assert_eq!(line_text(b"VAULT:40".to_vec()), Ok("VAULT:40".to_string()));
    assert_eq!(line_text(vec![0xff, 0xfe]), Err(VaultError::Protocol));
}

#[test]
fn port_selection_prefers_first_usb_serial() {
    let names = vec!["/dev/ttyS0".to_string(), "/dev/ttyUSB1".to_string(), "/dev/ttyACM0".to_string()];
    assert_eq!(select_port(&names), Some(1));
    assert_eq!(select_port(&vec!["/dev/ttyS0".to_string()]), None);
}
