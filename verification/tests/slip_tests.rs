use m8_updater::slip::{
    process_command, Command, FeedOutcome, SlipDecoder, SlipError, SystemInfo, END, ESC, ESC_END,
    ESC_ESC,
};

#[test]
fn plain_bytes_are_kept_until_end() {
    let mut decoder = SlipDecoder::new();
    assert_eq!(decoder.process_byte(0x01), Ok(None));
    assert_eq!(decoder.process_byte(0x02), Ok(None));
    assert_eq!(decoder.buffer, vec![0x01, 0x02]);
    assert!(!decoder.escaped);
    assert_eq!(decoder.process_byte(END), Ok(Some(vec![0x01, 0x02])));
    assert!(decoder.buffer.is_empty());
}

#[test]
fn every_plain_byte_is_accumulated_verbatim() {
    let mut decoder = SlipDecoder::new();
    let mut expected = Vec::new();
    for byte in 0u8..=255 {
        if byte == END || byte == ESC {
            continue;
        }
        assert_eq!(decoder.process_byte(byte), Ok(None));
        expected.push(byte);
    }
    assert_eq!(decoder.buffer, expected);
    assert_eq!(expected.len(), 254);
    assert_eq!(decoder.process_byte(END), Ok(Some(expected)));
}

#[test]
fn end_on_empty_buffer_is_a_keep_alive() {
    let mut decoder = SlipDecoder::new();
    assert_eq!(decoder.process_byte(END), Ok(None));
    assert_eq!(decoder.process_byte(END), Ok(None));
    assert!(decoder.buffer.is_empty());
    assert_eq!(decoder.process_byte(0x07), Ok(None));
    assert_eq!(decoder.process_byte(END), Ok(Some(vec![0x07])));
}

#[test]
fn escape_codes_give_literal_bytes() {
    let mut decoder = SlipDecoder::new();
    assert_eq!(decoder.process_byte(ESC), Ok(None));
    assert!(decoder.escaped);
    assert_eq!(decoder.process_byte(ESC_END), Ok(None));
    assert!(!decoder.escaped);
    assert_eq!(decoder.buffer, vec![0xC0]);
    assert_eq!(decoder.process_byte(ESC), Ok(None));
    assert_eq!(decoder.process_byte(ESC_ESC), Ok(None));
    assert_eq!(decoder.buffer, vec![0xC0, 0xDB]);
    assert_eq!(decoder.process_byte(END), Ok(Some(vec![0xC0, 0xDB])));
}

#[test]
fn unknown_escape_is_an_error() {
    for byte in 0u8..=255 {
        if byte == ESC_END || byte == ESC_ESC {
            continue;
        }
        let mut decoder = SlipDecoder::new();
        assert_eq!(decoder.process_byte(0x11), Ok(None));
        assert_eq!(decoder.process_byte(ESC), Ok(None));
        assert_eq!(decoder.process_byte(byte), Err(SlipError::UnrecognizedEscapeByte(byte)));
        assert!(!decoder.escaped);
        decoder.reset();
        assert!(decoder.buffer.is_empty());
        assert!(!decoder.escaped);
    }
}

#[test]
fn two_escape_markers_in_a_row_are_an_error() {
    let mut decoder = SlipDecoder::new();
    assert_eq!(decoder.process_byte(ESC), Ok(None));
    assert_eq!(decoder.process_byte(ESC), Err(SlipError::UnrecognizedEscapeByte(ESC)));
}

#[test]
fn default_decoder_is_empty() {
    let decoder = SlipDecoder::default();
    assert!(decoder.buffer.is_empty());
    assert!(!decoder.escaped);
}

#[test]
fn feed_stops_at_the_first_packet() {
    let mut decoder = SlipDecoder::new();
    let bytes = [0x01, ESC, ESC_END, 0x02, END, 0x03, END];
    assert_eq!(decoder.feed(&bytes), (FeedOutcome::Packet(vec![0x01, 0xC0, 0x02]), 5));
    assert!(decoder.buffer.is_empty());
    assert_eq!(decoder.feed(&bytes[5..]), (FeedOutcome::Packet(vec![0x03]), 2));
}

#[test]
fn feed_takes_all_bytes_while_pending() {
    let mut decoder = SlipDecoder::new();
    assert_eq!(decoder.feed(&[0x01, 0x02, ESC]), (FeedOutcome::Pending, 3));
    assert_eq!(decoder.buffer, vec![0x01, 0x02]);
    assert!(decoder.escaped);
    assert_eq!(decoder.feed(&[]), (FeedOutcome::Pending, 0));
    assert_eq!(decoder.feed(&[ESC_ESC, END]), (FeedOutcome::Packet(vec![0x01, 0x02, 0xDB]), 2));
}

#[test]
fn feed_resets_after_an_error() {
    let mut decoder = SlipDecoder::new();
    let outcome = decoder.feed(&[0x01, ESC, 0x42, 0x05, END]);
    assert_eq!(outcome, (FeedOutcome::Failed(SlipError::UnrecognizedEscapeByte(0x42)), 3));
    assert!(decoder.buffer.is_empty());
    assert!(!decoder.escaped);
}

#[test]
fn error_message_writes_the_byte_in_hex() {
    assert_eq!(
        SlipError::UnrecognizedEscapeByte(0xAB).message(),
        "Unrecognized escape byte: 0xAB"
    );
    assert_eq!(SlipError::UnrecognizedEscapeByte(0x05).message(), "Unrecognized escape byte: 0x5");
    assert_eq!(SlipError::UnrecognizedEscapeByte(0).message(), "Unrecognized escape byte: 0x0");
    assert_eq!(
        SlipError::UnrecognizedEscapeByte(0xFF).message(),
        "Unrecognized escape byte: 0xFF"
    );
    for byte in 0u8..=255 {
        assert_eq!(
            SlipError::UnrecognizedEscapeByte(byte).message(),
            format!("Unrecognized escape byte: 0x{:X}", byte)
        );
    }
}

#[test]
fn commands_are_read_by_their_first_byte() {
    assert_eq!(process_command(&[]), None);
    assert_eq!(process_command(&[0xFB, 0x21, 0x00]), Some(Command::Key { keys: Some(0x21) }));
    assert_eq!(process_command(&[0xFB, 0x21]), Some(Command::Key { keys: None }));
    assert_eq!(
        process_command(&[0xFF, 2, 4, 0, 1, 3]),
        Some(Command::System {
            info: Some(SystemInfo {
                device_type: 2,
                firmware_major: 4,
                firmware_minor: 0,
                firmware_patch: 1,
                font_mode: 3,
            })
        })
    );
    assert_eq!(process_command(&[0xFF, 2, 4, 0, 1]), Some(Command::System { info: None }));
    assert_eq!(process_command(&[0xFE, 1, 2]), Some(Command::Unknown { kind: 0xFE }));
}
