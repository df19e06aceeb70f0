use sd::messages::DecodeError;
use sd::messages::Message;
use sd::messages::MessageType;

fn init() {
    let _ = env_logger::builder().is_test(true).try_init();
}

fn expected_messages() -> [Message; 4] {
    [
        Message {
            message_type: MessageType::Request,
            sender: 42,
        },
        Message {
            message_type: MessageType::Grant,
            sender: 42,
        },
        Message {
            message_type: MessageType::Release,
            sender: 42,
        },
        Message {
            message_type: MessageType::Unknown,
            sender: 42,
        },
    ]
}

#[test]
fn create_message() {
    let expected = expected_messages();
    let cases: Vec<(u8, u8)> = vec![(42, 1), (42, 2), (42, 3), (42, 42)];

    for (case_number, (msg_code, sender)) in cases.into_iter().enumerate() {
        let got = Message::new(msg_code, sender);
        assert_eq!(expected[case_number], got);
    }
}

#[test]
fn create_message_from_bytes() {
    let expected = expected_messages();
    let cases: Vec<&[u8; 10]> = vec![
        &[49, 124, 52, 50, 10, 0, 0, 0, 0, 0],
        &[50, 124, 52, 50, 10, 0, 0, 0, 0, 0],
        &[51, 124, 52, 50, 10, 0, 0, 0, 0, 0],
        &[52, 50, 124, 52, 50, 10, 0, 0, 0, 0],
    ];

    for (case_number, case) in cases.into_iter().enumerate() {
        let got = Message::from_bytes(case).unwrap();
        assert_eq!(expected[case_number], got);
    }
}

#[test]
fn create_message_from_string() {
    init();
    let expected = expected_messages();
    let cases: Vec<&str> = vec!["1|42", "2|42", "3|42", "42|42"];
    for (case_number, case) in cases.into_iter().enumerate() {
        let got = Message::from_string(case.to_string()).unwrap();
        assert_eq!(expected[case_number], got);
    }
}

#[test]
fn round_trip_all_codes_and_senders() {
    for code in [1u8, 2, 3] {
        for sender in [0u8, 1, 7, 42, 99, 128, 255] {
            let message = Message::new(sender, code);
            let frame = message.to_bytes().unwrap();
            assert_eq!(frame.len(), 10);
            let decoded = Message::from_bytes(&frame).unwrap();
            assert_eq!(decoded, message);
        }
    }
}

#[test]
fn encode_exact_frame() {
    let request = Message::new(42, 1);
    assert_eq!(
        request.to_bytes().unwrap(),
        vec![49, 124, 52, 50, 0, 0, 0, 0, 0, 0]
    );
    let grant = Message::new(0, 2);
    assert_eq!(
        grant.to_bytes().unwrap(),
        vec![50, 124, 48, 0, 0, 0, 0, 0, 0, 0]
    );
    let release = Message::new(255, 3);
    assert_eq!(
        release.to_bytes().unwrap(),
        vec![51, 124, 50, 53, 53, 0, 0, 0, 0, 0]
    );
}

#[test]
fn unknown_code_re_encodes_with_sentinel() {
    let unknown = Message::new(9, 42);
    assert_eq!(unknown.message_type, MessageType::Unknown);
    let frame = unknown.to_bytes().unwrap();
    assert_eq!(frame, vec![52, 124, 57, 0, 0, 0, 0, 0, 0, 0]);
    let decoded = Message::from_bytes(&frame).unwrap();
    assert_eq!(decoded.message_type, MessageType::Unknown);
    assert_eq!(decoded.sender, 9);
}

#[test]
fn decode_tolerates_padding_and_newline_identically() {
    let padded: Vec<u8> = vec![49, 124, 52, 50, 0, 0, 0, 0];
    let mut with_newline = padded.clone();
    with_newline.push(10);
    assert_eq!(
        Message::from_bytes(&padded),
        Message::from_bytes(&with_newline)
    );
    let expected = Message {
        message_type: MessageType::Request,
        sender: 42,
    };
    assert_eq!(Message::from_bytes(&padded).unwrap(), expected);
}

#[test]
fn unknown_code_decodes_with_sender_preserved() {
    let frame: [u8; 10] = [52, 50, 124, 55, 0, 0, 0, 0, 0, 0];
    let got = Message::from_bytes(&frame).unwrap();
    assert_eq!(got.message_type, MessageType::Unknown);
    assert_eq!(got.sender, 7);
}

#[test]
fn decode_without_separator_is_malformed() {
    let frame: [u8; 10] = [49, 52, 50, 0, 0, 0, 0, 0, 0, 0];
    assert_eq!(Message::from_bytes(&frame), Err(DecodeError::Malformed));
}

#[test]
fn decode_non_numeric_field_is_malformed() {
    let code_not_numeric: [u8; 10] = [97, 124, 49, 0, 0, 0, 0, 0, 0, 0];
    assert_eq!(
        Message::from_bytes(&code_not_numeric),
        Err(DecodeError::Malformed)
    );
    let sender_not_numeric: [u8; 10] = [49, 124, 52, 120, 0, 0, 0, 0, 0, 0];
    assert_eq!(
        Message::from_bytes(&sender_not_numeric),
        Err(DecodeError::Malformed)
    );
    let empty_frame: [u8; 10] = [0; 10];
    assert_eq!(Message::from_bytes(&empty_frame), Err(DecodeError::Malformed));
}

#[test]
fn decode_overflowing_field_is_malformed() {
    let frame: [u8; 10] = [49, 124, 51, 48, 48, 0, 0, 0, 0, 0];
    assert_eq!(Message::from_bytes(&frame), Err(DecodeError::Malformed));
}

#[test]
fn decode_invalid_text_is_encoding_error() {
    let frame: [u8; 10] = [255, 254, 124, 49, 0, 0, 0, 0, 0, 0];
    assert_eq!(Message::from_bytes(&frame), Err(DecodeError::Encoding));
}

#[test]
fn decode_ignores_bytes_after_second_separator() {
    let frame: [u8; 10] = [49, 124, 52, 50, 124, 57, 0, 0, 0, 0];
    let got = Message::from_bytes(&frame).unwrap();
    assert_eq!(
        got,
        Message {
            message_type: MessageType::Request,
            sender: 42,
        }
    );
}

#[test]
fn message_to_string_forms() {
    assert_eq!(Message::new(42, 1).to_string(), "REQUEST|42");
    assert_eq!(Message::new(0, 2).to_string(), "GRANT|0");
    assert_eq!(Message::new(255, 3).to_string(), "RELEASE|255");
    assert_eq!(Message::new(7, 42).to_string(), "Unknown|7");
}

#[test]
fn message_type_codes() {
    assert_eq!(MessageType::Request.to_code(), 1);
    assert_eq!(MessageType::Grant.to_code(), 2);
    assert_eq!(MessageType::Release.to_code(), 3);
    assert_eq!(MessageType::Unknown.to_code(), 4);
    assert_eq!(MessageType::from(1), MessageType::Request);
    assert_eq!(MessageType::from(2), MessageType::Grant);
    assert_eq!(MessageType::from(3), MessageType::Release);
    assert_eq!(MessageType::from(0), MessageType::Unknown);
    assert_eq!(MessageType::from(200), MessageType::Unknown);
}
