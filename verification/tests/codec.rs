use myscontroller_rs::error::ErrorKind;
use myscontroller_rs::frame::{field_ends, write_frame, CommandType, LineMessage};
use myscontroller_rs::message::{command_type, CommandMessage};
use myscontroller_rs::stream_message::{
    push_word, read_word, FwConfigRequest, FwRequest, FwResponse, StreamMessage, StreamPayload,
    StreamType,
};
use myscontroller_rs::text::{
    decode_hex, find_byte, find_sep, parse_decimal, parse_u8, push_dec, push_hex, trim_bounds,
};
use myscontroller_rs::transport::{
    count_separators, frame_of_topic, subscription, swap_bytes, topic_of_frame, LineBuffer, Pull,
};

fn parse(text: &str) -> Result<CommandMessage, ErrorKind> {
    CommandMessage::new(&String::from(text))
}

fn error_of(text: &str) -> ErrorKind {
    match parse(text) {
        Err(e) => e,
        Ok(m) => panic!("parsed to {:?}", m),
    }
}

#[test]
fn round_trip_gives_the_canonical_form() {
    let m = parse("  12;0;4;1;1;0a0002005000d446 \r\n").unwrap();
    assert_eq!(m.to_string(), "12;0;4;1;1;0A0002005000D446\n");
    let m = parse("\t7;3;1;0;2;23.5  \n\n").unwrap();
    assert_eq!(m.to_string(), "7;3;1;0;2;23.5\n");
    let m = parse("1;255;3;0;3;").unwrap();
    assert_eq!(m.to_string(), "1;255;3;0;3;\n");
    assert_eq!(m.serialize(), b"1;255;3;0;3;\n".to_vec());
}

#[test]
fn round_trip_of_a_payload_that_is_no_text_of_ascii() {
    let m = parse("1;2;1;0;47;gr\u{fc}n 21\u{b0}\n").unwrap();
    assert_eq!(m.to_string(), "1;2;1;0;47;gr\u{fc}n 21\u{b0}\n");
}

#[test]
fn serialized_message_parses_to_itself() {
    let m = StreamMessage {
        node_id: 200,
        child_sensor_id: 255,
        ack: 0,
        sub_type: StreamType::StFirmwareRequest,
        payload: StreamPayload::FwRequest(FwRequest {
            firmware_type: 0x1234,
            firmware_version: 0xFFFF,
            blocks: 256,
        }),
    };
    assert_eq!(m.to_string(), "200;255;4;0;2;3412FFFF0001\n");
    match parse(&m.to_string()).unwrap() {
        CommandMessage::Stream(back) => {
            assert_eq!(back.node_id, 200);
            assert_eq!(back.sub_type, StreamType::StFirmwareRequest);
            assert_eq!(back.payload, m.payload);
        }
        other => panic!("parsed to {:?}", other),
    }
}

#[test]
fn framing_needs_five_separators() {
    assert_eq!(error_of(""), ErrorKind::MalformedFrame);
    assert_eq!(error_of("1;255;4;0;0"), ErrorKind::MalformedFrame);
    assert_eq!(error_of("1;255;4;0;0;AB;CD"), ErrorKind::MalformedFrame);
    assert_eq!(error_of("hello\n"), ErrorKind::MalformedFrame);
    assert_eq!(error_of(";;;;;;"), ErrorKind::MalformedFrame);
    assert!(parse("0;0;0;0;0;").is_ok());
}

#[test]
fn numeric_fields_must_be_bytes_in_decimal() {
    assert_eq!(error_of("256;0;1;0;0;x"), ErrorKind::BadField);
    assert_eq!(error_of("1;-1;1;0;0;x"), ErrorKind::BadField);
    assert_eq!(error_of("1;0;;0;0;x"), ErrorKind::BadField);
    assert_eq!(error_of("1;0;1;a;0;x"), ErrorKind::BadField);
    assert_eq!(error_of("1;0;1;0;1000;x"), ErrorKind::BadField);
    assert_eq!(error_of("1;0;1;0; 1;x"), ErrorKind::BadField);
    assert_eq!(error_of(";;;;;"), ErrorKind::BadField);
}

#[test]
fn command_must_be_known() {
    assert_eq!(error_of("1;0;5;0;0;x"), ErrorKind::UnknownCommand);
    assert_eq!(error_of("1;0;255;0;0;x"), ErrorKind::UnknownCommand);
    assert_eq!(error_of("1;0;9;zz;0;x"), ErrorKind::UnknownCommand);
    assert_eq!(error_of("1;0;4;zz;0;x"), ErrorKind::BadField);
}

#[test]
fn stream_payload_errors() {
    assert_eq!(error_of("1;255;4;0;2;0A0002004F0"), ErrorKind::BadHex);
    assert_eq!(error_of("1;255;4;0;2;0A0002004G00"), ErrorKind::BadHex);
    assert_eq!(error_of("1;255;4;0;9;xyz1"), ErrorKind::BadHex);
    assert_eq!(error_of("1;255;4;0;2;0A0002004F"), ErrorKind::ShortPayload);
    assert_eq!(error_of("1;255;4;0;0;"), ErrorKind::ShortPayload);
    assert_eq!(error_of("1;255;4;0;2;0A0002004F0000"), ErrorKind::BadPayload);
    assert_eq!(error_of("1;255;4;0;1;0A0002005000D44600"), ErrorKind::BadPayload);
    assert_eq!(
        error_of("1;255;4;0;3;0A0001004F00FFFFFFFFFFFFFFFFFFFFFFFFFFFFFF"),
        ErrorKind::ShortPayload
    );
}

#[test]
fn opaque_stream_payload_is_kept() {
    match parse("1;255;4;0;9;abcd\n").unwrap() {
        CommandMessage::Stream(m) => {
            assert_eq!(m.sub_type, StreamType::StOpaque(9));
            assert_eq!(m.payload, StreamPayload::Opaque(vec![0xAB, 0xCD]));
            assert_eq!(m.to_string(), "1;255;4;0;9;ABCD\n");
        }
        other => panic!("parsed to {:?}", other),
    }
}

#[test]
fn other_commands_keep_their_payload() {
    match parse("1;0;1;0;2;23.5\n").unwrap() {
        CommandMessage::Other(line) => {
            assert_eq!(line.node_id, 1);
            assert_eq!(line.child_sensor_id, 0);
            assert_eq!(line.command, CommandType::SET);
            assert_eq!(line.ack, 0);
            assert_eq!(line.sub_type, 2);
            assert_eq!(line.payload, b"23.5".to_vec());
        }
        other => panic!("parsed to {:?}", other),
    }
}

#[test]
fn fw_response_data_is_decoded() {
    match parse("1;255;4;0;3;0A0001004F00000102030405060708090A0B0C0D0E0F").unwrap() {
        CommandMessage::Stream(m) => assert_eq!(
            m.payload,
            StreamPayload::FwResponse(FwResponse {
                firmware_type: 10,
                firmware_version: 1,
                blocks: 79,
                data: (0u8..16).collect(),
            })
        ),
        other => panic!("parsed to {:?}", other),
    }
}

#[test]
fn command_type_reads_the_third_field() {
    let of = |s: &str| command_type(&String::from(s));
    assert_eq!(of("1;1;0;0;6;humidity\n"), Some(CommandType::PRESENTATION));
    assert_eq!(of("1;0;1;0;2;23.5\n"), Some(CommandType::SET));
    assert_eq!(of("1;0;2;0;2;\n"), Some(CommandType::REQ));
    assert_eq!(of("1;255;3;0;3;"), Some(CommandType::INTERNAL));
    assert_eq!(of("1;255;4;0;9;ABCD\n"), Some(CommandType::STREAM));
    assert_eq!(of("1;255;5;0;9;ABCD\n"), None);
    assert_eq!(of("1;255;x;0;9;ABCD\n"), None);
    assert_eq!(of("1;255;4;0;9\n"), None);
    assert_eq!(of("1;255;4;0;9;;\n"), None);
}

#[test]
fn command_numbers() {
    assert_eq!(CommandType::_u8(0), Some(CommandType::PRESENTATION));
    assert_eq!(CommandType::_u8(4), Some(CommandType::STREAM));
    assert_eq!(CommandType::_u8(5), None);
    assert_eq!(CommandType::INTERNAL.to_u8(), 3);
    assert_eq!(StreamType::from_u8(3), StreamType::StFirmwareResponse);
    assert_eq!(StreamType::from_u8(4), StreamType::StOpaque(4));
    assert_eq!(StreamType::StOpaque(77).to_u8(), 77);
}

#[test]
fn decimal_fields() {
    assert_eq!(parse_u8(b"0"), Some(0));
    assert_eq!(parse_u8(b"255"), Some(255));
    assert_eq!(parse_u8(b"007"), Some(7));
    assert_eq!(parse_u8(b"256"), None);
    assert_eq!(parse_u8(b""), None);
    assert_eq!(parse_u8(b"+1"), None);
    assert_eq!(parse_u8(b"99999999999999999999999999"), None);
    assert_eq!(parse_decimal(b"4294967295", u32::MAX), Some(u32::MAX));
    assert_eq!(parse_decimal(b"4294967296", u32::MAX), None);
    assert_eq!(parse_decimal(b"65535", 65535), Some(65535));
    assert_eq!(parse_decimal(b"65536", 65535), None);
    let mut out = vec![b'x'];
    push_dec(&mut out, 0);
    push_dec(&mut out, 9);
    push_dec(&mut out, 10);
    push_dec(&mut out, 99);
    push_dec(&mut out, 100);
    push_dec(&mut out, 255);
    assert_eq!(out, b"x09109910025 5".iter().filter(|b| **b != b' ').cloned().collect::<Vec<u8>>());
}

#[test]
fn hexadecimal_text() {
    assert_eq!(decode_hex(b""), Some(vec![]));
    assert_eq!(decode_hex(b"00ff7F"), Some(vec![0, 255, 127]));
    assert_eq!(decode_hex(b"aAbBcCdDeEfF"), Some(vec![0xAA, 0xBB, 0xCC, 0xDD, 0xEE, 0xFF]));
    assert_eq!(decode_hex(b"0"), None);
    assert_eq!(decode_hex(b"0g"), None);
    assert_eq!(decode_hex(b"@0"), None);
    let mut out = Vec::new();
    push_hex(&mut out, &[0x00, 0x9A, 0xF0, 0x0F, 0xFF]);
    assert_eq!(out, b"009AF00FFF".to_vec());
}

#[test]
fn trimming() {
    assert_eq!(trim_bounds(b"  ab c\r\n"), (2, 6));
    assert_eq!(trim_bounds(b" \t\n\x0b\x0c\r"), (6, 6));
    assert_eq!(trim_bounds(b""), (0, 0));
    assert_eq!(trim_bounds(b"x"), (0, 1));
}

#[test]
fn line_message_text() {
    let line = LineMessage::parse(b"3;4;4;1;0;not hex at all").unwrap();
    assert_eq!(line.command, CommandType::STREAM);
    assert_eq!(line.to_string(), "3;4;4;1;0;not hex at all\n");
}

#[test]
fn line_buffer_hands_out_whole_lines() {
    let mut buffer = LineBuffer::new();
    buffer.push(b"1;0;1;0;2;2");
    assert!(matches!(buffer.next_line(), Pull::Pending));
    buffer.push(b"3.5\n1;0;1;0;2;\xff\xfe\n0;0;3;0;2;");
    match buffer.next_line() {
        Pull::Line(line) => assert_eq!(line, b"1;0;1;0;2;23.5\n".to_vec()),
        other => panic!("got {:?}", other),
    }
    assert!(matches!(buffer.next_line(), Pull::Skipped));
    assert!(matches!(buffer.next_line(), Pull::Pending));
    assert_eq!(buffer.pending, b"0;0;3;0;2;".to_vec());
    buffer.push(b"\n");
    match buffer.next_line() {
        Pull::Line(line) => assert_eq!(line, b"0;0;3;0;2;\n".to_vec()),
        other => panic!("got {:?}", other),
    }
    assert!(buffer.pending.is_empty());
}

#[test]
fn topics_and_frames() {
    assert_eq!(
        frame_of_topic(b"mygateway1-out", b"mygateway1-out/1/0/1/0/2", b"23.5"),
        Some(b"1;0;1;0;2;23.5\n".to_vec())
    );
    assert_eq!(frame_of_topic(b"a/b", b"a/b/1/255/4/0/9", b""), Some(b"1;255;4;0;9;\n".to_vec()));
    assert_eq!(frame_of_topic(b"a", b"a/1/0/1/0", b"x"), None);
    assert_eq!(frame_of_topic(b"a", b"a/1/0/1/0/2/3", b"x"), None);
    assert_eq!(frame_of_topic(b"a", b"b/1/0/1/0/2", b"x"), None);
    assert_eq!(frame_of_topic(b"a", b"ab1/0/1/0/2/3", b"x"), None);
    assert_eq!(frame_of_topic(b"a", b"a", b"x"), None);
    assert_eq!(
        topic_of_frame(b"mygateway1-in", b"1;0;1;0;2;23.5\n"),
        Some((b"mygateway1-in/1/0/1/0/2".to_vec(), b"23.5".to_vec()))
    );
    assert_eq!(topic_of_frame(b"p", b"1;0;1;0;2"), None);
    let (topic, payload) = topic_of_frame(b"home/out", b"  7;255;4;1;9;abcd \r\n").unwrap();
    assert_eq!(topic, b"home/out/7/255/4/1/9".to_vec());
    assert_eq!(frame_of_topic(b"home/out", &topic, &payload), Some(b"7;255;4;1;9;abcd\n".to_vec()));
}

#[test]
fn subscription_covers_five_levels() {
    assert_eq!(subscription(b"mygateway1-out"), b"mygateway1-out/+/+/+/+/+".to_vec());
    assert_eq!(subscription(b""), b"/+/+/+/+/+".to_vec());
}

#[test]
fn searching_bytes() {
    assert_eq!(find_byte(b"ab;cd;e", b';', 0), 2);
    assert_eq!(find_byte(b"ab;cd;e", b';', 2), 2);
    assert_eq!(find_byte(b"ab;cd;e", b';', 3), 5);
    assert_eq!(find_byte(b"ab;cd;e", b';', 6), 7);
    assert_eq!(find_byte(b"", b';', 0), 0);
    assert_eq!(find_sep(b"ab;cd", 0), 2);
    assert_eq!(field_ends(b"1;22;333;4;5;x;"), None);
    assert_eq!(field_ends(b"1;22;333;4;5;x"), Some((1, 4, 8, 10, 12)));
    assert_eq!(count_separators(b";a;;b"), 3);
    assert_eq!(swap_bytes(b"a/b/c", b'/', b';'), b"a;b;c".to_vec());
    assert_eq!(write_frame(1, 20, 3, 0, 255, b"p q"), b"1;20;3;0;255;p q\n".to_vec());
}

#[test]
fn stream_payload_bytes() {
    let p = StreamPayload::decode(0, &[10, 0, 1, 0, 80, 0, 0xD4, 0x46, 2, 1]).unwrap();
    assert_eq!(
        p,
        StreamPayload::FwConfigRequest(FwConfigRequest {
            firmware_type: 10,
            firmware_version: 1,
            blocks: 80,
            crc: 18132,
            bl_version: 258,
        })
    );
    assert_eq!(p.encode(), vec![10, 0, 1, 0, 80, 0, 0xD4, 0x46, 2, 1]);
    assert_eq!(StreamPayload::decode(1, &[0; 7]), Err(ErrorKind::ShortPayload));
    assert_eq!(StreamPayload::decode(1, &[0; 9]), Err(ErrorKind::BadPayload));
    assert_eq!(StreamPayload::decode(200, &[1, 2, 3]), Ok(StreamPayload::Opaque(vec![1, 2, 3])));
    assert_eq!(read_word(&[0x34, 0x12, 0xFF, 0xFF], 0), 0x1234);
    assert_eq!(read_word(&[0x34, 0x12, 0xFF, 0xFF], 1), 0xFFFF);
    let mut out = vec![];
    push_word(&mut out, 0xE803);
    assert_eq!(out, vec![0x03, 0xE8]);
    let m = StreamMessage::build(1, 255, 1, 0, b"0a0002004f00e803").unwrap();
    assert_eq!(m.serialize(), b"1;255;4;0;1;0A0002004F00E803\n".to_vec());
    assert_eq!(StreamMessage::build(1, 255, 1, 0, b"0a0").unwrap_err(), ErrorKind::BadHex);
}
