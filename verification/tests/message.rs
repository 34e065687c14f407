use myscontroller_rs::firmware::Firmware;
use myscontroller_rs::message::CommandMessage;
use myscontroller_rs::stream_message::{StreamPayload, StreamType};

#[test]
fn parse_correct_command_fw_config_request() {
    let message_string = "1;255;4;0;0;0A0001005000D4460102\n";
    if let Ok(CommandMessage::Stream(message)) =
        CommandMessage::new(&String::from(message_string))
    {
        assert_eq!(message.sub_type, StreamType::StFirmwareConfigRequest);
        let stream_payload = match message.payload {
            StreamPayload::FwConfigRequest(stream_payload) => Some(stream_payload),
            _ => None,
        }
        .unwrap();
        assert_eq!(stream_payload.firmware_type, 10);
        assert_eq!(stream_payload.firmware_version, 1);
        assert_eq!(stream_payload.blocks, 80);
        assert_eq!(stream_payload.crc, 18132);
        assert_eq!(stream_payload.bl_version, 513);
    } else {
        assert!(false, "Didn't parse to Stream message");
    }
}

#[test]
fn parse_correct_command_fw_config_response() {
    let message_string = "1;255;4;0;1;0A0002005000D446\n";
    if let Ok(CommandMessage::Stream(message)) =
        CommandMessage::new(&String::from(message_string))
    {
        assert_eq!(message.sub_type, StreamType::StFirmwareConfigResponse);
        let stream_payload = match message.payload {
            StreamPayload::FwConfigResponse(stream_payload) => Some(stream_payload),
            _ => None,
        }
        .unwrap();
        assert_eq!(stream_payload.firmware_type, 10);
        assert_eq!(stream_payload.firmware_version, 2);
        assert_eq!(stream_payload.blocks, 80);
        assert_eq!(stream_payload.crc, 18132);
    } else {
        assert!(false, "Didn't parse to Stream message");
    }
}

#[test]
fn parse_correct_command_fw_request() {
    let message_string = "1;255;4;0;2;0A0002004F00\n ";
    if let Ok(CommandMessage::Stream(message)) =
        CommandMessage::new(&String::from(message_string))
    {
        assert_eq!(message.sub_type, StreamType::StFirmwareRequest);

        let stream_payload = match message.payload {
            StreamPayload::FwRequest(stream_payload) => Some(stream_payload),
            _ => None,
        }
        .unwrap();

        assert_eq!(stream_payload.firmware_type, 10);
        assert_eq!(stream_payload.firmware_version, 2);
        assert_eq!(stream_payload.blocks, 79);
    } else {
        assert!(false, "Didn't parse to Stream message");
    }
}

#[test]
fn parse_correct_command_fw_response() {
    let message_string = "1;255;4;0;3;0A0001004F00FFFFFFFFFFFFFFFFFFFFFFFFFFFFFFFF\n ";
    if let Ok(CommandMessage::Stream(message)) =
        CommandMessage::new(&String::from(message_string))
    {
        assert_eq!(message.sub_type, StreamType::StFirmwareResponse);
        let stream_payload = match message.payload {
            StreamPayload::FwResponse(stream_payload) => Some(stream_payload),
            _ => None,
        }
        .unwrap();

        assert_eq!(stream_payload.firmware_type, 10);
        assert_eq!(stream_payload.firmware_version, 1);
        assert_eq!(stream_payload.blocks, 79);
    } else {
        assert!(false, "Didn't parse to Stream message");
    }
}

#[test]
fn format_fw_config_request() {
    let message_string = "1;255;4;0;0;0A0001005000D4460102\n";
    let command_message = CommandMessage::new(&String::from(message_string)).unwrap();
    assert_eq!(command_message.to_string(), String::from(message_string));
}

#[test]
fn format_fw_config_response() {
    let message_string = "1;255;4;0;1;0A0002005000D446\n";
    let command_message = CommandMessage::new(&String::from(message_string)).unwrap();
    assert_eq!(command_message.to_string(), String::from(message_string));
}

#[test]
fn format_fw_resquest() {
    let message_string = "1;255;4;0;3;0A0002004F0000000000000000000000000000000000\n";
    let command_message = CommandMessage::new(&String::from(message_string)).unwrap();
    assert_eq!(command_message.to_string(), String::from(message_string));
}

#[test]
fn format_fw_response() {
    let message_string = "1;255;4;0;3;0A0001004F00FFFFFFFFFFFFFFFFFFFFFFFFFFFFFFFF\n";
    let command_message = CommandMessage::new(&String::from(message_string)).unwrap();
    assert_eq!(command_message.to_string(), String::from(message_string));
}

#[test]
fn convert_fw_config_request_to_response() {
    let message_string = "1;255;4;0;0;0A0001005000D4460102\n";
    if let Ok(CommandMessage::Stream(mut message)) =
        CommandMessage::new(&String::from(message_string))
    {
        message.to_response(&Firmware {
            firmware_type: 10,
            firmware_version: 2,
            blocks: 79,
            crc: 1000,
            data: vec![],
            name: String::from("Blink.hex"),
        });
        assert_eq!(
            message.to_string(),
            String::from("1;255;4;0;1;0A0002004F00E803\n")
        );
    } else {
        assert!(false, "Didn't parse to Stream message");
    }
}

fn hex_record(address: u16, kind: u8, data: &[u8]) -> String {
    let mut bytes: Vec<u8> = vec![data.len() as u8, (address >> 8) as u8, address as u8, kind];
    bytes.extend_from_slice(data);
    let mut sum: u8 = 0;
    for b in &bytes {
        sum = sum.wrapping_add(*b);
    }
    bytes.push(0u8.wrapping_sub(sum));
    let mut line = String::from(":");
    for b in &bytes {
        line.push_str(&format!("{:02X}", b));
    }
    line.push_str("\r\n");
    line
}

fn blink_hex_file() -> String {
    let mut file = String::new();
    for block in 0u16..9 {
        let data: Vec<u8> = if block == 7 {
            vec![0x00, 0x03, 0x04, 0x07, 0, 0, 0, 0, 0, 0, 0, 0, 0x01, 0x02, 0x04, 0x08]
        } else if block == 8 {
            vec![0x0C, 0x94, 0x5C]
        } else {
            vec![block as u8; 16]
        };
        file.push_str(&hex_record(block * 16, 0, &data));
    }
    file.push_str(":00000001FF\r\n");
    file
}

#[test]
fn convert_fw_request_to_response() {
    let message_string = "1;255;4;0;2;0A0002000700\n";
    if let Ok(CommandMessage::Stream(mut message)) =
        CommandMessage::new(&String::from(message_string))
    {
        message.to_response(
            &Firmware::prepare_fw(10, 2, String::from("Blink"), blink_hex_file().as_bytes())
                .unwrap(),
        );
        assert_eq!(
            message.to_string(),
            String::from("1;255;4;0;3;0A000200070000030407000000000000000001020408\n")
        );
    } else {
        assert!(false, "Didn't parse to Stream message");
    }
}
