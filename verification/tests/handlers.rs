use ini::Ini;
use myscontroller_rs::connection::{
    endpoint, endpoint_settings, get_mys_controller, get_mys_gateway, log_level, next_backoff,
    parse_bool, parse_number, server_configs, ConfigError, ConnectionType, EndpointSettings, Role,
};
use myscontroller_rs::error::ErrorKind;
use myscontroller_rs::firmware::{compute_crc, crc_push, pad_image, Firmware, FirmwareStore};
use myscontroller_rs::ihex::{byte_sum, decode_record, parse_file_name, parse_ihex};
use myscontroller_rs::proxy::{exit_code, first_failure, outcome, Worker};
use myscontroller_rs::interceptor::{route, Queues, Route};
use myscontroller_rs::frame::CommandType;
use myscontroller_rs::message::CommandMessage;
use myscontroller_rs::node::{allocate_node_id, handle_node_id_request};
use myscontroller_rs::ota::{process_ota, OtaAction};
use myscontroller_rs::presentation::{
    create_or_update_child_sensor, create_or_update_sensor, handle, Lookup, NodeStep, Sensor,
    SensorLookup, SensorStep,
};
use myscontroller_rs::stream_message::{StreamMessage, StreamPayload};

fn parse(text: &str) -> CommandMessage {
    CommandMessage::new(&String::from(text)).unwrap()
}

fn stream(text: &str) -> StreamMessage {
    match parse(text) {
        CommandMessage::Stream(m) => m,
        other => panic!("parsed to {:?}", other),
    }
}

fn image_of_blocks(blocks: u16) -> Vec<u8> {
    let mut image = Vec::new();
    for b in 0..blocks {
        for i in 0..16u16 {
            image.push((b * 16 + i) as u8 ^ (b >> 4) as u8);
        }
    }
    image
}

#[test]
fn crc_of_known_texts() {
    assert_eq!(compute_crc(b""), 0xFFFF);
    assert_eq!(compute_crc(b"123456789"), 0x4B37);
    assert_eq!(compute_crc(&[0x01, 0x03, 0x00, 0x00, 0x00, 0x0A]), 0xCDC5);
    assert_eq!(crc_push(0xFFFF, 0x00), 0x40BF);
}

#[test]
fn firmware_is_padded_and_summed() {
    let f = Firmware::from_image(10, 2, String::from("Blink"), vec![1, 2, 3]).unwrap();
    assert_eq!(f.blocks, 1);
    assert_eq!(f.data.len(), 16);
    assert_eq!(&f.data[..3], &[1, 2, 3]);
    assert!(f.data[3..].iter().all(|b| *b == 0xFF));
    assert_eq!(f.crc, compute_crc(&f.data));
    assert_eq!(f.name, "Blink");
    let f = Firmware::from_image(1, 1, String::new(), vec![]).unwrap();
    assert_eq!((f.blocks, f.data.len(), f.crc), (0, 0, 0xFFFF));
    let f = Firmware::from_image(1, 1, String::new(), vec![7; 32]).unwrap();
    assert_eq!((f.blocks, f.data.len()), (2, 32));
    assert!(Firmware::from_image(1, 1, String::new(), vec![0; 16 * 65535 + 1]).is_none());
    assert_eq!(Firmware::from_image(1, 1, String::new(), vec![0; 16 * 65535]).unwrap().blocks, 65535);
    let mut data = vec![9u8; 17];
    pad_image(&mut data);
    assert_eq!(data.len(), 32);
}

#[test]
fn config_response_reports_the_crc_of_the_padded_image() {
    let mut store = FirmwareStore::new();
    store.add(Firmware::from_image(10, 1, String::from("Blink"), image_of_blocks(5)[..70].to_vec()).unwrap());
    let padded = store.get(10, 1).unwrap().data.clone();
    assert_eq!(padded.len(), 80);
    match process_ota(stream("1;255;4;0;0;0A000100000000000102\n"), &store) {
        OtaAction::Reply(reply) => match reply.payload {
            StreamPayload::FwConfigResponse(r) => {
                assert_eq!(r.crc, compute_crc(&padded));
                assert_eq!(r.blocks, 5);
                assert_eq!((r.firmware_type, r.firmware_version), (10, 1));
            }
            other => panic!("replied {:?}", other),
        },
        other => panic!("did {:?}", other),
    }
}

#[test]
fn block_inside_and_past_the_image() {
    let image = image_of_blocks(8);
    let f = Firmware::from_image(10, 2, String::from("Blink"), image.clone()).unwrap();
    assert_eq!(f.block(0), image[0..16].to_vec());
    assert_eq!(f.block(7), image[112..128].to_vec());
    assert_eq!(f.block(8), vec![0xFF; 16]);
    assert_eq!(f.block(65535), vec![0xFF; 16]);
    let mut request = stream("9;0;4;1;2;0A0002000800\n");
    request.to_response(&f);
    assert_eq!(
        request.to_string(),
        "9;255;4;0;3;0A0002000800FFFFFFFFFFFFFFFFFFFFFFFFFFFFFFFF\n"
    );
}

#[test]
fn ota_answers_a_config_request() {
    let mut store = FirmwareStore::new();
    store.add(Firmware {
        firmware_type: 10,
        firmware_version: 1,
        blocks: 80,
        crc: 18132,
        data: vec![0xFF; 1280],
        name: String::from("Blink"),
    });
    match process_ota(stream("1;255;4;0;0;0A0001005000D4460102\n"), &store) {
        OtaAction::Reply(reply) => assert_eq!(reply.to_string(), "1;255;4;0;1;0A0001005000D446\n"),
        other => panic!("did {:?}", other),
    }
}

#[test]
fn ota_answers_a_block_request() {
    let mut image = image_of_blocks(9);
    image[112..128].copy_from_slice(&[0x00, 0x03, 0x04, 0x07, 0, 0, 0, 0, 0, 0, 0, 0, 0x01, 0x02, 0x04, 0x08]);
    let mut store = FirmwareStore::new();
    store.add(Firmware::from_image(10, 1, String::from("Other"), vec![0; 200]).unwrap());
    store.add(Firmware::from_image(10, 2, String::from("Blink"), image).unwrap());
    match process_ota(stream("1;255;4;0;2;0A0002000700\n"), &store) {
        OtaAction::Reply(reply) => assert_eq!(
            reply.to_string(),
            "1;255;4;0;3;0A000200070000030407000000000000000001020408\n"
        ),
        other => panic!("did {:?}", other),
    }
}

#[test]
fn ota_drops_a_request_for_an_unknown_firmware() {
    let mut store = FirmwareStore::new();
    store.add(Firmware::from_image(10, 1, String::from("Blink"), vec![0; 16]).unwrap());
    assert!(store.get(10, 2).is_none());
    assert!(store.get(11, 1).is_none());
    assert!(matches!(
        process_ota(stream("1;255;4;0;2;0A0002000700\n"), &store),
        OtaAction::Dropped(ErrorKind::FirmwareNotFound)
    ));
    assert!(matches!(
        process_ota(stream("1;255;4;0;0;0B0001005000D4460102\n"), &FirmwareStore::new()),
        OtaAction::Dropped(ErrorKind::FirmwareNotFound)
    ));
}

#[test]
fn ota_forwards_what_is_no_request() {
    let store = FirmwareStore::new();
    for text in [
        "1;255;4;0;9;ABCD\n",
        "1;255;4;0;1;0A0002005000D446\n",
        "1;255;4;0;3;0A0001004F00FFFFFFFFFFFFFFFFFFFFFFFFFFFFFFFF\n",
    ] {
        match process_ota(stream(text), &store) {
            OtaAction::Forward(m) => assert_eq!(m.to_string(), text),
            other => panic!("did {:?}", other),
        }
    }
}

#[test]
fn store_finds_the_first_match() {
    let mut store = FirmwareStore::new();
    store.add(Firmware::from_image(1, 1, String::from("a"), vec![]).unwrap());
    store.add(Firmware::from_image(1, 2, String::from("b"), vec![]).unwrap());
    store.add(Firmware::from_image(1, 2, String::from("c"), vec![]).unwrap());
    assert_eq!(store.get(1, 2).unwrap().name, "b");
    assert_eq!(store.get(1, 1).unwrap().name, "a");
}

#[test]
fn node_id_request_gets_the_next_id() {
    let request = match parse("1;255;3;0;3;") {
        CommandMessage::Other(line) => line,
        other => panic!("parsed to {:?}", other),
    };
    assert_eq!(route(request.command, request.child_sensor_id, request.sub_type), Route::NodeRequest);
    let (id, reply) = handle_node_id_request(&request, 4).unwrap();
    assert_eq!(id, 5);
    assert_eq!(reply.to_string(), "1;255;3;0;4;5\n");
    assert_eq!(handle_node_id_request(&request, 253).unwrap().0, 254);
    assert_eq!(handle_node_id_request(&request, 254).unwrap_err(), ErrorKind::AllocOverflow);
    assert_eq!(allocate_node_id(255), Err(ErrorKind::AllocOverflow));
    assert_eq!(allocate_node_id(0), Ok(1));
}

#[test]
fn set_goes_to_the_controller_only() {
    let mut queues = Queues::new();
    assert_eq!(queues.intercept(parse("1;0;1;0;2;23.5\n")), Route::Controller);
    assert_eq!(queues.controller.len(), 1);
    assert_eq!(queues.controller[0].to_string(), "1;0;1;0;2;23.5\n");
    assert!(queues.ota.is_empty() && queues.node_requests.is_empty() && queues.presentation.is_empty());
}

#[test]
fn presentation_goes_to_the_hook_only() {
    let mut queues = Queues::new();
    assert_eq!(queues.intercept(parse("1;1;0;0;6;humidity\n")), Route::Presentation);
    assert_eq!(queues.presentation.len(), 1);
    assert!(queues.ota.is_empty() && queues.node_requests.is_empty() && queues.controller.is_empty());
    let (sensor, line) = handle(&queues.presentation[0]);
    assert_eq!(
        (sensor.node_id, sensor.child_sensor_id, sensor.sensor_type, sensor.description.as_str()),
        (1, 1, 6, "humidity")
    );
    assert_eq!(line, b"1;1;0;0;6;humidity\n".to_vec());
}

#[test]
fn every_message_goes_to_exactly_one_queue() {
    let mut queues = Queues::new();
    let texts = [
        ("1;1;0;0;6;humidity\n", Route::Presentation),
        ("1;0;1;0;2;23.5\n", Route::Controller),
        ("1;0;2;0;2;\n", Route::Controller),
        ("1;255;3;0;3;\n", Route::NodeRequest),
        ("1;254;3;0;3;\n", Route::Controller),
        ("1;255;3;0;4;\n", Route::Controller),
        ("1;255;4;0;9;ABCD\n", Route::Ota),
        ("1;255;4;0;2;0A0002000700\n", Route::Ota),
    ];
    let mut n = 0;
    for (text, expected) in texts {
        assert_eq!(queues.intercept(parse(text)), expected);
        n += 1;
        let total = queues.presentation.len() + queues.node_requests.len() + queues.ota.len()
            + queues.controller.len();
        assert_eq!(total, n);
    }
    assert_eq!(
        (queues.presentation.len(), queues.node_requests.len(), queues.ota.len(), queues.controller.len()),
        (1, 1, 2, 4)
    );
    assert_eq!(route(CommandType::STREAM, 0, 0), Route::Ota);
}

#[test]
fn intel_hex_records() {
    let text = b":10010000214601360121470136007EFE09D2190140\n:100110002146017E17C20001FF5F16002148011928\r\n\r\n:00000001FF\n:04000000DEADBEEFC4\n";
    let image = parse_ihex(text).unwrap();
    assert_eq!(image.len(), 32);
    assert_eq!(&image[..4], &[0x21, 0x46, 0x01, 0x36]);
    assert_eq!(&image[16..20], &[0x21, 0x46, 0x01, 0x7E]);
    assert_eq!(parse_ihex(b""), Some(vec![]));
    assert_eq!(parse_ihex(b":020000040800F2\n:0100000055AA\n"), Some(vec![0x55]));
    assert_eq!(parse_ihex(b":0100000055AA"), Some(vec![0x55]));
    assert_eq!(parse_ihex(b":0100000055AB\n"), None);
    assert_eq!(parse_ihex(b":0200000055A9\n"), None);
    assert_eq!(parse_ihex(b"0100000055AA\n"), None);
    assert_eq!(parse_ihex(b":0100000055A\n"), None);
    assert_eq!(parse_ihex(b":00000001FF\nrubbish"), Some(vec![]));
    assert_eq!(decode_record(b":00000001FF"), Some(vec![0, 0, 0, 1, 0xFF]));
    assert_eq!(decode_record(b":0000"), None);
    assert_eq!(byte_sum(&[0xFF, 0x02, 0x80, 0x80]), 1);
    assert!(Firmware::prepare_fw(1, 1, String::new(), b":0100000055AB\n").is_none());
    let f = Firmware::prepare_fw(3, 4, String::from("n"), b":0100000055AA\n:00000001FF\n").unwrap();
    assert_eq!((f.firmware_type, f.firmware_version, f.blocks, f.data[0], f.data[15]), (3, 4, 1, 0x55, 0xFF));
}

fn settings(pairs: &[(&str, &str)]) -> EndpointSettings {
    let get = |key: &str| pairs.iter().find(|(k, _)| *k == key).map(|(_, v)| String::from(*v));
    EndpointSettings {
        kind: get("type"),
        port: get("port"),
        baud_rate: get("baud_rate"),
        timeout_enabled: get("timeout_enabled"),
        broker: get("broker"),
        publish_topic_prefix: get("publish_topic_prefix"),
    }
}

#[test]
fn endpoints_from_settings() {
    let serial = settings(&[("type", "Serial"), ("port", "/dev/tty1"), ("baud_rate", "38400")]);
    assert!(matches!(
        endpoint(&serial, Role::Gateway),
        Ok(ConnectionType::Serial { port, baud_rate: 38400 }) if port == "/dev/tty1"
    ));
    let odd = settings(&[("type", "Serial"), ("port", "/dev/tty1"), ("baud_rate", "fast")]);
    assert!(matches!(endpoint(&odd, Role::Gateway), Err(ConfigError::BadValue)));
    assert!(matches!(
        endpoint(&odd, Role::Controller),
        Ok(ConnectionType::Serial { baud_rate: 9600, .. })
    ));
    let bare = settings(&[("type", "Serial"), ("port", "/dev/tty1")]);
    assert!(matches!(endpoint(&bare, Role::Controller), Err(ConfigError::MissingKey)));
    let tcp = settings(&[("type", "TCP"), ("port", "0.0.0.0:5003"), ("timeout_enabled", "true")]);
    assert!(matches!(
        endpoint(&tcp, Role::Controller),
        Ok(ConnectionType::TcpServer { port, timeout_enabled: true }) if port == "0.0.0.0:5003"
    ));
    assert!(matches!(
        endpoint(&tcp, Role::Gateway),
        Ok(ConnectionType::TcpClient { timeout_enabled: true, .. })
    ));
    let tcp = settings(&[("type", "TCP"), ("port", "10.0.0.1:5003")]);
    assert!(matches!(
        endpoint(&tcp, Role::Gateway),
        Ok(ConnectionType::TcpClient { timeout_enabled: false, .. })
    ));
    let tcp = settings(&[("type", "TCP"), ("port", "10.0.0.1:5003"), ("timeout_enabled", "yes")]);
    assert!(matches!(endpoint(&tcp, Role::Gateway), Err(ConfigError::BadValue)));
    let mqtt = settings(&[
        ("type", "MQTT"),
        ("port", "1883"),
        ("broker", "localhost"),
        ("publish_topic_prefix", "mygateway1-in"),
    ]);
    assert!(matches!(
        endpoint(&mqtt, Role::Gateway),
        Ok(ConnectionType::MQTT { broker, port: 1883, publish_topic_prefix })
            if broker == "localhost" && publish_topic_prefix == "mygateway1-in"
    ));
    let mqtt = settings(&[("type", "MQTT"), ("port", "65536"), ("broker", "b"), ("publish_topic_prefix", "p")]);
    assert!(matches!(endpoint(&mqtt, Role::Controller), Err(ConfigError::BadValue)));
    let mqtt = settings(&[("type", "MQTT"), ("port", "1883"), ("publish_topic_prefix", "p")]);
    assert!(matches!(endpoint(&mqtt, Role::Controller), Err(ConfigError::MissingKey)));
    let mqtt = settings(&[("type", "MQTT"), ("port", "1883"), ("broker", "b")]);
    assert!(matches!(endpoint(&mqtt, Role::Controller), Err(ConfigError::MissingKey)));
    assert!(matches!(endpoint(&settings(&[("port", "1")]), Role::Gateway), Err(ConfigError::MissingKey)));
    assert!(matches!(endpoint(&settings(&[("type", "TCP")]), Role::Gateway), Err(ConfigError::MissingKey)));
    assert_eq!(parse_number(b"+12", 100), Some(12));
    assert_eq!(parse_number(b"+", 100), None);
    assert_eq!(parse_number(b"101", 100), None);
    assert_eq!(parse_bool(b"true"), Some(true));
    assert_eq!(parse_bool(b"false"), Some(false));
    assert_eq!(parse_bool(b"True"), None);
}

#[test]
fn endpoints_from_a_settings_file() {
    let conf = Ini::load_from_str(
        "[Gateway]\ntype=Serial\nport=/dev/tty1\nbaud_rate=38400\n\n[Controller]\ntype=TCP\nport=0.0.0.0:5003\n\n[Server]\ndatabase_url=/var/lib/myscontroller-rs/sqlite.db\nlog_level=debug\n",
    )
    .unwrap();
    assert!(matches!(
        get_mys_gateway(&conf),
        Ok(ConnectionType::Serial { port, baud_rate: 38400 }) if port == "/dev/tty1"
    ));
    assert!(matches!(
        get_mys_controller(&conf),
        Ok(Some(ConnectionType::TcpServer { port, timeout_enabled: false })) if port == "0.0.0.0:5003"
    ));
    assert_eq!(server_configs(&conf), Ok(String::from("/var/lib/myscontroller-rs/sqlite.db")));
    assert_eq!(log_level(&conf), "debug");
    let settings = endpoint_settings(&conf, "Gateway").unwrap();
    assert_eq!(settings.kind.as_deref(), Some("Serial"));
    assert_eq!(settings.port.as_deref(), Some("/dev/tty1"));
    assert_eq!(settings.baud_rate.as_deref(), Some("38400"));
    assert_eq!(settings.broker, None);
    assert!(endpoint_settings(&conf, "Broker").is_none());

    let conf = Ini::load_from_str(
        "[Gateway]\ntype=MQTT\nport=1883\nbroker=localhost\npublish_topic_prefix=mygateway1-in\n\n[Server]\n",
    )
    .unwrap();
    assert!(matches!(
        get_mys_gateway(&conf),
        Ok(ConnectionType::MQTT { broker, port: 1883, publish_topic_prefix })
            if broker == "localhost" && publish_topic_prefix == "mygateway1-in"
    ));
    assert!(matches!(get_mys_controller(&conf), Ok(None)));
    assert_eq!(server_configs(&conf), Err(ConfigError::MissingKey));
    assert_eq!(log_level(&conf), "myscontroller_rs=info,actix_web=info");

    let conf = Ini::load_from_str("[Controller]\ntype=Serial\nport=/dev/tty1\n").unwrap();
    assert!(matches!(get_mys_gateway(&conf), Err(ConfigError::MissingSection)));
    assert!(matches!(get_mys_controller(&conf), Err(ConfigError::MissingKey)));
    assert_eq!(server_configs(&conf), Err(ConfigError::MissingSection));
    assert_eq!(log_level(&conf), "myscontroller_rs=info,actix_web=info");
}

#[test]
fn backoff_doubles_up_to_the_cap() {
    assert_eq!(next_backoff(0, false), 100);
    assert_eq!(next_backoff(100, false), 200);
    assert_eq!(next_backoff(12800, false), 25600);
    assert_eq!(next_backoff(14999, false), 29998);
    assert_eq!(next_backoff(15000, false), 30000);
    assert_eq!(next_backoff(25600, false), 30000);
    assert_eq!(next_backoff(30000, false), 30000);
    assert_eq!(next_backoff(u32::MAX, false), 30000);
    assert_eq!(next_backoff(30000, true), 100);
}

#[test]
fn presentation_steps() {
    assert_eq!(create_or_update_sensor(Lookup::Found), NodeStep::UseNode);
    assert_eq!(create_or_update_sensor(Lookup::NotFound), NodeStep::CreateNode);
    assert_eq!(create_or_update_sensor(Lookup::Failed), NodeStep::GiveUp);
    let seen = Sensor { node_id: 1, child_sensor_id: 1, sensor_type: 6, description: String::from("humidity") };
    let mut known = seen.clone();
    assert_eq!(create_or_update_child_sensor(&SensorLookup::Found(known.clone()), &seen), SensorStep::Keep);
    known.description = String::from("temperature");
    assert_eq!(create_or_update_child_sensor(&SensorLookup::Found(known.clone()), &seen), SensorStep::Update);
    known.description = String::from("humidity");
    known.sensor_type = 7;
    assert_eq!(create_or_update_child_sensor(&SensorLookup::Found(known), &seen), SensorStep::Update);
    assert_eq!(create_or_update_child_sensor(&SensorLookup::NotFound, &seen), SensorStep::Insert);
    assert_eq!(create_or_update_child_sensor(&SensorLookup::Failed, &seen), SensorStep::Keep);
}

#[test]
fn firmware_file_names() {
    assert_eq!(parse_file_name(b"10__2__Blink.hex"), Some((10, 2, b"Blink".to_vec())));
    assert_eq!(parse_file_name(b"10__2__Blink.ino.hex"), Some((10, 2, b"Blink.ino".to_vec())));
    assert_eq!(parse_file_name(b"65535__0__a_b__c.hex"), Some((65535, 0, b"a_b__c".to_vec())));
    assert_eq!(parse_file_name(b"1__2__.hex"), Some((1, 2, vec![])));
    assert_eq!(parse_file_name(b"65536__2__Blink.hex"), None);
    assert_eq!(parse_file_name(b"10_2__Blink.hex"), None);
    assert_eq!(parse_file_name(b"10__2_Blink.hex"), None);
    assert_eq!(parse_file_name(b"10__2__Blink.bin"), None);
    assert_eq!(parse_file_name(b"10__2__hex"), None);
    assert_eq!(parse_file_name(b"x__2__Blink.hex"), None);
    assert_eq!(parse_file_name(b"10____Blink.hex"), None);
    assert_eq!(parse_file_name(b"Blink.hex"), None);
    assert_eq!(parse_file_name(b""), None);
}

#[test]
fn refused_frame_goes_nowhere() {
    let mut queues = Queues::new();
    assert_eq!(queues.intercept_frame(b"1;0;7;0;2;23.5\n"), Err(ErrorKind::UnknownCommand));
    assert_eq!(queues.intercept_frame(b"garbage"), Err(ErrorKind::MalformedFrame));
    assert_eq!(queues.intercept_frame(b"1;255;4;0;2;0A\n"), Err(ErrorKind::ShortPayload));
    assert!(queues.ota.is_empty() && queues.node_requests.is_empty());
    assert!(queues.presentation.is_empty() && queues.controller.is_empty());
    assert_eq!(queues.intercept_frame(b"1;255;4;0;9;ABCD\n"), Ok(Route::Ota));
    assert_eq!(queues.intercept_frame(b"1;255;3;0;3;\n"), Ok(Route::NodeRequest));
    assert_eq!((queues.ota.len(), queues.node_requests.len()), (1, 1));
    assert!(queues.presentation.is_empty() && queues.controller.is_empty());
}

#[test]
fn first_failed_worker_names_the_end() {
    assert_eq!(outcome(None), Ok(String::from("Done")));
    assert_eq!(outcome(Some(Worker::Interceptor)), Err(String::from("Error in Message interceptor")));
    assert_eq!(outcome(Some(Worker::GatewayReader)), Err(String::from("Error in Gateway reader")));
    assert_eq!(outcome(Some(Worker::ControllerReader)), Err(String::from("Error in Controller reader")));
    assert_eq!(outcome(Some(Worker::GatewayWriter)), Err(String::from("Error in Gateway writer")));
    assert_eq!(outcome(Some(Worker::ControllerWriter)), Err(String::from("Error in Controller writer")));
    assert_eq!(outcome(Some(Worker::OtaProcessor)), Err(String::from("Error in OTA processor")));
    assert_eq!(outcome(Some(Worker::NodeManager)), Err(String::from("Error in Node Manager")));
    assert_eq!(first_failure(&[false; 7]), None);
    assert_eq!(first_failure(&[false, false, true, false, true, false, true]), Some(Worker::ControllerReader));
    assert_eq!(first_failure(&[false, false, false, false, false, false, true]), Some(Worker::NodeManager));
    assert_eq!(first_failure(&[true; 7]), Some(Worker::Interceptor));
    assert_eq!(exit_code(true, None), 0);
    assert_eq!(exit_code(false, None), 1);
    assert_eq!(exit_code(false, Some(Worker::OtaProcessor)), 1);
    assert_eq!(exit_code(true, Some(Worker::GatewayReader)), 2);
}
