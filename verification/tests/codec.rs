use streamcore::binframe::{decode_binary_frame, encode_binary_frame};
use streamcore::json::{
    decode_client_message, decode_server_message, encode_client_message, encode_server_message,
};
use streamcore::protocol::{ClientMessage, ServerMessage};

#[test]
fn json_frame_round_trip() {
    let data: Vec<u8> = (0u8..24).collect();
    let msg = ServerMessage::Frame { width: 4, height: 2, data: data.clone() };
    let text = encode_server_message(&msg);
    let back = decode_server_message(&text).expect("canonical frame must decode");
    match back {
        ServerMessage::Frame { width, height, data: d } => {
            assert_eq!(width, 4);
            assert_eq!(height, 2);
            assert_eq!(d, data);
        }
        _ => panic!("wrong variant"),
    }
}

#[test]
fn json_frame_exact_text() {
    let msg = ServerMessage::Frame { width: 1, height: 2, data: vec![0, 255, 7] };
    let text = encode_server_message(&msg);
    assert_eq!(
        text,
        "{\"type\":\"Frame\",\"width\":1,\"height\":2,\"data\":[0,255,7]}"
    );
}

#[test]
fn json_frame_is_valid_json_for_serde() {
    let msg = ServerMessage::Frame { width: 4, height: 2, data: vec![9, 8, 7] };
    let text = encode_server_message(&msg);
    let v: serde_json::Value = serde_json::from_str(&text).expect("must be valid JSON");
    assert_eq!(v["type"], "Frame");
    assert_eq!(v["width"], 4);
    assert_eq!(v["height"], 2);
    assert_eq!(v["data"][2], 7);
}

#[test]
fn json_mode_set_round_trip() {
    let msg = ServerMessage::ModeSet { success: true, message: "Desktop mode set".to_string() };
    let text = encode_server_message(&msg);
    assert_eq!(
        text,
        "{\"type\":\"ModeSet\",\"success\":true,\"message\":\"Desktop mode set\"}"
    );
    assert_eq!(decode_server_message(&text), Some(msg));
}

#[test]
fn json_pong_and_error_round_trip() {
    let pong = encode_server_message(&ServerMessage::Pong);
    assert_eq!(pong, "{\"type\":\"Pong\"}");
    assert_eq!(decode_server_message(&pong), Some(ServerMessage::Pong));

    let err = ServerMessage::Error { message: "Application has stopped".to_string() };
    let text = encode_server_message(&err);
    assert_eq!(decode_server_message(&text), Some(err));
}

#[test]
fn json_ping_round_trip() {
    let text = encode_client_message(&ClientMessage::Ping);
    assert_eq!(text, "{\"type\":\"Ping\"}");
    assert_eq!(decode_client_message(&text), Some(ClientMessage::Ping));
}

#[test]
fn json_set_mode_round_trip() {
    let msg = ClientMessage::SetMode {
        mode: "app".to_string(),
        screen_id: None,
        command: Some("xterm".to_string()),
        args: Some(vec!["-e".to_string(), "top".to_string()]),
        workdir: Some("/tmp".to_string()),
        isolate_files: Some(true),
    };
    let text = encode_client_message(&msg);
    assert_eq!(
        text,
        "{\"type\":\"SetMode\",\"mode\":\"app\",\"screen_id\":null,\"command\":\"xterm\",\"args\":[\"-e\",\"top\"],\"workdir\":\"/tmp\",\"isolate_files\":true}"
    );
    assert_eq!(decode_client_message(&text), Some(msg));
}

#[test]
fn json_set_mode_desktop_round_trip() {
    let msg = ClientMessage::SetMode {
        mode: "desktop".to_string(),
        screen_id: Some(3),
        command: None,
        args: None,
        workdir: None,
        isolate_files: None,
    };
    let text = encode_client_message(&msg);
    assert_eq!(decode_client_message(&text), Some(msg));
}

#[test]
fn json_mouse_and_key_round_trip() {
    let mv = ClientMessage::MouseMove { x: -17, y: 42 };
    let text = encode_client_message(&mv);
    assert_eq!(text, "{\"type\":\"MouseMove\",\"x\":-17,\"y\":42}");
    assert_eq!(decode_client_message(&text), Some(mv));

    let click = ClientMessage::MouseClick { button: 2, pressed: false };
    let text = encode_client_message(&click);
    assert_eq!(decode_client_message(&text), Some(click));

    let key = ClientMessage::KeyPress { key: "ArrowUp".to_string(), pressed: true };
    let text = encode_client_message(&key);
    assert_eq!(decode_client_message(&text), Some(key));
}

#[test]
fn json_decode_rejects_garbage() {
    assert_eq!(decode_client_message(""), None);
    assert_eq!(decode_client_message("{}"), None);
    assert_eq!(decode_client_message("{\"type\":\"Nope\"}"), None);
    assert_eq!(decode_client_message("{\"type\":\"Ping\"} "), None);
    assert_eq!(
        decode_client_message("{\"type\":\"MouseMove\",\"x\":1,\"y\":}"),
        None
    );
    assert_eq!(decode_server_message("{\"type\":\"Frame\"}"), None);
}

#[test]
fn json_escaped_key_decodes() {
    // A key that needs escaping is refused by the strict decoder.
    let text = "{\"type\":\"KeyPress\",\"key\":\"a\\\"b\",\"pressed\":true}";
    assert_eq!(decode_client_message(text), None);
}

#[test]
fn binary_frame_round_trip() {
    let data: Vec<u8> = vec![1, 2, 3, 4, 5, 6];
    let bytes = encode_binary_frame(640, 480, &data);
    assert_eq!(bytes.len(), 8 + 6);
    assert_eq!(&bytes[0..4], &[128, 2, 0, 0]);
    assert_eq!(&bytes[4..8], &[224, 1, 0, 0]);
    match decode_binary_frame(&bytes) {
        Some(ServerMessage::Frame { width, height, data: d }) => {
            assert_eq!(width, 640);
            assert_eq!(height, 480);
            assert_eq!(d, data);
        }
        _ => panic!("binary frame must decode"),
    }
}

#[test]
fn binary_frame_header_layout() {
    let bytes = encode_binary_frame(0x01020304, 0xA0B0C0D0, &vec![]);
    assert_eq!(bytes, vec![0x04, 0x03, 0x02, 0x01, 0xD0, 0xC0, 0xB0, 0xA0]);
}

#[test]
fn binary_frame_short_is_invalid() {
    assert!(decode_binary_frame(&vec![]).is_none());
    assert!(decode_binary_frame(&vec![1, 2, 3, 4, 5, 6, 7]).is_none());
    // Exactly a header and no payload is a valid empty frame.
    match decode_binary_frame(&vec![0; 8]) {
        Some(ServerMessage::Frame { width, height, data }) => {
            assert_eq!(width, 0);
            assert_eq!(height, 0);
            assert!(data.is_empty());
        }
        _ => panic!("8-byte message must decode"),
    }
}

#[test]
fn json_empty_frame_and_empty_key_round_trip() {
    let frame = ServerMessage::Frame { width: 0, height: 0, data: vec![] };
    let text = encode_server_message(&frame);
    assert_eq!(text, "{\"type\":\"Frame\",\"width\":0,\"height\":0,\"data\":[]}");
    assert_eq!(decode_server_message(&text), Some(frame));

    let key = ClientMessage::KeyPress { key: String::new(), pressed: false };
    let text = encode_client_message(&key);
    assert_eq!(decode_client_message(&text), Some(key));
}

#[test]
fn json_set_mode_is_valid_json_for_serde() {
    let msg = ClientMessage::SetMode {
        mode: "desktop".to_string(),
        screen_id: Some(0),
        command: None,
        args: Some(vec![]),
        workdir: None,
        isolate_files: Some(false),
    };
    let text = encode_client_message(&msg);
    let v: serde_json::Value = serde_json::from_str(&text).expect("must be valid JSON");
    assert_eq!(v["type"], "SetMode");
    assert_eq!(v["mode"], "desktop");
    assert!(v["command"].is_null());
    assert_eq!(v["isolate_files"], false);
    assert_eq!(decode_client_message(&text), Some(msg));
}
