use redfog::render::{bytes_missing, read_message, write_frame, write_input, write_message, Message, ReadError, Reader};

fn matches_desc(m: &Option<Message>) -> &'static str {
    match m {
        Some(Message::Frame { .. }) => "Frame",
        Some(Message::Input(_)) => "Input",
        None => "None",
    }
}

#[test]
fn frame_round_trips() {
    let rgba = vec![1u8, 2, 3, 255, 4, 5, 6, 255];
    let mut buf = Vec::new();
    write_frame(&mut buf, 2, 1, &rgba);
    let mut cursor = Reader::new(buf);
    match read_message(&mut cursor).unwrap() {
        Some(Message::Frame { width, height, rgba: got }) => {
            assert_eq!((width, height), (2, 1));
            assert_eq!(got, rgba);
        }
        other => panic!("expected Frame, got {other:?}", other = matches_desc(&other)),
    }
}

#[test]
fn input_round_trips() {
    let json = br#"{"MouseMoveAbsolute":{"x":12.5,"y":7.0}}"#;
    let mut buf = Vec::new();
    write_input(&mut buf, json);
    let mut cursor = Reader::new(buf);
    match read_message(&mut cursor).unwrap() {
        Some(Message::Input(got)) => {
            let value: serde_json::Value = serde_json::from_slice(&got).unwrap();
            let event = &value["MouseMoveAbsolute"];
            assert_eq!((event["x"].as_f64().unwrap(), event["y"].as_f64().unwrap()), (12.5, 7.0));
        }
        other => panic!("expected Input(MouseMoveAbsolute), got {other:?}", other = matches_desc(&other)),
    }
}

#[test]
fn clean_eof_at_boundary_is_none() {
    let mut cursor = Reader::new(Vec::<u8>::new());
    assert!(read_message(&mut cursor).unwrap().is_none());
}

#[test]
fn multiple_messages_in_sequence() {
    let mut buf = Vec::new();
    write_frame(&mut buf, 1, 1, &[9, 9, 9, 255]);
    write_input(&mut buf, br#"{"KeyboardKey":{"keycode":30,"pressed":true}}"#);
    let mut cursor = Reader::new(buf);
    assert!(matches!(read_message(&mut cursor).unwrap(), Some(Message::Frame { .. })));
    match read_message(&mut cursor).unwrap() {
        Some(Message::Input(got)) => {
            let value: serde_json::Value = serde_json::from_slice(&got).unwrap();
            assert!(value.get("KeyboardKey").is_some());
        }
        other => panic!("expected Input, got {other:?}", other = matches_desc(&other)),
    }
    assert!(read_message(&mut cursor).unwrap().is_none());
}

#[test]
fn messages_are_laid_out_little_endian() {
    let mut buf = Vec::new();
    write_frame(&mut buf, 0x0102, 3, &[7]);
    assert_eq!(buf, [1, 9, 0, 0, 0, 2, 1, 0, 0, 3, 0, 0, 0, 7]);
    let mut big = Vec::new();
    write_message(&mut big, 2, &vec![0u8; 70000]);
    assert_eq!(&big[..5], &[2, 0x70, 0x11, 1, 0]);
    assert_eq!(big.len(), 70005);
}

#[test]
fn broken_messages_are_errors() {
    let mut cut = Reader::new(vec![1, 8]);
    assert!(matches!(read_message(&mut cut), Err(ReadError::UnexpectedEof)));
    let mut short = Reader::new(vec![2, 5, 0, 0, 0, b'{']);
    assert!(matches!(read_message(&mut short), Err(ReadError::UnexpectedEof)));
    let mut tiny = Reader::new(vec![1, 3, 0, 0, 0, 1, 2, 3]);
    match read_message(&mut tiny) {
        Err(ReadError::InvalidData(m)) => assert_eq!(m, "frame payload too short"),
        _ => panic!("expected an error"),
    }
    let mut unknown = Reader::new(vec![200, 0, 0, 0, 0, 2, 0, 0, 0, 0]);
    match read_message(&mut unknown) {
        Err(ReadError::InvalidData(m)) => assert_eq!(m, "unknown login-render message tag 200"),
        _ => panic!("expected an error"),
    }
    assert!(matches!(read_message(&mut unknown), Ok(Some(Message::Input(j))) if j.is_empty()));
}

#[test]
fn a_frame_has_four_bytes_for_each_pixel() {
    for (width, height, bytes) in [(1u32, 1u32, 0usize), (1, 1, 3), (1, 1, 5), (0, 7, 1), (u32::MAX, u32::MAX, 4)] {
        let mut buf = Vec::new();
        write_frame(&mut buf, width, height, &vec![0; bytes]);
        match read_message(&mut Reader::new(buf)) {
            Err(ReadError::InvalidData(m)) => assert_eq!(m, "frame payload does not fit its size"),
            _ => panic!("expected an error"),
        }
    }
    let mut empty = Vec::new();
    write_frame(&mut empty, 0, 7, &[]);
    assert!(matches!(read_message(&mut Reader::new(empty)), Ok(Some(Message::Frame { width: 0, height: 7, .. }))));
}

#[test]
fn a_message_says_how_much_of_it_is_missing() {
    let mut buf = Vec::new();
    write_frame(&mut buf, 1, 1, &[1, 2, 3, 4]);
    assert_eq!(bytes_missing(&Vec::new()), 5);
    assert_eq!(bytes_missing(&buf[..2].to_vec()), 3);
    assert_eq!(bytes_missing(&buf[..5].to_vec()), 12);
    assert_eq!(bytes_missing(&buf[..16].to_vec()), 1);
    assert_eq!(bytes_missing(&buf), 0);
    buf.push(9);
    assert_eq!(bytes_missing(&buf), 0);
}
