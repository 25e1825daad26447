use std::rc::Rc;

use dlt::msgcodec::{ExtendedHeaderConfig, Message, MessageConfig};
use dlt::nonverbose::{FibexMetadata, FrameMetadata, IdFrame, KeyedFrame, Pdu};
use dlt::pipeline::{loop_decision, ChunkFactory, DltSession, LoopDecision, LoopEvent};
use dlt::render::{render_message, string_val_text, timestamp_text};
use dlt::types::{
    Argument, DltTimeStamp, Endianness, FixedPoint, FixedPointValue, FloatWidth, LogLevel,
    MessageType, Payload2, PayloadContent, StringCoding, TypeInfo, TypeInfoKind, TypeLength,
    Value,
};

fn ti(kind: TypeInfoKind, vari: bool) -> TypeInfo {
    TypeInfo { kind, coding: StringCoding::UTF8, has_variable_info: vari, has_trace_info: false }
}

#[test]
fn verbose_line_has_the_expected_columns() {
    let arg = Argument {
        type_info: ti(TypeInfoKind::Unsigned(TypeLength::BitLength32), true),
        name: Some(b"count".to_vec()),
        unit: None,
        fixed_point: None,
        value: Value::U32(42),
    };
    let msg = Message::new(
        MessageConfig {
            version: 1,
            counter: 0,
            endianness: Endianness::Little,
            ecu_id: None,
            session_id: None,
            timestamp: None,
            payload: Payload2 { payload_content: PayloadContent::Verbose(vec![arg]) },
            extended_header_info: Some(ExtendedHeaderConfig {
                message_type: MessageType::Log(LogLevel::Info),
                app_id: b"APP".to_vec(),
                context_id: b"CTX".to_vec(),
            }),
        },
        None,
        None,
    );
    let line = render_message(&msg).expect("renders");
    assert_eq!(
        line,
        b"-\x04-\x041\x04\x040\x04\x04\x04APP\x04CTX\x04INFO\x04\x05count: 42".to_vec()
    );
}

#[test]
fn newlines_in_string_values_become_the_sentinel() {
    let rendered = string_val_text(&b"a\nb\r\nc\n".to_vec());
    assert_eq!(rendered, b"a\x06b\x06c".to_vec());
    assert!(!rendered.contains(&b'\n'));
}

#[test]
fn out_of_range_microseconds_render_the_placeholder() {
    let t = timestamp_text(&DltTimeStamp { seconds: 5, microseconds: 3_000_000 });
    assert_eq!(t, b"no valid timestamp for 5s/3000000us".to_vec());
}

#[test]
fn in_range_timestamp_renders_rfc3339() {
    let t = timestamp_text(&DltTimeStamp { seconds: 1, microseconds: 500_000 });
    let expected = format!(
        "{}",
        humantime::format_rfc3339(
            std::time::UNIX_EPOCH + std::time::Duration::from_millis(1_500)
        )
    );
    assert_eq!(t, expected.into_bytes());
}

#[test]
fn fixed_point_renders_the_logical_value() {
    // 7785 * 0.01 = 77.85, truncated to 77; the offset -50 is added as its
    // unsigned 64-bit image, wrapping to 27.
    let a = Argument {
        type_info: ti(TypeInfoKind::SignedFixedPoint(FloatWidth::Width32), false),
        name: None,
        unit: None,
        fixed_point: Some(FixedPoint {
            quantization_bits: 0.01f32.to_bits(),
            offset: FixedPointValue::I32(-50),
        }),
        value: Value::I32(7785),
    };
    assert_eq!(a.to_real_value(), Some(27));
}

#[test]
fn nonverbose_frame_renders_description_and_signals() {
    let frame = FrameMetadata {
        application_id: None,
        context_id: None,
        message_info: None,
        pdus: vec![
            Pdu { description: Some(b"hello".to_vec()), signal_types: vec![] },
            Pdu {
                description: None,
                signal_types: vec![
                    ti(TypeInfoKind::Unsigned(TypeLength::BitLength16), false),
                    ti(TypeInfoKind::StringType, false),
                ],
            },
        ],
    };
    let fibex = FibexMetadata {
        frame_map_with_key: vec![KeyedFrame {
            context_id: b"CTX".to_vec(),
            application_id: b"APP".to_vec(),
            frame_id: 9,
            frame: frame.clone(),
        }],
        frame_map: vec![IdFrame { frame_id: 9, frame }],
    };
    let msg = Message::new(
        MessageConfig {
            version: 1,
            counter: 0,
            endianness: Endianness::Big,
            ecu_id: None,
            session_id: None,
            timestamp: None,
            payload: Payload2 {
                payload_content: PayloadContent::NonVerbose(
                    9,
                    vec![0x00, 0x07, 0x00, 0x04, b'T', b'E', b'S', b'T'],
                ),
            },
            extended_header_info: Some(ExtendedHeaderConfig {
                message_type: MessageType::Log(LogLevel::Info),
                app_id: b"APP".to_vec(),
                context_id: b"CTX".to_vec(),
            }),
        },
        Some(Rc::new(fibex)),
        None,
    );
    let line = render_message(&msg).expect("renders");
    let text = String::from_utf8_lossy(&line).to_string();
    assert!(text.contains("\u{5}hello "));
    assert!(text.contains("\u{5}7 "));
    assert!(text.contains("\u{5}TEST "));
}

#[test]
fn unmatched_nonverbose_id_renders_the_bracketed_hint() {
    let msg = Message::new(
        MessageConfig {
            version: 1,
            counter: 0,
            endianness: Endianness::Little,
            ecu_id: None,
            session_id: None,
            timestamp: None,
            payload: Payload2 {
                payload_content: PayloadContent::NonVerbose(42, vec![1, 2, 3, 4]),
            },
            extended_header_info: None,
        },
        None,
        None,
    );
    let line = render_message(&msg).expect("renders");
    let text = String::from_utf8_lossy(&line).to_string();
    assert!(text.ends_with("\u{5}[42]\u{5} - fibex missing -"));
}

#[test]
fn chunks_tile_the_byte_range() {
    let mut f = ChunkFactory::new(2, 0, 100);
    assert_eq!(f.add_line(10), None);
    let c1 = f.add_line(5).expect("chunk after two lines");
    assert_eq!((c1.byte_start, c1.byte_end), (100, 115));
    assert_eq!((c1.row_start, c1.row_end), (0, 2));
    assert_eq!(f.add_line(7), None);
    let c2 = f.add_line(3).expect("second chunk");
    assert_eq!(c2.byte_start, c1.byte_end);
    assert_eq!((c2.byte_start, c2.byte_end), (115, 125));
    assert_eq!(c2.row_start, c1.row_end);
    assert_eq!(f.add_line(4), None);
    let tail = f.last_chunk().expect("open chunk at shutdown");
    assert_eq!(tail.byte_start, c2.byte_end);
    assert_eq!(tail.byte_end, 129);
}

#[test]
fn session_numbers_lines_densely_and_stamps_receive_time() {
    let mut s = DltSession::new(b"tag".to_vec(), b"ECU1".to_vec(), 5, 1000, 0);
    let mk = || {
        Message::new(
            MessageConfig {
                version: 1,
                counter: 0,
                endianness: Endianness::Little,
                ecu_id: None,
                session_id: None,
                timestamp: None,
                payload: Payload2 {
                    payload_content: PayloadContent::Verbose(vec![Argument {
                        type_info: ti(TypeInfoKind::Bool, false),
                        name: None,
                        unit: None,
                        fixed_point: None,
                        value: Value::Bool(true),
                    }]),
                },
                extended_header_info: Some(ExtendedHeaderConfig {
                    message_type: MessageType::Log(LogLevel::Info),
                    app_id: b"A".to_vec(),
                    context_id: b"C".to_vec(),
                }),
            },
            None,
            None,
        )
    };
    let (l1, _) = s.on_message(mk(), 1_500).expect("renders");
    let (l2, _) = s.on_message(mk(), 1_500).expect("renders");
    assert!(l1.starts_with(b"tag\t5\t"));
    assert!(l2.starts_with(b"tag\t6\t"));
    assert!(l1.ends_with(b"\n"));
    // The synthesized storage header stamps the line with the wall clock
    // and the configured ECU.
    let expected_ts = format!(
        "{}",
        humantime::format_rfc3339(
            std::time::UNIX_EPOCH + std::time::Duration::from_millis(1_500)
        )
    );
    let body = String::from_utf8_lossy(&l1).to_string();
    let after_tag = body.splitn(3, '\t').nth(2).unwrap().to_string();
    let first_col = after_tag.split('\u{4}').next().unwrap().to_string();
    assert_eq!(first_col, expected_ts);
    let second_col = after_tag.split('\u{4}').nth(1).unwrap().to_string();
    assert_eq!(second_col, "ECU1");
}

#[test]
fn control_message_renders_the_service_name() {
    let msg = Message::new(
        MessageConfig {
            version: 1,
            counter: 0,
            endianness: Endianness::Little,
            ecu_id: None,
            session_id: None,
            timestamp: None,
            payload: Payload2 {
                payload_content: PayloadContent::ControlMsg(
                    dlt::types::ControlType::Request,
                    vec![1, 2, 3],
                ),
            },
            extended_header_info: Some(ExtendedHeaderConfig {
                message_type: MessageType::Control(dlt::types::ControlType::Request),
                app_id: b"APP".to_vec(),
                context_id: b"CTX".to_vec(),
            }),
        },
        None,
        None,
    );
    let line = render_message(&msg).expect("renders");
    let text = String::from_utf8_lossy(&line).to_string();
    assert!(text.ends_with("[set_log_level]"));
}

#[test]
fn float_values_render_from_their_bits() {
    let a = Argument {
        type_info: ti(TypeInfoKind::Float(FloatWidth::Width32), false),
        name: None,
        unit: None,
        fixed_point: None,
        value: Value::F32(42.5f32.to_bits()),
    };
    let t = dlt::render::argument_text(&a);
    let text = String::from_utf8_lossy(&t).to_string();
    assert!(text.contains("42.5"), "got {text}");
}

#[test]
fn loop_decisions_follow_the_events() {
    assert_eq!(loop_decision(LoopEvent::Shutdown), LoopDecision::Stop);
    assert_eq!(loop_decision(LoopEvent::Message), LoopDecision::Write);
    assert_eq!(loop_decision(LoopEvent::Hickup), LoopDecision::Skip);
    assert_eq!(loop_decision(LoopEvent::Unrecoverable), LoopDecision::Finish);
    assert_eq!(loop_decision(LoopEvent::StreamEnd), LoopDecision::Finish);
}

#[test]
fn whole_line_holds_no_raw_newline() {
    let arg = Argument {
        type_info: ti(TypeInfoKind::StringType, false),
        name: None,
        unit: None,
        fixed_point: None,
        value: Value::StringVal(b"first\nsecond\r\nthird".to_vec()),
    };
    let msg = Message::new(
        MessageConfig {
            version: 1,
            counter: 7,
            endianness: Endianness::Little,
            ecu_id: Some(b"ECU1".to_vec()),
            session_id: Some(9),
            timestamp: Some(1234),
            payload: Payload2 { payload_content: PayloadContent::Verbose(vec![arg]) },
            extended_header_info: Some(ExtendedHeaderConfig {
                message_type: MessageType::Log(LogLevel::Warn),
                app_id: b"APP".to_vec(),
                context_id: b"CTX".to_vec(),
            }),
        },
        None,
        None,
    );
    let line = render_message(&msg).expect("renders");
    assert!(!line.contains(&b'\n'));
    assert!(line.windows(2).any(|w| w == [b't', b'\x06']));
}
