use dlt::argcodec::{argument_as_bytes, get_argument};
use dlt::msgcodec::{
    calculate_all_headers_length, calculate_standard_header_length, decode_message,
    ExtendedHeaderConfig, Message, MessageConfig,
};
use dlt::wire::zero_terminated_string;
use dlt::typeinfo::{get_type_info, put_type_info, type_info_of_word};
use dlt::types::{
    Argument, DecodeError, DltTimeStamp, Endianness, LogLevel, MessageType, Payload2,
    PayloadContent, StorageHeader, StringCoding, TypeInfo, TypeInfoKind, TypeLength, Value,
};

fn ti(kind: TypeInfoKind, vari: bool) -> TypeInfo {
    TypeInfo { kind, coding: StringCoding::UTF8, has_variable_info: vari, has_trace_info: false }
}

#[test]
fn type_info_word_round_trips() {
    for e in [Endianness::Little, Endianness::Big] {
        for kind in [
            TypeInfoKind::Bool,
            TypeInfoKind::Signed(TypeLength::BitLength32),
            TypeInfoKind::Unsigned(TypeLength::BitLength128),
            TypeInfoKind::Float(dlt::types::FloatWidth::Width64),
            TypeInfoKind::SignedFixedPoint(dlt::types::FloatWidth::Width32),
            TypeInfoKind::StringType,
            TypeInfoKind::Raw,
        ] {
            let t = ti(kind, true);
            let mut buf = Vec::new();
            put_type_info(&mut buf, e, &t);
            assert_eq!(buf.len(), 4);
            let back = get_type_info(&buf, 0, e).expect("well-formed descriptor");
            assert_eq!(back, t);
        }
    }
}

#[test]
fn type_info_length_code_zero_is_invalid() {
    // Signed kind bits with a zero length code.
    let w: u32 = 0x20;
    assert_eq!(type_info_of_word(w), Err(DecodeError::InvalidTypeInfo));
    // Unsigned and float kinds reject it too.
    assert_eq!(type_info_of_word(0x40), Err(DecodeError::InvalidTypeInfo));
    assert_eq!(type_info_of_word(0x80), Err(DecodeError::InvalidTypeInfo));
}

#[test]
fn argument_round_trips_with_name_and_unit() {
    for e in [Endianness::Little, Endianness::Big] {
        let a = Argument {
            type_info: ti(TypeInfoKind::Unsigned(TypeLength::BitLength32), true),
            name: Some(b"count".to_vec()),
            unit: Some(b"ms".to_vec()),
            fixed_point: None,
            value: Value::U32(42),
        };
        let bytes = argument_as_bytes(&a, e);
        let (back, used) = get_argument(&bytes, 0, e).expect("decodes");
        assert_eq!(back, a);
        assert_eq!(used, bytes.len());
    }
}

#[test]
fn argument_round_trips_string_and_raw() {
    let e = Endianness::Big;
    let s = Argument {
        type_info: ti(TypeInfoKind::StringType, false),
        name: None,
        unit: None,
        fixed_point: None,
        value: Value::StringVal(b"hello world".to_vec()),
    };
    let bytes = argument_as_bytes(&s, e);
    let (back, _) = get_argument(&bytes, 0, e).expect("decodes");
    assert_eq!(back, s);

    let r = Argument {
        type_info: ti(TypeInfoKind::Raw, false),
        name: None,
        unit: None,
        fixed_point: None,
        value: Value::Raw(vec![0, 1, 2, 0, 255]),
    };
    let bytes = argument_as_bytes(&r, e);
    let (back, _) = get_argument(&bytes, 0, e).expect("decodes");
    assert_eq!(back, r);
}

#[test]
fn absent_name_is_a_lone_nul() {
    // A variable-info argument without a name writes a length-1 field
    // holding one NUL, and that decodes back to an absent name.
    let e = Endianness::Little;
    let a = Argument {
        type_info: ti(TypeInfoKind::Unsigned(TypeLength::BitLength8), true),
        name: None,
        unit: None,
        fixed_point: None,
        value: Value::U8(7),
    };
    let bytes = argument_as_bytes(&a, e);
    // descriptor (4), name len (2) == 1, unit len (2) == 1, two NULs, value
    assert_eq!(&bytes[4..6], &[1, 0]);
    assert_eq!(&bytes[6..8], &[1, 0]);
    assert_eq!(&bytes[8..10], &[0, 0]);
    let (back, _) = get_argument(&bytes, 0, e).expect("decodes");
    assert_eq!(back.name, None);
    assert_eq!(back.unit, None);
}

fn sample_message(e: Endianness, storage: Option<StorageHeader>) -> Message {
    let arg = Argument {
        type_info: ti(TypeInfoKind::Unsigned(TypeLength::BitLength32), true),
        name: Some(b"count".to_vec()),
        unit: None,
        fixed_point: None,
        value: Value::U32(42),
    };
    Message::new(
        MessageConfig {
            version: 1,
            counter: 0,
            endianness: e,
            ecu_id: None,
            session_id: None,
            timestamp: None,
            payload: Payload2 { payload_content: PayloadContent::Verbose(vec![arg]) },
            extended_header_info: Some(ExtendedHeaderConfig {
                message_type: MessageType::Log(LogLevel::Info),
                app_id: b"APP".to_vec(),
                context_id: b"CTX".to_vec(),
            }),
        },
        None,
        storage,
    )
}

#[test]
fn message_round_trips_both_endiannesses() {
    for e in [Endianness::Little, Endianness::Big] {
        let msg = sample_message(e, None);
        let bytes = msg.as_bytes();
        let (back, used) = decode_message(&bytes, false).expect("decodes");
        assert_eq!(used, bytes.len());
        assert_eq!(back.header, msg.header);
        assert_eq!(back.extended_header, msg.extended_header);
        assert_eq!(back.payload, msg.payload);
        assert_eq!(back.storage_header, None);
    }
}

#[test]
fn message_round_trips_with_storage_header() {
    let storage = StorageHeader {
        timestamp: DltTimeStamp { seconds: 10, microseconds: 500 },
        ecu_id: b"ECU1".to_vec(),
    };
    let msg = sample_message(Endianness::Little, Some(storage.clone()));
    let bytes = msg.as_bytes();
    assert_eq!(&bytes[0..4], b"DLT\x01");
    let (back, used) = decode_message(&bytes, true).expect("decodes");
    assert_eq!(used, bytes.len());
    assert_eq!(back.storage_header, Some(storage));
    assert_eq!(back.payload, msg.payload);
}

#[test]
fn overall_length_counts_everything_after_storage() {
    let msg = sample_message(Endianness::Little, None);
    let bytes = msg.as_bytes();
    assert_eq!(bytes.len(), msg.header.overall_length() as usize);
    // standard header (4) + extended header (10) + descriptor (4) +
    // name field (2 + 6) + string/unit field absent, value (4): the
    // verbose payload is 4 + 2 + 2 + 6 + 1 + 4 = 19 bytes.
    assert_eq!(msg.header.payload_length, 19);
    assert_eq!(bytes.len(), 4 + 10 + 19);
}

#[test]
fn argument_count_saturates_at_255() {
    let mut args = Vec::new();
    for _ in 0..300 {
        args.push(Argument {
            type_info: ti(TypeInfoKind::Bool, false),
            name: None,
            unit: None,
            fixed_point: None,
            value: Value::Bool(true),
        });
    }
    let p = Payload2 { payload_content: PayloadContent::Verbose(args) };
    assert_eq!(p.arg_count(), 255);
}

#[test]
fn second_message_with_corrupt_descriptor_is_one_hickup() {
    let good = sample_message(Endianness::Little, None);
    let mut stream = good.as_bytes();
    let mut bad = sample_message(Endianness::Little, None).as_bytes();
    // Corrupt the type descriptor of the second message: zero the kind bits.
    let off = 14;
    bad[off] = 0;
    bad[off + 1] = 0;
    bad[off + 2] = 0;
    bad[off + 3] = 0;
    let first_len = stream.len();
    stream.extend_from_slice(&bad);
    let (m1, used) = decode_message(&stream, false).expect("first decodes");
    assert_eq!(used, first_len);
    assert_eq!(m1.payload, good.payload);
    let rest = &stream[used..];
    assert_eq!(decode_message(rest, false), Err(DecodeError::InvalidTypeInfo));
}

#[test]
fn from_ms_splits_milliseconds() {
    let ts = DltTimeStamp::from_ms(1_500);
    assert_eq!(ts.seconds, 1);
    assert_eq!(ts.microseconds, 500_000);
}

#[test]
fn type_width_is_in_bits() {
    assert_eq!(ti(TypeInfoKind::Unsigned(TypeLength::BitLength32), false).type_width(), 32);
    assert_eq!(ti(TypeInfoKind::Signed(TypeLength::BitLength128), false).type_width(), 128);
    assert_eq!(
        ti(TypeInfoKind::Float(dlt::types::FloatWidth::Width64), false).type_width(),
        64
    );
    assert_eq!(
        ti(
            TypeInfoKind::SignedFixedPoint(dlt::types::FloatWidth::Width32),
            false
        )
        .type_width(),
        32
    );
    assert_eq!(ti(TypeInfoKind::Bool, false).type_width(), 0);
    assert_eq!(ti(TypeInfoKind::StringType, false).type_width(), 0);
    assert_eq!(ti(TypeInfoKind::Raw, false).type_width(), 0);
}

#[test]
fn header_lengths_follow_the_type_byte() {
    assert_eq!(calculate_standard_header_length(0), 4);
    assert_eq!(calculate_standard_header_length(4 | 8 | 16), 16);
    assert_eq!(calculate_all_headers_length(1 | 4), 18);
    assert_eq!(calculate_all_headers_length(0), 4);
}

#[test]
fn zero_terminated_text_stops_at_the_first_nul() {
    assert_eq!(zero_terminated_string(b"ECU\0garbage"), Ok(b"ECU".to_vec()));
    assert_eq!(zero_terminated_string(b"plain"), Ok(b"plain".to_vec()));
    assert_eq!(
        zero_terminated_string(&[0xFF, 0xFE, 0x00]),
        Err(DecodeError::InvalidStringData)
    );
}

#[test]
fn length_codes_match_the_descriptor_table() {
    assert_eq!(TypeInfo::type_length_bits(TypeLength::BitLength8), 1);
    assert_eq!(TypeInfo::type_length_bits(TypeLength::BitLength128), 5);
    assert_eq!(
        TypeInfo::type_length_bits_float(dlt::types::FloatWidth::Width32),
        3
    );
    assert_eq!(
        TypeInfo::type_length_bits_float(dlt::types::FloatWidth::Width64),
        4
    );
}

#[test]
fn valid_checks_bool_and_float_pairings() {
    let good = Argument {
        type_info: ti(TypeInfoKind::Bool, false),
        name: None,
        unit: None,
        fixed_point: None,
        value: Value::Bool(true),
    };
    assert!(good.valid());
    let bad = Argument {
        type_info: ti(TypeInfoKind::Bool, false),
        name: None,
        unit: None,
        fixed_point: None,
        value: Value::U8(1),
    };
    assert!(!bad.valid());
}
