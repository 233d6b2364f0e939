use beacon_codec::encoding::{BodyReader, OpCode, Operation, Response};
use beacon_codec::endian::{u32_from_le, u32_to_le, u16_from_le};
use beacon_codec::error::DecodeError;

const CODES_IN_USE: [u32; 9] = [0, 1, 2, 8, 10, 14, 15, 16, 17];

fn decode_operation(bytes: &[u8]) -> Result<Operation, DecodeError> {
    let mut slice = bytes;
    Operation::try_from(&mut slice)
}

fn decode_response(bytes: &[u8]) -> Result<Response, DecodeError> {
    let mut slice = bytes;
    Response::try_from(&mut slice)
}

fn record(reserved: u32, code: u32, declared: u32, body: &[u8]) -> Vec<u8> {
    let mut bytes = Vec::new();
    bytes.extend_from_slice(&reserved.to_le_bytes());
    bytes.extend_from_slice(&code.to_le_bytes());
    bytes.extend_from_slice(&0u32.to_le_bytes());
    bytes.extend_from_slice(&declared.to_le_bytes());
    bytes.extend_from_slice(body);
    bytes
}

#[test]
fn test_opcode() {
    // Test enum to u32
    assert_eq!(u32::from(OpCode::StealInfo), 10);
    assert_eq!(u32::from(OpCode::DownloadExe1), 0);
    assert_eq!(u32::from(OpCode::DownloadDll), 1);
    assert_eq!(u32::from(OpCode::DownloadExe2), 2);
    assert_eq!(u32::from(OpCode::DeleteFile), 8);
    assert_eq!(u32::from(OpCode::ExitProcess), 14);
    assert_eq!(u32::from(OpCode::DownloadExe3), 15);
    assert_eq!(u32::from(OpCode::SetGlobal), 16);
    assert_eq!(u32::from(OpCode::MoveAndExit), 17);

    // Test valid u32 to enum
    assert_eq!(OpCode::StealInfo, 10.try_into().expect("valid u32 not allowed"));
    assert_eq!(OpCode::DownloadExe1, 0.try_into().expect("valid u32 not allowed"));
    assert_eq!(OpCode::DownloadDll, 1.try_into().expect("valid u32 not allowed"));
    assert_eq!(OpCode::DownloadExe2, 2.try_into().expect("valid u32 not allowed"));
    assert_eq!(OpCode::DeleteFile, 8.try_into().expect("valid u32 not allowed"));
    assert_eq!(OpCode::ExitProcess, 14.try_into().expect("valid u32 not allowed"));
    assert_eq!(OpCode::DownloadExe3, 15.try_into().expect("valid u32 not allowed"));
    assert_eq!(OpCode::SetGlobal, 16.try_into().expect("valid u32 not allowed"));
    assert_eq!(OpCode::MoveAndExit, 17.try_into().expect("valid u32 not allowed"));

    // Test invalid u32 to enum
    for i in 3..=7 {
        OpCode::try_from(i).expect_err("invalid u32 allowed");
    }
    OpCode::try_from(9).expect_err("invalid u32 allowed");
    for i in 11..=13 {
        OpCode::try_from(i).expect_err("invalid u32 allowed");
    }
    for i in 18..256 {
        OpCode::try_from(i).expect_err("invalid u32 allowed");
    }
}

#[test]
fn test_operation_encoding() {
    let op = Operation::new(OpCode::DeleteFile, String::from("ab"));
    let bytes: Vec<u8> = op.into();
    assert_eq!(bytes, [
        0, 0, 0, 0, // Ignored word
        8, 0, 0, 0, // Opcode (le)
        0, 0, 0, 0, // Ignored word
        3, 0, 0, 0, // Arg length + null byte
        97, 98, 0,  // The arg + null byte
    ], "valid operation not encoded properly");

    let op = Operation::new(OpCode::DownloadExe1, String::from(""));
    let bytes: Vec<u8> = op.into();
    assert_eq!(bytes, [
        0, 0, 0, 0, // Ignored word
        0, 0, 0, 0, // Opcode (le)
        0, 0, 0, 0, // Ignored word
        1, 0, 0, 0, // Arg length + null byte
        0,          // The arg + null byte
    ], "empty arg operation not encoded properly");
}

#[test]
fn test_operation_decoding() {
    let bytes: [u8; 0] = [];
    let _ = <&mut &[u8] as TryInto<Operation>>::try_into(&mut bytes.as_slice())
        .expect_err("empty bytes allowed");

    let bytes = [
        255, 255, 255, 255, // Ignored word
        8, 0, 0, 0,         // Opcode (le)
        0, 0, 0, 0,         // Ignored word
        3, 0, 0, 0,         // Arg length + null byte
        97, 98, 0,          // The arg + null byte
    ];
    let _ = <&mut &[u8] as TryInto<Operation>>::try_into(&mut bytes.as_slice())
        .expect_err("invalid first word allowed");

    let bytes = [
        0, 0, 0, 0, // Ignored word
        3, 0, 0, 0, // Opcode (le, invalid)
        0, 0, 0, 0, // Ignored word
        3, 0, 0, 0, // Arg length + null byte
        97, 98, 0,  // The arg + null byte
    ];
    let _ = <&mut &[u8] as TryInto<Operation>>::try_into(&mut bytes.as_slice())
        .expect_err("invalid opcode allowed");

    let bytes = [
        0, 0, 0, 0, // Ignored word
        8, 0, 0, 0, // Opcode (le)
        0, 0, 0, 0, // Ignored word
        3, 0, 0,    // Arg length + null byte
    ];
    let _ = <&mut &[u8] as TryInto<Operation>>::try_into(&mut bytes.as_slice())
        .expect_err("truncated data allowed");

    let bytes = [
        0, 0, 0, 0, // Ignored word
        8, 0, 0, 0, // Opcode (le)
        0, 0, 0, 0, // Ignored word
        4, 0, 0, 0, // Arg length + null byte (length is too long)
        97, 98, 0,  // The arg + null byte
    ];
    let _ = <&mut &[u8] as TryInto<Operation>>::try_into(&mut bytes.as_slice())
        .expect_err("long arg length allowed");

    let bytes = [
        0, 0, 0, 0, // Ignored word
        8, 0, 0, 0, // Opcode (le)
        0, 0, 0, 0, // Ignored word
        2, 0, 0, 0, // Arg length + null byte (length is too short)
        97, 98, 0,  // The arg + null byte
    ];
    let _ = <&mut &[u8] as TryInto<Operation>>::try_into(&mut bytes.as_slice())
        .expect_err("short arg length allowed");

    let bytes = [
        0, 0, 0, 0, // Ignored word
        8, 0, 0, 0, // Opcode (le)
        0, 0, 0, 0, // Ignored word
        3, 0, 0, 0, // Arg length + null byte
        97, 98, 0,  // The arg + null byte
    ];
    let op: Operation = (&mut bytes.as_slice()).try_into()
        .expect("valid bytes not decoded");
    assert_eq!(op, Operation::new(OpCode::DeleteFile, String::from("ab")),
        "valid bytes not decoded properly");

    let bytes = [
        0, 0, 0, 0, // Ignored word
        0, 0, 0, 0, // Opcode (le)
        0, 0, 0, 0, // Ignored word
        1, 0, 0, 0, // Arg length + null byte
        0,          // The arg + null byte
    ];
    let op: Operation = (&mut bytes.as_slice()).try_into()
        .expect("empty string not decoded");
    assert_eq!(op, Operation::new(OpCode::DownloadExe1, String::from("")),
        "empty string not decoded properly");

    let bytes = [
        0, 0, 0, 0, // Ignored word
        8, 0, 0, 0, // Opcode (le)
        0, 0, 0, 0, // Ignored word
        3, 0, 0, 0, // Arg length + null byte
        97, 98, 0,  // The arg + null byte + bonus byte
        99,         // Bonus byte
    ];
    let op: Operation = (&mut bytes.as_slice()).try_into()
        .expect("bonus bytes not decoded");
    assert_eq!(op, Operation::new(OpCode::DeleteFile, String::from("ab")),
        "not decoded properly");
}

#[test]
fn test_response_encoding() {
    let response = Response::new(Vec::new());
    let bytes: Vec<u8> = response.into();
    assert_eq!(bytes, &[
        8, 0, 0, 0, // Length
        0, 0, 0, 0, // Number of commands
    ], "no-op response not encoded properly");

    let response = Response::new(vec![
        Operation::new(OpCode::DeleteFile, String::from("ab")),
        Operation::new(OpCode::DownloadExe1, String::from("")),
    ]);
    let bytes: Vec<u8> = response.into();
    assert_eq!(bytes, &[
        44, 0, 0, 0,    // Length
        2, 0, 0, 0,     // Number of commands

        0, 0, 0, 0,     // Ignored word
        8, 0, 0, 0,     // Opcode (le)
        0, 0, 0, 0,     // Ignored word
        3, 0, 0, 0,     // Arg length + null byte
        97, 98, 0,      // The arg + null byte

        0, 0, 0, 0,     // Ignored word
        0, 0, 0, 0,     // Opcode (le)
        0, 0, 0, 0,     // Ignored word
        1, 0, 0, 0,     // Arg length + null byte
        0,              // The arg + null byte
    ], "normal response not encoded properly");
}

#[test]
fn test_response_decoding() {
    let bytes: [u8; 0] = [];
    let _ = <&mut &[u8] as TryInto<Response>>::try_into(&mut bytes.as_slice())
        .expect_err("empty bytes allowed");

    let bytes = [
        8, 0, 0, 0, // Length
        1, 0, 0, 0, // Number of commands
    ];
    let _ = <&mut &[u8] as TryInto<Response>>::try_into(&mut bytes.as_slice())
        .expect_err("long number of commands allowed");

    let bytes = [
        7, 0, 0, 0, // Length
        0, 0, 0,    // Number of commands
    ];
    let _ = <&mut &[u8] as TryInto<Response>>::try_into(&mut bytes.as_slice())
        .expect_err("truncated header allowed");

    let bytes = [
        31, 0, 0, 0,    // Length
        2, 0, 0, 0,     // Number of commands

        0, 0, 0, 0,     // Ignored word
        8, 0, 0, 0,     // Opcode (le)
        0, 0, 0, 0,     // Ignored word
        3, 0, 0, 0,     // Arg length + null byte
        97, 98, 0,      // The arg + null byte

        0, 0, 0, 0,     // Ignored word
    ];
    let _ = <&mut &[u8] as TryInto<Response>>::try_into(&mut bytes.as_slice())
        .expect_err("truncated data allowed");

    let bytes = [
        44, 0, 0, 0,    // Length
        3, 0, 0, 0,     // Number of commands (too long)

        0, 0, 0, 0,     // Ignored word
        8, 0, 0, 0,     // Opcode (le)
        0, 0, 0, 0,     // Ignored word
        3, 0, 0, 0,     // Arg length + null byte
        97, 98, 0,      // The arg + null byte

        0, 0, 0, 0,     // Ignored word
        0, 0, 0, 0,     // Opcode (le)
        0, 0, 0, 0,     // Ignored word
        1, 0, 0, 0,     // Arg length + null byte
        0,              // The arg + null byte
    ];
    let _ = <&mut &[u8] as TryInto<Response>>::try_into(&mut bytes.as_slice())
        .expect_err("long length allowed");

    let bytes = [
        8, 0, 0, 0, // Length
        0, 0, 0, 0, // Number of commands
    ];
    let response: Response = (&mut bytes.as_slice()).try_into()
        .expect("empty response not decoded");
    assert_eq!(response, Response::new(vec![]), "empty response not decoded properly");

    let bytes = [
        44, 0, 0, 0,    // Length
        2, 0, 0, 0,     // Number of commands

        0, 0, 0, 0,     // Ignored word
        8, 0, 0, 0,     // Opcode (le)
        0, 0, 0, 0,     // Ignored word
        3, 0, 0, 0,     // Arg length + null byte
        97, 98, 0,      // The arg + null byte

        0, 0, 0, 0,     // Ignored word
        0, 0, 0, 0,     // Opcode (le)
        0, 0, 0, 0,     // Ignored word
        1, 0, 0, 0,     // Arg length + null byte
        0,              // The arg + null byte
    ];
    let response: Response = (&mut bytes.as_slice()).try_into()
        .expect("normal response not decoded");
    assert_eq!(response, Response::new(vec![
        Operation::new(OpCode::DeleteFile, String::from("ab")),
        Operation::new(OpCode::DownloadExe1, String::from("")),
    ]), "normal response not decoded properly");
}

#[test]
fn little_endian_words_convert_both_ways() {
    assert_eq!(u16_from_le([0x34, 0x12]), 0x1234);
    assert_eq!(u16_from_le([0xff, 0xff]), u16::MAX);
    assert_eq!(u32_from_le([0x12, 0x00, 0x28, 0x00]), 0x0028_0012);
    assert_eq!(u32_from_le([0xff, 0xff, 0xff, 0xff]), u32::MAX);
    assert_eq!(u32_to_le(0x0028_0012), [0x12, 0x00, 0x28, 0x00]);
    assert_eq!(u32_to_le(u32::MAX), [0xff, 0xff, 0xff, 0xff]);
    assert_eq!(u32_to_le(0), [0, 0, 0, 0]);
    for word in [0u32, 1, 255, 256, 65_535, 65_536, 0x0102_0304, 0xfffe_fdfc, u32::MAX] {
        assert_eq!(u32_to_le(word), word.to_le_bytes());
        assert_eq!(u32_from_le(word.to_le_bytes()), word);
    }
}

#[test]
fn every_opcode_is_found_again_from_its_code() {
    let all = [
        OpCode::StealInfo,
        OpCode::DownloadExe1,
        OpCode::DownloadDll,
        OpCode::DownloadExe2,
        OpCode::DeleteFile,
        OpCode::ExitProcess,
        OpCode::DownloadExe3,
        OpCode::SetGlobal,
        OpCode::MoveAndExit,
    ];
    for opcode in all {
        assert_eq!(OpCode::try_from(u32::from(opcode)), Ok(opcode));
        assert!(CODES_IN_USE.contains(&u32::from(opcode)));
    }
    assert_eq!(OpCode::try_from(3), Err(DecodeError::InvalidOpcode));
    assert_eq!(OpCode::try_from(u32::MAX), Err(DecodeError::InvalidOpcode));
}

#[test]
fn an_operation_keeps_what_it_was_made_of() {
    let op = Operation::new(OpCode::SetGlobal, String::from("x=1"));
    assert_eq!(op.opcode(), OpCode::SetGlobal);
    assert_eq!(op.arg(), "x=1");
}

#[test]
fn an_operation_survives_the_round_trip() {
    let args = ["", "a", "ab", "http://host/a.exe", "h\u{e9}llo \u{1f600}"];
    for code in CODES_IN_USE {
        for arg in args {
            let opcode = OpCode::try_from(code).unwrap();
            let bytes: Vec<u8> = Operation::new(opcode, String::from(arg)).into();
            assert_eq!(bytes.len(), 17 + arg.len());
            let mut slice = bytes.as_slice();
            let back = Operation::try_from(&mut slice).unwrap();
            assert_eq!(back, Operation::new(opcode, String::from(arg)));
            assert!(slice.is_empty());
        }
    }
}

#[test]
fn decoding_an_operation_leaves_what_follows_it() {
    let mut bytes: Vec<u8> = Operation::new(OpCode::DeleteFile, String::from("ab")).into();
    bytes.extend_from_slice(&[99, 100, 101]);
    let mut slice = bytes.as_slice();
    let op = Operation::try_from(&mut slice).unwrap();
    assert_eq!(op, Operation::new(OpCode::DeleteFile, String::from("ab")));
    assert_eq!(slice, &[99, 100, 101]);
}

#[test]
fn a_rejected_operation_leaves_the_buffer_as_it_was() {
    let bytes = record(0, 8, 4, &[97, 98, 0]);
    let mut slice = bytes.as_slice();
    assert_eq!(Operation::try_from(&mut slice), Err(DecodeError::Truncated));
    assert_eq!(slice, bytes.as_slice());
}

#[test]
fn the_sentinel_is_rejected_before_anything_else_is_read() {
    assert_eq!(
        decode_operation(&record(u32::MAX, 8, 3, &[97, 98, 0])),
        Err(DecodeError::SentinelRejected)
    );
    assert_eq!(decode_operation(&record(u32::MAX, 3, 9, &[])), Err(DecodeError::SentinelRejected));
    assert_eq!(decode_operation(&[255, 255, 255, 255]), Err(DecodeError::SentinelRejected));
    assert_eq!(decode_operation(&[255, 255, 255]), Err(DecodeError::Truncated));
    assert_eq!(
        decode_operation(&record(0xffff_fffe, 8, 3, &[97, 98, 0])),
        Ok(Operation::new(OpCode::DeleteFile, String::from("ab")))
    );
}

#[test]
fn only_the_codes_in_use_are_accepted_as_opcodes() {
    for code in 0..256u32 {
        let decoded = decode_operation(&record(0, code, 3, &[97, 98, 0]));
        if CODES_IN_USE.contains(&code) {
            let op = decoded.unwrap();
            assert_eq!(u32::from(op.opcode()), code);
            assert_eq!(op.arg(), "ab");
        } else {
            assert_eq!(decoded, Err(DecodeError::InvalidOpcode));
        }
    }
    assert_eq!(
        decode_operation(&record(0, 0x0100_0000, 3, &[97, 98, 0])),
        Err(DecodeError::InvalidOpcode)
    );
    assert_eq!(decode_operation(&record(0, 3, 0, &[])[..8]), Err(DecodeError::InvalidOpcode));
    assert_eq!(decode_operation(&record(0, 8, 0, &[])[..7]), Err(DecodeError::Truncated));
}

#[test]
fn the_second_reserved_word_is_not_looked_at() {
    let mut bytes = record(0, 14, 1, &[0]);
    bytes[8..12].copy_from_slice(&[0xff, 0xff, 0xff, 0xff]);
    assert_eq!(decode_operation(&bytes), Ok(Operation::new(OpCode::ExitProcess, String::new())));
}

#[test]
fn a_declared_length_of_zero_is_an_empty_argument() {
    let mut bytes = record(0, 14, 0, &[]);
    assert_eq!(decode_operation(&bytes), Ok(Operation::new(OpCode::ExitProcess, String::new())));
    bytes.extend_from_slice(&[0, 7]);
    let mut slice = bytes.as_slice();
    assert_eq!(
        Operation::try_from(&mut slice),
        Ok(Operation::new(OpCode::ExitProcess, String::new()))
    );
    assert_eq!(slice, &[0, 7]);
}

#[test]
fn a_miscounted_argument_is_rejected() {
    // one more than the argument and its terminator take
    assert_eq!(decode_operation(&record(0, 8, 4, &[97, 98, 0])), Err(DecodeError::Truncated));
    assert_eq!(
        decode_operation(&record(0, 8, 4, &[97, 98, 0, 99])),
        Err(DecodeError::BadStringTermination)
    );
    assert_eq!(
        decode_operation(&record(0, 8, 4, &[97, 98, 0, 0])),
        Err(DecodeError::BadStringTermination)
    );
    // one less
    assert_eq!(
        decode_operation(&record(0, 8, 2, &[97, 98, 0])),
        Err(DecodeError::BadStringTermination)
    );
    assert_eq!(
        decode_operation(&record(0, 8, 1, &[97, 0])),
        Err(DecodeError::BadStringTermination)
    );
}

#[test]
fn an_argument_that_is_not_terminated_text_is_rejected() {
    // no terminator
    assert_eq!(
        decode_operation(&record(0, 8, 2, &[97, 98])),
        Err(DecodeError::BadStringTermination)
    );
    // a zero byte inside
    assert_eq!(
        decode_operation(&record(0, 8, 4, &[97, 0, 98, 0])),
        Err(DecodeError::BadStringTermination)
    );
    // not UTF-8
    assert_eq!(
        decode_operation(&record(0, 8, 3, &[0xff, 0xfe, 0])),
        Err(DecodeError::BadStringTermination)
    );
    assert_eq!(
        decode_operation(&record(0, 8, 2, &[0xc3, 0])),
        Err(DecodeError::BadStringTermination)
    );
    // UTF-8 of more than one byte
    assert_eq!(
        decode_operation(&record(0, 8, 3, &[0xc3, 0xa9, 0])),
        Ok(Operation::new(OpCode::DeleteFile, String::from("\u{e9}")))
    );
}

#[test]
fn a_truncated_operation_is_rejected_wherever_it_ends() {
    let bytes = record(0, 8, 3, &[97, 98, 0]);
    for len in 0..bytes.len() {
        assert_eq!(decode_operation(&bytes[..len]), Err(DecodeError::Truncated), "{}", len);
    }
    assert!(decode_operation(&bytes).is_ok());
}

#[test]
fn an_argument_with_a_zero_byte_does_not_come_back() {
    let bytes: Vec<u8> = Operation::new(OpCode::DeleteFile, String::from("a\0b")).into();
    assert_eq!(bytes, record(0, 8, 4, &[97, 0, 98, 0]));
    assert_eq!(decode_operation(&bytes), Err(DecodeError::BadStringTermination));
}

#[test]
fn the_default_response_is_empty() {
    assert_eq!(Response::default(), Response::new(Vec::new()));
    assert!(Response::default().ops().is_empty());
    let bytes: Vec<u8> = Response::default().into();
    assert_eq!(bytes, [8, 0, 0, 0, 0, 0, 0, 0]);
}

#[test]
fn a_response_keeps_its_operations_in_order() {
    let response = Response::new(vec![
        Operation::new(OpCode::DownloadDll, String::from("one")),
        Operation::new(OpCode::ExitProcess, String::from("")),
        Operation::new(OpCode::DownloadDll, String::from("two")),
    ]);
    let args: Vec<&str> = response.ops().iter().map(|op| op.arg()).collect();
    assert_eq!(args, ["one", "", "two"]);
    let bytes: Vec<u8> = response.into();
    let back = decode_response(&bytes).unwrap();
    let args: Vec<&str> = back.ops().iter().map(|op| op.arg()).collect();
    assert_eq!(args, ["one", "", "two"]);
    assert_eq!(back.ops()[1].opcode(), OpCode::ExitProcess);
}

#[test]
fn a_response_survives_the_round_trip_and_starts_with_its_length() {
    let batches: [&[(u32, &str)]; 4] = [
        &[],
        &[(8, "ab")],
        &[(0, ""), (17, "C:\\temp\\x"), (10, "")],
        &[(1, "h\u{e9}"), (2, "\u{1f600}"), (14, ""), (15, "z"), (16, "k=v")],
    ];
    for batch in batches {
        let make = || {
            Response::new(
                batch
                    .iter()
                    .map(|(code, arg)| {
                        Operation::new(OpCode::try_from(*code).unwrap(), String::from(*arg))
                    })
                    .collect(),
            )
        };
        let bytes: Vec<u8> = make().into();
        let expected_len: usize = 8 + batch.iter().map(|(_, arg)| 17 + arg.len()).sum::<usize>();
        assert_eq!(bytes.len(), expected_len);
        assert_eq!(bytes[..4], (bytes.len() as u32).to_le_bytes());
        assert_eq!(bytes[4..8], (batch.len() as u32).to_le_bytes());
        let mut slice = bytes.as_slice();
        assert_eq!(Response::try_from(&mut slice), Ok(make()));
        assert!(slice.is_empty());
    }
}

#[test]
fn trailing_bytes_after_a_response_are_ignored() {
    let make = || {
        Response::new(vec![
            Operation::new(OpCode::DeleteFile, String::from("ab")),
            Operation::new(OpCode::DownloadExe1, String::from("")),
        ])
    };
    let mut bytes: Vec<u8> = make().into();
    bytes.extend_from_slice(&[0xde, 0xad, 0xbe, 0xef, 0xff]);
    let mut slice = bytes.as_slice();
    assert_eq!(Response::try_from(&mut slice), Ok(make()));
    assert_eq!(slice, &[0xde, 0xad, 0xbe, 0xef, 0xff]);

    let mut bytes: Vec<u8> = Response::default().into();
    bytes.push(1);
    assert_eq!(decode_response(&bytes), Ok(Response::default()));
}

#[test]
fn a_declared_length_below_the_real_one_is_accepted() {
    let mut bytes: Vec<u8> = Response::new(vec![Operation::new(
        OpCode::DeleteFile,
        String::from("ab"),
    )])
    .into();
    bytes[..4].copy_from_slice(&0u32.to_le_bytes());
    assert_eq!(
        decode_response(&bytes),
        Ok(Response::new(vec![Operation::new(OpCode::DeleteFile, String::from("ab"))]))
    );
}

#[test]
fn an_overlong_declared_length_is_rejected_whatever_follows() {
    let mut bytes: Vec<u8> = Response::new(vec![
        Operation::new(OpCode::DeleteFile, String::from("ab")),
        Operation::new(OpCode::DownloadExe1, String::from("")),
    ])
    .into();
    assert_eq!(bytes.len(), 44);
    bytes[..4].copy_from_slice(&45u32.to_le_bytes());
    let mut slice = bytes.as_slice();
    assert_eq!(
        Response::try_from(&mut slice),
        Err(DecodeError::DeclaredLengthExceedsAvailable)
    );
    assert_eq!(slice, bytes.as_slice());
    bytes[..4].copy_from_slice(&44u32.to_le_bytes());
    assert!(decode_response(&bytes).is_ok());
    assert_eq!(decode_response(&[5, 0, 0, 0]), Err(DecodeError::DeclaredLengthExceedsAvailable));
    assert_eq!(decode_response(&[4, 0, 0, 0]), Err(DecodeError::Truncated));
    assert_eq!(
        decode_response(&[0xff, 0xff, 0xff, 0xff, 0, 0, 0, 0]),
        Err(DecodeError::DeclaredLengthExceedsAvailable)
    );
}

#[test]
fn the_first_rejected_operation_rejects_the_response() {
    let mut bytes = vec![0, 0, 0, 0, 3, 0, 0, 0];
    bytes.extend_from_slice(&record(0, 8, 3, &[97, 98, 0]));
    bytes.extend_from_slice(&record(0, 9, 1, &[0]));
    bytes.extend_from_slice(&record(u32::MAX, 8, 1, &[0]));
    let mut slice = bytes.as_slice();
    assert_eq!(Response::try_from(&mut slice), Err(DecodeError::InvalidOpcode));
    assert_eq!(slice, bytes.as_slice());

    let mut bytes = vec![0, 0, 0, 0, 2, 0, 0, 0];
    bytes.extend_from_slice(&record(0, 8, 3, &[97, 98, 0]));
    bytes.extend_from_slice(&record(u32::MAX, 8, 1, &[0]));
    assert_eq!(decode_response(&bytes), Err(DecodeError::SentinelRejected));

    let mut bytes = vec![0, 0, 0, 0, 1, 0, 0, 0];
    bytes.extend_from_slice(&record(0, 8, 3, &[97, 98, 1]));
    assert_eq!(decode_response(&bytes), Err(DecodeError::BadStringTermination));
}

#[test]
fn a_response_that_counts_more_operations_than_it_holds_is_truncated() {
    assert_eq!(decode_response(&[8, 0, 0, 0, 1, 0, 0, 0]), Err(DecodeError::Truncated));
    assert_eq!(
        decode_response(&[8, 0, 0, 0, 0xff, 0xff, 0xff, 0xff]),
        Err(DecodeError::Truncated)
    );
    assert_eq!(decode_response(&[7, 0, 0, 0, 0, 0, 0]), Err(DecodeError::Truncated));
    assert_eq!(decode_response(&[]), Err(DecodeError::Truncated));
}

#[test]
fn a_record_is_appended_to_what_is_there() {
    let mut out = vec![0xaa, 0xbb];
    Operation::new(OpCode::SetGlobal, String::from("k")).write_to(&mut out);
    assert_eq!(out, [0xaa, 0xbb, 0, 0, 0, 0, 16, 0, 0, 0, 0, 0, 0, 0, 2, 0, 0, 0, 0x6b, 0]);
    Operation::new(OpCode::StealInfo, String::new()).write_to(&mut out);
    assert_eq!(out[20..], [0, 0, 0, 0, 10, 0, 0, 0, 0, 0, 0, 0, 1, 0, 0, 0, 0]);
}

#[test]
fn operations_are_read_from_a_reader_one_after_another() {
    let mut bytes = record(0, 8, 3, &[97, 98, 0]);
    bytes.extend_from_slice(&record(5, 17, 0, &[]));
    bytes.extend_from_slice(&record(0, 4, 1, &[0]));
    let mut reader = BodyReader::new(&bytes);
    assert_eq!(
        Operation::read_from(&mut reader),
        Ok(Operation::new(OpCode::DeleteFile, String::from("ab")))
    );
    assert_eq!(
        Operation::read_from(&mut reader),
        Ok(Operation::new(OpCode::MoveAndExit, String::new()))
    );
    assert_eq!(reader.rest(), &bytes[35..]);
    assert_eq!(Operation::read_from(&mut reader), Err(DecodeError::InvalidOpcode));
    assert_eq!(reader.rest(), &bytes[35..]);
}

#[test]
fn a_response_is_read_from_a_reader() {
    let mut bytes: Vec<u8> = Response::new(vec![
        Operation::new(OpCode::DownloadExe2, String::from("u")),
        Operation::new(OpCode::DownloadExe3, String::from("v")),
    ])
    .into();
    bytes.extend_from_slice(&[1, 2, 3]);
    let mut reader = BodyReader::new(&bytes);
    let response = Response::read_from(&mut reader).unwrap();
    assert_eq!(response.ops().len(), 2);
    assert_eq!(response.ops()[0], Operation::new(OpCode::DownloadExe2, String::from("u")));
    assert_eq!(response.ops()[1], Operation::new(OpCode::DownloadExe3, String::from("v")));
    assert_eq!(reader.rest(), &[1, 2, 3]);

    bytes[4] = 3;
    let mut reader = BodyReader::new(&bytes);
    assert_eq!(Response::read_from(&mut reader), Err(DecodeError::Truncated));
    assert_eq!(reader.rest(), bytes.as_slice());
}
