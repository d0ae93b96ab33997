//! Tests of the command-line parser: one scenario per documented shape,
//! the error paths, and concrete instances of the general laws.

use emv_commands::command::{Command, CryptogramType, ParseError};

fn parse(line: &str) -> Result<Command, ParseError> {
    Command::from_str(line.to_string())
}

#[test]
fn select_uppercase_name() {
    let r = parse("SELECT a0000000031010");
    assert_eq!(
        r,
        Ok(Command::Select {
            application: vec![0xA0, 0x00, 0x00, 0x00, 0x03, 0x10, 0x10],
        })
    );
}

#[test]
fn select_round_trip_through_hex() {
    let original: Vec<u8> = vec![0xDE, 0xAD, 0xBE, 0xEF, 0x01];
    let line = format!("select {}", hex::encode(&original));
    match parse(&line) {
        Ok(Command::Select { application }) => assert_eq!(application, original),
        other => panic!("unexpected result: {:?}", other),
    }
}

#[test]
fn select_rejects_non_hex() {
    assert_eq!(parse("select zz"), Err(ParseError::InvalidArgument));
}

#[test]
fn select_rejects_odd_length_hex() {
    assert_eq!(parse("select abc"), Err(ParseError::InvalidArgument));
}

#[test]
fn select_missing_argument() {
    assert_eq!(parse("select"), Err(ParseError::MissingArgument));
}

#[test]
fn get_processing_options_plain() {
    assert_eq!(parse("get_processing_options"), Ok(Command::GetProcessingOptions));
}

#[test]
fn get_processing_options_ignores_extra_tokens() {
    assert_eq!(parse("get_processing_options now"), Ok(Command::GetProcessingOptions));
}

#[test]
fn generate_ac_without_cdol() {
    assert_eq!(
        parse("generate_ac arqc"),
        Ok(Command::GenerateAC {
            cryptogram_type: CryptogramType::ARQC,
            cdol: None,
        })
    );
}

#[test]
fn generate_ac_with_cdol() {
    assert_eq!(
        parse("generate_ac arqc 9f02060000000010"),
        Ok(Command::GenerateAC {
            cryptogram_type: CryptogramType::ARQC,
            cdol: Some(vec![0x9F, 0x02, 0x06, 0x00, 0x00, 0x00, 0x00, 0x10]),
        })
    );
}

#[test]
fn generate_ac_type_is_case_insensitive() {
    assert_eq!(
        parse("generate_ac TC"),
        Ok(Command::GenerateAC {
            cryptogram_type: CryptogramType::TC,
            cdol: None,
        })
    );
    assert_eq!(
        parse("generate_ac Aac"),
        Ok(Command::GenerateAC {
            cryptogram_type: CryptogramType::AAC,
            cdol: None,
        })
    );
}

#[test]
fn generate_ac_unknown_type() {
    assert_eq!(parse("generate_ac foo"), Err(ParseError::InvalidArgument));
}

#[test]
fn generate_ac_missing_type() {
    assert_eq!(parse("generate_ac"), Err(ParseError::MissingArgument));
}

#[test]
fn generate_ac_bad_cdol() {
    assert_eq!(parse("generate_ac arqc 9f0"), Err(ParseError::InvalidArgument));
}

#[test]
fn read_record_two_arguments() {
    assert_eq!(parse("read_record 01 02"), Ok(Command::ReadRecord { record: 1, sfi: 2 }));
}

#[test]
fn read_record_missing_sfi() {
    assert_eq!(parse("read_record 01"), Err(ParseError::MissingArgument));
}

#[test]
fn read_record_record_too_wide() {
    assert_eq!(parse("read_record 100 02"), Err(ParseError::InvalidArgument));
}

#[test]
fn get_data_tag() {
    assert_eq!(parse("get_data 9f36"), Ok(Command::GetData { tag: 0x9F36 }));
}

#[test]
fn get_data_uppercase_hex_tag() {
    assert_eq!(parse("get_data 9F36"), Ok(Command::GetData { tag: 0x9F36 }));
}

#[test]
fn get_data_tag_too_wide() {
    assert_eq!(parse("get_data 12345"), Err(ParseError::InvalidArgument));
}

#[test]
fn put_data_tag_and_value() {
    assert_eq!(
        parse("put_data 9f36 0001"),
        Ok(Command::PutData { tag: 0x9F36, value: vec![0x00, 0x01] })
    );
}

#[test]
fn put_data_non_hex_tag() {
    assert_eq!(parse("put_data zz01 00"), Err(ParseError::InvalidArgument));
}

#[test]
fn put_data_missing_value() {
    assert_eq!(parse("put_data 9f36"), Err(ParseError::MissingArgument));
}

#[test]
fn verify_pin_block() {
    assert_eq!(
        parse("verify 1234567890abcdef"),
        Ok(Command::Verify {
            pin: vec![0x12, 0x34, 0x56, 0x78, 0x90, 0xAB, 0xCD, 0xEF],
        })
    );
}

#[test]
fn verify_missing_pin() {
    assert_eq!(parse("verify"), Err(ParseError::MissingArgument));
}

#[test]
fn pin_unblock_plain() {
    assert_eq!(parse("pin_unblock"), Ok(Command::PinUnblock));
}

#[test]
fn pin_change_new_pin() {
    assert_eq!(parse("pin_change 2412345678901234"), Ok(Command::PinChange {
        pin: vec![0x24, 0x12, 0x34, 0x56, 0x78, 0x90, 0x12, 0x34],
    }));
}

#[test]
fn pin_change_missing_pin() {
    assert_eq!(parse("pin_change"), Err(ParseError::MissingArgument));
}

#[test]
fn unrecognized_name_is_lower_cased() {
    assert_eq!(
        parse("FOO a0"),
        Err(ParseError::UnrecognizedCommand("foo".to_string()))
    );
}

#[test]
fn unrecognized_name_verbatim() {
    assert_eq!(
        parse("transmogrify"),
        Err(ParseError::UnrecognizedCommand("transmogrify".to_string()))
    );
}

#[test]
fn empty_line_has_no_name() {
    assert_eq!(parse(""), Err(ParseError::UnrecognizedCommand(String::new())));
    assert_eq!(parse("   "), Err(ParseError::UnrecognizedCommand(String::new())));
}

#[test]
fn whitespace_runs_are_insignificant() {
    assert_eq!(
        parse("  select \t a0  \r\n"),
        Ok(Command::Select { application: vec![0xA0] })
    );
}

#[test]
fn parsing_twice_gives_equal_results() {
    let lines = [
        "select a0000000031010",
        "read_record 01 02",
        "generate_ac tc 9f02",
        "verify",
        "nonsense input",
    ];
    for line in lines {
        assert_eq!(parse(line), parse(line));
    }
}
