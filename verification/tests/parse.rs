use haiku::error::{HaikuError, Offender};
use haiku::hex::NumberError;
use haiku::parse::{parse_byte_list, parse_patch_definition};

#[test]
fn parses_bytes_patch_definition() {
    let definition = "bytes 304F1 10 {";

    let result: (u32, u32) = parse_patch_definition(definition).unwrap();

    assert_eq!(result.0, 0x304F1);
    assert_eq!(result.1, 0x10);
}

#[test]
fn parses_instrs_patch_definition() {
    let definition = "instrs 145b78 2F {";

    let result: (u32, u32) = parse_patch_definition(definition).unwrap();

    assert_eq!(result.0, 0x145b78);
    assert_eq!(result.1, 0x2f);
}

#[test]
fn parse_path_def_should_have_error_for_invalid_digits() {
    let definition = "instrs 0x145b78 2F {";

    let result = parse_patch_definition(definition);

    assert!(result.is_err());
    assert_eq!("invalid digit found in string", result.unwrap_err().to_string());
}

#[test]
fn parse_out_bytes_from_string_when_enough_space() {
    let line = "80 1F 00 03";
    let result = parse_byte_list(line, 0xDEADBEEF, 0x04).unwrap();

    assert_eq!(result, vec![0x80, 0x1f, 0x00, 0x03]);
}

#[test]
fn parse_bytes_should_have_error_for_invalid_digits() {
    let line = "g80 1F 00 03";
    let result = parse_byte_list(line, 0xDEADBEEF, 0x04);

    assert!(result.is_err());
    assert_eq!(
        "Invalid digit in byte patch for haiku @ 0xdeadbeef byte g80",
        result.unwrap_err().to_string()
    );
}

#[test]
fn parse_bytes_should_have_error_when_out_of_space() {
    let line = "80 1F 00 03";
    let result = parse_byte_list(line, 0xDEADBEEF, 0x03);

    assert!(result.is_err());
    assert_eq!(
        "Maximum size exceeded for haiku @ 0xdeadbeef with byte 0x3",
        result.unwrap_err().to_string()
    );
}

#[test]
fn patch_definition_ignores_what_follows_the_capacity() {
    assert_eq!(parse_patch_definition("bytes 10 20"), Ok((0x10, 0x20)));
    assert_eq!(parse_patch_definition("bytes 10 20 { // here"), Ok((0x10, 0x20)));
    assert_eq!(parse_patch_definition("bytes\t10\t\t20\t{"), Ok((0x10, 0x20)));
    assert_eq!(parse_patch_definition("  instrs   0   0   {"), Ok((0, 0)));
}

#[test]
fn patch_definition_fails_on_a_missing_number() {
    for line in ["bytes", "bytes 10", "instrs", "", "   "] {
        let result = parse_patch_definition(line);
        assert_eq!(
            result,
            Err(HaikuError::InvalidHeader { line: line.to_string(), reason: NumberError::Empty })
        );
        assert_eq!(result.unwrap_err().to_string(), "cannot parse integer from empty string");
    }
}

#[test]
fn patch_definition_reports_the_offset_before_the_capacity() {
    assert_eq!(
        parse_patch_definition("bytes zz"),
        Err(HaikuError::InvalidHeader {
            line: "bytes zz".to_string(),
            reason: NumberError::InvalidDigit
        })
    );
    assert_eq!(
        parse_patch_definition("bytes 100000000 zz {"),
        Err(HaikuError::InvalidHeader {
            line: "bytes 100000000 zz {".to_string(),
            reason: NumberError::TooLarge
        })
    );
    assert_eq!(
        parse_patch_definition("bytes 10 zz {"),
        Err(HaikuError::InvalidHeader {
            line: "bytes 10 zz {".to_string(),
            reason: NumberError::InvalidDigit
        })
    );
}

fn invalid_header(line: &str, reason: NumberError) -> Result<(u32, u32), HaikuError> {
    Err(HaikuError::InvalidHeader { line: line.to_string(), reason })
}

#[test]
fn patch_definition_takes_numbers_up_to_32_bits() {
    assert_eq!(parse_patch_definition("bytes 0 0 {"), Ok((0, 0)));
    assert_eq!(parse_patch_definition("bytes FFFFFFFF ffffffff {"), Ok((0xFFFF_FFFF, 0xFFFF_FFFF)));
    assert_eq!(parse_patch_definition("bytes 00000000000000010 0020 {"), Ok((0x10, 0x20)));
    assert_eq!(parse_patch_definition("bytes 1000000 10000 {"), Ok((0x100_0000, 0x1_0000)));
}

#[test]
fn patch_definition_does_not_cut_large_numbers_down() {
    for line in [
        "bytes 100000010 1 {",
        "bytes 100000000 1 {",
        "bytes 1000304F1 10 {",
        "bytes 7FFFFFFFFFFFFFFF 10 {",
        "bytes FFFFFFFFFFFFFFFFFFFFFFFF 10 {",
        "bytes 10 100000000 {",
        "bytes 10 8000000000000000 {",
    ] {
        let result = parse_patch_definition(line);
        assert_eq!(result, invalid_header(line, NumberError::TooLarge), "{:?}", line);
        assert_eq!(result.unwrap_err().to_string(), "number too large to fit in target type");
    }
}

#[test]
fn patch_definition_takes_no_sign() {
    for line in [
        "bytes 10 -1 {",
        "bytes -1 10 {",
        "bytes 10 -0 {",
        "bytes 10 +10 {",
        "bytes +10 10 {",
        "bytes -8000000000000001 10 {",
        "instrs 10 - {",
    ] {
        let result = parse_patch_definition(line);
        assert_eq!(result, invalid_header(line, NumberError::InvalidDigit), "{:?}", line);
        assert_eq!(result.unwrap_err().to_string(), "invalid digit found in string");
    }
}

#[test]
fn byte_list_of_an_empty_line_is_empty() {
    assert_eq!(parse_byte_list("", 0, 0), Ok(vec![]));
    assert_eq!(parse_byte_list("   \t ", 0x10, 4), Ok(vec![]));
}

#[test]
fn byte_list_takes_any_whitespace_between_tokens() {
    assert_eq!(
        parse_byte_list("80\t1F  00   03 13", 0, 5),
        Ok(vec![0x80, 0x1f, 0x00, 0x03, 0x13])
    );
    assert_eq!(parse_byte_list("\u{a0}0a\u{2003}0B\u{3000}", 0, 2), Ok(vec![0x0a, 0x0b]));
}

#[test]
fn byte_tokens_have_one_digit_or_two() {
    assert_eq!(
        parse_byte_list("0 f F 7 00 0a A0 ff FF 7f", 0, 10),
        Ok(vec![0, 15, 15, 7, 0, 0x0a, 0xa0, 0xff, 0xff, 0x7f])
    );
    for first in "0123456789abcdefABCDEF".chars() {
        for second in "0123456789abcdefABCDEF".chars() {
            let token = format!("{}{}", first, second);
            let value = u8::from_str_radix(&token, 16).unwrap();
            assert_eq!(parse_byte_list(&token, 0, 1), Ok(vec![value]));
        }
    }
}

#[test]
fn byte_tokens_of_three_digits_are_invalid() {
    assert_eq!(
        parse_byte_list("100", 0x10, 4),
        Err(HaikuError::InvalidByte { start_offset: 0x10, token: "100".to_string() })
    );
    for token in ["100", "1FF", "000", "0ff", "001", "0000", "7FFFFFFFFFFFFFFF"] {
        assert_eq!(
            parse_byte_list(token, 0x10, 4),
            Err(HaikuError::InvalidByte { start_offset: 0x10, token: token.to_string() }),
            "{:?}",
            token
        );
    }
}

#[test]
fn byte_tokens_take_no_sign() {
    for token in ["-1", "+1", "-0", "+f", "-80", "+1f", "-", "+"] {
        assert_eq!(
            parse_byte_list(token, 0x10, 4),
            Err(HaikuError::InvalidByte { start_offset: 0x10, token: token.to_string() }),
            "{:?}",
            token
        );
    }
}

#[test]
fn byte_list_fails_on_the_first_bad_token() {
    assert_eq!(
        parse_byte_list("80 1F zz 03 yy", 0x20, 8),
        Err(HaikuError::InvalidByte { start_offset: 0x20, token: "zz".to_string() })
    );
    for token in ["0x80", "0x", "x", "8000000000000000", "8_0", "1F,", "g", "1g", "g1", "\u{ff11}"] {
        let line = format!("00 {} 01", token);
        assert_eq!(
            parse_byte_list(&line, 0x20, 8),
            Err(HaikuError::InvalidByte { start_offset: 0x20, token: token.to_string() })
        );
    }
}

#[test]
fn byte_list_fails_when_the_room_is_used_up() {
    assert_eq!(
        parse_byte_list("80 1F 00 03", 0x20, 0),
        Err(HaikuError::CapacityExceeded { start_offset: 0x20, offender: Offender::Byte(0x80) })
    );
    assert_eq!(
        parse_byte_list("80 1F 00 03", 0x20, 2),
        Err(HaikuError::CapacityExceeded { start_offset: 0x20, offender: Offender::Byte(0x00) })
    );
    assert_eq!(parse_byte_list("80 1F 00 03", 0x20, 4), Ok(vec![0x80, 0x1f, 0x00, 0x03]));
    assert_eq!(parse_byte_list("80 1F 00 03", 0x20, 5), Ok(vec![0x80, 0x1f, 0x00, 0x03]));
}

#[test]
fn byte_list_reports_a_bad_token_before_the_lack_of_room() {
    assert_eq!(
        parse_byte_list("80 zz", 0x20, 1),
        Err(HaikuError::InvalidByte { start_offset: 0x20, token: "zz".to_string() })
    );
    assert_eq!(
        parse_byte_list("80 1F zz", 0x20, 1),
        Err(HaikuError::CapacityExceeded { start_offset: 0x20, offender: Offender::Byte(0x1f) })
    );
}
