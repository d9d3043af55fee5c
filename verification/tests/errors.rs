use haiku::error::{ConfigFault, HaikuError, Offender};
use haiku::hex::NumberError;

#[test]
fn every_failure_has_its_sentence() {
    let cases = [
        (
            HaikuError::ConfigError { fault: ConfigFault::Architecture("z80".to_string()) },
            "invalid architecture",
        ),
        (
            HaikuError::ConfigError { fault: ConfigFault::AddressSize(7) },
            "invalid address size mode",
        ),
        (
            HaikuError::UnexpectedToken { line: "mov x0, x1".to_string() },
            "Unexpected token on line mov x0, x1",
        ),
        (
            HaikuError::InvalidHeader { line: "bytes".to_string(), reason: NumberError::Empty },
            "cannot parse integer from empty string",
        ),
        (
            HaikuError::InvalidHeader {
                line: "bytes x".to_string(),
                reason: NumberError::InvalidDigit,
            },
            "invalid digit found in string",
        ),
        (
            HaikuError::InvalidHeader { line: "b".to_string(), reason: NumberError::TooLarge },
            "number too large to fit in target type",
        ),
        (
            HaikuError::InvalidByte { start_offset: 0xdeadbeef, token: "g80".to_string() },
            "Invalid digit in byte patch for haiku @ 0xdeadbeef byte g80",
        ),
        (
            HaikuError::CapacityExceeded { start_offset: 0, offender: Offender::Byte(0xff) },
            "Maximum size exceeded for haiku @ 0x0 with byte 0xff",
        ),
        (
            HaikuError::CapacityExceeded {
                start_offset: 0x145b78,
                offender: Offender::Instruction("mov x0, x1".to_string()),
            },
            "Max length exceeded for haiku @ 0x145b78 on instruction [mov x0, x1]",
        ),
        (
            HaikuError::AssembleError { start_offset: 0x10, line: "frob x0".to_string() },
            "Failed to assemble [frob x0]",
        ),
        (
            HaikuError::FormatLimitExceeded { index: 3, offset: 0xffffffff, length: 0x10000 },
            "IPS limits exceeded by the patch @ 0xffffffff of length 0x10000",
        ),
        (HaikuError::UnterminatedBlock { start_offset: 0x304f1 }, "Unterminated haiku @ 0x304f1"),
    ];
    for (failure, sentence) in cases {
        assert_eq!(failure.to_string(), sentence);
    }
}
