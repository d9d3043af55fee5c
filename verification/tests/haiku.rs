use haiku::block::PaddingPolicy;
use haiku::error::{HaikuError, Offender};
use haiku::hex::NumberError;
use haiku::ips::{generate_ips, PatchRecord};
use haiku::parse::parse_haiku;
use std::cell::RefCell;

fn lines(text: &str) -> Vec<String> {
    text.lines().map(|line| line.to_string()).collect()
}

fn no_assembler(text: String) -> Option<Vec<u8>> {
    panic!("nothing to assemble, but asked for {:?}", text)
}

/// Stands for an assembler: every instruction is its length in four bytes,
/// and `frob` is no instruction.
fn count_letters(text: String) -> Option<Vec<u8>> {
    if text.starts_with("frob") {
        None
    } else {
        Some((text.len() as u32).to_be_bytes().to_vec())
    }
}

#[test]
fn bytes_block_gives_one_record_and_its_patch() {
    let input = "bytes 304F1 8 {\n 00 43 11 FF\n 31 24 31 12\n}";
    let records = parse_haiku(&lines(input), &PaddingPolicy::aarch64(), no_assembler).unwrap();
    assert_eq!(
        records,
        vec![PatchRecord {
            offset: 0x304F1,
            payload: vec![0x00, 0x43, 0x11, 0xFF, 0x31, 0x24, 0x31, 0x12],
        }]
    );
    let patch = generate_ips(&records).unwrap();
    let mut expected = b"PATCH".to_vec();
    expected.extend([0x03, 0x04, 0xF1]);
    expected.extend([0x00, 0x08]);
    expected.extend([0x00, 0x43, 0x11, 0xFF, 0x31, 0x24, 0x31, 0x12]);
    expected.extend(b"EOF");
    assert_eq!(patch, expected);
}

#[test]
fn unclosed_bytes_block_is_unterminated() {
    let input = "bytes 304F1 8 {\n 00 43 11 FF\n 31 24 31 12\n";
    assert_eq!(
        parse_haiku(&lines(input), &PaddingPolicy::aarch64(), no_assembler),
        Err(HaikuError::UnterminatedBlock { start_offset: 0x304F1 })
    );
    let input = "bytes 10 2 {\n 00 43\n}\ninstrs 20 8 {";
    let result = parse_haiku(&lines(input), &PaddingPolicy::aarch64(), no_assembler);
    assert_eq!(result, Err(HaikuError::UnterminatedBlock { start_offset: 0x20 }));
    assert_eq!(result.unwrap_err().to_string(), "Unterminated haiku @ 0x20");
}

#[test]
fn no_lines_give_no_records() {
    assert_eq!(parse_haiku(&vec![], &PaddingPolicy::aarch64(), no_assembler), Ok(vec![]));
    assert_eq!(
        parse_haiku(&lines("\n// nothing\n\n# here\n   \n"), &PaddingPolicy::aarch64(), no_assembler),
        Ok(vec![])
    );
}

#[test]
fn records_come_in_the_order_of_the_blocks() {
    let input = "\
// two patches
bytes 200 4 {
    01 02
    // in between
    03
}

#directive
bytes 100 1 {
}
bytes 100 2 { 
  0A 0B
}
";
    assert_eq!(
        parse_haiku(&lines(input), &PaddingPolicy::aarch64(), no_assembler),
        Ok(vec![
            PatchRecord { offset: 0x200, payload: vec![1, 2, 3] },
            PatchRecord { offset: 0x100, payload: vec![] },
            PatchRecord { offset: 0x100, payload: vec![0x0A, 0x0B] },
        ])
    );
}

#[test]
fn each_block_starts_without_bytes() {
    let input = "bytes 10 2 {\n01 02\n}\nbytes 20 2 {\n03\n}\ninstrs 30 4 {\n}\nbytes 40 1 {\n04\n}";
    assert_eq!(
        parse_haiku(&lines(input), &PaddingPolicy::aarch64(), no_assembler),
        Ok(vec![
            PatchRecord { offset: 0x10, payload: vec![1, 2] },
            PatchRecord { offset: 0x20, payload: vec![3] },
            PatchRecord { offset: 0x30, payload: vec![0x1f, 0x20, 0x03, 0xd5] },
            PatchRecord { offset: 0x40, payload: vec![4] },
        ])
    );
}

#[test]
fn bytes_over_several_lines_share_the_capacity() {
    let input = "bytes 10 3 {\n01 02\n03 04\n}";
    assert_eq!(
        parse_haiku(&lines(input), &PaddingPolicy::aarch64(), no_assembler),
        Err(HaikuError::CapacityExceeded { start_offset: 0x10, offender: Offender::Byte(4) })
    );
}

#[test]
fn instructions_are_assembled_in_order_and_topped_up() {
    let asked = RefCell::new(Vec::new());
    let encode = |text: String| {
        asked.borrow_mut().push(text.clone());
        count_letters(text)
    };
    let input = "instrs F00 14 {\n  mov x0, x1\n  !call #0x1000\n  !jump #0xF00\n}";
    let records = parse_haiku(&lines(input), &PaddingPolicy::aarch64(), encode).unwrap();
    assert_eq!(
        asked.into_inner(),
        vec!["mov x0, x1".to_string(), "bl #0xfc".to_string(), "b #-0x8".to_string()]
    );
    assert_eq!(
        records,
        vec![PatchRecord {
            offset: 0xF00,
            payload: vec![
                0, 0, 0, 10, // mov x0, x1
                0, 0, 0, 8, // bl #0xfc
                0, 0, 0, 7, // b #-0x8
                0x1f, 0x20, 0x03, 0xd5, 0x1f, 0x20, 0x03, 0xd5,
            ],
        }]
    );
}

#[test]
fn padded_block_has_its_capacity_and_ends_in_the_pattern() {
    let pattern = vec![0xDE, 0xAD, 0xBE, 0xEF];
    let padding = PaddingPolicy::new(true, pattern.clone()).unwrap();
    let input = "instrs 1000 40 {\n  nop\n  nop\n  nop\n}";
    let records = parse_haiku(&lines(input), &padding, count_letters).unwrap();
    assert_eq!(records.len(), 1);
    let payload = &records[0].payload;
    assert_eq!(payload.len(), 0x40);
    assert_eq!(&payload[..12], &[0, 0, 0, 3, 0, 0, 0, 3, 0, 0, 0, 3]);
    let groups: Vec<&[u8]> = payload[12..].chunks(4).collect();
    assert_eq!(groups.len(), (0x40 - 12) / 4);
    assert!(groups.iter().all(|group| *group == &pattern[..]));
}

#[test]
fn without_padding_an_instruction_block_keeps_its_bytes() {
    let padding = PaddingPolicy::new(false, vec![0]).unwrap();
    let input = "instrs 1000 40 {\n  nop\n}";
    assert_eq!(
        parse_haiku(&lines(input), &padding, count_letters),
        Ok(vec![PatchRecord { offset: 0x1000, payload: vec![0, 0, 0, 3] }])
    );
}

#[test]
fn instruction_without_room_stops_the_run() {
    let asked = RefCell::new(0);
    let encode = |text: String| {
        *asked.borrow_mut() += 1;
        count_letters(text)
    };
    let input = "instrs 1000 6 {\n  nop\n  mov x0, x1\n  nop\n}\nbytes 10 1 {\n 00\n}";
    assert_eq!(
        parse_haiku(&lines(input), &PaddingPolicy::aarch64(), encode),
        Err(HaikuError::CapacityExceeded {
            start_offset: 0x1000,
            offender: Offender::Instruction("mov x0, x1".to_string()),
        })
    );
    assert_eq!(asked.into_inner(), 2);
}

#[test]
fn instruction_turned_down_stops_the_run() {
    let input = "instrs 1000 10 {\n  nop\n  frob x0\n  nop\n}";
    assert_eq!(
        parse_haiku(&lines(input), &PaddingPolicy::aarch64(), count_letters),
        Err(HaikuError::AssembleError { start_offset: 0x1000, line: "frob x0".to_string() })
    );
}

#[test]
fn malformed_macro_goes_to_the_assembler_as_it_stands() {
    let asked = RefCell::new(Vec::new());
    let encode = |text: String| {
        asked.borrow_mut().push(text);
        None
    };
    let input = "instrs 1000 10 {\n  !call 0x1000\n}";
    assert_eq!(
        parse_haiku(&lines(input), &PaddingPolicy::aarch64(), encode),
        Err(HaikuError::AssembleError { start_offset: 0x1000, line: "!call 0x1000".to_string() })
    );
    assert_eq!(asked.into_inner(), vec!["!call 0x1000".to_string()]);
}

#[test]
fn first_failure_stops_the_run() {
    let input = "bytes 10 1 {\n 00\n}\nmov x0, x1\nbytes zz 1 {";
    assert_eq!(
        parse_haiku(&lines(input), &PaddingPolicy::aarch64(), no_assembler),
        Err(HaikuError::UnexpectedToken { line: "mov x0, x1".to_string() })
    );
    let input = "bytes 10 1 {\n 0g\n 00 00 00\n}";
    assert_eq!(
        parse_haiku(&lines(input), &PaddingPolicy::aarch64(), no_assembler),
        Err(HaikuError::InvalidByte { start_offset: 0x10, token: "0g".to_string() })
    );
    let input = "instrs 10 {";
    assert_eq!(
        parse_haiku(&lines(input), &PaddingPolicy::aarch64(), no_assembler),
        Err(HaikuError::InvalidHeader {
            line: "instrs 10 {".to_string(),
            reason: NumberError::InvalidDigit
        })
    );
}

#[test]
fn blocks_do_not_nest() {
    let input = "bytes 10 8 {\n 00\n bytes 20 8 {\n 01\n }\n}";
    assert_eq!(
        parse_haiku(&lines(input), &PaddingPolicy::aarch64(), no_assembler),
        Err(HaikuError::InvalidByte { start_offset: 0x10, token: "bytes".to_string() })
    );
    let input = "bytes 10 8 {\n}\n}";
    assert_eq!(
        parse_haiku(&lines(input), &PaddingPolicy::aarch64(), no_assembler),
        Err(HaikuError::UnexpectedToken { line: "}".to_string() })
    );
}

#[test]
fn same_input_gives_the_same_output() {
    let input = "\
bytes 304F1 8 {
 00 43 11 FF
 31 24 31 12
}
instrs 145b78 2F {
  mov x0, x1
  !call #0x13cc8c
  ret
}
";
    let first = parse_haiku(&lines(input), &PaddingPolicy::aarch64(), count_letters).unwrap();
    let second = parse_haiku(&lines(input), &PaddingPolicy::aarch64(), count_letters).unwrap();
    assert_eq!(first, second);
    assert_eq!(generate_ips(&first), generate_ips(&second));
    assert_eq!(first.len(), 2);
    assert_eq!(first[1].payload.len(), 0x2F);
}

#[test]
fn records_beyond_the_format_fail_when_encoded() {
    let input = "bytes 1000000 1 {\n 00\n}";
    let records = parse_haiku(&lines(input), &PaddingPolicy::aarch64(), no_assembler).unwrap();
    assert_eq!(records, vec![PatchRecord { offset: 0x100_0000, payload: vec![0] }]);
    assert_eq!(
        generate_ips(&records),
        Err(HaikuError::FormatLimitExceeded { index: 0, offset: 0x100_0000, length: 1 })
    );
}
