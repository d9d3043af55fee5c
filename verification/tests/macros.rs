use haiku::macros::{get_macro, parse_jump_statement};

#[test]
fn call_forwards_is_a_link_branch_with_positive_displacement() {
    assert_eq!(get_macro("!call #0x1000", 0xF00), Some("bl #0x100".to_string()));
}

#[test]
fn call_backwards_is_a_link_branch_with_minus_sign() {
    assert_eq!(get_macro("!call #0x1000", 0x1100), Some("bl #-0x100".to_string()));
}

#[test]
fn jump_is_a_branch_without_link() {
    assert_eq!(get_macro("!jump #0x1000", 0xF00), Some("b #0x100".to_string()));
    assert_eq!(get_macro("!jump #0x1000", 0x1100), Some("b #-0x100".to_string()));
}

#[test]
fn displacement_zero_has_no_sign() {
    assert_eq!(get_macro("!call #0x1000", 0x1000), Some("bl #0x0".to_string()));
    assert_eq!(get_macro("!jump #0x0", 0), Some("b #0x0".to_string()));
}

#[test]
fn displacement_is_written_in_lower_case_without_leading_zeros() {
    assert_eq!(get_macro("!call #0x0013CC8C", 0x304F1), Some("bl #0x10c79b".to_string()));
    assert_eq!(get_macro("!call #0xABCDEF", 0), Some("bl #0xabcdef".to_string()));
    assert_eq!(get_macro("!jump #0xabcdef", 0xABCDF0), Some("b #-0x1".to_string()));
}

#[test]
fn targets_and_offsets_span_64_bits() {
    assert_eq!(
        get_macro("!call #0xFFFFFFFFFFFFFFFF", 0),
        Some("bl #0xffffffffffffffff".to_string())
    );
    assert_eq!(
        get_macro("!call #0x0", 0xFFFF_FFFF_FFFF_FFFF),
        Some("bl #-0xffffffffffffffff".to_string())
    );
    assert_eq!(get_macro("!call #0x10000000000000000", 0), None);
}

#[test]
fn whitespace_between_and_after_the_tokens_does_not_matter() {
    assert_eq!(get_macro("!call    #0x1000", 0xF00), Some("bl #0x100".to_string()));
    assert_eq!(get_macro("!jump\t#0x1000  ", 0xF00), Some("b #0x100".to_string()));
    assert_eq!(get_macro("!call\u{a0}#0x1000\u{3000}", 0xF00), Some("bl #0x100".to_string()));
}

#[test]
fn whitespace_before_the_directive_makes_no_macro() {
    for line in [" !call #0x1000", "\t!jump\t#0x1000", "  !call #0x1000", "\u{a0}!jump #0x1000"] {
        assert_eq!(get_macro(line, 0xF00), None, "{:?}", line);
    }
}

#[test]
fn other_lines_are_no_macros() {
    for line in [
        "",
        "   ",
        "mov x0, x1",
        "bl #0x100",
        "call #0x1000",
        "!Call #0x1000",
        "!callx #0x1000",
        "!call#0x1000",
        "! call #0x1000",
        "!ret",
    ] {
        assert_eq!(get_macro(line, 0xF00), None, "{:?}", line);
    }
}

#[test]
fn macros_without_a_proper_target_are_no_macros() {
    for line in [
        "!call",
        "!jump",
        "!call 0x1000",
        "!call #1000",
        "!call #0x",
        "!call #0X1000",
        "!call #0xg",
        "!call #0x-10",
        "!call #0x+10",
        "!call #0x1000 x0",
        "!call #0x10 00",
    ] {
        assert_eq!(get_macro(line, 0xF00), None, "{:?}", line);
    }
}

#[test]
fn jump_statement_reads_the_second_token_whatever_the_first_is() {
    assert_eq!(parse_jump_statement("!call #0x13cc8c", 0x13cc80, true), Some("bl #0xc".to_string()));
    assert_eq!(parse_jump_statement("!call #0x13cc8c", 0x13cc90, false), Some("b #-0x4".to_string()));
    assert_eq!(parse_jump_statement("anything #0x20", 0x10, true), Some("bl #0x10".to_string()));
    assert_eq!(parse_jump_statement("#0x20", 0x10, true), None);
    assert_eq!(parse_jump_statement("a #0x20 b", 0x10, true), None);
}
