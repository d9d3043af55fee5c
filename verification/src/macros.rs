//! Pseudo-instructions: lines that stand for one branch instruction whose
//! displacement depends on where the instruction lands.
//!
//! `!call #0x<target>` becomes a branch with link and `!jump #0x<target>` a
//! branch without, both relative to the offset at which the line is assembled.

use crate::hex::{parse_digits, prefixed_hex, push_prefixed_hex, unsigned_number};
use crate::text::{has_prefix, is_space, is_whitespace, starts_with, to_chars, token_bounds, tokens};
use vstd::prelude::*;
use vstd::string::*;

verus! {

/// The token that calls: branch and link.
pub open spec fn call_word() -> Seq<char> {
    seq!['!', 'c', 'a', 'l', 'l']
}

/// The token that jumps: branch without link.
pub open spec fn jump_word() -> Seq<char> {
    seq!['!', 'j', 'u', 'm', 'p']
}

/// The address that an immediate names: `#0x`, then hexadecimal digits that
/// write an unsigned 64-bit number.
pub open spec fn jump_target(token: Seq<char>) -> Option<nat> {
    if token.len() >= 3 && token[0] == '#' && token[1] == '0' && token[2] == 'x' {
        match unsigned_number(token.subrange(3, token.len() as int), 0xFFFF_FFFF_FFFF_FFFF) {
            Ok(n) => Some(n),
            Err(_) => None,
        }
    } else {
        None
    }
}

/// The branch instruction from `offset` to `target`: `bl` with link and `b`
/// without, then the displacement as a hexadecimal immediate, with a minus sign
/// where the target lies before the offset.
pub open spec fn jump_text(target: nat, offset: nat, link: bool) -> Seq<char> {
    let mnemonic = if link {
        "bl #"@
    } else {
        "b #"@
    };
    if target >= offset {
        mnemonic + prefixed_hex((target - offset) as nat)
    } else {
        mnemonic + "-"@ + prefixed_hex((offset - target) as nat)
    }
}

/// The branch instruction for a pseudo-instruction line assembled at `offset`:
/// the line has two tokens, and the second one names the target.
pub open spec fn jump_statement(line: Seq<char>, offset: nat, link: bool) -> Option<Seq<char>> {
    let toks = tokens(line);
    if toks.len() == 2 {
        match jump_target(toks[1]) {
            Some(target) => Some(jump_text(target, offset, link)),
            None => None,
        }
    } else {
        None
    }
}

/// Whether the line begins with the directive `word`: its first characters are
/// those of `word`, and whitespace or the end of the line follows them.
/// Whitespace before the word makes the line begin with something else.
pub open spec fn begins_with_directive(line: Seq<char>, word: Seq<char>) -> bool {
    has_prefix(line, word) && (line.len() == word.len() || is_space(line[word.len() as int]))
}

/// What the line expands to when assembled at `offset`, if it is a
/// pseudo-instruction.
pub open spec fn macro_expansion(line: Seq<char>, offset: nat) -> Option<Seq<char>> {
    if begins_with_directive(line, call_word()) {
        jump_statement(line, offset, true)
    } else if begins_with_directive(line, jump_word()) {
        jump_statement(line, offset, false)
    } else {
        None
    }
}

/// Check if the current line is a macro / pseudo-instruction.
///
/// The offset is the base offset of the patch plus the offset of the
/// pseudo-instruction within it, as absolute addressing needs it. All macros
/// begin with `!`, and the line is taken as it stands: with whitespace before
/// the `!` it is no macro. Returns `None` when the line is no macro.
pub fn get_macro(line: &str, offset: u64) -> (r: Option<String>)
    ensures
        match r {
            Some(text) => macro_expansion(line@, offset as nat) == Some(text@),
            None => macro_expansion(line@, offset as nat) is None,
        },
{
    let chars = to_chars(line);
    let call: Vec<char> = vec!['!', 'c', 'a', 'l', 'l'];
    let jump: Vec<char> = vec!['!', 'j', 'u', 'm', 'p'];
    assert(call@ == call_word());
    assert(jump@ == jump_word());
    let ends: bool = chars.len() <= 5 || is_whitespace(chars[5]);
    if ends && starts_with(&chars, &call) {
        parse_jump_statement(line, offset, true)
    } else if ends && starts_with(&chars, &jump) {
        parse_jump_statement(line, offset, false)
    } else {
        None
    }
}

/// Writes the jump statement of a fixed-width instruction set for a
/// pseudo-instruction line that is assembled at `instr_address`.
///
/// With `link` the branch is `bl`, without it `b`. The target follows the
/// directive as an immediate, as in `!call #0x13cc8c`. Returns `None` when the
/// line does not have that shape.
pub fn parse_jump_statement(instr: &str, instr_address: u64, link: bool) -> (r: Option<String>)
    ensures
        match r {
            Some(text) => jump_statement(instr@, instr_address as nat, link) == Some(text@),
            None => jump_statement(instr@, instr_address as nat, link) is None,
        },
{
    let chars = to_chars(instr);
    let bounds = token_bounds(&chars);
    if bounds.len() != 2 {
        return None;
    }
    let (from, to) = bounds[1];
    let ghost token = chars@.subrange(from as int, to as int);
    if to - from < 3 || chars[from] != '#' || chars[from + 1] != '0' || chars[from + 2] != 'x' {
        assert(to - from >= 3 ==> token[0] == chars@[from as int] && token[1] == chars@[from + 1]
            && token[2] == chars@[from + 2]);
        return None;
    }
    assert(token[0] == chars@[from as int] && token[1] == chars@[from + 1] && token[2]
        == chars@[from + 2]);
    assert(chars@.subrange(from + 3, to as int) == token.subrange(3, token.len() as int));
    let target: u64 = match parse_digits(&chars, from + 3, to, 0xFFFF_FFFF_FFFF_FFFF) {
        Ok(n) => n,
        Err(_) => {
            return None;
        },
    };
    let mut out = String::new();
    if link {
        out.append("bl #");
    } else {
        out.append("b #");
    }
    if target >= instr_address {
        push_prefixed_hex(&mut out, target - instr_address);
    } else {
        out.append("-");
        push_prefixed_hex(&mut out, instr_address - target);
    }
    assert(out@ =~= jump_text(target as nat, instr_address as nat, link));
    Some(out)
}

} // verus!
