//! Hexadecimal numbers: reading them from text and writing them as text.

use vstd::prelude::*;
use vstd::string::*;

verus! {

/// Why a run of characters is not a number.
#[derive(Clone, Copy, Debug, PartialEq, Eq, Structural)]
pub enum NumberError {
    /// There are no characters at all.
    Empty,
    /// A character is no hexadecimal digit. A sign is none.
    InvalidDigit,
    /// The number is above the largest that is taken.
    TooLarge,
}

/// The value of a hexadecimal digit, in either case.
pub open spec fn digit_value(c: char) -> Option<nat> {
    if '0' <= c <= '9' {
        Some((c as u32 - '0' as u32) as nat)
    } else if 'a' <= c <= 'f' {
        Some((c as u32 - 'a' as u32 + 10) as nat)
    } else if 'A' <= c <= 'F' {
        Some((c as u32 - 'A' as u32 + 10) as nat)
    } else {
        None
    }
}

/// The first index at or after `i` that holds no hexadecimal digit, or the
/// length of `s` when only digits follow.
pub open spec fn digits_end(s: Seq<char>, i: int) -> int
    decreases s.len() - i,
{
    if 0 <= i < s.len() && digit_value(s[i]) is Some {
        digits_end(s, i + 1)
    } else {
        i
    }
}

/// The number that the hexadecimal digits `s` write, most significant first.
pub open spec fn digits_value(s: Seq<char>) -> nat
    decreases s.len(),
{
    if s.len() == 0 {
        0
    } else {
        16 * digits_value(s.drop_last()) + digit_value(s.last()).unwrap()
    }
}

/// The number that the digits `s` write when it is at most `limit`: one
/// hexadecimal digit or more, and nothing else, so that no sign and no `0x` is
/// taken.
///
/// The characters are read from the left, and the first one that cannot be
/// taken decides the failure: `InvalidDigit` for one that is no digit, and
/// `TooLarge` for a digit that takes the number beyond `limit`.
pub open spec fn unsigned_number(s: Seq<char>, limit: nat) -> Result<nat, NumberError> {
    let digits = s.take(digits_end(s, 0));
    if digits_value(digits) > limit {
        Err(NumberError::TooLarge)
    } else if digits.len() < s.len() || s.len() == 0 {
        Err(NumberError::InvalidDigit)
    } else {
        Ok(digits_value(s))
    }
}

/// The lower-case hexadecimal digit for a value below sixteen.
pub open spec fn digit_char(d: nat) -> char {
    if d < 10 {
        ('0' as u32 + d) as char
    } else {
        ('a' as u32 + d - 10) as char
    }
}

/// `n` in lower-case hexadecimal digits, without leading zeros.
pub open spec fn hex_text(n: nat) -> Seq<char>
    decreases n,
{
    if n < 16 {
        seq![digit_char(n)]
    } else {
        hex_text(n / 16).push(digit_char(n % 16))
    }
}

/// `n` in lower-case hexadecimal digits after the marker `0x`.
pub open spec fn prefixed_hex(n: nat) -> Seq<char> {
    seq!['0', 'x'] + hex_text(n)
}

/// `digits_end` stops at the first character that is no digit: all it passes
/// over are digits, and it ends on a character that is none or at the end of
/// `s`.
proof fn lemma_digits_end(s: Seq<char>, i: int)
    requires
        0 <= i <= s.len(),
    ensures
        i <= digits_end(s, i) <= s.len(),
        forall|j: int| i <= j < digits_end(s, i) ==> (#[trigger] digit_value(s[j])) is Some,
        digits_end(s, i) < s.len() ==> digit_value(s[digits_end(s, i)]) is None,
    decreases s.len() - i,
{
    if i < s.len() && digit_value(s[i]) is Some {
        lemma_digits_end(s, i + 1);
    }
}

/// A longer run of digits from the start of `s` writes no smaller number.
proof fn lemma_value_grows(s: Seq<char>, shorter: int, longer: int)
    requires
        0 <= shorter <= longer <= s.len(),
    ensures
        digits_value(s.take(shorter)) <= digits_value(s.take(longer)),
    decreases longer - shorter,
{
    if shorter < longer {
        assert(s.take(longer).drop_last() == s.take(longer - 1));
        lemma_value_grows(s, shorter, longer - 1);
    }
}

/// The digits that `hex_text` writes for `n` are read back as `n`.
pub proof fn hex_text_reads_back(n: nat, limit: nat)
    requires
        n <= limit,
    ensures
        unsigned_number(hex_text(n), limit) == Ok::<nat, NumberError>(n),
{
    lemma_hex_text_value(n);
    lemma_digits_end(hex_text(n), 0);
    assert(hex_text(n).take(hex_text(n).len() as int) == hex_text(n));
}

/// The text of `n` has digits only, and they write `n`.
proof fn lemma_hex_text_value(n: nat)
    ensures
        hex_text(n).len() > 0,
        forall|i: int|
            0 <= i < hex_text(n).len() ==> (#[trigger] digit_value(hex_text(n)[i])) is Some,
        digits_value(hex_text(n)) == n,
    decreases n,
{
    let last = digit_char(n % 16);
    assert(digit_value(last) == Some(n % 16));
    if n < 16 {
        assert(hex_text(n).drop_last() == Seq::<char>::empty());
        assert(digits_value(hex_text(n).drop_last()) == 0);
    } else {
        lemma_hex_text_value(n / 16);
        let front = hex_text(n / 16);
        assert(hex_text(n).drop_last() == front);
        assert forall|i: int| 0 <= i < hex_text(n).len() implies (#[trigger] digit_value(
            hex_text(n)[i],
        )) is Some by {
            if i < front.len() {
                assert(hex_text(n)[i] == front[i]);
            }
        }
    }
}

/// The value of the hexadecimal digit `c`, if it is one.
pub fn hex_digit(c: char) -> (r: Option<u8>)
    ensures
        match r {
            Some(d) => digit_value(c) == Some(d as nat) && d < 16,
            None => digit_value(c) is None,
        },
{
    let u: u32 = c as u32;
    if 0x30 <= u && u <= 0x39 {
        Some((u - 0x30) as u8)
    } else if 0x61 <= u && u <= 0x66 {
        Some((u - 0x61 + 10) as u8)
    } else if 0x41 <= u && u <= 0x46 {
        Some((u - 0x41 + 10) as u8)
    } else {
        None
    }
}

/// Reads the characters of `s` from index `from` up to `to` as hexadecimal
/// digits that write a number of at most `limit`.
pub fn parse_digits(s: &Vec<char>, from: usize, to: usize, limit: u64) -> (r: Result<
    u64,
    NumberError,
>)
    requires
        from <= to <= s.len(),
    ensures
        match r {
            Ok(n) => unsigned_number(s@.subrange(from as int, to as int), limit as nat) == Ok::<
                nat,
                NumberError,
            >(n as nat),
            Err(e) => unsigned_number(s@.subrange(from as int, to as int), limit as nat) == Err::<
                nat,
                NumberError,
            >(e),
        },
        r matches Ok(n) ==> n <= limit,
{
    let ghost text = s@.subrange(from as int, to as int);
    let mut value: u64 = 0;
    let mut i: usize = from;
    assert(text.take(0) == Seq::<char>::empty());
    proof {
        lemma_digits_end(text, 0);
    }
    while i < to
        invariant
            from <= i <= to <= s.len(),
            text == s@.subrange(from as int, to as int),
            i - from <= digits_end(text, 0) <= text.len(),
            value == digits_value(text.take(i - from)),
            value <= limit,
        decreases to - i,
    {
        let ghost before = text.take(i - from);
        let ghost after = text.take(i - from + 1);
        proof {
            lemma_digits_end(text, 0);
            assert(after.drop_last() == before);
            assert(after.last() == s@[i as int]);
        }
        match hex_digit(s[i]) {
            None => {
                assert(digits_end(text, 0) == i - from);
                return Err(NumberError::InvalidDigit);
            },
            Some(d) => {
                assert(digits_end(text, 0) > i - from);
                let next: u128 = value as u128 * 16 + d as u128;
                if next > limit as u128 {
                    proof {
                        lemma_value_grows(text, i - from + 1, digits_end(text, 0));
                    }
                    return Err(NumberError::TooLarge);
                }
                value = next as u64;
            },
        }
        i = i + 1;
    }
    assert(text.take(to - from) == text);
    if from == to {
        Err(NumberError::InvalidDigit)
    } else {
        Ok(value)
    }
}

/// The one-character text of the hexadecimal digit `d`.
fn digit_text(d: u8) -> (r: &'static str)
    requires
        d < 16,
    ensures
        r@ == seq![digit_char(d as nat)],
{
    proof {
        reveal_strlit("0");
        reveal_strlit("1");
        reveal_strlit("2");
        reveal_strlit("3");
        reveal_strlit("4");
        reveal_strlit("5");
        reveal_strlit("6");
        reveal_strlit("7");
        reveal_strlit("8");
        reveal_strlit("9");
        reveal_strlit("a");
        reveal_strlit("b");
        reveal_strlit("c");
        reveal_strlit("d");
        reveal_strlit("e");
        reveal_strlit("f");
    }
    let r = if d == 0 {
        "0"
    } else if d == 1 {
        "1"
    } else if d == 2 {
        "2"
    } else if d == 3 {
        "3"
    } else if d == 4 {
        "4"
    } else if d == 5 {
        "5"
    } else if d == 6 {
        "6"
    } else if d == 7 {
        "7"
    } else if d == 8 {
        "8"
    } else if d == 9 {
        "9"
    } else if d == 10 {
        "a"
    } else if d == 11 {
        "b"
    } else if d == 12 {
        "c"
    } else if d == 13 {
        "d"
    } else if d == 14 {
        "e"
    } else {
        "f"
    };
    assert(r@ =~= seq![digit_char(d as nat)]);
    r
}

/// Appends `n` to `out` in lower-case hexadecimal digits.
pub fn push_hex(out: &mut String, n: u64)
    ensures
        final(out)@ == old(out)@ + hex_text(n as nat),
    decreases n,
{
    if n >= 16 {
        push_hex(out, n / 16);
    }
    out.append(digit_text((n % 16) as u8));
    assert(out@ =~= old(out)@ + hex_text(n as nat));
}

/// Appends `n` to `out` in lower-case hexadecimal digits after the marker `0x`.
pub fn push_prefixed_hex(out: &mut String, n: u64)
    ensures
        final(out)@ == old(out)@ + prefixed_hex(n as nat),
{
    proof {
        reveal_strlit("0x");
    }
    out.append("0x");
    push_hex(out, n);
    assert(out@ =~= old(out)@ + prefixed_hex(n as nat));
}

} // verus!
