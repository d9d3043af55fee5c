//! The parser: the readers of a block's opening line and of a line of bytes,
//! and the run over all the lines of a patch definition.

use crate::block::{PaddingPolicy, PaddingView};
use crate::error::{HaikuError, HaikuErrorView, Offender, OffenderView};
use crate::hex::{parse_digits, unsigned_number, NumberError};
use crate::ips::{record_views, PatchRecord, PatchRecordView};
use crate::scan::{
    completion, encoded_view, finish, resolution, resolve, step, transition, ScanState, ScanView,
    Step, StepView,
};
use crate::text::{to_chars, token_bounds, tokens};
use vstd::prelude::*;
use vstd::string::*;

verus! {

/// The largest start offset and the largest capacity that an opening line can
/// name.
pub const MAX_HEADER_NUMBER: u64 = 0xFFFF_FFFF;

/// The number that token `k` of an opening line writes: hexadecimal digits
/// without a sign, for a number of at most `MAX_HEADER_NUMBER`. A token that
/// is not there counts as a number without characters.
pub open spec fn header_number(toks: Seq<Seq<char>>, k: int) -> Result<nat, NumberError> {
    if 0 <= k < toks.len() {
        unsigned_number(toks[k], MAX_HEADER_NUMBER as nat)
    } else {
        Err(NumberError::Empty)
    }
}

/// What an opening line defines: the start offset that its second token writes
/// and the capacity that its third token writes, each as it stands. The first
/// failure of the two is reported, the offset's before the capacity's.
pub open spec fn patch_definition(line: Seq<char>) -> Result<(u32, u32), HaikuErrorView> {
    let toks = tokens(line);
    match header_number(toks, 1) {
        Err(reason) => Err(HaikuErrorView::InvalidHeader { line, reason }),
        Ok(offset) => match header_number(toks, 2) {
            Err(reason) => Err(HaikuErrorView::InvalidHeader { line, reason }),
            Ok(capacity) => Ok((offset as u32, capacity as u32)),
        },
    }
}

/// The byte that a token of a byte list writes: the token is one hexadecimal
/// digit or two, without a sign, and the byte is their value. Any other token
/// writes no byte.
pub open spec fn token_byte(token: Seq<char>) -> Option<u8> {
    if token.len() <= 2 {
        match unsigned_number(token, 0xFF) {
            Ok(n) => Some(n as u8),
            Err(_) => None,
        }
    } else {
        None
    }
}

/// The bytes that the tokens `toks` write, read from left to right into a block
/// that starts at `start_offset` and has room for `remaining` more bytes, or
/// the first failure: a token that writes no byte, or a byte that has no room.
pub open spec fn byte_list(toks: Seq<Seq<char>>, start_offset: u32, remaining: nat) -> Result<
    Seq<u8>,
    HaikuErrorView,
>
    decreases toks.len(),
{
    if toks.len() == 0 {
        Ok(Seq::empty())
    } else {
        match byte_list(toks.drop_last(), start_offset, remaining) {
            Err(e) => Err(e),
            Ok(bytes) => match token_byte(toks.last()) {
                None => Err(HaikuErrorView::InvalidByte { start_offset, token: toks.last() }),
                Some(b) => if bytes.len() < remaining {
                    Ok(bytes.push(b))
                } else {
                    Err(
                        HaikuErrorView::CapacityExceeded {
                            start_offset,
                            offender: OffenderView::Byte(b),
                        },
                    )
                },
            },
        }
    }
}

/// A failure among the first `n` tokens is the failure of the whole list.
proof fn lemma_byte_list_fails_early(
    toks: Seq<Seq<char>>,
    start_offset: u32,
    remaining: nat,
    n: int,
)
    requires
        0 <= n <= toks.len(),
        byte_list(toks.take(n), start_offset, remaining) is Err,
    ensures
        byte_list(toks, start_offset, remaining) == byte_list(
            toks.take(n),
            start_offset,
            remaining,
        ),
    decreases toks.len() - n,
{
    if n == toks.len() {
        assert(toks.take(n) == toks);
    } else {
        assert(toks.take(n + 1).drop_last() == toks.take(n));
        lemma_byte_list_fails_early(toks, start_offset, remaining, n + 1);
    }
}

/// A byte list is read without failure exactly when every token writes a byte
/// and there is room for them all. The bytes are then the tokens' bytes, one for
/// one and in order.
pub proof fn byte_list_accepts(toks: Seq<Seq<char>>, start_offset: u32, remaining: nat)
    ensures
        byte_list(toks, start_offset, remaining) is Ok <==> toks.len() <= remaining && forall|
            k: int,
        |
            0 <= k < toks.len() ==> (#[trigger] token_byte(toks[k])) is Some,
        byte_list(toks, start_offset, remaining) matches Ok(bytes) ==> bytes.len() == toks.len()
            && forall|k: int|
            0 <= k < toks.len() ==> #[trigger] token_byte(toks[k]) == Some(bytes[k]),
    decreases toks.len(),
{
    if toks.len() > 0 {
        let front = toks.drop_last();
        byte_list_accepts(front, start_offset, remaining);
        assert forall|k: int| 0 <= k < front.len() implies front[k] == toks[k] by {}
        if byte_list(toks, start_offset, remaining) is Ok {
            let bytes = byte_list(toks, start_offset, remaining)->Ok_0;
            let before = byte_list(front, start_offset, remaining)->Ok_0;
            assert forall|k: int| 0 <= k < toks.len() implies #[trigger] token_byte(toks[k])
                == Some(bytes[k]) by {
                if k < front.len() {
                    assert(token_byte(front[k]) == Some(before[k]));
                }
            }
        }
        if toks.len() <= remaining && forall|k: int|
            0 <= k < toks.len() ==> (#[trigger] token_byte(toks[k])) is Some {
            assert forall|k: int| 0 <= k < front.len() implies (#[trigger] token_byte(
                front[k],
            )) is Some by {
                assert(token_byte(toks[k]) is Some);
            }
            assert(token_byte(toks[toks.len() - 1]) is Some);
        }
    }
}

/// The first token that writes no byte, or that comes when no room is left,
/// decides the failure: `InvalidByte` with that token for the one,
/// `CapacityExceeded` with its byte for the other. The tokens before it read
/// as they would without it.
pub proof fn byte_list_rejects(toks: Seq<Seq<char>>, start_offset: u32, remaining: nat, k: int)
    requires
        0 <= k < toks.len(),
        k <= remaining,
        forall|j: int| 0 <= j < k ==> (#[trigger] token_byte(toks[j])) is Some,
        token_byte(toks[k]) is None || k == remaining,
    ensures
        token_byte(toks[k]) is None ==> byte_list(toks, start_offset, remaining) == Err::<
            Seq<u8>,
            HaikuErrorView,
        >(HaikuErrorView::InvalidByte { start_offset, token: toks[k] }),
        token_byte(toks[k]) matches Some(b) ==> byte_list(toks, start_offset, remaining) == Err::<
            Seq<u8>,
            HaikuErrorView,
        >(HaikuErrorView::CapacityExceeded { start_offset, offender: OffenderView::Byte(b) }),
        byte_list(toks.take(k), start_offset, remaining) matches Ok(bytes) && bytes.len() == k
            && forall|j: int| 0 <= j < k ==> #[trigger] token_byte(toks[j]) == Some(bytes[j]),
{
    let front = toks.take(k);
    assert forall|j: int| 0 <= j < front.len() implies (#[trigger] token_byte(
        front[j],
    )) is Some by {
        assert(token_byte(toks[j]) is Some);
    }
    byte_list_accepts(front, start_offset, remaining);
    let bytes = byte_list(front, start_offset, remaining)->Ok_0;
    assert forall|j: int| 0 <= j < k implies #[trigger] token_byte(toks[j]) == Some(bytes[j]) by {
        assert(token_byte(front[j]) == Some(bytes[j]));
    }
    assert(toks.take(k + 1).drop_last() == front);
    assert(toks.take(k + 1).last() == toks[k]);
    lemma_byte_list_fails_early(toks, start_offset, remaining, k + 1);
}

/// Reads the token of the characters of `s` from index `from` up to `to` as a
/// byte.
fn parse_byte(s: &Vec<char>, from: usize, to: usize) -> (r: Option<u8>)
    requires
        from <= to <= s.len(),
    ensures
        r == token_byte(s@.subrange(from as int, to as int)),
{
    if to - from > 2 {
        return None;
    }
    match parse_digits(s, from, to, 0xFF) {
        Ok(n) => Some(n as u8),
        Err(_) => None,
    }
}

/// Given a definition line, reads the start offset and the capacity.
///
/// The line is taken to begin with `bytes` or `instrs`; that first token and
/// whatever follows the capacity are not looked at. Both numbers are written
/// in hexadecimal digits without a sign and without `0x`, and neither is above
/// `MAX_HEADER_NUMBER`: a number beyond it fails as `TooLarge`, and is not cut
/// down.
pub fn parse_patch_definition(line: &str) -> (r: Result<(u32, u32), HaikuError>)
    ensures
        match r {
            Ok(pair) => patch_definition(line@) == Ok::<(u32, u32), HaikuErrorView>(pair),
            Err(e) => patch_definition(line@) == Err::<(u32, u32), HaikuErrorView>(e@),
        },
{
    let chars = to_chars(line);
    let bounds = token_bounds(&chars);
    if bounds.len() < 2 {
        return Err(HaikuError::InvalidHeader { line: line.to_owned(), reason: NumberError::Empty });
    }
    let offset = match parse_digits(&chars, bounds[1].0, bounds[1].1, MAX_HEADER_NUMBER) {
        Ok(n) => n as u32,
        Err(reason) => {
            return Err(HaikuError::InvalidHeader { line: line.to_owned(), reason });
        },
    };
    if bounds.len() < 3 {
        return Err(HaikuError::InvalidHeader { line: line.to_owned(), reason: NumberError::Empty });
    }
    let capacity = match parse_digits(&chars, bounds[2].0, bounds[2].1, MAX_HEADER_NUMBER) {
        Ok(n) => n as u32,
        Err(reason) => {
            return Err(HaikuError::InvalidHeader { line: line.to_owned(), reason });
        },
    };
    Ok((offset, capacity))
}

/// Given a line of bytes, reads them into a block that starts at `start_offset`
/// and has room for `remaining_bytes` more.
///
/// Each token is one hexadecimal digit or two. A token of any other shape,
/// such as one with a sign or with three digits, fails as `InvalidByte`.
///
/// Input example: `80 1F  00   03 13`
pub fn parse_byte_list(line: &str, start_offset: u32, remaining_bytes: u32) -> (r: Result<
    Vec<u8>,
    HaikuError,
>)
    ensures
        match r {
            Ok(bytes) => byte_list(tokens(line@), start_offset, remaining_bytes as nat) == Ok::<
                Seq<u8>,
                HaikuErrorView,
            >(bytes@),
            Err(e) => byte_list(tokens(line@), start_offset, remaining_bytes as nat) == Err::<
                Seq<u8>,
                HaikuErrorView,
            >(e@),
        },
{
    let chars = to_chars(line);
    let bounds = token_bounds(&chars);
    let ghost toks = tokens(line@);
    let mut patch_bytes: Vec<u8> = Vec::new();
    let mut k: usize = 0;
    assert(toks.take(0) == Seq::<Seq<char>>::empty());
    while k < bounds.len()
        invariant
            k <= bounds.len(),
            chars@ == line@,
            toks == tokens(line@),
            bounds@.len() == toks.len(),
            forall|j: int|
                0 <= j < bounds@.len() ==> {
                    &&& (#[trigger] bounds@[j]).0 < bounds@[j].1 <= chars@.len()
                    &&& chars@.subrange(bounds@[j].0 as int, bounds@[j].1 as int) == toks[j]
                },
            byte_list(toks.take(k as int), start_offset, remaining_bytes as nat) == Ok::<
                Seq<u8>,
                HaikuErrorView,
            >(patch_bytes@),
        decreases bounds.len() - k,
    {
        let (from, to) = bounds[k];
        proof {
            assert(toks.take(k + 1).drop_last() == toks.take(k as int));
            assert(toks.take(k + 1).last() == toks[k as int]);
        }
        match parse_byte(&chars, from, to) {
            None => {
                let token = line.substring_char(from, to).to_owned();
                proof {
                    lemma_byte_list_fails_early(toks, start_offset, remaining_bytes as nat, k + 1);
                }
                return Err(HaikuError::InvalidByte { start_offset, token });
            },
            Some(b) => {
                if patch_bytes.len() < remaining_bytes as usize {
                    patch_bytes.push(b);
                } else {
                    proof {
                        lemma_byte_list_fails_early(
                            toks,
                            start_offset,
                            remaining_bytes as nat,
                            k + 1,
                        );
                    }
                    return Err(
                        HaikuError::CapacityExceeded { start_offset, offender: Offender::Byte(b) },
                    );
                }
            },
        }
        k = k + 1;
    }
    assert(toks.take(k as int) == toks);
    Ok(patch_bytes)
}

/// The lines as sequences of characters, in order.
pub open spec fn line_views(lines: Seq<String>) -> Seq<Seq<char>> {
    Seq::new(lines.len(), |i: int| lines[i]@)
}

/// What a run gives back, over views.
pub open spec fn outcome_view(r: Result<Vec<PatchRecord>, HaikuError>) -> Result<
    Seq<PatchRecordView>,
    HaikuErrorView,
> {
    match r {
        Ok(records) => Ok(record_views(records@)),
        Err(e) => Err(e@),
    }
}

/// What a scan comes to when the input ends in `state` with `records` left so
/// far: the records, unless a block is still open.
pub open spec fn ended(state: ScanView, records: Seq<PatchRecordView>) -> Result<
    Seq<PatchRecordView>,
    HaikuErrorView,
> {
    match completion(state) {
        Ok(_) => Ok(records),
        Err(e) => Err(e),
    }
}

/// Whether `encode`, called on the text `mnemonic`, may have given `answer`.
pub open spec fn answered<F: Fn(String) -> Option<Vec<u8>>>(
    encode: F,
    mnemonic: Seq<char>,
    answer: Option<Seq<u8>>,
) -> bool {
    exists|text: String, encoded: Option<Vec<u8>>|
        #![trigger encode.ensures((text,), encoded)]
        text@ == mnemonic && encoded_view(encoded) == answer && encode.ensures((text,), encoded)
}

/// Whether a scan of `lines` that starts in `state`, with `records` left so
/// far and with `encode` as the assembler, may come to `result`.
///
/// The scan goes through the lines in order and stops at the first failure.
/// Each instruction line is assembled by one call of `encode` on its text, and
/// the scan goes on with whatever that call gave.
pub open spec fn scans_to<F: Fn(String) -> Option<Vec<u8>>>(
    encode: F,
    state: ScanView,
    records: Seq<PatchRecordView>,
    lines: Seq<Seq<char>>,
    padding: PaddingView,
    result: Result<Seq<PatchRecordView>, HaikuErrorView>,
) -> bool
    decreases lines.len(),
{
    if lines.len() == 0 {
        result == ended(state, records)
    } else {
        let rest = lines.drop_first();
        match transition(state, lines[0], padding) {
            Err(e) => result == Err::<Seq<PatchRecordView>, HaikuErrorView>(e),
            Ok(StepView::Continue(next)) => scans_to(encode, next, records, rest, padding, result),
            Ok(StepView::Emit(next, record)) => scans_to(
                encode,
                next,
                records.push(record),
                rest,
                padding,
                result,
            ),
            Ok(StepView::Assemble(pending)) => exists|answer: Option<Seq<u8>>|
                #![trigger answered(encode, pending.mnemonic, answer)]
                answered(encode, pending.mnemonic, answer) && match resolution(pending, answer) {
                    Err(e) => result == Err::<Seq<PatchRecordView>, HaikuErrorView>(e),
                    Ok(next) => scans_to(encode, next, records, rest, padding, result),
                },
        }
    }
}

/// Parses a haiku: the lines of a patch definition, in order.
///
/// `padding` says how instruction blocks are topped up, and `encode` is the
/// assembler: it is called once for each instruction line, in order, with the
/// line's text or what the line expands to, and answers with the encoded bytes
/// or with `None` for an instruction that it turns down. The records come in
/// the order in which their blocks close. The first failure ends the run.
pub fn parse_haiku<F: Fn(String) -> Option<Vec<u8>>>(
    lines: &Vec<String>,
    padding: &PaddingPolicy,
    encode: F,
) -> (r: Result<Vec<PatchRecord>, HaikuError>)
    requires
        forall|text: String| encode.requires((text,)),
    ensures
        scans_to(
            encode,
            ScanView::Scanning,
            Seq::empty(),
            line_views(lines@),
            padding@,
            outcome_view(r),
        ),
{
    let ghost all = line_views(lines@);
    let mut state = ScanState::Scanning;
    let mut records: Vec<PatchRecord> = Vec::new();
    let mut i: usize = 0;
    assert(all.skip(0) == all);
    assert(record_views(records@) == Seq::<PatchRecordView>::empty());
    while i < lines.len()
        invariant
            i <= lines.len(),
            all == line_views(lines@),
            forall|text: String| encode.requires((text,)),
            forall|result: Result<Seq<PatchRecordView>, HaikuErrorView>| #[trigger]
                scans_to(
                    encode,
                    state@,
                    record_views(records@),
                    all.skip(i as int),
                    padding@,
                    result,
                ) ==> scans_to(encode, ScanView::Scanning, Seq::empty(), all, padding@, result),
        decreases lines.len() - i,
    {
        let ghost before = state@;
        let ghost gathered = record_views(records@);
        let ghost here = all.skip(i as int);
        proof {
            assert(here.len() > 0);
            assert(here[0] == lines@[i as int]@);
            assert(here.drop_first() == all.skip(i + 1));
        }
        match step(state, lines[i].as_str(), padding) {
            Err(e) => {
                assert(scans_to(
                    encode,
                    before,
                    gathered,
                    here,
                    padding@,
                    Err::<Seq<PatchRecordView>, HaikuErrorView>(e@),
                ));
                return Err(e);
            },
            Ok(Step::Continue(next)) => {
                state = next;
            },
            Ok(Step::Emit(next, record)) => {
                state = next;
                let ghost left = record@;
                records.push(record);
                assert(record_views(records@) == gathered.push(left));
            },
            Ok(Step::Assemble(pending)) => {
                let ghost asked = pending@;
                let encoded = encode(pending.mnemonic.clone());
                assert(answered(encode, asked.mnemonic, encoded_view(encoded)));
                match resolve(pending, encoded) {
                    Err(e) => {
                        assert(scans_to(
                            encode,
                            before,
                            gathered,
                            here,
                            padding@,
                            Err::<Seq<PatchRecordView>, HaikuErrorView>(e@),
                        ));
                        return Err(e);
                    },
                    Ok(next) => {
                        state = next;
                    },
                }
            },
        }
        assert forall|result: Result<Seq<PatchRecordView>, HaikuErrorView>| #[trigger]
            scans_to(
                encode,
                state@,
                record_views(records@),
                all.skip(i + 1),
                padding@,
                result,
            ) implies scans_to(encode, ScanView::Scanning, Seq::empty(), all, padding@, result) by {
            assert(scans_to(encode, before, gathered, here, padding@, result));
        }
        i = i + 1;
    }
    match finish(&state) {
        Ok(_) => {
            assert(scans_to(
                encode,
                state@,
                record_views(records@),
                all.skip(i as int),
                padding@,
                Ok::<Seq<PatchRecordView>, HaikuErrorView>(record_views(records@)),
            ));
            Ok(records)
        },
        Err(e) => {
            assert(scans_to(
                encode,
                state@,
                record_views(records@),
                all.skip(i as int),
                padding@,
                Err::<Seq<PatchRecordView>, HaikuErrorView>(e@),
            ));
            Err(e)
        },
    }
}

} // verus!
