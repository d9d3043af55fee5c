//! Patch records and their encoding as an IPS patch.
//!
//! An IPS patch is the five bytes `PATCH`, then each record as a three-byte
//! offset, a two-byte length and the payload, then the three bytes `EOF`. The
//! numbers are big-endian.

use crate::error::{HaikuError, HaikuErrorView};
use vstd::prelude::*;

verus! {

/// The largest offset that a record of an IPS patch can have.
pub const MAX_OFFSET: u32 = 0xFF_FFFF;

/// The largest number of bytes that a record of an IPS patch can hold.
pub const MAX_LENGTH: usize = 0xFFFF;

/// Bytes to write at an offset of the patched file.
#[derive(Debug, PartialEq, Eq)]
pub struct PatchRecord {
    /// Where the bytes go.
    pub offset: u32,
    /// The bytes.
    pub payload: Vec<u8>,
}

/// A `PatchRecord` with its payload as a sequence.
pub struct PatchRecordView {
    pub offset: u32,
    pub payload: Seq<u8>,
}

impl View for PatchRecord {
    type V = PatchRecordView;

    open spec fn view(&self) -> PatchRecordView {
        PatchRecordView { offset: self.offset, payload: self.payload@ }
    }
}

/// The records of `records` as their views, in order.
pub open spec fn record_views(records: Seq<PatchRecord>) -> Seq<PatchRecordView> {
    Seq::new(records.len(), |i: int| records[i]@)
}

/// The bytes that open an IPS patch: `PATCH`.
pub open spec fn magic() -> Seq<u8> {
    seq![0x50u8, 0x41u8, 0x54u8, 0x43u8, 0x48u8]
}

/// The bytes that close an IPS patch: `EOF`.
pub open spec fn trailer() -> Seq<u8> {
    seq![0x45u8, 0x4Fu8, 0x46u8]
}

/// The three bytes of an offset, most significant first.
pub open spec fn offset_bytes(offset: nat) -> Seq<u8> {
    seq![
        ((offset / 0x1_0000) % 0x100) as u8,
        ((offset / 0x100) % 0x100) as u8,
        (offset % 0x100) as u8,
    ]
}

/// The two bytes of a length, most significant first.
pub open spec fn length_bytes(length: nat) -> Seq<u8> {
    seq![((length / 0x100) % 0x100) as u8, (length % 0x100) as u8]
}

/// Whether the record's offset and length fit the fields of the format.
pub open spec fn fits(record: PatchRecordView) -> bool {
    record.offset <= MAX_OFFSET && record.payload.len() <= MAX_LENGTH
}

/// One record as the format has it: offset, length, payload.
pub open spec fn record_bytes(record: PatchRecordView) -> Seq<u8> {
    offset_bytes(record.offset as nat) + length_bytes(record.payload.len()) + record.payload
}

/// The records as the format has them, one after the other in the order given.
pub open spec fn body_bytes(records: Seq<PatchRecordView>) -> Seq<u8>
    decreases records.len(),
{
    if records.len() == 0 {
        Seq::empty()
    } else {
        body_bytes(records.drop_last()) + record_bytes(records.last())
    }
}

/// The whole patch for records that all fit.
pub open spec fn patch_bytes(records: Seq<PatchRecordView>) -> Seq<u8> {
    magic() + body_bytes(records) + trailer()
}

/// The offset and the length of a record that fits can be read back from the
/// bytes of their fields, most significant byte first.
pub proof fn fields_read_back(record: PatchRecordView)
    requires
        fits(record),
    ensures
        ({
            let field = offset_bytes(record.offset as nat);
            record.offset == field[0] * 0x1_0000 + field[1] * 0x100 + field[2]
        }),
        ({
            let field = length_bytes(record.payload.len());
            record.payload.len() == field[0] * 0x100 + field[1]
        }),
{
}

/// Records are encoded one after the other: the bytes of two runs of records
/// in a row are the bytes of the first run followed by those of the second.
pub proof fn body_bytes_in_order(first: Seq<PatchRecordView>, second: Seq<PatchRecordView>)
    ensures
        body_bytes(first + second) == body_bytes(first) + body_bytes(second),
    decreases second.len(),
{
    if second.len() == 0 {
        assert(first + second == first);
    } else {
        assert((first + second).drop_last() == first + second.drop_last());
        assert((first + second).last() == second.last());
        body_bytes_in_order(first, second.drop_last());
    }
}

/// Appends the bytes of `source` to `out`.
fn push_all(out: &mut Vec<u8>, source: &Vec<u8>)
    ensures
        final(out)@ == old(out)@ + source@,
{
    let mut i: usize = 0;
    while i < source.len()
        invariant
            i <= source.len(),
            out@ == old(out)@ + source@.take(i as int),
        decreases source.len() - i,
    {
        out.push(source[i]);
        assert(source@.take(i + 1) == source@.take(i as int).push(source@[i as int]));
        i = i + 1;
    }
    assert(source@.take(source.len() as int) == source@);
}

/// Encodes the records as an IPS patch, in the order given.
///
/// Fails with `FormatLimitExceeded` for the first record whose offset is above
/// `MAX_OFFSET` or whose payload is longer than `MAX_LENGTH`. Records may
/// overlap and need not be ordered by offset.
pub fn generate_ips(records: &Vec<PatchRecord>) -> (r: Result<Vec<u8>, HaikuError>)
    ensures
        match r {
            Ok(bytes) => {
                &&& forall|i: int| 0 <= i < records@.len() ==> fits(#[trigger] records@[i]@)
                &&& bytes@ == patch_bytes(record_views(records@))
            },
            Err(e) => exists|i: int|
                {
                    &&& 0 <= i < records@.len()
                    &&& !fits(#[trigger] records@[i]@)
                    &&& forall|j: int| 0 <= j < i ==> fits(#[trigger] records@[j]@)
                    &&& e@ == HaikuErrorView::FormatLimitExceeded {
                        index: i as nat,
                        offset: records@[i].offset,
                        length: records@[i].payload@.len(),
                    }
                },
        },
{
    let mut k: usize = 0;
    while k < records.len()
        invariant
            k <= records.len(),
            forall|j: int| 0 <= j < k ==> fits(#[trigger] records@[j]@),
        decreases records.len() - k,
    {
        let record = &records[k];
        if record.offset > MAX_OFFSET || record.payload.len() > MAX_LENGTH {
            assert(!fits(records@[k as int]@));
            return Err(
                HaikuError::FormatLimitExceeded {
                    index: k,
                    offset: record.offset,
                    length: record.payload.len(),
                },
            );
        }
        k = k + 1;
    }
    let ghost views = record_views(records@);
    let mut out: Vec<u8> = Vec::new();
    out.push(0x50);
    out.push(0x41);
    out.push(0x54);
    out.push(0x43);
    out.push(0x48);
    assert(out@ == magic() + body_bytes(views.take(0)));
    let mut i: usize = 0;
    while i < records.len()
        invariant
            i <= records.len(),
            views == record_views(records@),
            forall|j: int| 0 <= j < records@.len() ==> fits(#[trigger] records@[j]@),
            out@ == magic() + body_bytes(views.take(i as int)),
        decreases records.len() - i,
    {
        let record = &records[i];
        assert(fits(records@[i as int]@));
        let offset: u32 = record.offset;
        let length: usize = record.payload.len();
        let ghost before = out@;
        out.push(((offset / 0x1_0000) % 0x100) as u8);
        out.push(((offset / 0x100) % 0x100) as u8);
        out.push((offset % 0x100) as u8);
        out.push(((length / 0x100) % 0x100) as u8);
        out.push((length % 0x100) as u8);
        push_all(&mut out, &record.payload);
        proof {
            assert(views.take(i + 1).drop_last() == views.take(i as int));
            assert(views.take(i + 1).last() == records@[i as int]@);
            assert(out@ == before + record_bytes(records@[i as int]@));
        }
        i = i + 1;
    }
    assert(views.take(records.len() as int) == views);
    out.push(0x45);
    out.push(0x4F);
    out.push(0x46);
    assert(out@ == patch_bytes(views));
    Ok(out)
}

} // verus!
