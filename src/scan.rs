use vstd::prelude::*;
use crate::record::{
    common_record, le32_at, marker_at, read_u32_le, SonarRecord, MAGIC_REC_HDR,
};

verus! {

/// How far the cursor moves past a decoded record. The true length of a
/// record is not known from the decoded fields, so this is an approximation.
pub const RECORD_STEP: usize = 1024;

/// The record decoded from a marker at `i` of a window whose first byte lies
/// at absolute position `base`. The sequence number and the time are read
/// from the next two 4-byte words when the window holds them, and are zero
/// otherwise.
pub open spec fn decode_spec(data: Seq<u8>, i: int, base: int) -> SonarRecord {
    common_record(
        (base + i) as u64,
        if i + 8 <= data.len() { le32_at(data, i + 4) as u32 } else { 0 },
        if i + 12 <= data.len() { le32_at(data, i + 8) as u32 } else { 0 },
    )
}

/// The records that a scan of `data` finds from cursor `pos` on, with no
/// limit: at a marker a record is decoded and the cursor moves by
/// `RECORD_STEP`; elsewhere it moves by one byte; the scan stops when fewer
/// than four bytes remain.
pub open spec fn scan_spec(data: Seq<u8>, pos: int, base: int) -> Seq<SonarRecord>
    decreases data.len() + RECORD_STEP - pos,
{
    if pos < 0 || pos + 4 > data.len() {
        Seq::empty()
    } else if marker_at(data, pos) {
        seq![decode_spec(data, pos, base)] + scan_spec(data, pos + RECORD_STEP, base)
    } else {
        scan_spec(data, pos + 1, base)
    }
}

/// The first `limit` items of `s`, or all of them when there is no limit or
/// `s` is shorter.
pub open spec fn take_up_to(s: Seq<SonarRecord>, limit: Option<nat>) -> Seq<SonarRecord> {
    match limit {
        Some(n) => if n < s.len() { s.take(n as int) } else { s },
        None => s,
    }
}

/// What is left of an optional record limit once `used` records are out.
pub open spec fn limit_left(limit: Option<u32>, used: nat) -> Option<nat> {
    match limit {
        Some(n) => Some((n - used) as nat),
        None => None,
    }
}

/// Whether `used` records stay within the optional limit.
pub open spec fn within_limit(limit: Option<u32>, used: nat) -> bool {
    match limit {
        Some(n) => used <= n,
        None => true,
    }
}

/// Decodes the common fields of a record whose marker is at `i`.
pub fn decode_at(data: &[u8], i: usize, base: u64) -> (r: SonarRecord)
    requires
        i + 4 <= data@.len(),
        base + i <= u64::MAX,
    ensures
        r == decode_spec(data@, i as int, base as int),
{
    let mut sequence: u32 = 0;
    let mut time_ms: u32 = 0;
    if data.len() - i >= 8 {
        sequence = read_u32_le(data, i + 4);
        if data.len() - i >= 12 {
            time_ms = read_u32_le(data, i + 8);
        }
    }
    SonarRecord::with_common(base + i as u64, sequence, time_ms)
}

/// Scans one byte window and appends what it finds to `records`, stopping
/// once `records` holds `limit` records.
pub fn scan_window(data: &[u8], base: u64, limit: Option<u32>, records: &mut Vec<SonarRecord>)
    requires
        base + data@.len() <= u64::MAX,
        within_limit(limit, old(records)@.len()),
    ensures
        final(records)@ == old(records)@ + take_up_to(
            scan_spec(data@, 0, base as int),
            limit_left(limit, old(records)@.len()),
        ),
        within_limit(limit, final(records)@.len()),
{
    let ghost start = records@;
    let ghost all = scan_spec(data@, 0, base as int);
    let len = data.len();
    let mut pos: usize = 0;
    while pos < len
        invariant
            len == data@.len(),
            pos <= len,
            base + len <= u64::MAX,
            records@.len() >= start.len(),
            records@.subrange(0, start.len() as int) == start,
            all == records@.subrange(start.len() as int, records@.len() as int) + scan_spec(
                data@,
                pos as int,
                base as int,
            ),
            within_limit(limit, records@.len()),
        ensures
            pos + 4 > len || (limit is Some && records@.len() >= limit->0),
        decreases len - pos,
    {
        if let Some(n) = limit {
            if records.len() >= n as usize {
                break;
            }
        }
        if len - pos < 4 {
            break;
        }
        let ghost produced = records@.subrange(start.len() as int, records@.len() as int);
        if read_u32_le(data, pos) == MAGIC_REC_HDR {
            let rec = decode_at(data, pos, base);
            records.push(rec);
            assert(records@.subrange(start.len() as int, records@.len() as int) == produced.push(
                rec,
            ));
            if len - pos <= RECORD_STEP {
                assert(scan_spec(data@, (pos + RECORD_STEP) as int, base as int) == Seq::<
                    SonarRecord,
                >::empty());
                assert(scan_spec(data@, len as int, base as int) == Seq::<SonarRecord>::empty());
                pos = len;
            } else {
                pos = pos + RECORD_STEP;
            }
        } else {
            pos = pos + 1;
        }
    }
    proof {
        let produced = records@.subrange(start.len() as int, records@.len() as int);
        let rest = scan_spec(data@, pos as int, base as int);
        assert(records@ == start + produced);
        if pos + 4 > len {
            assert(rest == Seq::<SonarRecord>::empty());
            assert(all == produced);
        } else {
            assert(all.take(produced.len() as int) == produced);
            if let Some(n) = limit {
                assert(produced.len() == n - start.len());
            }
        }
    }
}

} // verus!
