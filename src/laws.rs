use vstd::prelude::*;
use crate::record::{common_record, le32_at, marker_at, optional_fields_absent, SonarRecord};
use crate::scan::{decode_spec, limit_left, scan_spec, take_up_to, RECORD_STEP};
use crate::stream::{lemma_markers_split, marker_count, markers_in, saturate};

verus! {

/// With no marker from `pos` on, a scan from `pos` finds nothing.
proof fn lemma_scan_without_markers(data: Seq<u8>, pos: int, base: int)
    requires
        forall|i: int| pos <= i ==> !marker_at(data, i),
    ensures
        scan_spec(data, pos, base) == Seq::<SonarRecord>::empty(),
    decreases data.len() + RECORD_STEP - pos,
{
    if pos >= 0 && pos + 4 <= data.len() {
        lemma_scan_without_markers(data, pos + 1, base);
    }
}

/// A buffer without any record-start marker yields no record, whatever the limit.
pub proof fn lemma_no_marker_no_records(data: Seq<u8>, limit: Option<u32>)
    requires
        forall|i: int| !marker_at(data, i),
    ensures
        take_up_to(scan_spec(data, 0, 0), limit_left(limit, 0)) == Seq::<SonarRecord>::empty(),
{
    lemma_scan_without_markers(data, 0, 0);
}

/// A buffer that opens with one whole record (marker, sequence number, time)
/// and holds no further marker at or past the heuristic step yields exactly
/// that record, at offset zero, with every optional field absent.
pub proof fn lemma_single_record(data: Seq<u8>)
    requires
        data.len() >= 12,
        marker_at(data, 0),
        forall|i: int| RECORD_STEP <= i ==> !marker_at(data, i),
    ensures
        scan_spec(data, 0, 0) == seq![
            common_record(0, le32_at(data, 4) as u32, le32_at(data, 8) as u32),
        ],
        optional_fields_absent(scan_spec(data, 0, 0)[0]),
        scan_spec(data, 0, 0)[0].offset == 0,
{
    lemma_scan_without_markers(data, RECORD_STEP as int, 0);
    assert(scan_spec(data, 0, 0) == seq![decode_spec(data, 0, 0)] + Seq::<SonarRecord>::empty());
}

/// Every record of a scan from `pos` was decoded from a marker at or after
/// `pos`, at the window position that its offset gives.
pub proof fn lemma_scan_members(data: Seq<u8>, pos: int, base: int)
    requires
        0 <= base,
        base + data.len() <= u64::MAX,
    ensures
        forall|k: int|
            0 <= k < scan_spec(data, pos, base).len() ==> {
                let r = #[trigger] scan_spec(data, pos, base)[k];
                &&& pos <= r.offset - base
                &&& marker_at(data, r.offset - base)
                &&& r == decode_spec(data, r.offset - base, base)
            },
    decreases data.len() + RECORD_STEP - pos,
{
    if pos < 0 || pos + 4 > data.len() {
    } else if marker_at(data, pos) {
        lemma_scan_members(data, pos + RECORD_STEP, base);
    } else {
        lemma_scan_members(data, pos + 1, base);
    }
}

/// Successive records of a scan lie at least the heuristic step apart, so a
/// second record that begins less than that step after a decoded one is
/// never reported.
pub proof fn lemma_records_spaced(data: Seq<u8>, pos: int, base: int)
    requires
        0 <= base,
        base + data.len() <= u64::MAX,
    ensures
        forall|k: int|
            0 <= k && k + 1 < scan_spec(data, pos, base).len() ==> scan_spec(data, pos, base)[k
                + 1].offset >= #[trigger] scan_spec(data, pos, base)[k].offset + RECORD_STEP,
    decreases data.len() + RECORD_STEP - pos,
{
    if pos < 0 || pos + 4 > data.len() {
    } else if marker_at(data, pos) {
        let rest = scan_spec(data, pos + RECORD_STEP, base);
        lemma_records_spaced(data, pos + RECORD_STEP, base);
        lemma_scan_members(data, pos + RECORD_STEP, base);
        let s = scan_spec(data, pos, base);
        assert forall|k: int| 0 <= k && k + 1 < s.len() implies s[k + 1].offset >= #[trigger] s[k].offset
            + RECORD_STEP by {
            if k == 0 {
                assert(s[1] == rest[0]);
            } else {
                assert(s[k] == rest[k - 1]);
                assert(s[k + 1] == rest[k]);
            }
        }
    } else {
        lemma_records_spaced(data, pos + 1, base);
    }
}

/// When a buffer opens with a record, a second marker less than the
/// heuristic step after it gives no record.
pub proof fn lemma_close_second_record_skipped(data: Seq<u8>, j: int)
    requires
        marker_at(data, 0),
        0 < j < RECORD_STEP,
        data.len() <= u64::MAX,
    ensures
        forall|k: int|
            0 <= k < scan_spec(data, 0, 0).len() ==> #[trigger] scan_spec(data, 0, 0)[k].offset
                != j,
{
    let s = scan_spec(data, 0, 0);
    let rest = scan_spec(data, RECORD_STEP as int, 0);
    lemma_scan_members(data, RECORD_STEP as int, 0);
    assert forall|k: int| 0 <= k < s.len() implies #[trigger] s[k].offset != j by {
        if k > 0 {
            assert(s[k] == rest[k - 1]);
        }
    }
}

/// A record that streaming mode decodes from a window of the file is the
/// record that buffered mode decodes at the same absolute offset, provided
/// its marker, sequence number and time all lie inside the window, or the
/// window runs to the end of the file.
pub proof fn lemma_window_matches_whole(data: Seq<u8>, start: int, len: int)
    requires
        0 <= start,
        0 <= len,
        start + len <= data.len(),
        data.len() <= u64::MAX,
    ensures
        forall|k: int|
            0 <= k < scan_spec(data.subrange(start, start + len), 0, start).len() ==> {
                let r = #[trigger] scan_spec(data.subrange(start, start + len), 0, start)[k];
                &&& marker_at(data, r.offset as int)
                &&& (r.offset + 12 <= start + len || start + len == data.len() ==> r == decode_spec(data, r.offset as int, 0))
            },
{
    let w = data.subrange(start, start + len);
    lemma_scan_members(w, 0, start);
    assert forall|k: int| 0 <= k < scan_spec(w, 0, start).len() implies {
        let r = #[trigger] scan_spec(w, 0, start)[k];
        &&& marker_at(data, r.offset as int)
        &&& (r.offset + 12 <= start + len || start + len == data.len() ==> r == decode_spec(data, r.offset as int, 0))
    } by {
        let r = scan_spec(w, 0, start)[k];
        let i = r.offset - start;
        assert(w[i] == data[r.offset as int]);
        assert(w[i + 1] == data[r.offset + 1]);
        assert(w[i + 2] == data[r.offset + 2]);
        assert(w[i + 3] == data[r.offset + 3]);
        if i + 8 <= w.len() {
            assert(w[i + 4] == data[r.offset + 4]);
            assert(w[i + 5] == data[r.offset + 5]);
            assert(w[i + 6] == data[r.offset + 6]);
            assert(w[i + 7] == data[r.offset + 7]);
        }
        if i + 12 <= w.len() {
            assert(w[i + 8] == data[r.offset + 8]);
            assert(w[i + 9] == data[r.offset + 9]);
            assert(w[i + 10] == data[r.offset + 10]);
            assert(w[i + 11] == data[r.offset + 11]);
        }
    }
}

/// A record whose marker is followed by fewer than eight bytes of its window
/// is still reported, with its sequence number and time left at zero, and
/// one followed by fewer than twelve keeps a zero time.
pub proof fn lemma_truncated_record_zeroed(data: Seq<u8>, base: int)
    requires
        0 <= base,
        base + data.len() <= u64::MAX,
    ensures
        forall|k: int|
            0 <= k < scan_spec(data, 0, base).len() ==> {
                let r = #[trigger] scan_spec(data, 0, base)[k];
                &&& (r.offset - base + 8 > data.len() ==> r.sequence == 0 && r.time_ms == 0)
                &&& (r.offset - base + 12 > data.len() ==> r.time_ms == 0)
            },
{
    lemma_scan_members(data, 0, base);
}

/// Distinct marker positions at or after `pos` number no more than the
/// markers counted from `pos`.
proof fn lemma_count_from_bounds(data: Seq<u8>, pos: int, positions: Set<int>)
    requires
        0 <= pos,
        positions.finite(),
        forall|p: int| positions.contains(p) ==> pos <= p && marker_at(data, p),
    ensures
        markers_in(data, pos, data.len() as int) >= positions.len(),
    decreases data.len() + 1 - pos,
{
    if pos + 4 > data.len() {
        assert(positions =~= Set::<int>::empty());
    } else if positions.contains(pos) {
        let rest = positions.remove(pos);
        lemma_count_from_bounds(data, pos + 1, rest);
    } else {
        lemma_count_from_bounds(data, pos + 1, positions);
    }
}

/// The marker count of a buffer is at least the number of distinct positions
/// at which a marker is known to begin; it is an upper bound on the records
/// that those markers open.
pub proof fn lemma_count_bounds_occurrences(data: Seq<u8>, positions: Set<int>)
    requires
        positions.finite(),
        forall|p: int| positions.contains(p) ==> marker_at(data, p),
    ensures
        marker_count(data) >= positions.len(),
{
    lemma_count_from_bounds(data, 0, positions);
}

/// A scan from `pos` finds no more records than there are markers from
/// `pos` on.
proof fn lemma_scan_within_markers(data: Seq<u8>, pos: int, base: int)
    requires
        0 <= pos,
    ensures
        scan_spec(data, pos, base).len() <= markers_in(data, pos, data.len() as int),
    decreases data.len() + RECORD_STEP - pos,
{
    if pos + 4 > data.len() {
    } else if marker_at(data, pos) {
        let next = pos + RECORD_STEP;
        lemma_scan_within_markers(data, next, base);
        if next <= data.len() {
            lemma_markers_split(data, pos + 1, next, data.len() as int);
        }
    } else {
        lemma_scan_within_markers(data, pos + 1, base);
    }
}

/// The marker count of a file is an upper bound on the records that a
/// buffered parse of it returns, whatever the limit.
pub proof fn lemma_records_within_count(data: Seq<u8>, limit: Option<u32>)
    ensures
        take_up_to(scan_spec(data, 0, 0), limit_left(limit, 0)).len() <= marker_count(data),
{
    lemma_scan_within_markers(data, 0, 0);
}

proof fn lemma_markers_at_most_span(data: Seq<u8>, lo: int, hi: int)
    ensures
        lo <= hi ==> markers_in(data, lo, hi) <= hi - lo,
    decreases hi - lo,
{
    if lo < hi {
        lemma_markers_at_most_span(data, lo + 1, hi);
    }
}

/// For a buffer of at most `u32::MAX` bytes, such as any file that buffered
/// mode reads, the record count that a counter reports after being fed the
/// buffer is at least the number of records that a parse of it returns.
pub proof fn lemma_count_bounds_records(data: Seq<u8>, limit: Option<u32>)
    requires
        data.len() <= u32::MAX,
    ensures
        saturate(marker_count(data)) >= take_up_to(scan_spec(data, 0, 0), limit_left(limit, 0)).len(),
{
    lemma_records_within_count(data, limit);
    lemma_markers_at_most_span(data, 0, data.len() as int);
}

} // verus!
