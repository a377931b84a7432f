use vstd::prelude::*;
use crate::record::{marker_at, read_u32_le, SonarRecord, MAGIC_REC_HDR};
use crate::scan::{limit_left, scan_spec, scan_window, take_up_to, within_limit};

verus! {

/// Decoding state of streaming mode: the records found so far, the absolute
/// position of the next window's first byte, and the caller's record limit.
/// The byte source hands the windows in one by one through [`StreamScanner::feed`].
pub struct StreamScanner {
    records: Vec<SonarRecord>,
    file_offset: u64,
    limit: Option<u32>,
}

impl StreamScanner {
    /// The records found so far, in file order.
    pub closed spec fn found(&self) -> Seq<SonarRecord> {
        self.records@
    }

    /// Absolute position of the first byte of the next window.
    pub closed spec fn next_offset(&self) -> nat {
        self.file_offset as nat
    }

    /// The record limit that the scanner was made with.
    pub closed spec fn record_limit(&self) -> Option<u32> {
        self.limit
    }

    /// The found records never exceed the limit.
    pub open spec fn wf(&self) -> bool {
        within_limit(self.record_limit(), self.found().len())
    }

    /// Whether the limit has been reached, after which windows add nothing.
    pub open spec fn done_spec(&self) -> bool {
        self.record_limit() matches Some(n) && self.found().len() >= n
    }

    /// A scanner at the start of a file, with no record found yet.
    pub fn new(limit: Option<u32>) -> (r: StreamScanner)
        ensures
            r.wf(),
            r.found() == Seq::<SonarRecord>::empty(),
            r.next_offset() == 0,
            r.record_limit() == limit,
    {
        StreamScanner { records: Vec::new(), file_offset: 0, limit }
    }

    /// Whether the record limit has been reached.
    pub fn limit_reached(&self) -> (r: bool)
        requires
            self.wf(),
        ensures
            r == self.done_spec(),
    {
        match self.limit {
            Some(n) => self.records.len() >= n as usize,
            None => false,
        }
    }

    /// Absolute position of the first byte of the next window.
    pub fn file_offset(&self) -> (r: u64)
        ensures
            r == self.next_offset(),
    {
        self.file_offset
    }

    /// Scans the next window of the file, whose first byte lies at
    /// `next_offset()`, and returns whether the limit has been reached.
    pub fn feed(&mut self, window: &[u8]) -> (done: bool)
        requires
            old(self).wf(),
            old(self).next_offset() + window@.len() <= u64::MAX,
        ensures
            final(self).wf(),
            final(self).found() == old(self).found() + take_up_to(
                scan_spec(window@, 0, old(self).next_offset() as int),
                limit_left(old(self).record_limit(), old(self).found().len()),
            ),
            final(self).next_offset() == old(self).next_offset() + window@.len(),
            final(self).record_limit() == old(self).record_limit(),
            done == final(self).done_spec(),
    {
        scan_window(window, self.file_offset, self.limit, &mut self.records);
        self.file_offset = self.file_offset + window.len() as u64;
        self.limit_reached()
    }

    /// The records found, in file order.
    pub fn into_records(self) -> (r: Vec<SonarRecord>)
        ensures
            r@ == self.found(),
    {
        self.records
    }
}

/// Number of positions `p` with `lo <= p < hi` where a marker begins.
pub open spec fn markers_in(data: Seq<u8>, lo: int, hi: int) -> nat
    decreases hi - lo,
{
    if lo >= hi {
        0
    } else {
        (if marker_at(data, lo) { 1nat } else { 0nat }) + markers_in(data, lo + 1, hi)
    }
}

/// Number of positions of `data` where a marker begins, overlapping
/// occurrences included.
pub open spec fn marker_count(data: Seq<u8>) -> nat {
    markers_in(data, 0, data.len() as int)
}

/// `n`, or `u32::MAX` when `n` is larger.
pub open spec fn saturate(n: nat) -> nat {
    if n <= u32::MAX { n } else { u32::MAX as nat }
}

/// The last three bytes of `s`, or all of it when it is shorter.
pub open spec fn tail_of(s: Seq<u8>) -> Seq<u8> {
    s.subrange(if s.len() >= 3 { s.len() - 3 } else { 0 }, s.len() as int)
}

pub(crate) proof fn lemma_markers_split(data: Seq<u8>, lo: int, mid: int, hi: int)
    requires
        lo <= mid <= hi,
    ensures
        markers_in(data, lo, hi) == markers_in(data, lo, mid) + markers_in(data, mid, hi),
    decreases mid - lo,
{
    if lo < mid {
        lemma_markers_split(data, lo + 1, mid, hi);
    }
}

proof fn lemma_markers_shift(d1: Seq<u8>, d2: Seq<u8>, lo: int, hi: int, shift: int)
    requires
        forall|p: int| lo <= p < hi ==> marker_at(d1, p) == marker_at(d2, p + shift),
    ensures
        markers_in(d1, lo, hi) == markers_in(d2, lo + shift, hi + shift),
    decreases hi - lo,
{
    if lo < hi {
        lemma_markers_shift(d1, d2, lo + 1, hi, shift);
    }
}

proof fn lemma_markers_none(data: Seq<u8>, lo: int, hi: int)
    requires
        forall|p: int| lo <= p < hi ==> !marker_at(data, p),
    ensures
        markers_in(data, lo, hi) == 0,
    decreases hi - lo,
{
    if lo < hi {
        lemma_markers_none(data, lo + 1, hi);
    }
}

/// The markers of `a + w` are those of `a`, those of `w`, and those that
/// begin in the last three bytes of `a` and end in `w`.
proof fn lemma_count_concat(a: Seq<u8>, w: Seq<u8>)
    ensures
        marker_count(a + w) == marker_count(a) + markers_in(
            a + w,
            if a.len() >= 3 { a.len() - 3 } else { 0 },
            a.len() as int,
        ) + marker_count(w),
{
    let s = a + w;
    let n = a.len() as int;
    let t = if a.len() >= 3 { a.len() - 3 } else { 0 };
    lemma_markers_split(s, 0, t, s.len() as int);
    lemma_markers_split(s, t, n, s.len() as int);
    assert forall|p: int| 0 <= p < t implies marker_at(s, p) == marker_at(a, p + 0) by {
        assert(s[p] == a[p] && s[p + 1] == a[p + 1] && s[p + 2] == a[p + 2] && s[p + 3] == a[p
            + 3]);
    }
    lemma_markers_shift(s, a, 0, t, 0);
    lemma_markers_none(a, t, n);
    lemma_markers_split(a, 0, t, n);
    assert forall|p: int| 0 <= p < w.len() implies marker_at(w, p) == marker_at(s, p + n) by {
        if p + 4 <= w.len() {
            assert(s[p + n] == w[p] && s[p + n + 1] == w[p + 1] && s[p + n + 2] == w[p + 2]
                && s[p + n + 3] == w[p + 3]);
        }
    }
    lemma_markers_shift(w, s, 0, w.len() as int, n);
}

/// Counts the positions `p` with `lo <= p < hi` where a marker begins.
fn count_markers_in(data: &[u8], lo: usize, hi: usize) -> (r: usize)
    requires
        lo <= hi <= data@.len(),
    ensures
        r == markers_in(data@, lo as int, hi as int),
        r <= hi - lo,
{
    let len = data.len();
    let mut pos: usize = lo;
    let mut count: usize = 0;
    while pos < hi
        invariant
            len == data@.len(),
            lo <= pos <= hi <= len,
            count <= pos - lo,
            count + markers_in(data@, pos as int, hi as int) == markers_in(
                data@,
                lo as int,
                hi as int,
            ),
        decreases hi - pos,
    {
        if len - pos >= 4 && read_u32_le(data, pos) == MAGIC_REC_HDR {
            count = count + 1;
        }
        pos = pos + 1;
    }
    count
}

/// Counts the positions of `data` where a marker begins.
pub fn count_markers(data: &[u8]) -> (r: usize)
    ensures
        r == marker_count(data@),
{
    count_markers_in(data, 0, data.len())
}

/// Appends `src[lo..hi]` to `dst`.
fn append_range(dst: &mut Vec<u8>, src: &[u8], lo: usize, hi: usize)
    requires
        lo <= hi <= src@.len(),
    ensures
        final(dst)@ == old(dst)@ + src@.subrange(lo as int, hi as int),
{
    let ghost start = dst@;
    let mut i: usize = lo;
    while i < hi
        invariant
            lo <= i <= hi <= src@.len(),
            dst@ == start + src@.subrange(lo as int, i as int),
        decreases hi - i,
    {
        dst.push(src[i]);
        assert(src@.subrange(lo as int, i + 1) == src@.subrange(lo as int, i as int).push(src@[i as int]));
        i = i + 1;
    }
}

/// Running estimate of a file's record count: the markers in all the bytes
/// fed so far, overlapping ones and ones split across windows included, held
/// at `u32::MAX` at most. The last three bytes fed are kept so that a marker
/// that begins in one window and ends in the next is counted.
pub struct MarkerCounter {
    count: u32,
    tail: Vec<u8>,
    seen: Ghost<Seq<u8>>,
}

impl MarkerCounter {
    #[verifier::type_invariant]
    spec fn inv(&self) -> bool {
        &&& self.tail@ == tail_of(self.seen@)
        &&& self.count as nat == saturate(marker_count(self.seen@))
    }

    /// The bytes fed so far, in order.
    pub closed spec fn seen(&self) -> Seq<u8> {
        self.seen@
    }

    /// The running count.
    pub closed spec fn total(&self) -> nat {
        self.count as nat
    }

    /// A counter that has seen nothing.
    pub fn new() -> (r: MarkerCounter)
        ensures
            r.seen() == Seq::<u8>::empty(),
            r.total() == 0,
    {
        let tail: Vec<u8> = Vec::new();
        assert(tail_of(Seq::<u8>::empty()) =~= tail@);
        assert(marker_count(Seq::<u8>::empty()) == 0);
        MarkerCounter { count: 0, tail, seen: Ghost(Seq::empty()) }
    }

    /// Adds the markers that the next window brings, including one that
    /// began in the bytes before it.
    pub fn feed(&mut self, window: &[u8])
        ensures
            final(self).seen() == old(self).seen() + window@,
            final(self).total() == saturate(marker_count(final(self).seen())),
    {
        proof {
            use_type_invariant(&*self);
        }
        let ghost a = self.seen@;
        let ghost s = a + window@;
        let wlen = window.len();
        let tlen = self.tail.len();
        let take: usize = if wlen < 3 { wlen } else { 3 };
        let mut joint: Vec<u8> = Vec::new();
        append_range(&mut joint, self.tail.as_slice(), 0, tlen);
        append_range(&mut joint, window, 0, take);
        let ghost t = if a.len() >= 3 { a.len() - 3 } else { 0 };
        proof {
            assert(self.tail@.subrange(0, tlen as int) =~= self.tail@);
            assert forall|q: int| 0 <= q < tlen implies marker_at(joint@, q) == marker_at(s, q + t) by {
                assert forall|j: int| 0 <= j < joint@.len() implies joint@[j] == s[j + t] by {
                    if j < tlen {
                        assert(self.tail@[j] == a[j + t]);
                    }
                }
            }
            lemma_markers_shift(joint@, s, 0, tlen as int, t);
            lemma_count_concat(a, window@);
        }
        let junction = count_markers_in(joint.as_slice(), 0, tlen);
        let inner = count_markers(window);
        let sum: u128 = self.count as u128 + junction as u128 + inner as u128;
        let count: u32 = if sum > u32::MAX as u128 { u32::MAX } else { sum as u32 };
        let mut tail: Vec<u8> = Vec::new();
        if wlen >= 3 {
            append_range(&mut tail, window, wlen - 3, wlen);
            assert(tail@ =~= tail_of(s));
        } else {
            let jlen = joint.len();
            let from: usize = if jlen >= 3 { jlen - 3 } else { 0 };
            append_range(&mut tail, joint.as_slice(), from, jlen);
            assert(joint@ =~= tail_of(a) + window@);
            assert(tail@ =~= tail_of(s));
        }
        *self = MarkerCounter { count, tail, seen: Ghost(s) };
    }

    /// The running count.
    pub fn count(&self) -> (r: u32)
        ensures
            r == saturate(marker_count(self.seen())),
    {
        proof {
            use_type_invariant(self);
        }
        self.count
    }
}

} // verus!
