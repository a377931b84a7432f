use vstd::prelude::*;
use crate::error::RsdError;
use crate::record::{marker_at, read_u32_le, SonarRecord, MAGIC_REC_HDR};
use crate::scan::{decode_at, decode_spec, limit_left, scan_spec, scan_window, take_up_to};
use crate::text::{append_decimal, decimal};

verus! {

/// Files of at least this many bytes are decoded through a rolling window
/// instead of being read into memory whole.
pub const BUFFERED_LIMIT: u64 = 500 * 1024 * 1024;

/// Size of the rolling window of streaming mode.
pub const WINDOW_SIZE: usize = 1024 * 1024;

/// How the bytes of a file reach the decoder.
#[derive(Clone, Copy, Debug, PartialEq, Eq)]
pub enum ReadMode {
    /// The whole file is read into memory and scanned as one window.
    Buffered,
    /// The file is read in windows of `WINDOW_SIZE` bytes, scanned one by one.
    Streaming,
}

/// The mode for a file of `total_size` bytes.
pub open spec fn mode_for(total_size: nat) -> ReadMode {
    if total_size < BUFFERED_LIMIT { ReadMode::Buffered } else { ReadMode::Streaming }
}

/// Megabytes (of 2^20 bytes) in `size`, in tenths, rounded to the nearest
/// tenth with ties to even.
pub open spec fn mb_tenths(size: nat) -> nat {
    let q = size * 10 / 1048576;
    let r = size * 10 % 1048576;
    if r > 524288 || (r == 524288 && q % 2 == 1) { q + 1 } else { q }
}

/// The summary line of a file named `name` of `size` bytes.
pub open spec fn info_spec(name: Seq<char>, size: nat) -> Seq<char> {
    "RSD File: "@ + name + "\nSize: "@ + decimal(size) + " bytes ("@ + decimal(
        mb_tenths(size) / 10,
    ) + "."@ + decimal(mb_tenths(size) % 10) + " MB)"@
}

/// `p` without its trailing `/` separators and `/.` components.
pub open spec fn trim_trailing(p: Seq<char>) -> Seq<char>
    decreases p.len(),
{
    if p.len() > 0 && p.last() == '/' {
        trim_trailing(p.drop_last())
    } else if p.len() >= 2 && p.last() == '.' && p[p.len() - 2] == '/' {
        trim_trailing(p.subrange(0, p.len() - 2))
    } else {
        p
    }
}

/// The characters of `p` after its last `/`, or all of `p` when it has none.
pub open spec fn last_part(p: Seq<char>) -> Seq<char>
    decreases p.len(),
{
    if p.len() == 0 || p.last() == '/' {
        Seq::empty()
    } else {
        last_part(p.drop_last()).push(p.last())
    }
}

/// Whether `p` holds no `\` and no `:`, so that `/` is its only separator
/// and it has no drive or share prefix on any platform.
pub open spec fn plain_path(p: Seq<char>) -> bool {
    !p.contains('\\') && !p.contains(':')
}

/// What holds of a file name taken from `path`: it is non-empty, and for a
/// plain path it holds no `/` and is the last part once trailing separators
/// and `.` components are gone.
pub open spec fn file_name_fits(name: Seq<char>, path: Seq<char>) -> bool {
    &&& name.len() > 0
    &&& plain_path(path) ==> !name.contains('/') && name == last_part(trim_trailing(path))
}

/// Whether `path` is plain, does not open with `//` (a network share on
/// some platforms), and ends, past trailing separators and `.` components,
/// in a part that is a name: neither empty, `.` nor `..`.
pub open spec fn names_a_file(path: Seq<char>) -> bool {
    let part = last_part(trim_trailing(path));
    &&& plain_path(path)
    &&& !(path.len() >= 2 && path[0] == '/' && path[1] == '/')
    &&& part.len() > 0
    &&& part != seq!['.']
    &&& part != seq!['.', '.']
}

/// A file's path and size, and the decoding operations on its bytes.
pub struct GarminRsdParser {
    file_path: String,
    file_size: u64,
}

impl GarminRsdParser {
    /// The path that the parser was made with.
    pub closed spec fn path(&self) -> Seq<char> {
        self.file_path@
    }

    /// The size in bytes that the parser was made with.
    pub closed spec fn size(&self) -> nat {
        self.file_size as nat
    }

    /// A parser of the file at `file_path`, whose length is `file_size`.
    pub fn new(file_path: &str, file_size: u64) -> (r: GarminRsdParser)
        ensures
            r.path() == file_path@,
            r.size() == file_size,
    {
        GarminRsdParser { file_path: String::from_str(file_path), file_size }
    }

    /// The file's length in bytes.
    pub fn file_size(&self) -> (r: u64)
        ensures
            r == self.size(),
    {
        self.file_size
    }

    /// The file's path.
    pub fn file_path(&self) -> (r: &str)
        ensures
            r@ == self.path(),
    {
        self.file_path.as_str()
    }

    /// Whether the file is decoded from memory or through a rolling window.
    pub fn read_mode(&self) -> (r: ReadMode)
        ensures
            r == mode_for(self.size()),
    {
        select_mode(self.file_size)
    }

    /// A summary of the file: its name and its size in bytes and in megabytes.
    pub fn get_info(&self) -> (r: String)
        ensures
            exists|name: Seq<char>|
                r@ == #[trigger] info_spec(name, self.size()) && (name.len() == 0
                    || file_name_fits(name, self.path())),
            names_a_file(self.path()) ==> r@ == info_spec(
                last_part(trim_trailing(self.path())),
                self.size(),
            ),
    {
        let path = self.file_path.as_str();
        let found = file_name_of(path);
        let name = match found {
            Some(n) => n,
            None => String::new(),
        };
        let r = info_text(name.as_str(), self.file_size);
        assert(r@ == info_spec(name@, self.size()));
        r
    }

    /// Decodes the record whose marker is at `start`.
    ///
    /// Fails with `CorruptedRecord` when fewer than four bytes remain at
    /// `start`, and with `InvalidFormat` when they are not the marker.
    pub fn parse_record_at(&self, buffer: &[u8], start: usize) -> (r: Result<
        SonarRecord,
        RsdError,
    >)
        ensures
            start + 4 > buffer@.len() <==> r matches Err(RsdError::CorruptedRecord),
            start + 4 <= buffer@.len() && !marker_at(buffer@, start as int) <==> r matches Err(
                RsdError::InvalidFormat { .. },
            ),
            r matches Err(RsdError::InvalidFormat { offset, reason }) ==> offset == start
                && reason@ == "Invalid magic byte"@,
            marker_at(buffer@, start as int) <==> r is Ok,
            r matches Ok(rec) ==> rec == decode_spec(buffer@, start as int, 0),
    {
        if start > buffer.len() || buffer.len() - start < 4 {
            return Err(RsdError::CorruptedRecord);
        }
        if read_u32_le(buffer, start) != MAGIC_REC_HDR {
            return Err(
                RsdError::InvalidFormat {
                    offset: start as u64,
                    reason: String::from_str("Invalid magic byte"),
                },
            );
        }
        Ok(decode_at(buffer, start, 0))
    }

    /// Decodes every record of a file held whole in memory, up to `limit`
    /// records.
    pub fn parse_buffer(&self, buffer: &[u8], limit: Option<u32>) -> (r: Vec<SonarRecord>)
        ensures
            r@ == take_up_to(scan_spec(buffer@, 0, 0), limit_left(limit, 0)),
            limit matches Some(n) ==> r@.len() <= n,
    {
        let mut records: Vec<SonarRecord> = Vec::new();
        let len = buffer.len();
        assert(len <= u64::MAX);
        scan_window(buffer, 0, limit, &mut records);
        records
    }
}

/// The mode for a file of `total_size` bytes.
pub fn select_mode(total_size: u64) -> (r: ReadMode)
    ensures
        r == mode_for(total_size as nat),
{
    if total_size < BUFFERED_LIMIT {
        ReadMode::Buffered
    } else {
        ReadMode::Streaming
    }
}

/// The summary line of a file named `name` of `file_size` bytes.
pub fn info_text(name: &str, file_size: u64) -> (r: String)
    ensures
        r@ == info_spec(name@, file_size as nat),
{
    let wide = file_size as u128 * 10;
    let q = wide / 1048576;
    let rem = wide % 1048576;
    let tenths: u128 = if rem > 524288 || (rem == 524288 && q % 2 == 1) {
        q + 1
    } else {
        q
    };
    let mut s = String::from_str("RSD File: ");
    s.append(name);
    s.append("\nSize: ");
    append_decimal(&mut s, file_size);
    s.append(" bytes (");
    append_decimal(&mut s, (tenths / 10) as u64);
    s.append(".");
    append_decimal(&mut s, (tenths % 10) as u64);
    s.append(" MB)");
    s
}

/// Relies on `std::path::Path::file_name`: the final component of the
/// path, if there is one and it is a normal name (not `..`). Repeated and
/// trailing separators and `.` components are not components. A path with
/// no backslash and no `:` that does not open with `//` has no prefix on
/// any platform, and `/` is then its only separator.
#[verifier::external_body]
fn file_name_of(path: &str) -> (r: Option<String>)
    ensures
        r matches Some(n) ==> file_name_fits(n@, path@),
        names_a_file(path@) ==> r is Some,
{
    match std::path::Path::new(path).file_name() {
        Some(n) => Some(n.to_string_lossy().into_owned()),
        None => None,
    }
}

} // verus!
