//! Decoding engine for RSD sonar-log files: locates record-start markers in
//! a byte window, decodes the common fixed fields of each record, and keeps
//! scanning past corrupted or unrecognised bytes.
//!
//! Buffered mode scans a whole file as one window
//! ([`GarminRsdParser::parse_buffer`]); streaming mode hands the file to a
//! [`StreamScanner`] one window at a time. The caller does the reading.
mod error;
mod laws;
mod parser;
mod record;
mod scan;
mod stream;
mod text;

pub use error::RsdError;
pub use laws::{
    lemma_close_second_record_skipped, lemma_count_bounds_occurrences, lemma_count_bounds_records, lemma_no_marker_no_records,
    lemma_records_spaced, lemma_records_within_count, lemma_scan_members, lemma_single_record, lemma_truncated_record_zeroed, lemma_window_matches_whole,
};
pub use parser::{
    info_spec, info_text, mb_tenths, mode_for, file_name_fits, names_a_file, last_part, plain_path, trim_trailing, select_mode, GarminRsdParser, ReadMode,
    BUFFERED_LIMIT, WINDOW_SIZE,
};
pub use record::{
    common_record, le32_at, marker_at, optional_fields_absent, read_u32_le, SonarRecord,
    MAGIC_REC_HDR, MAGIC_REC_TRL,
};
pub use scan::{
    decode_at, decode_spec, limit_left, scan_spec, scan_window, take_up_to, within_limit,
    RECORD_STEP,
};
pub use stream::{
    count_markers, marker_count, markers_in, saturate, tail_of, MarkerCounter, StreamScanner,
};
pub use text::{append_decimal, decimal, digit_char};
