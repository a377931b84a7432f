use rsd_parser::{
    count_markers, info_text, select_mode, GarminRsdParser, MarkerCounter, ReadMode, RsdError,
    SonarRecord, StreamScanner, BUFFERED_LIMIT, MAGIC_REC_HDR, RECORD_STEP,
};

const MARKER: [u8; 4] = [0x86, 0xDA, 0xE9, 0xB7];

fn record_bytes(sequence: u32, time_ms: u32) -> Vec<u8> {
    let mut v = MARKER.to_vec();
    v.extend_from_slice(&sequence.to_le_bytes());
    v.extend_from_slice(&time_ms.to_le_bytes());
    v
}

fn parser() -> GarminRsdParser {
    GarminRsdParser::new("/data/logs/trip.rsd", 4096)
}

fn all_optional_absent(r: &SonarRecord) -> bool {
    r.channel_id.is_none()
        && r.latitude.is_none()
        && r.longitude.is_none()
        && r.depth_m.is_none()
        && r.water_temp_c.is_none()
        && r.water_temp_f.is_none()
        && r.pitch_deg.is_none()
        && r.roll_deg.is_none()
        && r.beam_angle_deg.is_none()
        && r.gps_speed_knots.is_none()
        && r.gps_heading_deg.is_none()
        && r.sample_count.is_none()
        && r.sonar_offset.is_none()
        && r.sonar_size.is_none()
}

#[test]
fn marker_constant_matches_bytes() {
    assert_eq!(u32::from_le_bytes(MARKER), MAGIC_REC_HDR);
    assert_eq!(rsd_parser::read_u32_le(&MARKER, 0), MAGIC_REC_HDR);
    assert_eq!(rsd_parser::read_u32_le(&[1, 2, 3, 4, 5], 1), 0x0504_0302);
}

#[test]
fn no_marker_gives_no_records() {
    let p = parser();
    let data: Vec<u8> = (0..5000u32).map(|i| (i % 251) as u8).collect();
    assert!(p.parse_buffer(&data, None).is_empty());
    assert!(p.parse_buffer(&data, Some(3)).is_empty());
    assert!(p.parse_buffer(&[], None).is_empty());
    assert!(p.parse_buffer(&MARKER[..3], None).is_empty());
}

#[test]
fn single_record_is_decoded() {
    let p = parser();
    let data = record_bytes(42, 123_456);
    let recs = p.parse_buffer(&data, None);
    assert_eq!(recs.len(), 1);
    assert_eq!(recs[0].offset, 0);
    assert_eq!(recs[0].sequence, 42);
    assert_eq!(recs[0].time_ms, 123_456);
    assert!(all_optional_absent(&recs[0]));
    assert_eq!(recs[0], SonarRecord::with_common(0, 42, 123_456));
}

#[test]
fn record_after_garbage_has_its_offset() {
    let p = parser();
    let mut data = vec![0u8; 7];
    data.extend(record_bytes(9, 10));
    let recs = p.parse_buffer(&data, None);
    assert_eq!(recs, vec![SonarRecord::with_common(7, 9, 10)]);
}

#[test]
fn marker_count_is_an_upper_bound() {
    let mut data = Vec::new();
    for k in 0..3u32 {
        data.extend(record_bytes(k, k));
        data.extend(vec![0u8; 5]);
    }
    assert!(count_markers(&data) >= 3);
    assert_eq!(count_markers(&data), 3);
    assert_eq!(count_markers(&[]), 0);
    assert_eq!(count_markers(&MARKER[..3]), 0);
}

#[test]
fn counter_adds_windows() {
    let mut c = MarkerCounter::new();
    assert_eq!(c.count(), 0);
    c.feed(&record_bytes(1, 1));
    c.feed(&[0, 1, 2]);
    c.feed(&MARKER);
    assert_eq!(c.count(), 2);
    // a marker split across two windows is counted once
    c.feed(&MARKER[..2]);
    c.feed(&MARKER[2..]);
    assert_eq!(c.count(), 3);
    // and so is one split across four
    for b in MARKER {
        c.feed(&[b]);
    }
    assert_eq!(c.count(), 4);
    c.feed(&[]);
    assert_eq!(c.count(), 4);
}

#[test]
fn counter_matches_whole_buffer_for_any_split() {
    let mut data = vec![7u8; 3];
    data.extend(record_bytes(1, 2));
    data.extend(MARKER);
    data.extend([0x86, 0xDA]);
    data.extend(record_bytes(3, 4));
    data.extend([1, 2, 3]);
    let whole = count_markers(&data);
    assert_eq!(whole, 3);
    for size in 1..data.len() + 1 {
        let mut c = MarkerCounter::new();
        for w in data.chunks(size) {
            c.feed(w);
        }
        assert_eq!(c.count() as usize, whole, "windows of {}", size);
    }
}

#[test]
fn count_bounds_buffered_records() {
    let p = parser();
    let mut data = MARKER.to_vec();
    let mut c = MarkerCounter::new();
    c.feed(&data[..2]);
    c.feed(&data[2..]);
    assert_eq!(p.parse_buffer(&data, None).len(), 1);
    assert!(c.count() as usize >= 1);
    data.extend(record_bytes(5, 5));
    assert!(count_markers(&data) >= p.parse_buffer(&data, None).len());
}

#[test]
fn streaming_matches_buffered_for_one_window() {
    let p = parser();
    let mut data = vec![0u8; 100];
    data.extend(record_bytes(5, 6));
    data.extend(vec![0xFFu8; 2000]);
    data.extend(record_bytes(7, 8));
    let buffered = p.parse_buffer(&data, None);
    let mut s = StreamScanner::new(None);
    let done = s.feed(&data);
    assert!(!done);
    assert_eq!(s.file_offset(), data.len() as u64);
    assert_eq!(s.into_records(), buffered);
    assert_eq!(buffered.len(), 2);
}

#[test]
fn streaming_offsets_are_absolute() {
    let p = parser();
    let mut data = vec![0u8; 64];
    data.extend(vec![0u8; 30]);
    data.extend(record_bytes(11, 12));
    data.extend(vec![0u8; 10]);
    // windows of 64 bytes: the record lies wholly in the second one
    let mut s = StreamScanner::new(None);
    for w in data.chunks(64) {
        s.feed(w);
    }
    let streamed = s.into_records();
    assert_eq!(streamed, vec![SonarRecord::with_common(94, 11, 12)]);
    assert_eq!(p.parse_buffer(&data, None), streamed);
    assert_eq!(p.parse_record_at(&data, 94).unwrap(), streamed[0]);
}

#[test]
fn mode_follows_size_threshold() {
    assert_eq!(select_mode(0), ReadMode::Buffered);
    assert_eq!(select_mode(BUFFERED_LIMIT - 1), ReadMode::Buffered);
    assert_eq!(select_mode(BUFFERED_LIMIT), ReadMode::Streaming);
    assert_eq!(select_mode(u64::MAX), ReadMode::Streaming);
    assert_eq!(BUFFERED_LIMIT, 500 * 1024 * 1024);
    assert_eq!(GarminRsdParser::new("a", 10).read_mode(), ReadMode::Buffered);
}

#[test]
fn both_modes_agree_across_threshold() {
    let mut data = vec![0u8; 300];
    data.extend(record_bytes(77, 88));
    data.extend(vec![0u8; 40]);
    let under = GarminRsdParser::new("under.rsd", BUFFERED_LIMIT - 1);
    let over = GarminRsdParser::new("over.rsd", BUFFERED_LIMIT);
    assert_eq!(under.read_mode(), ReadMode::Buffered);
    assert_eq!(over.read_mode(), ReadMode::Streaming);
    let buffered = under.parse_buffer(&data, None);
    let mut s = StreamScanner::new(None);
    for w in data.chunks(128) {
        s.feed(w);
    }
    let streamed = s.into_records();
    assert_eq!(buffered, vec![SonarRecord::with_common(300, 77, 88)]);
    assert_eq!(streamed, buffered);
}

#[test]
fn limit_is_respected() {
    let p = parser();
    let mut data = Vec::new();
    for k in 0..5u32 {
        data.extend(record_bytes(k, 100 + k));
        data.extend(vec![0u8; 1100]);
    }
    assert_eq!(p.parse_buffer(&data, None).len(), 5);
    assert_eq!(p.parse_buffer(&data, Some(0)).len(), 0);
    let two = p.parse_buffer(&data, Some(2));
    assert_eq!(two.len(), 2);
    assert_eq!(two[1].sequence, 1);
    assert_eq!(p.parse_buffer(&data, Some(10)).len(), 5);

    let mut s = StreamScanner::new(Some(3));
    let mut stopped = false;
    for w in data.chunks(1500) {
        if s.limit_reached() {
            stopped = true;
            break;
        }
        s.feed(w);
    }
    assert!(stopped);
    let recs = s.into_records();
    assert_eq!(recs.len(), 3);
    assert_eq!(recs[2].time_ms, 102);

    let mut z = StreamScanner::new(Some(0));
    assert!(z.limit_reached());
    assert!(z.feed(&data));
    assert!(z.into_records().is_empty());
}

#[test]
fn truncated_record_keeps_zero_fields_and_ends() {
    let p = parser();
    let mut data = MARKER.to_vec();
    data.extend([1, 2]);
    let recs = p.parse_buffer(&data, None);
    assert_eq!(recs, vec![SonarRecord::with_common(0, 0, 0)]);

    let mut data = MARKER.to_vec();
    data.extend(5u32.to_le_bytes());
    data.extend([9, 9]);
    let recs = p.parse_buffer(&data, None);
    assert_eq!(recs, vec![SonarRecord::with_common(0, 5, 0)]);

    // a marker cut short is not a record and the scan goes on past it
    let mut data = MARKER[..3].to_vec();
    data.extend(record_bytes(3, 4));
    let recs = p.parse_buffer(&data, None);
    assert_eq!(recs, vec![SonarRecord::with_common(3, 3, 4)]);
}

#[test]
fn close_second_record_is_skipped() {
    let p = parser();
    let mut data = record_bytes(1, 10);
    data.extend(vec![0u8; 100]);
    data.extend(record_bytes(2, 20));
    let recs = p.parse_buffer(&data, None);
    assert_eq!(recs.len(), 1);
    assert_eq!(recs[0].sequence, 1);

    // at exactly the heuristic step the second one is found
    let mut data = record_bytes(1, 10);
    data.resize(RECORD_STEP, 0);
    data.extend(record_bytes(2, 20));
    let recs = p.parse_buffer(&data, None);
    assert_eq!(recs.len(), 2);
    assert_eq!(recs[1], SonarRecord::with_common(1024, 2, 20));
}

#[test]
fn parse_record_at_errors() {
    let p = parser();
    let data = record_bytes(1, 2);
    assert!(matches!(p.parse_record_at(&data, 9), Err(RsdError::CorruptedRecord)));
    assert!(matches!(p.parse_record_at(&data, 100), Err(RsdError::CorruptedRecord)));
    match p.parse_record_at(&data, 1) {
        Err(RsdError::InvalidFormat { offset, reason }) => {
            assert_eq!(offset, 1);
            assert_eq!(reason, "Invalid magic byte");
        }
        _ => panic!("expected InvalidFormat"),
    }
    assert_eq!(p.parse_record_at(&data, 0).unwrap(), SonarRecord::with_common(0, 1, 2));
}

#[test]
fn new_record_is_blank() {
    assert_eq!(SonarRecord::new(), SonarRecord::with_common(0, 0, 0));
    assert!(all_optional_absent(&SonarRecord::new()));
}

#[test]
fn info_names_file_and_size() {
    let p = GarminRsdParser::new("/data/logs/trip.rsd", 1048576);
    assert_eq!(p.file_size(), 1048576);
    assert_eq!(p.file_path(), "/data/logs/trip.rsd");
    assert_eq!(p.get_info(), "RSD File: trip.rsd\nSize: 1048576 bytes (1.0 MB)");
    let q = GarminRsdParser::new("/", 0);
    assert_eq!(q.get_info(), "RSD File: \nSize: 0 bytes (0.0 MB)");
    let r = GarminRsdParser::new("logs/day1/./", 3);
    assert_eq!(r.get_info(), "RSD File: day1\nSize: 3 bytes (0.0 MB)");
    let o = GarminRsdParser::new("/data/logs/trip.RSD", 1572864);
    assert_eq!(o.get_info(), "RSD File: trip.RSD\nSize: 1572864 bytes (1.5 MB)");
    let t = GarminRsdParser::new("track.rsd", 5);
    assert_eq!(t.get_info(), "RSD File: track.rsd\nSize: 5 bytes (0.0 MB)");
    let u = GarminRsdParser::new("logs/..", 5);
    assert_eq!(u.get_info(), "RSD File: \nSize: 5 bytes (0.0 MB)");
}

#[test]
fn info_megabytes_round_to_tenths() {
    assert_eq!(info_text("x", 262144), "RSD File: x\nSize: 262144 bytes (0.2 MB)");
    assert_eq!(info_text("x", 786432), "RSD File: x\nSize: 786432 bytes (0.8 MB)");
    assert_eq!(info_text("x", 1572864), "RSD File: x\nSize: 1572864 bytes (1.5 MB)");
    assert_eq!(info_text("x", 12345678), "RSD File: x\nSize: 12345678 bytes (11.8 MB)");
    for size in [0u64, 1, 262144, 786432, 99_999_999, 524_288_000, 1 << 40] {
        let expected = format!("{:.1}", size as f64 / 1024.0 / 1024.0);
        assert!(info_text("x", size).ends_with(&format!("({} MB)", expected)));
    }
    let big = info_text("x", u64::MAX);
    assert!(big.starts_with("RSD File: x\nSize: 18446744073709551615 bytes ("));
}
