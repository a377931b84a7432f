use vstd::prelude::*;

verus! {

/// Little-endian value of the marker that opens every record.
pub const MAGIC_REC_HDR: u32 = 0xB7E9DA86;

/// Little-endian value of the marker reserved for a record's trailer; the
/// decoder does not rely on it yet.
pub const MAGIC_REC_TRL: u32 = 0xC4D2B1A5;

/// The unsigned value of the four bytes of `data` at `i`, least significant first.
pub open spec fn le32_at(data: Seq<u8>, i: int) -> int {
    data[i] as int + 256 * data[i + 1] as int + 65536 * data[i + 2] as int + 16777216
        * data[i + 3] as int
}

/// Whether a record-start marker begins at `i`.
pub open spec fn marker_at(data: Seq<u8>, i: int) -> bool {
    0 <= i && i + 4 <= data.len() && le32_at(data, i) == MAGIC_REC_HDR as int
}

/// Reads the four bytes of `data` at `i` as a little-endian `u32`.
pub fn read_u32_le(data: &[u8], i: usize) -> (r: u32)
    requires
        i + 4 <= data@.len(),
    ensures
        r as int == le32_at(data@, i as int),
{
    let b0 = data[i] as u32;
    let b1 = data[i + 1] as u32;
    let b2 = data[i + 2] as u32;
    let b3 = data[i + 3] as u32;
    b0 + 256 * b1 + 65536 * b2 + 16777216 * b3
}

/// One decoded record.
///
/// The floating-point quantities of a record (position, depth, temperatures,
/// attitude, beam angle, speed and heading) are held as their IEEE-754 bit
/// patterns, `f64` for the first three and `f32` for the others.
#[derive(Clone, Copy, Debug, PartialEq, Eq)]
pub struct SonarRecord {
    /// Absolute position of the record's start marker in the file.
    pub offset: u64,
    pub sequence: u32,
    pub time_ms: u32,
    pub channel_id: Option<u32>,
    pub latitude: Option<u64>,
    pub longitude: Option<u64>,
    pub depth_m: Option<u64>,
    pub water_temp_c: Option<u32>,
    pub water_temp_f: Option<u32>,
    pub pitch_deg: Option<u32>,
    pub roll_deg: Option<u32>,
    pub beam_angle_deg: Option<u32>,
    pub gps_speed_knots: Option<u32>,
    pub gps_heading_deg: Option<u32>,
    pub sample_count: Option<u32>,
    pub sonar_offset: Option<u32>,
    pub sonar_size: Option<u32>,
}

/// A record at `offset` with the given required fields and every optional
/// field absent.
pub open spec fn common_record(offset: u64, sequence: u32, time_ms: u32) -> SonarRecord {
    SonarRecord {
        offset,
        sequence,
        time_ms,
        channel_id: None,
        latitude: None,
        longitude: None,
        depth_m: None,
        water_temp_c: None,
        water_temp_f: None,
        pitch_deg: None,
        roll_deg: None,
        beam_angle_deg: None,
        gps_speed_knots: None,
        gps_heading_deg: None,
        sample_count: None,
        sonar_offset: None,
        sonar_size: None,
    }
}

/// Whether every optional field of `r` is absent.
pub open spec fn optional_fields_absent(r: SonarRecord) -> bool {
    r == common_record(r.offset, r.sequence, r.time_ms)
}

impl SonarRecord {
    /// A record at offset zero with zero required fields and no optional field.
    pub fn new() -> (r: SonarRecord)
        ensures
            r == common_record(0, 0, 0),
    {
        SonarRecord::with_common(0, 0, 0)
    }

    /// A record with the given required fields and no optional field.
    pub fn with_common(offset: u64, sequence: u32, time_ms: u32) -> (r: SonarRecord)
        ensures
            r == common_record(offset, sequence, time_ms),
    {
        SonarRecord {
            offset,
            sequence,
            time_ms,
            channel_id: None,
            latitude: None,
            longitude: None,
            depth_m: None,
            water_temp_c: None,
            water_temp_f: None,
            pitch_deg: None,
            roll_deg: None,
            beam_angle_deg: None,
            gps_speed_knots: None,
            gps_heading_deg: None,
            sample_count: None,
            sonar_offset: None,
            sonar_size: None,
        }
    }
}

} // verus!
