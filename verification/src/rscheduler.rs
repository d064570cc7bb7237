//! Scheduler files: the fixed header and the 48-byte track records, with
//! the bit-packed per-track fields.

use vstd::prelude::*;

verus! {

use vstd::bytes::{spec_u16_from_le_bytes, spec_u32_from_le_bytes, spec_u64_from_le_bytes};
use crate::reader::{read_u16_at, read_u32_at, read_u64_at};

/// `"SDL\0"` read little-endian as a `u32`.
pub const SDL_MAGIC: u32 = 0x004c_4453;

/// The only supported scheduler format version.
pub const SDL_VERSION: u16 = 0x16;

/// The 32-byte scheduler file header.
#[derive(Clone, Copy, PartialEq, Eq, Structural, Debug)]
pub struct SchedulerHeader {
    pub magic: u32,
    pub version: u16,
    pub track_num: u16,
    pub crc: u32,
    pub bitfield_c: u32,
    pub base_track: u32,
    pub pad_14: u32,
    /// Byte offset of the metadata region names and resources live in.
    pub metadata: u64,
}

/// Reads the scheduler header at the start of `data`.
pub fn read_scheduler_header(data: &[u8]) -> (r: SchedulerHeader)
    requires
        data@.len() >= 32,
    ensures
        r.magic == spec_u32_from_le_bytes(data@.subrange(0, 4)),
        r.version == spec_u16_from_le_bytes(data@.subrange(4, 6)),
        r.track_num == spec_u16_from_le_bytes(data@.subrange(6, 8)),
        r.crc == spec_u32_from_le_bytes(data@.subrange(8, 12)),
        r.bitfield_c == spec_u32_from_le_bytes(data@.subrange(12, 16)),
        r.base_track == spec_u32_from_le_bytes(data@.subrange(16, 20)),
        r.pad_14 == spec_u32_from_le_bytes(data@.subrange(20, 24)),
        r.metadata == spec_u64_from_le_bytes(data@.subrange(24, 32)),
{
    SchedulerHeader {
        magic: read_u32_at(data, 0),
        version: read_u16_at(data, 4),
        track_num: read_u16_at(data, 6),
        crc: read_u32_at(data, 8),
        bitfield_c: read_u32_at(data, 12),
        base_track: read_u32_at(data, 16),
        pad_14: read_u32_at(data, 20),
        metadata: read_u64_at(data, 24),
    }
}

/// One 48-byte track record.
#[derive(Clone, Copy, PartialEq, Eq, Structural, Debug)]
pub struct SchedulerTrack {
    /// Packs `track_type` (8 bits), `prop_type` (8 bits), `key_num` (16
    /// bits).
    pub bitfield_0: u32,
    pub field_4: u32,
    /// Offset of the track or property name, relative to the metadata
    /// region.
    pub track_prop_name: u64,
    pub field_10: u32,
    pub pad_14: u32,
    pub unit_group: u64,
    pub key_frame: u64,
    pub key_value: u64,
}

/// Reads the 48-byte track record at `at`.
pub fn read_scheduler_track(data: &[u8], at: usize) -> (r: SchedulerTrack)
    requires
        at + 48 <= data@.len(),
    ensures
        r.bitfield_0 == spec_u32_from_le_bytes(data@.subrange(at as int, at + 4)),
        r.field_4 == spec_u32_from_le_bytes(data@.subrange(at + 4, at + 8)),
        r.track_prop_name == spec_u64_from_le_bytes(data@.subrange(at + 8, at + 16)),
        r.field_10 == spec_u32_from_le_bytes(data@.subrange(at + 16, at + 20)),
        r.pad_14 == spec_u32_from_le_bytes(data@.subrange(at + 20, at + 24)),
        r.unit_group == spec_u64_from_le_bytes(data@.subrange(at + 24, at + 32)),
        r.key_frame == spec_u64_from_le_bytes(data@.subrange(at + 32, at + 40)),
        r.key_value == spec_u64_from_le_bytes(data@.subrange(at + 40, at + 48)),
{
    let len = data.len();
    proof {
        assert(at + 48 <= len);
    }
    SchedulerTrack {
        bitfield_0: read_u32_at(data, at),
        field_4: read_u32_at(data, at + 4),
        track_prop_name: read_u64_at(data, at + 8),
        field_10: read_u32_at(data, at + 16),
        pad_14: read_u32_at(data, at + 20),
        unit_group: read_u64_at(data, at + 24),
        key_frame: read_u64_at(data, at + 32),
        key_value: read_u64_at(data, at + 40),
    }
}

impl SchedulerTrack {
    /// What the track drives: the low byte of the packed word.
    pub fn track_type(&self) -> (r: u8)
        ensures
            r == (self.bitfield_0 & 0xff) as u8,
    {
        (self.bitfield_0 & 0xff) as u8
    }

    /// The property type of the track's keys: the second byte.
    pub fn prop_type(&self) -> (r: u8)
        ensures
            r == ((self.bitfield_0 >> 8) & 0xff) as u8,
    {
        ((self.bitfield_0 >> 8) & 0xff) as u8
    }

    /// How many keys the track holds: the high 16 bits.
    pub fn key_num(&self) -> (r: u16)
        ensures
            r == ((self.bitfield_0 >> 16) & 0xffff) as u16,
    {
        ((self.bitfield_0 >> 16) & 0xffff) as u16
    }
}

/// Why a scheduler file could not be decoded.
#[derive(Clone, Copy, PartialEq, Eq, Structural, Debug)]
pub enum SchedulerError {
    /// The input ran short of the header or the track records.
    Truncated,
    /// The first four bytes are not `"SDL\0"`.
    BadMagic { magic: u32 },
    /// A format version other than the supported one.
    BadVersion { version: u16 },
}

/// A validated scheduler file. Decoding only checks the container shape;
/// the track payloads are interpreted by their consumers.
#[derive(PartialEq, Eq, Structural, Debug)]
pub struct SchedulerFile {}

impl SchedulerFile {
    /// Validates a whole scheduler file: the magic word, the format
    /// version, and that all declared track records are present.
    pub fn new(data: &[u8]) -> (r: Result<SchedulerFile, SchedulerError>)
        ensures
            data@.len() < 32 ==> r == Err::<SchedulerFile, SchedulerError>(
                SchedulerError::Truncated,
            ),
            data@.len() >= 32 ==> ({
                let magic = spec_u32_from_le_bytes(data@.subrange(0, 4));
                let version = spec_u16_from_le_bytes(data@.subrange(4, 6));
                let track_num = spec_u16_from_le_bytes(data@.subrange(6, 8));
                if magic != SDL_MAGIC {
                    r == Err::<SchedulerFile, SchedulerError>(SchedulerError::BadMagic { magic })
                } else if version != SDL_VERSION {
                    r == Err::<SchedulerFile, SchedulerError>(
                        SchedulerError::BadVersion { version },
                    )
                } else if data@.len() < 32 + 48 * track_num {
                    r == Err::<SchedulerFile, SchedulerError>(SchedulerError::Truncated)
                } else {
                    r == Ok::<SchedulerFile, SchedulerError>(SchedulerFile {})
                }
            }),
    {
        if data.len() < 32 {
            return Err(SchedulerError::Truncated);
        }
        let header = read_scheduler_header(data);
        if header.magic != SDL_MAGIC {
            return Err(SchedulerError::BadMagic { magic: header.magic });
        }
        if header.version != SDL_VERSION {
            return Err(SchedulerError::BadVersion { version: header.version });
        }
        if ((data.len() - 32) as u64) < 48 * (header.track_num as u64) {
            return Err(SchedulerError::Truncated);
        }
        Ok(SchedulerFile {})
    }
}

} // verus!
