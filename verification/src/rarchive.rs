//! Archive containers: a small header, one 144-byte record per resource,
//! and zlib-compressed payloads at the offsets the records give.

use vstd::prelude::*;

verus! {

use vstd::bytes::{spec_u16_from_le_bytes, spec_u32_from_le_bytes};
use vstd::string::StringSliceAdditionalSpecFns;
use crate::dti::{Dti, DtiRegistry};
use crate::reader::{read_u16_at, read_u32_at};
use crate::text::{nul_run, nul_run_in, utf8_lossy, utf8_lossy_of};

/// `"ARC\0"` read little-endian as a `u32`.
pub const ARCHIVE_MAGIC: u32 = 0x0043_5241;

/// The only supported archive version.
pub const ARCHIVE_VERSION: u16 = 7;

/// What a zlib stream inflates to, or nothing when it is malformed.
pub uninterp spec fn spec_zlib_inflate(compressed: Seq<u8>) -> Option<Seq<u8>>;

/// Relies on `flate2::read::ZlibDecoder`: inflating a complete buffer is a
/// function of its bytes alone, and fails exactly on a malformed stream.
#[verifier::external_body]
fn zlib_decompress(compressed: &[u8]) -> (r: Option<Vec<u8>>)
    ensures
        match r {
            Some(v) => spec_zlib_inflate(compressed@) == Some(v@),
            None => spec_zlib_inflate(compressed@) is None,
        },
{
    let mut decoder = flate2::read::ZlibDecoder::new(compressed);
    let mut out: Vec<u8> = Vec::new();
    match std::io::Read::read_to_end(&mut decoder, &mut out) {
        Ok(_) => Some(out),
        Err(_) => None,
    }
}

/// One resolved resource record: its path, its type, its compressed and
/// uncompressed sizes, its quality class and the payload offset.
pub struct ResourceInfo {
    path: String,
    dti: Dti,
    size_compressed: u32,
    size_uncompressed: u32,
    quality: u32,
    offset: u32,
}

impl ResourceInfo {
    /// The stored path.
    pub closed spec fn spec_path(&self) -> Seq<char> {
        self.path@
    }

    /// The stored type descriptor.
    pub closed spec fn spec_dti(&self) -> Dti {
        self.dti
    }

    /// The stored compressed size.
    pub closed spec fn spec_size_compressed(&self) -> u32 {
        self.size_compressed
    }

    /// The stored uncompressed size.
    pub closed spec fn spec_size_uncompressed(&self) -> u32 {
        self.size_uncompressed
    }

    /// The stored quality class.
    pub closed spec fn spec_quality(&self) -> u32 {
        self.quality
    }

    /// The stored payload offset.
    pub closed spec fn spec_offset(&self) -> u32 {
        self.offset
    }

    /// The resource's path inside the archive.
    pub fn path(&self) -> (r: &str)
        ensures
            r@ == self.spec_path(),
    {
        self.path.as_str()
    }

    /// The resource's type descriptor.
    pub fn dti(&self) -> (r: &Dti)
        ensures
            *r == self.spec_dti(),
    {
        &self.dti
    }

    /// The resource's quality class.
    pub fn quality(&self) -> (r: u32)
        ensures
            r == self.spec_quality(),
    {
        self.quality
    }
}

/// Why an archive could not be decoded.
#[derive(Clone, Copy, PartialEq, Eq, Structural, Debug)]
pub enum ArchiveError {
    /// The input ran short of a record or a payload.
    Truncated,
    /// The first four bytes are not `"ARC\0"`.
    BadMagic { magic: u32 },
    /// An archive version other than the supported one.
    BadVersion { version: u16 },
    /// A path cell carries no terminator.
    MissingTerminator,
    /// A record references a hash absent from the registry.
    UnknownType { hash: u32 },
    /// A payload did not inflate, or inflated to a size other than the
    /// one its record declares.
    BadPayload,
}

/// A decoded archive: its resource table and the raw bytes payloads are
/// cut from.
pub struct ArchiveFile {
    resources: Vec<ResourceInfo>,
    data: Vec<u8>,
}

/// Whether the record at index `i` of the archive's table matches a
/// lookup for `path` and `dti_hash`.
pub open spec fn spec_resource_matches(
    resources: Seq<ResourceInfo>,
    i: int,
    path: Seq<char>,
    dti_hash: u32,
) -> bool {
    resources[i].spec_path() == path && resources[i].spec_dti().hash == dti_hash
}

impl ArchiveFile {
    /// The decoded resource table, in record order.
    pub closed spec fn spec_resources(&self) -> Seq<ResourceInfo> {
        self.resources@
    }

    /// The archive bytes payloads are cut from.
    pub closed spec fn spec_data(&self) -> Seq<u8> {
        self.data@
    }

    /// Decodes the archive's header and resource table and keeps the
    /// whole byte image for payload extraction. Each record's type hash
    /// must resolve against the registry.
    #[verifier::loop_isolation(false)]
    #[verifier::rlimit(60)]
    pub fn new(data: Vec<u8>, registry: &DtiRegistry) -> (r: Result<ArchiveFile, ArchiveError>)
        requires
            registry.wf(),
        ensures
            data@.len() < 8 ==> r == Err::<ArchiveFile, ArchiveError>(ArchiveError::Truncated),
            data@.len() >= 8 ==> ({
                let magic = spec_u32_from_le_bytes(data@.subrange(0, 4));
                (magic != ARCHIVE_MAGIC) <==> (r matches Err(ArchiveError::BadMagic { .. }))
            }),
            data@.len() >= 8 ==> ({
                let magic = spec_u32_from_le_bytes(data@.subrange(0, 4));
                let version = spec_u16_from_le_bytes(data@.subrange(4, 6));
                magic == ARCHIVE_MAGIC ==> ((version != ARCHIVE_VERSION) <==> (r matches Err(
                    ArchiveError::BadVersion { .. },
                )))
            }),
            (r matches Ok(f) ==> data@.len() >= 8 && ({
                let num = spec_u16_from_le_bytes(data@.subrange(6, 8)) as int;
                &&& f.spec_data() == data@
                &&& f.spec_resources().len() == num
                &&& forall|i: int|
                    0 <= i < num ==> {
                        let rec = 8 + 144 * i;
                        let cell = data@.subrange(rec, rec + 128);
                        let hash = spec_u32_from_le_bytes(data@.subrange(rec + 128, rec + 132));
                        let bits = spec_u32_from_le_bytes(data@.subrange(rec + 136, rec + 140));
                        &&& (#[trigger] f.spec_resources()[i]).spec_path() == utf8_lossy_of(
                            nul_run(cell, 0),
                        )
                        &&& registry.entries().contains_key(hash)
                        &&& f.spec_resources()[i].spec_dti() == registry.entries()[hash]
                        &&& f.spec_resources()[i].spec_size_compressed() == spec_u32_from_le_bytes(
                            data@.subrange(rec + 132, rec + 136),
                        )
                        &&& f.spec_resources()[i].spec_size_uncompressed() == bits & 0x1fff_ffff
                        &&& f.spec_resources()[i].spec_quality() == (bits >> 29) & 0x7
                        &&& f.spec_resources()[i].spec_offset() == spec_u32_from_le_bytes(
                            data@.subrange(rec + 140, rec + 144),
                        )
                    }
            })),
    {
        if data.len() < 8 {
            return Err(ArchiveError::Truncated);
        }
        let magic = read_u32_at(data.as_slice(), 0);
        if magic != ARCHIVE_MAGIC {
            return Err(ArchiveError::BadMagic { magic });
        }
        let version = read_u16_at(data.as_slice(), 4);
        if version != ARCHIVE_VERSION {
            return Err(ArchiveError::BadVersion { version });
        }
        let num = read_u16_at(data.as_slice(), 6) as usize;
        let len = data.len();
        let mut resources: Vec<ResourceInfo> = Vec::new();
        let mut i: usize = 0;
        while i < num
            invariant
                i <= num,
                resources@.len() == i,
                data@.len() >= 8,
                forall|k: int|
                    0 <= k < i ==> {
                        let rec = 8 + 144 * k;
                        let cell = data@.subrange(rec, rec + 128);
                        let hash = spec_u32_from_le_bytes(data@.subrange(rec + 128, rec + 132));
                        let bits = spec_u32_from_le_bytes(data@.subrange(rec + 136, rec + 140));
                        &&& (#[trigger] resources@[k]).spec_path() == utf8_lossy_of(
                            nul_run(cell, 0),
                        )
                        &&& registry.entries().contains_key(hash)
                        &&& resources@[k].spec_dti() == registry.entries()[hash]
                        &&& resources@[k].spec_size_compressed() == spec_u32_from_le_bytes(
                            data@.subrange(rec + 132, rec + 136),
                        )
                        &&& resources@[k].spec_size_uncompressed() == bits & 0x1fff_ffff
                        &&& resources@[k].spec_quality() == (bits >> 29) & 0x7
                        &&& resources@[k].spec_offset() == spec_u32_from_le_bytes(
                            data@.subrange(rec + 140, rec + 144),
                        )
                    },
            decreases num - i,
        {
            if (len - 8) / 144 <= i {
                return Err(ArchiveError::Truncated);
            }
            proof {
                lemma_record_fits(8, i as int, len as int);
            }
            let rec = 8 + 144 * i;
            let cell = vstd::slice::slice_subrange(data.as_slice(), rec, rec + 128);
            let path = match nul_run_in(cell) {
                None => {
                    return Err(ArchiveError::MissingTerminator);
                },
                Some(run) => utf8_lossy(run),
            };
            let hash = read_u32_at(data.as_slice(), rec + 128);
            let dti = match registry.lookup(hash) {
                None => {
                    return Err(ArchiveError::UnknownType { hash });
                },
                Some(d) => d.clone(),
            };
            let size_compressed = read_u32_at(data.as_slice(), rec + 132);
            let bits = read_u32_at(data.as_slice(), rec + 136);
            let size_uncompressed = bits & 0x1fff_ffff;
            let quality = (bits >> 29) & 0x7;
            let offset = read_u32_at(data.as_slice(), rec + 140);
            resources.push(
                ResourceInfo { path, dti, size_compressed, size_uncompressed, quality, offset },
            );
            i = i + 1;
        }
        Ok(ArchiveFile { resources, data })
    }

    /// The resource table, in record order.
    pub fn resource_infos(&self) -> (r: &[ResourceInfo])
        ensures
            r@ == self.spec_resources(),
    {
        self.resources.as_slice()
    }

    /// Extracts and inflates the payload of one resource record.
    pub fn get_resource_by_info(&self, info: &ResourceInfo) -> (r: Result<
        Option<Vec<u8>>,
        ArchiveError,
    >)
        ensures
            (r matches Ok(out) ==> out is Some),
            (r matches Ok(out) ==> out matches Some(v) ==> ({
                let blob = self.spec_data().subrange(
                    info.spec_offset() as int,
                    info.spec_offset() + info.spec_size_compressed(),
                );
                &&& info.spec_offset() + info.spec_size_compressed() <= self.spec_data().len()
                &&& spec_zlib_inflate(blob) == Some(v@)
                &&& v@.len() == info.spec_size_uncompressed()
            })),
    {
        let len = self.data.len();
        if info.offset as u64 > len as u64 || (info.size_compressed as u64) > (len as u64)
            - (info.offset as u64) {
            return Err(ArchiveError::Truncated);
        }
        let start = info.offset as usize;
        let blob = vstd::slice::slice_subrange(
            self.data.as_slice(),
            start,
            start + info.size_compressed as usize,
        );
        let content = match zlib_decompress(blob) {
            None => {
                return Err(ArchiveError::BadPayload);
            },
            Some(v) => v,
        };
        if content.len() as u64 != info.size_uncompressed as u64 {
            return Err(ArchiveError::BadPayload);
        }
        Ok(Some(content))
    }

    /// Looks a resource up by path and type and inflates its payload;
    /// `Ok(None)` when no record matches.
    #[verifier::loop_isolation(false)]
    pub fn get_resource(&self, path: &str, dti: &Dti) -> (r: Result<Option<Vec<u8>>, ArchiveError>)
        ensures
            (r matches Ok(out) ==> out is None ==> forall|i: int|
                0 <= i < self.spec_resources().len() ==> !spec_resource_matches(
                    self.spec_resources(),
                    i,
                    path@,
                    dti.hash,
                )),
            (r matches Ok(out) ==> out matches Some(v) ==> exists|i: int|
                {
                    let info = self.spec_resources()[i];
                    let blob = self.spec_data().subrange(
                        info.spec_offset() as int,
                        info.spec_offset() + info.spec_size_compressed(),
                    );
                    &&& 0 <= i < self.spec_resources().len()
                    &&& #[trigger] spec_resource_matches(self.spec_resources(), i, path@, dti.hash)
                    &&& forall|k: int|
                        0 <= k < i ==> !spec_resource_matches(
                            self.spec_resources(),
                            k,
                            path@,
                            dti.hash,
                        )
                    &&& info.spec_offset() + info.spec_size_compressed() <= self.spec_data().len()
                    &&& spec_zlib_inflate(blob) == Some(v@)
                    &&& v@.len() == info.spec_size_uncompressed()
                }),
    {
        let path_owned = path.to_owned();
        let mut i: usize = 0;
        while i < self.resources.len()
            invariant
                i <= self.spec_resources().len(),
                path_owned@ == path@,
                forall|k: int|
                    0 <= k < i ==> !spec_resource_matches(
                        self.spec_resources(),
                        k,
                        path@,
                        dti.hash,
                    ),
            decreases self.spec_resources().len() - i,
        {
            let candidate = &self.resources[i];
            if candidate.path.eq(&path_owned) && candidate.dti.hash == dti.hash {
                proof {
                    assert(spec_resource_matches(self.spec_resources(), i as int, path@, dti.hash));
                }
                return self.get_resource_by_info(candidate);
            }
            i = i + 1;
        }
        Ok(None)
    }
}

/// One 144-byte resource record sits wholly inside the table region.
proof fn lemma_record_fits(base: int, i: int, len: int)
    by (nonlinear_arith)
    requires
        0 <= i,
        0 <= base,
        i < (len - base) / 144,
    ensures
        base + 144 * i + 144 <= len,
{
}

} // verus!
