//! Model-file primitive records: the 56-byte per-primitive descriptor and
//! the bit-packed fields the renderer reads out of it.

use vstd::prelude::*;

verus! {

use vstd::bytes::{spec_u16_from_le_bytes, spec_u32_from_le_bytes, spec_u64_from_le_bytes};
use crate::reader::{read_u16_at, read_u32_at, read_u64_at};

/// The primitive topologies the format is known to use.
#[derive(Clone, Copy, PartialEq, Eq, Structural, Debug)]
pub enum PrimitiveTopology {
    TriangleStrip,
}

/// The topology a raw code denotes, if it is a known one.
pub open spec fn spec_topology_from_raw(code: u32) -> Option<PrimitiveTopology> {
    if code == 4 {
        Some(PrimitiveTopology::TriangleStrip)
    } else {
        None
    }
}

impl PrimitiveTopology {
    /// Decodes a raw topology code.
    pub fn from_raw(code: u32) -> (r: Option<PrimitiveTopology>)
        ensures
            r == spec_topology_from_raw(code),
    {
        if code == 4 {
            Some(PrimitiveTopology::TriangleStrip)
        } else {
            None
        }
    }
}

/// One 56-byte primitive record, with its three bit-packed words kept
/// whole; the accessors below unpack them.
#[derive(Clone, Copy, PartialEq, Eq, Structural, Debug)]
pub struct PrimitiveInfo {
    /// Packs `draw_mode` (16 bits) and `vertex_num` (16 bits).
    pub drawmode_vertexnum: u32,
    /// Packs `parts_no` (12 bits), `material_no` (12 bits), `lod` (8 bits).
    pub parts_material_lod: u32,
    /// Packs `disp`, `shape`, `sort` (1 bit each), `weight_num` (5 bits),
    /// `alphapri` (8 bits), `vertex_stride` (8 bits), `topology` (6 bits),
    /// `binormal_flip` and `bridge` (1 bit each).
    pub very_large_bitfield: u32,
    pub vertex_ofs: u32,
    pub vertex_base: u32,
    pub inputlayout: u32,
    pub index_ofs: u32,
    pub index_num: u32,
    pub index_base: u32,
    /// Packs `envelope` (8 bits), `boundary_num` (8 bits), `connect_id`
    /// (16 bits).
    pub envelope_boundary_connect: u32,
    /// Packs `min_index` (16 bits) and `max_index` (16 bits).
    pub min_max_index: u32,
    /// Pointers in the record are 8-byte aligned.
    pub padding_: u32,
    /// An in-engine pointer slot, junk on disk.
    pub boundary: u64,
}

/// The primitive record encoded at `at`.
pub open spec fn spec_primitive_at(data: Seq<u8>, at: int) -> PrimitiveInfo {
    PrimitiveInfo {
        drawmode_vertexnum: spec_u32_from_le_bytes(data.subrange(at, at + 4)),
        parts_material_lod: spec_u32_from_le_bytes(data.subrange(at + 4, at + 8)),
        very_large_bitfield: spec_u32_from_le_bytes(data.subrange(at + 8, at + 12)),
        vertex_ofs: spec_u32_from_le_bytes(data.subrange(at + 12, at + 16)),
        vertex_base: spec_u32_from_le_bytes(data.subrange(at + 16, at + 20)),
        inputlayout: spec_u32_from_le_bytes(data.subrange(at + 20, at + 24)),
        index_ofs: spec_u32_from_le_bytes(data.subrange(at + 24, at + 28)),
        index_num: spec_u32_from_le_bytes(data.subrange(at + 28, at + 32)),
        index_base: spec_u32_from_le_bytes(data.subrange(at + 32, at + 36)),
        envelope_boundary_connect: spec_u32_from_le_bytes(data.subrange(at + 36, at + 40)),
        min_max_index: spec_u32_from_le_bytes(data.subrange(at + 40, at + 44)),
        padding_: spec_u32_from_le_bytes(data.subrange(at + 44, at + 48)),
        boundary: spec_u64_from_le_bytes(data.subrange(at + 48, at + 56)),
    }
}

/// Reads the 56-byte primitive record at `at`.
pub fn read_primitive_info(data: &[u8], at: usize) -> (r: PrimitiveInfo)
    requires
        at + 56 <= data@.len(),
    ensures
        r == spec_primitive_at(data@, at as int),
{
    let len = data.len();
    proof {
        assert(at + 56 <= len);
    }
    PrimitiveInfo {
        drawmode_vertexnum: read_u32_at(data, at),
        parts_material_lod: read_u32_at(data, at + 4),
        very_large_bitfield: read_u32_at(data, at + 8),
        vertex_ofs: read_u32_at(data, at + 12),
        vertex_base: read_u32_at(data, at + 16),
        inputlayout: read_u32_at(data, at + 20),
        index_ofs: read_u32_at(data, at + 24),
        index_num: read_u32_at(data, at + 28),
        index_base: read_u32_at(data, at + 32),
        envelope_boundary_connect: read_u32_at(data, at + 36),
        min_max_index: read_u32_at(data, at + 40),
        padding_: read_u32_at(data, at + 44),
        boundary: read_u64_at(data, at + 48),
    }
}

impl PrimitiveInfo {
    /// The stride in bytes of this primitive's vertices.
    pub fn vertex_stride(&self) -> (r: u32)
        ensures
            r == (self.very_large_bitfield >> 16) & 0xff,
    {
        (self.very_large_bitfield >> 16) & 0xff
    }

    /// The model part this primitive belongs to.
    pub fn parts_no(&self) -> (r: u32)
        ensures
            r == self.parts_material_lod & 0xfff,
    {
        self.parts_material_lod & 0xfff
    }

    /// The material this primitive is drawn with.
    pub fn material_no(&self) -> (r: u32)
        ensures
            r == (self.parts_material_lod >> 12) & 0xfff,
    {
        (self.parts_material_lod >> 12) & 0xfff
    }

    /// How many joint weights each vertex carries.
    pub fn weight_num(&self) -> (r: u32)
        ensures
            r == (self.very_large_bitfield >> 3) & 0x1f,
    {
        (self.very_large_bitfield >> 3) & 0x1f
    }

    /// The handle of the input layout shader object.
    pub fn inputlayout(&self) -> (r: u32)
        ensures
            r == self.inputlayout,
    {
        self.inputlayout
    }

    /// The first vertex this primitive uses.
    pub fn vertex_base(&self) -> (r: u32)
        ensures
            r == self.vertex_base,
    {
        self.vertex_base
    }

    /// Byte offset of this primitive's indices inside the index buffer.
    pub fn index_ofs(&self) -> (r: u32)
        ensures
            r == self.index_ofs,
    {
        self.index_ofs
    }

    /// The value indices are relative to.
    pub fn index_base(&self) -> (r: u32)
        ensures
            r == self.index_base,
    {
        self.index_base
    }

    /// How many indices this primitive draws.
    pub fn index_num(&self) -> (r: u32)
        ensures
            r == self.index_num,
    {
        self.index_num
    }

    /// The raw 6-bit topology code.
    pub fn raw_topology(&self) -> (r: u32)
        ensures
            r == (self.very_large_bitfield >> 24) & 0x3f,
    {
        (self.very_large_bitfield >> 24) & 0x3f
    }

    /// The decoded topology, when the code is a known one.
    pub fn topology(&self) -> (r: Option<PrimitiveTopology>)
        ensures
            r == spec_topology_from_raw((self.very_large_bitfield >> 24) & 0x3f),
    {
        PrimitiveTopology::from_raw(self.raw_topology())
    }

    /// How many vertices this primitive uses.
    pub fn vertex_num(&self) -> (r: u32)
        ensures
            r == (self.drawmode_vertexnum >> 16) & 0xffff,
    {
        (self.drawmode_vertexnum >> 16) & 0xffff
    }

    /// How many boundary records belong to this primitive.
    pub fn boundary_num(&self) -> (r: u32)
        ensures
            r == (self.envelope_boundary_connect >> 8) & 0xff,
    {
        (self.envelope_boundary_connect >> 8) & 0xff
    }
}

// The geometry records below carry single-precision values. Interpreting
// them is floating-point work that belongs to the renderer; here each slot
// is kept as its IEEE-754 bit pattern, so the records can be stored and
// handed on without loss.

/// Three packed single-precision values, as bit patterns.
#[derive(Clone, Copy, PartialEq, Eq, Structural, Debug)]
pub struct MtFloat3A {
    pub x: u32,
    pub y: u32,
    pub z: u32,
}

/// A bounding sphere: a centre and a radius, as bit patterns.
#[derive(Clone, Copy, PartialEq, Eq, Structural, Debug)]
pub struct MtSphere {
    pub pos: MtFloat3A,
    pub r: u32,
}

/// Reads the 16-byte sphere record at `at`.
pub fn read_mt_sphere(data: &[u8], at: usize) -> (r: MtSphere)
    requires
        at + 16 <= data@.len(),
    ensures
        r.pos.x == spec_u32_from_le_bytes(data@.subrange(at as int, at + 4)),
        r.pos.y == spec_u32_from_le_bytes(data@.subrange(at + 4, at + 8)),
        r.pos.z == spec_u32_from_le_bytes(data@.subrange(at + 8, at + 12)),
        r.r == spec_u32_from_le_bytes(data@.subrange(at + 12, at + 16)),
{
    let len = data.len();
    proof {
        assert(at + 16 <= len);
    }
    MtSphere {
        pos: MtFloat3A {
            x: read_u32_at(data, at),
            y: read_u32_at(data, at + 4),
            z: read_u32_at(data, at + 8),
        },
        r: read_u32_at(data, at + 12),
    }
}

/// A four-slot vector, as bit patterns; the last slot pads static vectors.
#[derive(Clone, Copy, PartialEq, Eq, Structural, Debug)]
pub struct MtVector3 {
    pub x: u32,
    pub y: u32,
    pub z: u32,
    pub pad_: u32,
}

/// An axis-aligned bounding box, as bit patterns.
#[derive(Clone, Copy, PartialEq, Eq, Structural, Debug)]
pub struct MtAABB {
    pub minpos: MtVector3,
    pub maxpos: MtVector3,
}

/// A four-component vector, as bit patterns.
#[derive(Clone, Copy, PartialEq, Eq, Structural, Debug)]
pub struct MtVector4 {
    pub x: u32,
    pub y: u32,
    pub z: u32,
    pub w: u32,
}

/// A four-by-four matrix, as bit patterns.
#[derive(Clone, Copy, Debug)]
pub struct MtMatrix {
    pub m: [MtVector4; 4],
}

/// An oriented bounding box, as bit patterns.
#[derive(Clone, Copy, Debug)]
pub struct MtOBB {
    pub coord: MtMatrix,
    pub extent: MtVector3,
}

/// Reads one 16-byte four-slot vector at `at`.
fn read_mt_vector3(data: &[u8], at: usize) -> (r: MtVector3)
    requires
        at + 16 <= data@.len(),
    ensures
        r.x == spec_u32_from_le_bytes(data@.subrange(at as int, at + 4)),
        r.y == spec_u32_from_le_bytes(data@.subrange(at + 4, at + 8)),
        r.z == spec_u32_from_le_bytes(data@.subrange(at + 8, at + 12)),
        r.pad_ == spec_u32_from_le_bytes(data@.subrange(at + 12, at + 16)),
{
    let len = data.len();
    proof {
        assert(at + 16 <= len);
    }
    MtVector3 {
        x: read_u32_at(data, at),
        y: read_u32_at(data, at + 4),
        z: read_u32_at(data, at + 8),
        pad_: read_u32_at(data, at + 12),
    }
}

/// Reads one 16-byte four-component vector at `at`.
fn read_mt_vector4(data: &[u8], at: usize) -> (r: MtVector4)
    requires
        at + 16 <= data@.len(),
    ensures
        r.x == spec_u32_from_le_bytes(data@.subrange(at as int, at + 4)),
        r.y == spec_u32_from_le_bytes(data@.subrange(at + 4, at + 8)),
        r.z == spec_u32_from_le_bytes(data@.subrange(at + 8, at + 12)),
        r.w == spec_u32_from_le_bytes(data@.subrange(at + 12, at + 16)),
{
    let len = data.len();
    proof {
        assert(at + 16 <= len);
    }
    MtVector4 {
        x: read_u32_at(data, at),
        y: read_u32_at(data, at + 4),
        z: read_u32_at(data, at + 8),
        w: read_u32_at(data, at + 12),
    }
}

/// The fixed trailer of the model header: levels of detail, lighting and
/// memory hints.
#[derive(Clone, Copy, PartialEq, Eq, Structural, Debug)]
pub struct ModelInfo {
    pub middist: i32,
    pub lowdist: i32,
    pub light_group: u32,
    pub memory: u16,
    pub reserved: u16,
}

/// The 160-byte model header.
#[derive(Clone, Copy, Debug)]
pub struct ModelHdr {
    pub magic: u32,
    pub version: u16,
    pub jnt_num: u16,
    pub primitive_num: u16,
    pub material_num: u16,
    pub vertex_num: u32,
    pub index_num: u32,
    pub polygon_num: u32,
    pub vertexbuf_size: u32,
    pub texture_num: u32,
    pub parts_num: u32,
    pub padding1: u32,
    pub joint_info: u64,
    pub parts_info: u64,
    pub material_info: u64,
    pub primitive_info: u64,
    pub vertex_data: u64,
    pub index_data: u64,
    pub rcn_data: u64,
    pub bounding_sphere: MtSphere,
    pub bounding_box: MtAABB,
    pub modelinfo: ModelInfo,
}

/// Reads the 160-byte model header at the start of `data`.
pub fn read_model_hdr(data: &[u8]) -> (r: ModelHdr)
    requires
        data@.len() >= 160,
    ensures
        r.magic == spec_u32_from_le_bytes(data@.subrange(0, 4)),
        r.version == spec_u16_from_le_bytes(data@.subrange(4, 6)),
        r.jnt_num == spec_u16_from_le_bytes(data@.subrange(6, 8)),
        r.primitive_num == spec_u16_from_le_bytes(data@.subrange(8, 10)),
        r.material_num == spec_u16_from_le_bytes(data@.subrange(10, 12)),
        r.vertex_num == spec_u32_from_le_bytes(data@.subrange(12, 16)),
        r.index_num == spec_u32_from_le_bytes(data@.subrange(16, 20)),
        r.polygon_num == spec_u32_from_le_bytes(data@.subrange(20, 24)),
        r.vertexbuf_size == spec_u32_from_le_bytes(data@.subrange(24, 28)),
        r.texture_num == spec_u32_from_le_bytes(data@.subrange(28, 32)),
        r.parts_num == spec_u32_from_le_bytes(data@.subrange(32, 36)),
        r.joint_info == spec_u64_from_le_bytes(data@.subrange(40, 48)),
        r.parts_info == spec_u64_from_le_bytes(data@.subrange(48, 56)),
        r.material_info == spec_u64_from_le_bytes(data@.subrange(56, 64)),
        r.primitive_info == spec_u64_from_le_bytes(data@.subrange(64, 72)),
        r.vertex_data == spec_u64_from_le_bytes(data@.subrange(72, 80)),
        r.index_data == spec_u64_from_le_bytes(data@.subrange(80, 88)),
        r.rcn_data == spec_u64_from_le_bytes(data@.subrange(88, 96)),
{
    let len = data.len();
    proof {
        assert(len >= 160);
    }
    ModelHdr {
        magic: read_u32_at(data, 0),
        version: read_u16_at(data, 4),
        jnt_num: read_u16_at(data, 6),
        primitive_num: read_u16_at(data, 8),
        material_num: read_u16_at(data, 10),
        vertex_num: read_u32_at(data, 12),
        index_num: read_u32_at(data, 16),
        polygon_num: read_u32_at(data, 20),
        vertexbuf_size: read_u32_at(data, 24),
        texture_num: read_u32_at(data, 28),
        parts_num: read_u32_at(data, 32),
        padding1: read_u32_at(data, 36),
        joint_info: read_u64_at(data, 40),
        parts_info: read_u64_at(data, 48),
        material_info: read_u64_at(data, 56),
        primitive_info: read_u64_at(data, 64),
        vertex_data: read_u64_at(data, 72),
        index_data: read_u64_at(data, 80),
        rcn_data: read_u64_at(data, 88),
        bounding_sphere: read_mt_sphere(data, 96),
        bounding_box: MtAABB {
            minpos: read_mt_vector3(data, 112),
            maxpos: read_mt_vector3(data, 128),
        },
        modelinfo: ModelInfo {
            middist: #[verifier::truncate] (read_u32_at(data, 144) as i32),
            lowdist: #[verifier::truncate] (read_u32_at(data, 148) as i32),
            light_group: read_u32_at(data, 152),
            memory: read_u16_at(data, 156),
            reserved: read_u16_at(data, 158),
        },
    }
}

/// One 32-byte model-part record.
#[derive(Clone, Copy, Debug)]
pub struct PartsInfo {
    pub no: u32,
    pub reserved: [u32; 3],
    pub boundary: MtSphere,
}

/// Reads the 32-byte part record at `at`.
pub fn read_parts_info(data: &[u8], at: usize) -> (r: PartsInfo)
    requires
        at + 32 <= data@.len(),
    ensures
        r.no == spec_u32_from_le_bytes(data@.subrange(at as int, at + 4)),
{
    let len = data.len();
    proof {
        assert(at + 32 <= len);
    }
    PartsInfo {
        no: read_u32_at(data, at),
        reserved: [read_u32_at(data, at + 4), read_u32_at(data, at + 8), read_u32_at(data, at + 12)],
        boundary: read_mt_sphere(data, at + 16),
    }
}

/// One 144-byte boundary record: a joint index and three bounding volumes.
#[derive(Clone, Copy, Debug)]
pub struct BoundaryInfo {
    pub joint: u32,
    pub reserved: [u32; 3],
    pub sphere: MtSphere,
    pub aabb: MtAABB,
    pub obb: MtOBB,
}

impl BoundaryInfo {
    /// The joint this boundary belongs to.
    pub fn joint(&self) -> (r: u32)
        ensures
            r == self.joint,
    {
        self.joint
    }
}

/// Reads the 144-byte boundary record at `at`.
pub fn read_boundary_info(data: &[u8], at: usize) -> (r: BoundaryInfo)
    requires
        at + 144 <= data@.len(),
    ensures
        r.joint == spec_u32_from_le_bytes(data@.subrange(at as int, at + 4)),
{
    let len = data.len();
    proof {
        assert(at + 144 <= len);
    }
    BoundaryInfo {
        joint: read_u32_at(data, at),
        reserved: [read_u32_at(data, at + 4), read_u32_at(data, at + 8), read_u32_at(data, at + 12)],
        sphere: read_mt_sphere(data, at + 16),
        aabb: MtAABB {
            minpos: read_mt_vector3(data, at + 32),
            maxpos: read_mt_vector3(data, at + 48),
        },
        obb: MtOBB {
            coord: MtMatrix {
                m: [
                    read_mt_vector4(data, at + 64),
                    read_mt_vector4(data, at + 80),
                    read_mt_vector4(data, at + 96),
                    read_mt_vector4(data, at + 112),
                ],
            },
            extent: read_mt_vector3(data, at + 128),
        },
    }
}

/// One 24-byte joint record.
#[derive(Clone, Copy, Debug)]
pub struct JointInfo {
    /// Packs the joint number, its parent and its symmetric partner, one
    /// byte each.
    pub bitfield_0x0: u32,
    /// A single-precision bit pattern.
    pub radius: u32,
    /// A single-precision bit pattern.
    pub length: u32,
    pub offset: MtFloat3A,
}

/// Reads the 24-byte joint record at `at`.
pub fn read_joint_info(data: &[u8], at: usize) -> (r: JointInfo)
    requires
        at + 24 <= data@.len(),
    ensures
        r.bitfield_0x0 == spec_u32_from_le_bytes(data@.subrange(at as int, at + 4)),
        r.radius == spec_u32_from_le_bytes(data@.subrange(at + 4, at + 8)),
        r.length == spec_u32_from_le_bytes(data@.subrange(at + 8, at + 12)),
{
    let len = data.len();
    proof {
        assert(at + 24 <= len);
    }
    JointInfo {
        bitfield_0x0: read_u32_at(data, at),
        radius: read_u32_at(data, at + 4),
        length: read_u32_at(data, at + 8),
        offset: MtFloat3A {
            x: read_u32_at(data, at + 12),
            y: read_u32_at(data, at + 16),
            z: read_u32_at(data, at + 20),
        },
    }
}

impl JointInfo {
    /// The joint's own number.
    pub fn no(&self) -> (r: u32)
        ensures
            r == self.bitfield_0x0 & 0xff,
    {
        self.bitfield_0x0 & 0xff
    }

    /// The joint's parent.
    pub fn parent(&self) -> (r: u32)
        ensures
            r == (self.bitfield_0x0 >> 8) & 0xff,
    {
        (self.bitfield_0x0 >> 8) & 0xff
    }

    /// The joint's symmetric partner.
    pub fn symmetry(&self) -> (r: u32)
        ensures
            r == (self.bitfield_0x0 >> 16) & 0xff,
    {
        (self.bitfield_0x0 >> 16) & 0xff
    }
}

/// Why a model file could not be decoded.
#[derive(Clone, Copy, PartialEq, Eq, Structural, Debug)]
pub enum ModelError {
    /// The input ran short of a declared region.
    Truncated,
    /// A material-name cell carries no terminator.
    MissingTerminator,
}

/// A decoded model file: names, primitives, parts and boundaries, plus the
/// raw vertex and index buffers.
pub struct ModelFile {
    material_names: Vec<String>,
    primitives: Vec<PrimitiveInfo>,
    parts: Vec<PartsInfo>,
    vertex_buf: Vec<u8>,
    index_buf: Vec<u16>,
    boundary_infos: Vec<BoundaryInfo>,
}

impl ModelFile {
    /// The stored material names.
    pub closed spec fn spec_material_names(&self) -> Seq<String> {
        self.material_names@
    }

    /// The stored primitive records.
    pub closed spec fn spec_primitives(&self) -> Seq<PrimitiveInfo> {
        self.primitives@
    }

    /// The stored part records.
    pub closed spec fn spec_parts(&self) -> Seq<PartsInfo> {
        self.parts@
    }

    /// The stored vertex bytes.
    pub closed spec fn spec_vertex_buf(&self) -> Seq<u8> {
        self.vertex_buf@
    }

    /// The stored indices.
    pub closed spec fn spec_index_buf(&self) -> Seq<u16> {
        self.index_buf@
    }

    /// The stored boundary records.
    pub closed spec fn spec_boundary_infos(&self) -> Seq<BoundaryInfo> {
        self.boundary_infos@
    }

    /// Decodes a whole model file: material names, primitive records, the
    /// boundary records that follow them, the joint region (validated and
    /// left to the renderer), the part records, and the raw vertex and
    /// index buffers the header points at.
    #[verifier::loop_isolation(false)]
    #[verifier::rlimit(100)]
    pub fn new(data: &[u8]) -> (r: Result<ModelFile, ModelError>)
        ensures
            data@.len() < 164 ==> r == Err::<ModelFile, ModelError>(ModelError::Truncated),
            (r matches Ok(f) ==> data@.len() >= 164 && ({
                let material_num = spec_u16_from_le_bytes(data@.subrange(10, 12)) as int;
                let primitive_num = spec_u16_from_le_bytes(data@.subrange(8, 10)) as int;
                let parts_num = spec_u32_from_le_bytes(data@.subrange(32, 36)) as int;
                let boundary_num = spec_u32_from_le_bytes(data@.subrange(160, 164)) as int;
                let vertexbuf_size = spec_u32_from_le_bytes(data@.subrange(24, 28)) as int;
                let index_num = spec_u32_from_le_bytes(data@.subrange(16, 20)) as int;
                let prim_base = spec_u64_from_le_bytes(data@.subrange(64, 72)) as int;
                let bound_base = prim_base + 56 * primitive_num;
                let vertex_base = spec_u64_from_le_bytes(data@.subrange(72, 80)) as int;
                let index_base = spec_u64_from_le_bytes(data@.subrange(80, 88)) as int;
                let mat_base = spec_u64_from_le_bytes(data@.subrange(56, 64)) as int;
                &&& f.spec_material_names().len() == material_num
                &&& forall|i: int|
                    0 <= i < material_num ==> (#[trigger] f.spec_material_names()[i])@
                        == crate::text::utf8_lossy_of(
                        crate::text::nul_run(
                            data@.subrange(mat_base + 128 * i, mat_base + 128 * i + 128),
                            0,
                        ),
                    )
                &&& f.spec_primitives().len() == primitive_num
                &&& forall|i: int|
                    0 <= i < primitive_num ==> #[trigger] f.spec_primitives()[i]
                        == spec_primitive_at(data@, prim_base + 56 * i)
                &&& f.spec_boundary_infos().len() == boundary_num
                &&& forall|i: int|
                    0 <= i < boundary_num ==> (#[trigger] f.spec_boundary_infos()[i]).joint
                        == spec_u32_from_le_bytes(
                        data@.subrange(bound_base + 144 * i, bound_base + 144 * i + 4),
                    )
                &&& f.spec_parts().len() == parts_num
                &&& f.spec_vertex_buf() == data@.subrange(vertex_base, vertex_base + vertexbuf_size)
                &&& f.spec_index_buf().len() == index_num
                &&& forall|i: int|
                    0 <= i < index_num ==> #[trigger] f.spec_index_buf()[i]
                        == spec_u16_from_le_bytes(
                        data@.subrange(index_base + 2 * i, index_base + 2 * i + 2),
                    )
            })),
    {
        if data.len() < 164 {
            return Err(ModelError::Truncated);
        }
        let header = read_model_hdr(data);
        let boundary_num = read_u32_at(data, 160);
        let len = data.len();

        let mat_num = header.material_num as usize;
        let mut material_names: Vec<String> = Vec::new();
        let mut i: usize = 0;
        while i < mat_num
            invariant
                i <= mat_num,
                material_names@.len() == i,
                forall|k: int|
                    0 <= k < i ==> (#[trigger] material_names@[k])@ == crate::text::utf8_lossy_of(
                        crate::text::nul_run(
                            data@.subrange(
                                spec_u64_from_le_bytes(data@.subrange(56, 64)) + 128 * k,
                                spec_u64_from_le_bytes(data@.subrange(56, 64)) + 128 * k + 128,
                            ),
                            0,
                        ),
                    ),
            decreases mat_num - i,
        {
            if (len as u64) < 128 || header.material_info > (len as u64) - 128 || 128 * (i as u64)
                > (len as u64) - 128 - header.material_info {
                return Err(ModelError::Truncated);
            }
            let cell = (header.material_info as usize) + 128 * i;
            let window = vstd::slice::slice_subrange(data, cell, cell + 128);
            let name = match crate::text::nul_run_in(window) {
                None => {
                    return Err(ModelError::MissingTerminator);
                },
                Some(run) => crate::text::utf8_lossy(run),
            };
            material_names.push(name);
            i = i + 1;
        }

        let prim_num = header.primitive_num as usize;
        if (len as u64) < 56 && prim_num > 0 {
            return Err(ModelError::Truncated);
        }
        let mut primitives: Vec<PrimitiveInfo> = Vec::new();
        let mut i: usize = 0;
        while i < prim_num
            invariant
                i <= prim_num,
                primitives@.len() == i,
                forall|k: int|
                    0 <= k < i ==> #[trigger] primitives@[k] == spec_primitive_at(
                        data@,
                        spec_u64_from_le_bytes(data@.subrange(64, 72)) + 56 * k,
                    ),
            decreases prim_num - i,
        {
            if (len as u64) < 56 || header.primitive_info > (len as u64) - 56 || 56 * (i as u64) > (
            len as u64) - 56 - header.primitive_info {
                return Err(ModelError::Truncated);
            }
            let at = (header.primitive_info as usize) + 56 * i;
            primitives.push(read_primitive_info(data, at));
            i = i + 1;
        }

        // The boundary records continue right after the primitive table;
        // the original reads them without seeking again.
        if (len as u64) < 56 * (prim_num as u64) || header.primitive_info > (len as u64) - 56 * (
        prim_num as u64) {
            return Err(ModelError::Truncated);
        }
        let bound_base = (header.primitive_info as usize) + 56 * prim_num;
        let bnd_num = boundary_num as usize;
        let mut boundary_infos: Vec<BoundaryInfo> = Vec::new();
        let mut i: usize = 0;
        while i < bnd_num
            invariant
                i <= bnd_num,
                boundary_infos@.len() == i,
                bound_base == spec_u64_from_le_bytes(data@.subrange(64, 72)) + 56 * (
                prim_num as int),
                forall|k: int|
                    0 <= k < i ==> (#[trigger] boundary_infos@[k]).joint == spec_u32_from_le_bytes(
                        data@.subrange(bound_base + 144 * k, bound_base + 144 * k + 4),
                    ),
            decreases bnd_num - i,
        {
            if (len as u64) < 144 || (bound_base as u64) > (len as u64) - 144 || 144 * (i as u64)
                > (len as u64) - 144 - (bound_base as u64) {
                return Err(ModelError::Truncated);
            }
            let at = bound_base + 144 * i;
            boundary_infos.push(read_boundary_info(data, at));
            i = i + 1;
        }

        // The joint region is validated for presence — records, two matrix
        // tables and the joint table — but its contents are left to the
        // renderer.
        if header.jnt_num != 0 {
            let jnt = header.jnt_num as u64;
            let joint_region = 24 * jnt + 128 * jnt + 256;
            if header.joint_info > len as u64 || joint_region > (len as u64) - header.joint_info {
                return Err(ModelError::Truncated);
            }
        }

        let parts_num = header.parts_num as usize;
        let mut parts: Vec<PartsInfo> = Vec::new();
        let mut i: usize = 0;
        while i < parts_num
            invariant
                i <= parts_num,
                parts@.len() == i,
            decreases parts_num - i,
        {
            if (len as u64) < 32 || header.parts_info > (len as u64) - 32 || 32 * (i as u64) > (
            len as u64) - 32 - header.parts_info {
                return Err(ModelError::Truncated);
            }
            let at = (header.parts_info as usize) + 32 * i;
            parts.push(read_parts_info(data, at));
            i = i + 1;
        }

        let vb_size = header.vertexbuf_size as usize;
        if header.vertex_data > len as u64 || (vb_size as u64) > (len as u64) - header.vertex_data {
            return Err(ModelError::Truncated);
        }
        let vertex_base = header.vertex_data as usize;
        let vertex_buf = vstd::slice::slice_to_vec(
            vstd::slice::slice_subrange(data, vertex_base, vertex_base + vb_size),
        );

        let idx_num = header.index_num as usize;
        let mut index_buf: Vec<u16> = Vec::new();
        let mut i: usize = 0;
        while i < idx_num
            invariant
                i <= idx_num,
                index_buf@.len() == i,
                forall|k: int|
                    0 <= k < i ==> #[trigger] index_buf@[k] == spec_u16_from_le_bytes(
                        data@.subrange(
                            spec_u64_from_le_bytes(data@.subrange(80, 88)) + 2 * k,
                            spec_u64_from_le_bytes(data@.subrange(80, 88)) + 2 * k + 2,
                        ),
                    ),
            decreases idx_num - i,
        {
            if (len as u64) < 2 || header.index_data > (len as u64) - 2 || 2 * (i as u64) > (
            len as u64) - 2 - header.index_data {
                return Err(ModelError::Truncated);
            }
            let at = (header.index_data as usize) + 2 * i;
            index_buf.push(read_u16_at(data, at));
            i = i + 1;
        }

        Ok(
            ModelFile {
                material_names,
                primitives,
                parts,
                vertex_buf,
                index_buf,
                boundary_infos,
            },
        )
    }

    /// The raw index buffer.
    pub fn index_buf(&self) -> (r: &[u16])
        ensures
            r@ == self.spec_index_buf(),
    {
        self.index_buf.as_slice()
    }

    /// The raw vertex buffer.
    pub fn vertex_buf(&self) -> (r: &[u8])
        ensures
            r@ == self.spec_vertex_buf(),
    {
        self.vertex_buf.as_slice()
    }

    /// The primitive records, in table order.
    pub fn primitives(&self) -> (r: &[PrimitiveInfo])
        ensures
            r@ == self.spec_primitives(),
    {
        self.primitives.as_slice()
    }

    /// The part records, in table order.
    pub fn parts(&self) -> (r: &[PartsInfo])
        ensures
            r@ == self.spec_parts(),
    {
        self.parts.as_slice()
    }

    /// The material names, in table order.
    pub fn material_names(&self) -> (r: &[String])
        ensures
            r@ == self.spec_material_names(),
    {
        self.material_names.as_slice()
    }

    /// The boundary records, in table order.
    pub fn boundary_infos(&self) -> (r: &[BoundaryInfo])
        ensures
            r@ == self.spec_boundary_infos(),
    {
        self.boundary_infos.as_slice()
    }
}

} // verus!
