//! Shader-package files: the fixed header and the raw records of the
//! shader and input-layout tables.

use vstd::prelude::*;

verus! {

use vstd::bytes::{spec_u16_from_le_bytes, spec_u32_from_le_bytes, spec_u64_from_le_bytes};
use crate::reader::{read_u16_at, read_u32_at, read_u64_at};
use crate::rshader2::{spec_object_like, Shader2File, Shader2Object};

/// The 48-byte shader-package header.
#[derive(Clone, Copy, PartialEq, Eq, Structural, Debug)]
pub struct ShaderPackageHeader {
    pub magic: u32,
    pub shader_version: u32,
    pub version: u16,
    pub num_shaders: u16,
    pub num_vertexshaders: u16,
    pub num_pixelshaders: u16,
    pub num_geometryshaders: u16,
    pub num_hullshaders: u16,
    pub num_domainshaders: u16,
    pub num_computeshaders: u16,
    pub num_inputlayouts: u16,
    pub field_1a: u16,
    pub field_1c: u32,
    pub field_20: u32,
    pub body_length: u32,
    /// Where the shader-code body begins.
    pub body_offset: u64,
}

/// Reads the package header at the start of `data`.
pub fn read_shader_package_header(data: &[u8]) -> (r: ShaderPackageHeader)
    requires
        data@.len() >= 48,
    ensures
        r.magic == spec_u32_from_le_bytes(data@.subrange(0, 4)),
        r.shader_version == spec_u32_from_le_bytes(data@.subrange(4, 8)),
        r.version == spec_u16_from_le_bytes(data@.subrange(8, 10)),
        r.num_shaders == spec_u16_from_le_bytes(data@.subrange(10, 12)),
        r.num_vertexshaders == spec_u16_from_le_bytes(data@.subrange(12, 14)),
        r.num_pixelshaders == spec_u16_from_le_bytes(data@.subrange(14, 16)),
        r.num_geometryshaders == spec_u16_from_le_bytes(data@.subrange(16, 18)),
        r.num_hullshaders == spec_u16_from_le_bytes(data@.subrange(18, 20)),
        r.num_domainshaders == spec_u16_from_le_bytes(data@.subrange(20, 22)),
        r.num_computeshaders == spec_u16_from_le_bytes(data@.subrange(22, 24)),
        r.num_inputlayouts == spec_u16_from_le_bytes(data@.subrange(24, 26)),
        r.field_1a == spec_u16_from_le_bytes(data@.subrange(26, 28)),
        r.field_1c == spec_u32_from_le_bytes(data@.subrange(28, 32)),
        r.field_20 == spec_u32_from_le_bytes(data@.subrange(32, 36)),
        r.body_length == spec_u32_from_le_bytes(data@.subrange(36, 40)),
        r.body_offset == spec_u64_from_le_bytes(data@.subrange(40, 48)),
{
    ShaderPackageHeader {
        magic: read_u32_at(data, 0),
        shader_version: read_u32_at(data, 4),
        version: read_u16_at(data, 8),
        num_shaders: read_u16_at(data, 10),
        num_vertexshaders: read_u16_at(data, 12),
        num_pixelshaders: read_u16_at(data, 14),
        num_geometryshaders: read_u16_at(data, 16),
        num_hullshaders: read_u16_at(data, 18),
        num_domainshaders: read_u16_at(data, 20),
        num_computeshaders: read_u16_at(data, 22),
        num_inputlayouts: read_u16_at(data, 24),
        field_1a: read_u16_at(data, 26),
        field_1c: read_u32_at(data, 28),
        field_20: read_u32_at(data, 32),
        body_length: read_u32_at(data, 36),
        body_offset: read_u64_at(data, 40),
    }
}

/// One 112-byte raw shader record of the table at the end of the core
/// region. None of its interior has been mapped yet; the record exists to
/// pin the table's stride.
#[derive(Clone, Copy, Debug)]
pub struct RawShaderPackageShader {
    pub pad1: [u8; 0x20],
    pub pad2: [u8; 0x20],
    pub pad3: [u8; 0x20],
    pub pad4: [u8; 0x10],
}

/// One 32-byte raw input-layout record: four layout handles, a checksum,
/// and an in-engine pointer slot.
#[derive(Clone, Copy, Debug)]
pub struct RawShaderPackageShaderInput {
    pub layouts: [u32; 4],
    pub crc: u32,
    pub padding1: u32,
    pub playout: u64,
}

/// Reads the 32-byte input-layout record at `at`.
pub fn read_shader_package_input(data: &[u8], at: usize) -> (r: RawShaderPackageShaderInput)
    requires
        at + 32 <= data@.len(),
    ensures
        r.layouts@[0] == spec_u32_from_le_bytes(data@.subrange(at as int, at + 4)),
        r.layouts@[1] == spec_u32_from_le_bytes(data@.subrange(at + 4, at + 8)),
        r.layouts@[2] == spec_u32_from_le_bytes(data@.subrange(at + 8, at + 12)),
        r.layouts@[3] == spec_u32_from_le_bytes(data@.subrange(at + 12, at + 16)),
        r.crc == spec_u32_from_le_bytes(data@.subrange(at + 16, at + 20)),
        r.padding1 == spec_u32_from_le_bytes(data@.subrange(at + 20, at + 24)),
        r.playout == spec_u64_from_le_bytes(data@.subrange(at + 24, at + 32)),
{
    let len = data.len();
    proof {
        assert(at + 32 <= len);
    }
    RawShaderPackageShaderInput {
        layouts: [
            read_u32_at(data, at),
            read_u32_at(data, at + 4),
            read_u32_at(data, at + 8),
            read_u32_at(data, at + 12),
        ],
        crc: read_u32_at(data, at + 16),
        padding1: read_u32_at(data, at + 20),
        playout: read_u64_at(data, at + 24),
    }
}

/// One 16-byte raw shader-code descriptor.
#[derive(Clone, Copy, PartialEq, Eq, Structural, Debug)]
pub struct RawShaderPackageShaderCodeInfo {
    /// Packs the code size in the bits above the low ten.
    pub bitfield_0x0: u32,
    pub crc: u32,
    /// Offset of the code inside the body region.
    pub pcode: u64,
}

/// Reads the 16-byte shader-code descriptor at `at`.
pub fn read_shader_package_code_info(data: &[u8], at: usize) -> (r: RawShaderPackageShaderCodeInfo)
    requires
        at + 16 <= data@.len(),
    ensures
        r.bitfield_0x0 == spec_u32_from_le_bytes(data@.subrange(at as int, at + 4)),
        r.crc == spec_u32_from_le_bytes(data@.subrange(at + 4, at + 8)),
        r.pcode == spec_u64_from_le_bytes(data@.subrange(at + 8, at + 16)),
{
    let len = data.len();
    proof {
        assert(at + 16 <= len);
    }
    RawShaderPackageShaderCodeInfo {
        bitfield_0x0: read_u32_at(data, at),
        crc: read_u32_at(data, at + 4),
        pcode: read_u64_at(data, at + 8),
    }
}

impl RawShaderPackageShaderCodeInfo {
    /// The byte size of the shader code this descriptor points at.
    pub fn code_size(&self) -> (r: u32)
        ensures
            r == self.bitfield_0x0 >> 10,
    {
        self.bitfield_0x0 >> 10
    }
}

/// The size of the core region's fixed part: ten list pointers followed by
/// the 4096-entry pointer table.
pub const SHADER_PACKAGE_CORE_SIZE: usize = 32848;

/// Why a shader package could not be decoded.
#[derive(Clone, Copy, PartialEq, Eq, Structural, Debug)]
pub enum ShaderPackageError {
    /// The input ran short of the header, the core region, or a record.
    Truncated,
}

/// One input-layout record with its four layout slots resolved against the
/// shader catalogue.
pub struct ShaderPackageShaderInput {
    pub layouts: [Option<Shader2Object>; 4],
    pub crc: u32,
}

/// Resolves one layout handle against the catalogue, keeping a copy of the
/// object it names.
fn resolve_layout(shader2: &Shader2File, handle: u32) -> (r: Option<Shader2Object>)
    requires
        shader2.wf(),
    ensures
        ({
            let hash = (handle & 0xfffff000) >> 0xc;
            match r {
                None => !shader2.spec_index_map().contains_key(hash),
                Some(obj) => shader2.spec_index_map().contains_key(hash) && spec_object_like(
                    shader2.spec_objects()[shader2.spec_index_map()[hash] as int],
                    obj,
                ),
            }
        }),
{
    match shader2.get_object_by_handle(handle) {
        None => None,
        Some(obj) => Some(obj.clone()),
    }
}

/// A decoded shader package: its input layouts, with each slot resolved
/// against the catalogue.
pub struct ShaderPackageFile {
    inputs: Vec<ShaderPackageShaderInput>,
}

impl ShaderPackageFile {
    /// The stored input-layout records.
    pub closed spec fn spec_inputs(&self) -> Seq<ShaderPackageShaderInput> {
        self.inputs@
    }

    /// Decodes a whole shader package: the header, the core region, and
    /// one resolved record per declared input layout.
    #[verifier::loop_isolation(false)]
    #[verifier::rlimit(60)]
    pub fn new(data: &[u8], shader2: &Shader2File) -> (r: Result<
        ShaderPackageFile,
        ShaderPackageError,
    >)
        requires
            shader2.wf(),
        ensures
            data@.len() < 48 ==> r == Err::<ShaderPackageFile, ShaderPackageError>(
                ShaderPackageError::Truncated,
            ),
            (r matches Ok(f) ==> data@.len() >= 48 && ({
                let num = spec_u16_from_le_bytes(data@.subrange(24, 26)) as int;
                let body_offset = spec_u64_from_le_bytes(data@.subrange(40, 48)) as int;
                let core = data@.subrange(48, body_offset);
                let ia = spec_u64_from_le_bytes(core.subrange(16, 24)) as int;
                &&& f.spec_inputs().len() == num
                &&& forall|i: int|
                    0 <= i < num ==> (#[trigger] f.spec_inputs()[i]).crc == spec_u32_from_le_bytes(
                        core.subrange(ia + 32 * i + 16, ia + 32 * i + 20),
                    )
            })),
    {
        if data.len() < 48 {
            return Err(ShaderPackageError::Truncated);
        }
        let header = read_shader_package_header(data);
        let len = data.len();
        if header.body_offset < 48 || header.body_offset > len as u64 {
            return Err(ShaderPackageError::Truncated);
        }
        let core = vstd::slice::slice_subrange(data, 48, header.body_offset as usize);
        let core_len = core.len();
        if core_len < SHADER_PACKAGE_CORE_SIZE {
            return Err(ShaderPackageError::Truncated);
        }
        let ia_list = read_u64_at(core, 16);
        let num = header.num_inputlayouts as usize;
        let mut inputs: Vec<ShaderPackageShaderInput> = Vec::new();
        let mut i: usize = 0;
        while i < num
            invariant
                i <= num,
                inputs@.len() == i,
                core@ == data@.subrange(48, spec_u64_from_le_bytes(data@.subrange(40, 48)) as int),
                forall|k: int|
                    0 <= k < i ==> (#[trigger] inputs@[k]).crc == spec_u32_from_le_bytes(
                        core@.subrange(
                            spec_u64_from_le_bytes(core@.subrange(16, 24)) + 32 * k + 16,
                            spec_u64_from_le_bytes(core@.subrange(16, 24)) + 32 * k + 20,
                        ),
                    ),
            decreases num - i,
    {
            if (core_len as u64) < 32 || ia_list > (core_len as u64) - 32 || 32 * (i as u64) > (
            core_len as u64) - 32 - ia_list {
                return Err(ShaderPackageError::Truncated);
            }
            let rec_at = (ia_list as usize) + 32 * i;
            let rec = read_shader_package_input(core, rec_at);
            let l0 = resolve_layout(shader2, rec.layouts[0]);
            let l1 = resolve_layout(shader2, rec.layouts[1]);
            let l2 = resolve_layout(shader2, rec.layouts[2]);
            let l3 = resolve_layout(shader2, rec.layouts[3]);
            inputs.push(ShaderPackageShaderInput { layouts: [l0, l1, l2, l3], crc: rec.crc });
            i = i + 1;
        }
        Ok(ShaderPackageFile { inputs })
    }

    /// The resolved input-layout records, in table order.
    pub fn inputs(&self) -> (r: &[ShaderPackageShaderInput])
        ensures
            r@ == self.spec_inputs(),
    {
        self.inputs.as_slice()
    }
}

} // verus!
