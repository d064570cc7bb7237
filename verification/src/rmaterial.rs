//! Material files: per-material records, their shader-state lists, and the
//! texture table, resolved against the shader catalogue and the type
//! registry.

use vstd::prelude::*;

verus! {

use vstd::bytes::{spec_u32_from_le_bytes, spec_u64_from_le_bytes};
use vstd::string::StringSliceAdditionalSpecFns;
use crate::crc::{crc32, spec_crc32};
use crate::dti::{Dti, DtiRegistry};
use crate::reader::{read_u32_at, read_u64_at, Stream};
use crate::rshader2::Shader2File;
use crate::text::{find_nul, read_null_terminated_string, shift_jis_of};

/// The 40-byte material file header.
#[derive(Clone, Copy, PartialEq, Eq, Structural, Debug)]
pub struct MaterialHeader {
    pub magic: u32,
    pub version: u32,
    pub material_num: u32,
    pub texture_num: u32,
    pub shader_version: u32,
    pub padding1: u32,
    /// Byte offset of the texture records.
    pub textures: u64,
    /// Byte offset of the material records.
    pub materials: u64,
}

/// Reads the material header at the start of `data`.
pub fn read_material_header(data: &[u8]) -> (r: MaterialHeader)
    requires
        data@.len() >= 40,
    ensures
        r.magic == spec_u32_from_le_bytes(data@.subrange(0, 4)),
        r.version == spec_u32_from_le_bytes(data@.subrange(4, 8)),
        r.material_num == spec_u32_from_le_bytes(data@.subrange(8, 12)),
        r.texture_num == spec_u32_from_le_bytes(data@.subrange(12, 16)),
        r.shader_version == spec_u32_from_le_bytes(data@.subrange(16, 20)),
        r.padding1 == spec_u32_from_le_bytes(data@.subrange(20, 24)),
        r.textures == spec_u64_from_le_bytes(data@.subrange(24, 32)),
        r.materials == spec_u64_from_le_bytes(data@.subrange(32, 40)),
{
    MaterialHeader {
        magic: read_u32_at(data, 0),
        version: read_u32_at(data, 4),
        material_num: read_u32_at(data, 8),
        texture_num: read_u32_at(data, 12),
        shader_version: read_u32_at(data, 16),
        padding1: read_u32_at(data, 20),
        textures: read_u64_at(data, 24),
        materials: read_u64_at(data, 32),
    }
}

/// The kinds of shader state a material record lists.
#[derive(Clone, Copy, PartialEq, Eq, Structural, Debug)]
#[allow(non_camel_case_types)]
pub enum MaterialStateType {
    STATE_FUNCTION,
    STATE_CBUFFER,
    STATE_SAMPLER,
    STATE_TEXTURE,
    STATE_PROCEDURAL,
}

/// The state kind a raw code denotes, if it is a known one.
pub open spec fn spec_state_type_from_raw(code: u32) -> Option<MaterialStateType> {
    if code == 0 {
        Some(MaterialStateType::STATE_FUNCTION)
    } else if code == 1 {
        Some(MaterialStateType::STATE_CBUFFER)
    } else if code == 2 {
        Some(MaterialStateType::STATE_SAMPLER)
    } else if code == 3 {
        Some(MaterialStateType::STATE_TEXTURE)
    } else if code == 4 {
        Some(MaterialStateType::STATE_PROCEDURAL)
    } else {
        None
    }
}

impl MaterialStateType {
    /// Decodes a raw state-kind code.
    pub fn from_raw(code: u32) -> (r: Option<MaterialStateType>)
        ensures
            r == spec_state_type_from_raw(code),
    {
        match code {
            0 => Some(MaterialStateType::STATE_FUNCTION),
            1 => Some(MaterialStateType::STATE_CBUFFER),
            2 => Some(MaterialStateType::STATE_SAMPLER),
            3 => Some(MaterialStateType::STATE_TEXTURE),
            4 => Some(MaterialStateType::STATE_PROCEDURAL),
            _ => None,
        }
    }
}

/// One 24-byte raw shader-state record.
#[derive(Clone, Copy, PartialEq, Eq, Structural, Debug)]
pub struct RawMaterialState {
    /// Packs the state kind (4 bits), group (16 bits) and index (12
    /// bits).
    pub bitfield_0x0: u32,
    pub padding: u32,
    /// The state's value; for a texture state, one past the texture
    /// index, with zero meaning none.
    pub sh_value: u64,
    /// The handle of the shader object the state refers to.
    pub sh_crc: u32,
    pub padding1: u32,
}

/// Reads the 24-byte state record at `at`.
pub fn read_material_state(data: &[u8], at: usize) -> (r: RawMaterialState)
    requires
        at + 24 <= data@.len(),
    ensures
        r.bitfield_0x0 == spec_u32_from_le_bytes(data@.subrange(at as int, at + 4)),
        r.padding == spec_u32_from_le_bytes(data@.subrange(at + 4, at + 8)),
        r.sh_value == spec_u64_from_le_bytes(data@.subrange(at + 8, at + 16)),
        r.sh_crc == spec_u32_from_le_bytes(data@.subrange(at + 16, at + 20)),
        r.padding1 == spec_u32_from_le_bytes(data@.subrange(at + 20, at + 24)),
{
    let len = data.len();
    proof {
        assert(at + 24 <= len);
    }
    RawMaterialState {
        bitfield_0x0: read_u32_at(data, at),
        padding: read_u32_at(data, at + 4),
        sh_value: read_u64_at(data, at + 8),
        sh_crc: read_u32_at(data, at + 16),
        padding1: read_u32_at(data, at + 20),
    }
}

impl RawMaterialState {
    /// The state's value word.
    pub fn sh_value(&self) -> (r: u64)
        ensures
            r == self.sh_value,
    {
        self.sh_value
    }

    /// The handle of the shader object the state refers to.
    pub fn sh_crc(&self) -> (r: u32)
        ensures
            r == self.sh_crc,
    {
        self.sh_crc
    }

    /// The raw state-kind code: the low 4 bits.
    pub fn state_type(&self) -> (r: Option<MaterialStateType>)
        ensures
            r == spec_state_type_from_raw(self.bitfield_0x0 & 0xf),
    {
        MaterialStateType::from_raw(self.bitfield_0x0 & 0xf)
    }

    /// The state's group: bits 4..20.
    pub fn group(&self) -> (r: u32)
        ensures
            r == (self.bitfield_0x0 >> 4) & 0xffff,
    {
        (self.bitfield_0x0 >> 4) & 0xffff
    }

    /// The state's index: bits 20..32.
    pub fn index(&self) -> (r: u32)
        ensures
            r == (self.bitfield_0x0 >> 20) & 0xfff,
    {
        (self.bitfield_0x0 >> 20) & 0xfff
    }
}

/// One resolved material: its name hash, its type, and the texture its
/// albedo map state points at, if one was found.
pub struct MaterialInfo {
    name_hash: u32,
    mat_type: Dti,
    albedo_texture_idx: Option<usize>,
}

impl MaterialInfo {
    /// The stored name hash.
    pub closed spec fn spec_name_hash(&self) -> u32 {
        self.name_hash
    }

    /// The stored type descriptor.
    pub closed spec fn spec_mat_type(&self) -> Dti {
        self.mat_type
    }

    /// The stored albedo texture index.
    pub closed spec fn spec_albedo_texture_idx(&self) -> Option<usize> {
        self.albedo_texture_idx
    }

    /// The CRC hash of the material's name.
    pub fn name_hash(&self) -> (r: u32)
        ensures
            r == self.spec_name_hash(),
    {
        self.name_hash
    }

    /// The material's type descriptor.
    pub fn mat_type(&self) -> (r: &Dti)
        ensures
            *r == self.spec_mat_type(),
    {
        &self.mat_type
    }

    /// The texture index of the material's albedo map, if its state list
    /// named one.
    pub fn albedo_texture_idx(&self) -> (r: Option<usize>)
        ensures
            r == self.spec_albedo_texture_idx(),
    {
        self.albedo_texture_idx
    }
}

/// Why a material file could not be decoded.
#[derive(Clone, Copy, PartialEq, Eq, Structural, Debug)]
pub enum MaterialError {
    /// The input ran short of a record.
    Truncated,
    /// A texture or material record references a hash absent from the
    /// registry, or a texture record references no type at all.
    UnknownType { hash: u32 },
    /// A texture record's type is not the texture type.
    NotATexture { hash: u32 },
    /// A state record's kind code is not a known one.
    InvalidStateType { code: u32 },
    /// A texture state's shader handle resolves to no catalogue object.
    UnknownShaderObject { handle: u32 },
}

/// The name a texture record's 128-byte path field decodes to.
pub open spec fn spec_texture_path(data: Seq<u8>, rec: int) -> Seq<char> {
    let sub = data.subrange(rec + 24, rec + 152);
    shift_jis_of(sub.subrange(0, find_nul(sub, 0)))
}

/// A decoded material file: the texture path table and one record per
/// material.
pub struct MaterialFile {
    textures: Vec<String>,
    materials: Vec<MaterialInfo>,
}

impl MaterialFile {
    /// The stored texture paths.
    pub closed spec fn spec_textures(&self) -> Seq<String> {
        self.textures@
    }

    /// The stored materials.
    pub closed spec fn spec_materials(&self) -> Seq<MaterialInfo> {
        self.materials@
    }

    /// Decodes a whole material file: reads each texture record (whose
    /// type must resolve to the registered texture type) and each material
    /// record (whose type must resolve), and scans every material's state
    /// list for the albedo-map texture state.
    #[verifier::loop_isolation(false)]
    #[verifier::rlimit(60)]
    pub fn new(data: &[u8], shader2: &Shader2File, registry: &DtiRegistry) -> (r: Result<
        MaterialFile,
        MaterialError,
    >)
        requires
            shader2.wf(),
            registry.wf(),
        ensures
            (r matches Ok(f) ==> data@.len() >= 40 && ({
                let texture_num = spec_u32_from_le_bytes(data@.subrange(12, 16));
                let material_num = spec_u32_from_le_bytes(data@.subrange(8, 12));
                let tex_base = spec_u64_from_le_bytes(data@.subrange(24, 32)) as int;
                let mat_base = spec_u64_from_le_bytes(data@.subrange(32, 40)) as int;
                &&& f.spec_textures().len() == texture_num
                &&& f.spec_materials().len() == material_num
                &&& forall|i: int|
                    0 <= i < texture_num ==> (#[trigger] f.spec_textures()[i])@
                        == spec_texture_path(data@, tex_base + 152 * i)
                &&& forall|i: int|
                    0 <= i < material_num ==> {
                        let rec = mat_base + 72 * i;
                        let hash = spec_u32_from_le_bytes(data@.subrange(rec, rec + 4));
                        &&& registry.entries().contains_key(hash)
                        &&& (#[trigger] f.spec_materials()[i]).spec_mat_type()
                            == registry.entries()[hash]
                        &&& f.spec_materials()[i].spec_name_hash() == spec_u32_from_le_bytes(
                            data@.subrange(rec + 8, rec + 12),
                        )
                    }
            })),
    {
        if data.len() < 40 {
            return Err(MaterialError::Truncated);
        }
        let header = read_material_header(data);
        let len = data.len();
        let ghost tex_base = header.textures as int;
        let mut textures: Vec<String> = Vec::new();
        let mut i: usize = 0;
        while i < header.texture_num as usize
            invariant
                textures@.len() == i,
                i <= header.texture_num,
                forall|k: int|
                    0 <= k < i ==> (#[trigger] textures@[k])@ == spec_texture_path(
                        data@,
                        tex_base + 152 * k,
                    ),
            decreases header.texture_num - i,
        {
            if (len as u64) < 152 || header.textures > (len as u64) - 152 || 152 * (i as u64) > (
            len as u64) - 152 - header.textures {
                return Err(MaterialError::Truncated);
            }
            let rec = (header.textures as usize) + 152 * i;
            let dti_hash = read_u32_at(data, rec);
            if dti_hash == 0 {
                return Err(MaterialError::UnknownType { hash: 0 });
            }
            let dti = match registry.lookup(dti_hash) {
                None => {
                    return Err(MaterialError::UnknownType { hash: dti_hash });
                },
                Some(d) => d,
            };
            let expected = String::from_str("rTexture");
            if !dti.name.eq(&expected) {
                return Err(MaterialError::NotATexture { hash: dti_hash });
            }
            let path_field = vstd::slice::slice_subrange(data, rec + 24, rec + 152);
            let mut st = Stream::new(path_field, 0);
            let path = match read_null_terminated_string(&mut st, 128) {
                None => {
                    return Err(MaterialError::Truncated);
                },
                Some(p) => p,
            };
            textures.push(path);
            i = i + 1;
        }
        let ghost mat_base = header.materials as int;
        let mut materials: Vec<MaterialInfo> = Vec::new();
        let mut i: usize = 0;
        while i < header.material_num as usize
            invariant
                materials@.len() == i,
                i <= header.material_num,
                forall|k: int|
                    0 <= k < i ==> {
                        let rec = mat_base + 72 * k;
                        let hash = spec_u32_from_le_bytes(data@.subrange(rec, rec + 4));
                        &&& registry.entries().contains_key(hash)
                        &&& (#[trigger] materials@[k]).spec_mat_type() == registry.entries()[hash]
                        &&& materials@[k].spec_name_hash() == spec_u32_from_le_bytes(
                            data@.subrange(rec + 8, rec + 12),
                        )
                    },
            decreases header.material_num - i,
        {
            if (len as u64) < 72 || header.materials > (len as u64) - 72 || 72 * (i as u64) > (
            len as u64) - 72 - header.materials {
                return Err(MaterialError::Truncated);
            }
            let rec = (header.materials as usize) + 72 * i;
            let dti_hash = read_u32_at(data, rec);
            let dti = match registry.lookup(dti_hash) {
                None => {
                    return Err(MaterialError::UnknownType { hash: dti_hash });
                },
                Some(d) => d.clone(),
            };
            let name_hash = read_u32_at(data, rec + 8);
            let state_num = read_u32_at(data, rec + 28) & 0xfff;
            let states = read_u64_at(data, rec + 56);
            let albedo_name = String::from_str("tAlbedoMap");
            let mut albedo_texture_idx: Option<usize> = None;
            let mut s: usize = 0;
            while s < state_num as usize
                invariant
                    s <= state_num,
                decreases state_num - s,
            {
                if (len as u64) < 24 || states > (len as u64) - 24 || 24 * (s as u64) > (
                len as u64) - 24 - states {
                    return Err(MaterialError::Truncated);
                }
                let st_at = (states as usize) + 24 * s;
                let state = read_material_state(data, st_at);
                let state_type = match state.state_type() {
                    None => {
                        return Err(
                            MaterialError::InvalidStateType { code: state.bitfield_0x0 & 0xf },
                        );
                    },
                    Some(t) => t,
                };
                if state_type == MaterialStateType::STATE_TEXTURE && state.sh_value != 0 {
                    let state_obj = match shader2.get_object_by_handle(state.sh_crc) {
                        None => {
                            return Err(
                                MaterialError::UnknownShaderObject { handle: state.sh_crc },
                            );
                        },
                        Some(o) => o,
                    };
                    if state_obj.name.eq(&albedo_name) {
                        albedo_texture_idx = Some(
                            #[verifier::truncate]
                            ((state.sh_value - 1) as usize),
                        );
                    }
                }
                s = s + 1;
            }
            materials.push(MaterialInfo { name_hash, mat_type: dti, albedo_texture_idx });
            i = i + 1;
        }
        Ok(MaterialFile { textures, materials })
    }

    /// The texture paths, in table order.
    pub fn textures(&self) -> (r: &[String])
        ensures
            r@ == self.spec_textures(),
    {
        self.textures.as_slice()
    }

    /// The materials, in record order.
    pub fn materials(&self) -> (r: &[MaterialInfo])
        ensures
            r@ == self.spec_materials(),
    {
        self.materials.as_slice()
    }

    /// The first material whose stored name hash is the seeded CRC-32 of
    /// `name`, if any.
    pub fn material_by_name(&self, name: &str) -> (r: Option<&MaterialInfo>)
        ensures
            ({
                let h = spec_crc32(name.spec_bytes(), 0xffff_ffffu32);
                match r {
                    Some(m) => exists|i: int|
                        0 <= i < self.spec_materials().len() && *m == self.spec_materials()[i]
                            && (#[trigger] self.spec_materials()[i]).spec_name_hash() == h && (
                        forall|k: int|
                            0 <= k < i ==> (#[trigger] self.spec_materials()[k]).spec_name_hash()
                                != h),
                    None => forall|k: int|
                        0 <= k < self.spec_materials().len() ==> (
                        #[trigger] self.spec_materials()[k]).spec_name_hash() != h,
                }
            }),
    {
        let computed_hash = crc32(name.as_bytes(), 0xffff_ffff);
        let mut i: usize = 0;
        while i < self.materials.len()
            invariant
                i <= self.spec_materials().len(),
                computed_hash == spec_crc32(name.spec_bytes(), 0xffff_ffffu32),
                forall|k: int|
                    0 <= k < i ==> (#[trigger] self.spec_materials()[k]).spec_name_hash()
                        != computed_hash,
            decreases self.spec_materials().len() - i,
        {
            if self.materials[i].name_hash == computed_hash {
                return Some(&self.materials[i]);
            }
            i = i + 1;
        }
        None
    }
}

} // verus!
