//! Shader-catalogue files: the raw object records, the bit-packed fields
//! of their per-kind payloads, and the handle-to-object lookup table.

use vstd::prelude::*;

verus! {

use std::collections::HashMap;
use vstd::bytes::{spec_u16_from_le_bytes, spec_u32_from_le_bytes, spec_u64_from_le_bytes};
use crate::reader::{read_u16_at, read_u32_at, read_u64_at};
use crate::text::utf8_lossy;

broadcast use vstd::std_specs::hash::group_hash_axioms;

/// The catalogue magic, `"MFX\0"` read little-endian as a `u32`.
pub const SHADER2_MAGIC: u32 = 0x0058_464d;

/// How deep annotation lists may nest. The wire format gives annotation
/// lists by file offset, so without a bound a cyclic file would never
/// finish decoding.
pub const MAX_ANNOTATION_DEPTH: u32 = 32;

/// The 32-byte shader-catalogue header.
#[derive(Clone, Copy, PartialEq, Eq, Structural, Debug)]
pub struct Shader2Header {
    pub magic: u32,
    pub major_version: u16,
    pub minor_version: u16,
    pub shader_version: u32,
    pub num_objects: u32,
    /// Byte offset of the string table.
    pub stringtable_offs: u64,
    /// Where the object pointer array begins; indexing starts at 1, so a
    /// catalogue holds `num_objects - 1` objects.
    pub pbojects: u64,
}

/// Reads the catalogue header at the start of `data`.
pub fn read_shader2_header(data: &[u8]) -> (r: Shader2Header)
    requires
        data@.len() >= 32,
    ensures
        r.magic == spec_u32_from_le_bytes(data@.subrange(0, 4)),
        r.major_version == spec_u16_from_le_bytes(data@.subrange(4, 6)),
        r.minor_version == spec_u16_from_le_bytes(data@.subrange(6, 8)),
        r.shader_version == spec_u32_from_le_bytes(data@.subrange(8, 12)),
        r.num_objects == spec_u32_from_le_bytes(data@.subrange(12, 16)),
        r.stringtable_offs == spec_u64_from_le_bytes(data@.subrange(16, 24)),
        r.pbojects == spec_u64_from_le_bytes(data@.subrange(24, 32)),
{
    Shader2Header {
        magic: read_u32_at(data, 0),
        major_version: read_u16_at(data, 4),
        minor_version: read_u16_at(data, 6),
        shader_version: read_u32_at(data, 8),
        num_objects: read_u32_at(data, 12),
        stringtable_offs: read_u64_at(data, 16),
        pbojects: read_u64_at(data, 24),
    }
}

/// One 40-byte raw object record.
#[derive(Clone, Copy, PartialEq, Eq, Structural, Debug)]
pub struct RawShader2Object {
    /// String-table offset of the object's name; never zero.
    pub name_offs: u64,
    /// String-table offset of the shader name, or zero.
    pub sname_offs: u64,
    /// Packs the object type (6 bits) and the annotation count (top 10
    /// bits).
    pub bitfield_0x10: u32,
    pub bitfield_0x14: u32,
    pub hash: u32,
    pub padding1: u32,
    /// File offset of the annotation records, or zero.
    pub annotations: u64,
}

/// Reads the 40-byte raw object record at `at`.
pub fn read_raw_shader2_object(data: &[u8], at: usize) -> (r: RawShader2Object)
    requires
        at + 40 <= data@.len(),
    ensures
        r.name_offs == spec_u64_from_le_bytes(data@.subrange(at as int, at + 8)),
        r.sname_offs == spec_u64_from_le_bytes(data@.subrange(at + 8, at + 16)),
        r.bitfield_0x10 == spec_u32_from_le_bytes(data@.subrange(at + 16, at + 20)),
        r.bitfield_0x14 == spec_u32_from_le_bytes(data@.subrange(at + 20, at + 24)),
        r.hash == spec_u32_from_le_bytes(data@.subrange(at + 24, at + 28)),
        r.padding1 == spec_u32_from_le_bytes(data@.subrange(at + 28, at + 32)),
        r.annotations == spec_u64_from_le_bytes(data@.subrange(at + 32, at + 40)),
{
    let len = data.len();
    proof {
        assert(at + 40 <= len);
    }
    RawShader2Object {
        name_offs: read_u64_at(data, at),
        sname_offs: read_u64_at(data, at + 8),
        bitfield_0x10: read_u32_at(data, at + 16),
        bitfield_0x14: read_u32_at(data, at + 20),
        hash: read_u32_at(data, at + 24),
        padding1: read_u32_at(data, at + 28),
        annotations: read_u64_at(data, at + 32),
    }
}

impl RawShader2Object {
    /// The object's kind code: the low 6 bits.
    pub fn obj_type(&self) -> (r: u32)
        ensures
            r == self.bitfield_0x10 & 0x3f,
    {
        self.bitfield_0x10 & 0x3f
    }

    /// How many annotations the object carries: the top 10 bits.
    pub fn annotation_num(&self) -> (r: u32)
        ensures
            r == self.bitfield_0x10 >> 0x16,
    {
        self.bitfield_0x10 >> 0x16
    }
}

/// One 16-byte raw input-layout element record.
#[derive(Clone, Copy, PartialEq, Eq, Structural, Debug)]
pub struct RawShader2InputElement {
    /// String-table offset of the element's semantic name.
    pub name: u64,
    /// Packs `sindex` (6 bits), `format` (5), `count` (7), `start` (4),
    /// `offset` (9), `instance` (1).
    pub bitfield: u32,
    pub padding1: u32,
}

/// Reads the 16-byte element record at `at`.
pub fn read_raw_input_element(data: &[u8], at: usize) -> (r: RawShader2InputElement)
    requires
        at + 16 <= data@.len(),
    ensures
        r.name == spec_u64_from_le_bytes(data@.subrange(at as int, at + 8)),
        r.bitfield == spec_u32_from_le_bytes(data@.subrange(at + 8, at + 12)),
        r.padding1 == spec_u32_from_le_bytes(data@.subrange(at + 12, at + 16)),
{
    let len = data.len();
    proof {
        assert(at + 16 <= len);
    }
    RawShader2InputElement {
        name: read_u64_at(data, at),
        bitfield: read_u32_at(data, at + 8),
        padding1: read_u32_at(data, at + 12),
    }
}

/// One 16-byte raw input-layout payload record.
#[derive(Clone, Copy, PartialEq, Eq, Structural, Debug)]
pub struct RawShader2InputLayout {
    /// Packs the element count (16 bits) and the vertex stride (16 bits).
    pub bitfield_0: u32,
    pub padding1: u32,
    pub pdefaultvalues: u64,
}

/// Reads the 16-byte input-layout payload at `at`.
pub fn read_raw_input_layout(data: &[u8], at: usize) -> (r: RawShader2InputLayout)
    requires
        at + 16 <= data@.len(),
    ensures
        r.bitfield_0 == spec_u32_from_le_bytes(data@.subrange(at as int, at + 4)),
        r.padding1 == spec_u32_from_le_bytes(data@.subrange(at + 4, at + 8)),
        r.pdefaultvalues == spec_u64_from_le_bytes(data@.subrange(at + 8, at + 16)),
{
    let len = data.len();
    proof {
        assert(at + 16 <= len);
    }
    RawShader2InputLayout {
        bitfield_0: read_u32_at(data, at),
        padding1: read_u32_at(data, at + 4),
        pdefaultvalues: read_u64_at(data, at + 8),
    }
}

impl RawShader2InputLayout {
    /// How many element records follow the payload.
    pub fn element_count(&self) -> (r: u32)
        ensures
            r == self.bitfield_0 & 0xffff,
    {
        self.bitfield_0 & 0xffff
    }

    /// The vertex stride in bytes.
    pub fn stride(&self) -> (r: u32)
        ensures
            r == (self.bitfield_0 >> 16) & 0xffff,
    {
        (self.bitfield_0 >> 16) & 0xffff
    }
}

/// One 16-byte raw struct payload record.
#[derive(Clone, Copy, PartialEq, Eq, Structural, Debug)]
pub struct RawShader2Struct {
    /// Packs the member count in bits 10..22.
    pub bitfield_0: u32,
    pub padding1: u32,
    /// File offset of the member variable records.
    pub members: u64,
}

/// Reads the 16-byte struct payload at `at`.
pub fn read_raw_shader2_struct(data: &[u8], at: usize) -> (r: RawShader2Struct)
    requires
        at + 16 <= data@.len(),
    ensures
        r.bitfield_0 == spec_u32_from_le_bytes(data@.subrange(at as int, at + 4)),
        r.padding1 == spec_u32_from_le_bytes(data@.subrange(at + 4, at + 8)),
        r.members == spec_u64_from_le_bytes(data@.subrange(at + 8, at + 16)),
{
    let len = data.len();
    proof {
        assert(at + 16 <= len);
    }
    RawShader2Struct {
        bitfield_0: read_u32_at(data, at),
        padding1: read_u32_at(data, at + 4),
        members: read_u64_at(data, at + 8),
    }
}

impl RawShader2Struct {
    /// How many member variables the struct declares.
    pub fn num_members(&self) -> (r: u32)
        ensures
            r == (self.bitfield_0 >> 0xa) & 0xfff,
    {
        (self.bitfield_0 >> 0xa) & 0xfff
    }
}

/// One 24-byte raw constant-buffer payload record.
#[derive(Clone, Copy, PartialEq, Eq, Structural, Debug)]
pub struct RawShader2CBuffer {
    /// Packs the variable count in the top 16 bits.
    pub bitfield_0: u32,
    pub crc: u32,
    /// File offset of the variable records.
    pub variables: u64,
    pub pinitvalues: u64,
}

/// Reads the 24-byte constant-buffer payload at `at`.
pub fn read_raw_shader2_cbuffer(data: &[u8], at: usize) -> (r: RawShader2CBuffer)
    requires
        at + 24 <= data@.len(),
    ensures
        r.bitfield_0 == spec_u32_from_le_bytes(data@.subrange(at as int, at + 4)),
        r.crc == spec_u32_from_le_bytes(data@.subrange(at + 4, at + 8)),
        r.variables == spec_u64_from_le_bytes(data@.subrange(at + 8, at + 16)),
        r.pinitvalues == spec_u64_from_le_bytes(data@.subrange(at + 16, at + 24)),
{
    let len = data.len();
    proof {
        assert(at + 24 <= len);
    }
    RawShader2CBuffer {
        bitfield_0: read_u32_at(data, at),
        crc: read_u32_at(data, at + 4),
        variables: read_u64_at(data, at + 8),
        pinitvalues: read_u64_at(data, at + 16),
    }
}

impl RawShader2CBuffer {
    /// How many variables the buffer declares.
    pub fn num_variables(&self) -> (r: u32)
        ensures
            r == (self.bitfield_0 >> 16) & 0xffff,
    {
        (self.bitfield_0 >> 16) & 0xffff
    }
}

/// One 48-byte raw variable record.
#[derive(Clone, Copy, PartialEq, Eq, Structural, Debug)]
pub struct RawShader2Variable {
    /// String-table offset of the variable's name.
    pub name: u64,
    /// Packs `attr` (19 bits), `ctype` (3 bits), `size` (10 bits).
    pub bitfield_0x8: u32,
    pub field_4: u32,
    /// String-table offset of the shader name.
    pub sname: u64,
    /// Packs `sindex` (8 bits), `offset` (10 bits), `svalue` (6 bits),
    /// `annotation_num` (8 bits).
    pub bitfield_0x18: u32,
    pub padding1: u32,
    /// File offset of the annotation records, or zero.
    pub annotations: u64,
    pub pinitvalues: u64,
}

/// Reads the 48-byte variable record at `at`.
pub fn read_raw_shader2_variable(data: &[u8], at: usize) -> (r: RawShader2Variable)
    requires
        at + 48 <= data@.len(),
    ensures
        r.name == spec_u64_from_le_bytes(data@.subrange(at as int, at + 8)),
        r.bitfield_0x8 == spec_u32_from_le_bytes(data@.subrange(at + 8, at + 12)),
        r.field_4 == spec_u32_from_le_bytes(data@.subrange(at + 12, at + 16)),
        r.sname == spec_u64_from_le_bytes(data@.subrange(at + 16, at + 24)),
        r.bitfield_0x18 == spec_u32_from_le_bytes(data@.subrange(at + 24, at + 28)),
        r.padding1 == spec_u32_from_le_bytes(data@.subrange(at + 28, at + 32)),
        r.annotations == spec_u64_from_le_bytes(data@.subrange(at + 32, at + 40)),
        r.pinitvalues == spec_u64_from_le_bytes(data@.subrange(at + 40, at + 48)),
{
    let len = data.len();
    proof {
        assert(at + 48 <= len);
    }
    RawShader2Variable {
        name: read_u64_at(data, at),
        bitfield_0x8: read_u32_at(data, at + 8),
        field_4: read_u32_at(data, at + 12),
        sname: read_u64_at(data, at + 16),
        bitfield_0x18: read_u32_at(data, at + 24),
        padding1: read_u32_at(data, at + 28),
        annotations: read_u64_at(data, at + 32),
        pinitvalues: read_u64_at(data, at + 40),
    }
}

/// The wire formats an input element can carry.
#[derive(Clone, Copy, PartialEq, Eq, Structural, Debug)]
#[allow(non_camel_case_types)]
pub enum InputElementFormat {
    IEF_UNDEFINED,
    IEF_F32,
    IEF_F16,
    IEF_S16,
    IEF_U16,
    IEF_S16N,
    IEF_U16N,
    IEF_S8,
    IEF_U8,
    IEF_S8N,
    IEF_U8N,
    IEF_SCMP3N,
    IEF_UCMP3N,
    IEF_U8NL,
    IEF_COLOR4N,
    IEF_MAX,
}

/// The element format a raw code denotes, if it is a known one.
pub open spec fn spec_input_element_format_from_raw(code: u32) -> Option<InputElementFormat> {
    if code == 0 {
        Some(InputElementFormat::IEF_UNDEFINED)
    } else if code == 1 {
        Some(InputElementFormat::IEF_F32)
    } else if code == 2 {
        Some(InputElementFormat::IEF_F16)
    } else if code == 3 {
        Some(InputElementFormat::IEF_S16)
    } else if code == 4 {
        Some(InputElementFormat::IEF_U16)
    } else if code == 5 {
        Some(InputElementFormat::IEF_S16N)
    } else if code == 6 {
        Some(InputElementFormat::IEF_U16N)
    } else if code == 7 {
        Some(InputElementFormat::IEF_S8)
    } else if code == 8 {
        Some(InputElementFormat::IEF_U8)
    } else if code == 9 {
        Some(InputElementFormat::IEF_S8N)
    } else if code == 10 {
        Some(InputElementFormat::IEF_U8N)
    } else if code == 11 {
        Some(InputElementFormat::IEF_SCMP3N)
    } else if code == 12 {
        Some(InputElementFormat::IEF_UCMP3N)
    } else if code == 13 {
        Some(InputElementFormat::IEF_U8NL)
    } else if code == 14 {
        Some(InputElementFormat::IEF_COLOR4N)
    } else if code == 15 {
        Some(InputElementFormat::IEF_MAX)
    } else {
        None
    }
}

impl InputElementFormat {
    /// Decodes a raw element-format code.
    pub fn from_raw(code: u32) -> (r: Option<InputElementFormat>)
        ensures
            r == spec_input_element_format_from_raw(code),
    {
        match code {
            0 => Some(InputElementFormat::IEF_UNDEFINED),
            1 => Some(InputElementFormat::IEF_F32),
            2 => Some(InputElementFormat::IEF_F16),
            3 => Some(InputElementFormat::IEF_S16),
            4 => Some(InputElementFormat::IEF_U16),
            5 => Some(InputElementFormat::IEF_S16N),
            6 => Some(InputElementFormat::IEF_U16N),
            7 => Some(InputElementFormat::IEF_S8),
            8 => Some(InputElementFormat::IEF_U8),
            9 => Some(InputElementFormat::IEF_S8N),
            10 => Some(InputElementFormat::IEF_U8N),
            11 => Some(InputElementFormat::IEF_SCMP3N),
            12 => Some(InputElementFormat::IEF_UCMP3N),
            13 => Some(InputElementFormat::IEF_U8NL),
            14 => Some(InputElementFormat::IEF_COLOR4N),
            15 => Some(InputElementFormat::IEF_MAX),
            _ => None,
        }
    }
}

/// The kinds of object a catalogue can hold.
#[derive(Clone, Copy, PartialEq, Eq, Structural, Debug)]
#[allow(non_camel_case_types)]
pub enum ObjectType {
    OT_CBUFFER,
    OT_TEXTURE,
    OT_FUNCTION,
    OT_SAMPLER,
    OT_BLEND,
    OT_DEPTHSTENCIL,
    OT_RASTERIZER,
    OT_TECHNIQUE,
    OT_STRUCT,
    OT_INPUTLAYOUT,
    OT_SAMPLERCMP,
    OT_POINTSTREAM,
    OT_LINESTREAM,
    OT_TRIANGLESTREAM,
    OT_INPUTPATCH,
    OT_OUTPUTPATCH,
    OT_UNKNOWN_16,
    OT_UNKNOWN_17,
}

/// The object kind a raw code denotes, if it is a known one.
pub open spec fn spec_object_type_from_raw(code: u32) -> Option<ObjectType> {
    if code == 0 {
        Some(ObjectType::OT_CBUFFER)
    } else if code == 1 {
        Some(ObjectType::OT_TEXTURE)
    } else if code == 2 {
        Some(ObjectType::OT_FUNCTION)
    } else if code == 3 {
        Some(ObjectType::OT_SAMPLER)
    } else if code == 4 {
        Some(ObjectType::OT_BLEND)
    } else if code == 5 {
        Some(ObjectType::OT_DEPTHSTENCIL)
    } else if code == 6 {
        Some(ObjectType::OT_RASTERIZER)
    } else if code == 7 {
        Some(ObjectType::OT_TECHNIQUE)
    } else if code == 8 {
        Some(ObjectType::OT_STRUCT)
    } else if code == 9 {
        Some(ObjectType::OT_INPUTLAYOUT)
    } else if code == 10 {
        Some(ObjectType::OT_SAMPLERCMP)
    } else if code == 11 {
        Some(ObjectType::OT_POINTSTREAM)
    } else if code == 12 {
        Some(ObjectType::OT_LINESTREAM)
    } else if code == 13 {
        Some(ObjectType::OT_TRIANGLESTREAM)
    } else if code == 14 {
        Some(ObjectType::OT_INPUTPATCH)
    } else if code == 15 {
        Some(ObjectType::OT_OUTPUTPATCH)
    } else if code == 16 {
        Some(ObjectType::OT_UNKNOWN_16)
    } else if code == 17 {
        Some(ObjectType::OT_UNKNOWN_17)
    } else {
        None
    }
}

impl ObjectType {
    /// Decodes a raw object-kind code.
    pub fn from_raw(code: u32) -> (r: Option<ObjectType>)
        ensures
            r == spec_object_type_from_raw(code),
    {
        match code {
            0 => Some(ObjectType::OT_CBUFFER),
            1 => Some(ObjectType::OT_TEXTURE),
            2 => Some(ObjectType::OT_FUNCTION),
            3 => Some(ObjectType::OT_SAMPLER),
            4 => Some(ObjectType::OT_BLEND),
            5 => Some(ObjectType::OT_DEPTHSTENCIL),
            6 => Some(ObjectType::OT_RASTERIZER),
            7 => Some(ObjectType::OT_TECHNIQUE),
            8 => Some(ObjectType::OT_STRUCT),
            9 => Some(ObjectType::OT_INPUTLAYOUT),
            10 => Some(ObjectType::OT_SAMPLERCMP),
            11 => Some(ObjectType::OT_POINTSTREAM),
            12 => Some(ObjectType::OT_LINESTREAM),
            13 => Some(ObjectType::OT_TRIANGLESTREAM),
            14 => Some(ObjectType::OT_INPUTPATCH),
            15 => Some(ObjectType::OT_OUTPUTPATCH),
            16 => Some(ObjectType::OT_UNKNOWN_16),
            17 => Some(ObjectType::OT_UNKNOWN_17),
            _ => None,
        }
    }
}

/// The classes a shader variable can have.
#[derive(Clone, Copy, PartialEq, Eq, Structural, Debug)]
#[allow(non_camel_case_types)]
pub enum ClassType {
    CT_UNDEFINED,
    CT_VOID,
    CT_SCALAR,
    CT_VECTOR,
    CT_MATRIX,
    CT_STRUCT,
    CT_OBJECT,
}

/// The variable class a raw code denotes, if it is a known one.
pub open spec fn spec_class_type_from_raw(code: u32) -> Option<ClassType> {
    if code == 0 {
        Some(ClassType::CT_UNDEFINED)
    } else if code == 1 {
        Some(ClassType::CT_VOID)
    } else if code == 2 {
        Some(ClassType::CT_SCALAR)
    } else if code == 3 {
        Some(ClassType::CT_VECTOR)
    } else if code == 4 {
        Some(ClassType::CT_MATRIX)
    } else if code == 5 {
        Some(ClassType::CT_STRUCT)
    } else if code == 6 {
        Some(ClassType::CT_OBJECT)
    } else {
        None
    }
}

impl ClassType {
    /// Decodes a raw variable-class code.
    pub fn from_raw(code: u32) -> (r: Option<ClassType>)
        ensures
            r == spec_class_type_from_raw(code),
    {
        match code {
            0 => Some(ClassType::CT_UNDEFINED),
            1 => Some(ClassType::CT_VOID),
            2 => Some(ClassType::CT_SCALAR),
            3 => Some(ClassType::CT_VECTOR),
            4 => Some(ClassType::CT_MATRIX),
            5 => Some(ClassType::CT_STRUCT),
            6 => Some(ClassType::CT_OBJECT),
            _ => None,
        }
    }
}

/// One decoded shader variable; annotations are themselves variables.
pub struct Shader2Variable {
    pub name: String,
    pub sname: String,
    pub ctype: ClassType,
    pub size: u32,
    pub annotations: Option<Vec<Shader2Variable>>,
    pub sindex: u32,
    pub offset: u32,
}

/// What a copy of a variable preserves: everything but the identity of
/// the nested annotation list, whose elements are themselves copies.
pub open spec fn spec_variable_like(a: Shader2Variable, b: Shader2Variable) -> bool {
    &&& a.name@ == b.name@
    &&& a.sname@ == b.sname@
    &&& a.ctype == b.ctype
    &&& a.size == b.size
    &&& a.sindex == b.sindex
    &&& a.offset == b.offset
    &&& (a.annotations is Some <==> b.annotations is Some)
}

/// Two variable lists of the same length whose entries correspond.
pub open spec fn spec_variables_like(a: Seq<Shader2Variable>, b: Seq<Shader2Variable>) -> bool {
    a.len() == b.len() && (forall|i: int|
        0 <= i < a.len() ==> spec_variable_like(#[trigger] a[i], b[i]))
}

impl Clone for Shader2Variable {
    fn clone(&self) -> (r: Self)
        ensures
            spec_variable_like(*self, r),
        decreases *self,
    {
        Shader2Variable {
            name: self.name.clone(),
            sname: self.sname.clone(),
            ctype: self.ctype,
            size: self.size,
            annotations: match &self.annotations {
                None => None,
                Some(list) => Some(clone_variable_list(list)),
            },
            sindex: self.sindex,
            offset: self.offset,
        }
    }
}

/// Clones a variable list element by element.
fn clone_variable_list(list: &Vec<Shader2Variable>) -> (r: Vec<Shader2Variable>)
    ensures
        spec_variables_like(list@, r@),
    decreases *list,
{
    let mut out: Vec<Shader2Variable> = Vec::new();
    let mut i: usize = 0;
    while i < list.len()
        invariant
            i <= list@.len(),
            out@.len() == i,
            forall|k: int| 0 <= k < i ==> spec_variable_like(#[trigger] list@[k], out@[k]),
        decreases list@.len() - i,
    {
        proof {
            assert(decreases_to!(*list => list@[i as int]));
        }
        out.push(list[i].clone());
        i = i + 1;
    }
    out
}

/// One decoded input-layout element.
pub struct Shader2InputElement {
    pub name: String,
    pub sindex: u32,
    pub format: InputElementFormat,
    pub count: u32,
    pub start: u32,
    pub offset: u32,
    pub instance: u32,
}

impl Clone for Shader2InputElement {
    fn clone(&self) -> (r: Self)
        ensures
            r == *self,
    {
        Shader2InputElement {
            name: self.name.clone(),
            sindex: self.sindex,
            format: self.format,
            count: self.count,
            start: self.start,
            offset: self.offset,
            instance: self.instance,
        }
    }
}

/// The payload of an input-layout object.
pub struct Shader2ObjectInputLayoutInfo {
    pub stride: u32,
    pub elements: Vec<Shader2InputElement>,
}

impl Clone for Shader2ObjectInputLayoutInfo {
    fn clone(&self) -> (r: Self)
        ensures
            r.stride == self.stride,
            r.elements@ == self.elements@,
    {
        let mut elements: Vec<Shader2InputElement> = Vec::new();
        let mut i: usize = 0;
        while i < self.elements.len()
            invariant
                i <= self.elements@.len(),
                elements@ == self.elements@.subrange(0, i as int),
            decreases self.elements@.len() - i,
        {
            elements.push(self.elements[i].clone());
            proof {
                assert(elements@ =~= self.elements@.subrange(0, i + 1));
            }
            i = i + 1;
        }
        proof {
            assert(elements@ =~= self.elements@);
        }
        Shader2ObjectInputLayoutInfo { stride: self.stride, elements }
    }
}

/// The payload of a struct object.
pub struct Shader2ObjectStructInfo {
    pub variables: Vec<Shader2Variable>,
}

/// The payload of a constant-buffer object.
pub struct Shader2ObjectCBufferInfo {
    pub crc: u32,
    pub variables: Vec<Shader2Variable>,
}

/// The per-kind payload of a catalogue object.
pub enum Shader2ObjectTypedInfo {
    /// An object kind that carries no decoded payload.
    NoInfo,
    InputLayout(Shader2ObjectInputLayoutInfo),
    Struct(Shader2ObjectStructInfo),
    CBuffer(Shader2ObjectCBufferInfo),
}

impl Clone for Shader2ObjectStructInfo {
    fn clone(&self) -> (r: Self)
        ensures
            spec_variables_like(self.variables@, r.variables@),
    {
        Shader2ObjectStructInfo { variables: clone_variable_list(&self.variables) }
    }
}

impl Clone for Shader2ObjectCBufferInfo {
    fn clone(&self) -> (r: Self)
        ensures
            r.crc == self.crc,
            spec_variables_like(self.variables@, r.variables@),
    {
        Shader2ObjectCBufferInfo { crc: self.crc, variables: clone_variable_list(&self.variables) }
    }
}

/// What a copy of a per-kind payload preserves.
pub open spec fn spec_typed_info_like(a: Shader2ObjectTypedInfo, b: Shader2ObjectTypedInfo) -> bool {
    match (a, b) {
        (Shader2ObjectTypedInfo::NoInfo, Shader2ObjectTypedInfo::NoInfo) => true,
        (Shader2ObjectTypedInfo::InputLayout(x), Shader2ObjectTypedInfo::InputLayout(y)) => {
            x.stride == y.stride && x.elements@ == y.elements@
        },
        (Shader2ObjectTypedInfo::Struct(x), Shader2ObjectTypedInfo::Struct(y)) => {
            spec_variables_like(x.variables@, y.variables@)
        },
        (Shader2ObjectTypedInfo::CBuffer(x), Shader2ObjectTypedInfo::CBuffer(y)) => {
            x.crc == y.crc && spec_variables_like(x.variables@, y.variables@)
        },
        _ => false,
    }
}

impl Clone for Shader2ObjectTypedInfo {
    fn clone(&self) -> (r: Self)
        ensures
            spec_typed_info_like(*self, r),
    {
        match self {
            Shader2ObjectTypedInfo::NoInfo => Shader2ObjectTypedInfo::NoInfo,
            Shader2ObjectTypedInfo::InputLayout(info) => Shader2ObjectTypedInfo::InputLayout(
                info.clone(),
            ),
            Shader2ObjectTypedInfo::Struct(info) => Shader2ObjectTypedInfo::Struct(info.clone()),
            Shader2ObjectTypedInfo::CBuffer(info) => Shader2ObjectTypedInfo::CBuffer(info.clone()),
        }
    }
}

/// One decoded catalogue object.
pub struct Shader2Object {
    pub name: String,
    pub sname: Option<String>,
    pub annotations: Option<Vec<Shader2Variable>>,
    pub obj_type: ObjectType,
    /// The 20-bit hash handles refer to the object by.
    pub name_hash: u32,
    pub obj_specific: Shader2ObjectTypedInfo,
}

/// What a copy of a catalogue object preserves: its identity fields, and
/// its payload up to element-wise copying.
pub open spec fn spec_object_like(a: Shader2Object, b: Shader2Object) -> bool {
    &&& a.name@ == b.name@
    &&& (a.sname is Some <==> b.sname is Some)
    &&& (a.annotations is Some <==> b.annotations is Some)
    &&& a.obj_type == b.obj_type
    &&& a.name_hash == b.name_hash
    &&& spec_typed_info_like(a.obj_specific, b.obj_specific)
}

impl Clone for Shader2Object {
    fn clone(&self) -> (r: Self)
        ensures
            spec_object_like(*self, r),
    {
        Shader2Object {
            name: self.name.clone(),
            sname: match &self.sname {
                None => None,
                Some(s) => Some(s.clone()),
            },
            annotations: match &self.annotations {
                None => None,
                Some(list) => Some(clone_variable_list(list)),
            },
            obj_type: self.obj_type,
            name_hash: self.name_hash,
            obj_specific: self.obj_specific.clone(),
        }
    }
}

impl Shader2Object {
    /// The object's name.
    pub fn name(&self) -> (r: &str)
        ensures
            r@ == self.name@,
    {
        self.name.as_str()
    }

    /// The object's per-kind payload.
    pub fn obj_specific(&self) -> (r: &Shader2ObjectTypedInfo)
        ensures
            r == &self.obj_specific,
    {
        &self.obj_specific
    }
}

/// One 8-byte pointer slot sits wholly inside the pointer region.
proof fn lemma_ptr_slot_fits(base: int, i: int, n: int, len: int)
    by (nonlinear_arith)
    requires
        0 <= i < n,
        0 <= base,
        8 * n <= len - base,
    ensures
        base + 8 * i + 8 <= len,
{
}

/// The string-table run starting at `off`: the bytes up to the first
/// terminator.
#[verifier::loop_isolation(false)]
fn table_run<'a>(table: &'a [u8], off: u64) -> (r: Result<&'a [u8], Shader2Error>)
    ensures
        (r matches Ok(run) ==> off <= table@.len() && run@ == crate::text::nul_run(
            table@,
            off as int,
        )),
        (r matches Err(e) ==> e is Truncated || e is MissingTerminator),
{
    if off > table.len() as u64 {
        return Err(Shader2Error::Truncated);
    }
    let start = off as usize;
    let mut j: usize = start;
    while j < table.len()
        invariant
            start <= j <= table@.len(),
            crate::text::find_nul(table@, start as int) == crate::text::find_nul(table@, j as int),
        decreases table@.len() - j,
    {
        if table[j] == 0 {
            proof {
                assert(crate::text::find_nul(table@, j as int) == j as int);
            }
            return Ok(vstd::slice::slice_subrange(table, start, j));
        }
        j = j + 1;
    }
    Err(Shader2Error::MissingTerminator)
}

/// Decodes `count` 48-byte variable records at `offset`, recursing into
/// their annotation lists down to the fixed depth bound.
#[verifier::loop_isolation(false)]
fn parse_variables(data: &[u8], table: &[u8], offset: u64, count: u32, depth: u32) -> (r: Result<
    Vec<Shader2Variable>,
    Shader2Error,
>)
    ensures
        (r matches Ok(v) ==> v@.len() == count),
        (r matches Err(e) ==> !(e is BadMagic) && !(e is HashCollision)),
    decreases depth,
{
    let len = data.len();
    let mut variables: Vec<Shader2Variable> = Vec::new();
    let mut j: usize = 0;
    while j < count as usize
        invariant
            j <= count,
            variables@.len() == j,
        decreases count - j,
    {
        if (len as u64) < 48 || offset > (len as u64) - 48 || 48 * (j as u64) > (len as u64) - 48
            - offset {
            return Err(Shader2Error::Truncated);
        }
        let rec_at = (offset as usize) + 48 * j;
        let rec = read_raw_shader2_variable(data, rec_at);
        if rec.padding1 != 0 {
            return Err(Shader2Error::InvalidPadding);
        }
        let name = match table_run(table, rec.name) {
            Err(e) => {
                return Err(e);
            },
            Ok(run) => utf8_lossy(run),
        };
        let sname = match table_run(table, rec.sname) {
            Err(e) => {
                return Err(e);
            },
            Ok(run) => utf8_lossy(run),
        };
        let ctype_code = (rec.bitfield_0x8 >> 19) & 0x7;
        let ctype = match ClassType::from_raw(ctype_code) {
            None => {
                return Err(Shader2Error::InvalidClassType { code: ctype_code });
            },
            Some(t) => t,
        };
        let size = (rec.bitfield_0x8 >> 22) & 0x3ff;
        let sindex = rec.bitfield_0x18 & 0xff;
        let var_offset = (rec.bitfield_0x18 >> 8) & 0x3ff;
        let annotation_num = (rec.bitfield_0x18 >> 24) & 0xff;
        let annotations = if rec.annotations != 0 {
            if depth == 0 {
                return Err(Shader2Error::AnnotationsTooDeep);
            }
            match parse_variables(data, table, rec.annotations, annotation_num, depth - 1) {
                Err(e) => {
                    return Err(e);
                },
                Ok(v) => Some(v),
            }
        } else {
            None
        };
        variables.push(
            Shader2Variable { name, sname, ctype, size, annotations, sindex, offset: var_offset },
        );
        j = j + 1;
    }
    Ok(variables)
}

/// Decodes `count` 16-byte input-element records at `at`.
#[verifier::loop_isolation(false)]
fn parse_input_elements(data: &[u8], table: &[u8], at: usize, count: u32) -> (r: Result<
    Vec<Shader2InputElement>,
    Shader2Error,
>)
    ensures
        (r matches Ok(v) ==> v@.len() == count),
        (r matches Err(e) ==> !(e is BadMagic) && !(e is HashCollision)),
{
    let len = data.len();
    let mut elements: Vec<Shader2InputElement> = Vec::new();
    let mut j: usize = 0;
    while j < count as usize
        invariant
            j <= count,
            elements@.len() == j,
        decreases count - j,
    {
        if (len as u64) < 16 || (at as u64) > (len as u64) - 16 || 16 * (j as u64) > (len as u64)
            - 16 - (at as u64) {
            return Err(Shader2Error::Truncated);
        }
        let rec = read_raw_input_element(data, at + 16 * j);
        let name = match table_run(table, rec.name) {
            Err(e) => {
                return Err(e);
            },
            Ok(run) => utf8_lossy(run),
        };
        let format_code = (rec.bitfield >> 6) & 0x1f;
        let format = match InputElementFormat::from_raw(format_code) {
            None => {
                return Err(Shader2Error::InvalidElementFormat { code: format_code });
            },
            Some(f) => f,
        };
        elements.push(
            Shader2InputElement {
                name,
                sindex: rec.bitfield & 0x3f,
                format,
                count: (rec.bitfield >> 11) & 0x7f,
                start: (rec.bitfield >> 18) & 0xf,
                offset: (rec.bitfield >> 22) & 0x1ff,
                instance: (rec.bitfield >> 31) & 0x1,
            },
        );
        j = j + 1;
    }
    Ok(elements)
}

/// No two objects answer to the same name hash.
pub open spec fn spec_distinct_hashes(objs: Seq<Shader2Object>) -> bool {
    forall|k1: int, k2: int|
        0 <= k1 < k2 < objs.len() ==> (#[trigger] objs[k1].name_hash) != (
        #[trigger] objs[k2].name_hash)
}

/// Why a shader catalogue could not be decoded or assembled.
#[derive(Clone, Copy, PartialEq, Eq, Structural, Debug)]
pub enum Shader2Error {
    /// The input ran short of a record or region.
    Truncated,
    /// The first four bytes are not the catalogue magic.
    BadMagic { magic: u32 },
    /// The catalogue declares no objects at all; object indexing starts
    /// at one, so there is no valid count below one.
    InvalidObjectCount,
    /// An object record with a zero name offset.
    MissingName,
    /// A string-table run carries no terminator.
    MissingTerminator,
    /// A padding slot that must be zero was not.
    InvalidPadding,
    /// An object kind code outside the known set.
    InvalidObjectType { code: u32 },
    /// A variable class code outside the known set.
    InvalidClassType { code: u32 },
    /// An input-element format code outside the known set.
    InvalidElementFormat { code: u32 },
    /// Annotation lists nested deeper than the reader's fixed bound.
    AnnotationsTooDeep,
    /// Two objects share one name hash, so handle lookup would be
    /// ambiguous.
    HashCollision { hash: u32 },
}

/// A catalogue of shader objects, indexed by the 20-bit name hash that
/// handles carry.
pub struct Shader2File {
    name_hash_to_object: HashMap<u32, usize>,
    objects: Vec<Shader2Object>,
}

impl Shader2File {
    /// The objects, in catalogue order.
    pub closed spec fn spec_objects(&self) -> Seq<Shader2Object> {
        self.objects@
    }

    /// The lookup table from name hash to object index.
    pub closed spec fn spec_index_map(&self) -> Map<u32, usize> {
        self.name_hash_to_object@
    }

    /// The table is exactly the inverse of the objects' name hashes.
    pub open spec fn wf(&self) -> bool {
        &&& forall|h: u32| #[trigger]
            self.spec_index_map().contains_key(h) ==> self.spec_index_map()[h]
                < self.spec_objects().len() && self.spec_objects()[self.spec_index_map()[h] as int].name_hash
                == h
        &&& forall|k: int|
            0 <= k < self.spec_objects().len() ==> self.spec_index_map().contains_key(
                (#[trigger] self.spec_objects()[k]).name_hash,
            )
    }

    /// Assembles a catalogue from decoded objects, building the lookup
    /// table; fails exactly when two objects share a name hash.
    pub fn from_objects(objects: Vec<Shader2Object>) -> (r: Result<Shader2File, Shader2Error>)
        ensures
            (r matches Ok(f)) <==> spec_distinct_hashes(objects@),
            (r matches Ok(f) ==> f.wf() && f.spec_objects() == objects@),
            (r matches Err(e) ==> e is HashCollision),
    {
        let mut name_hash_to_object: HashMap<u32, usize> = HashMap::new();
        let mut i: usize = 0;
        while i < objects.len()
            invariant
                i <= objects@.len(),
                forall|k1: int, k2: int|
                    0 <= k1 < k2 < i ==> (#[trigger] objects@[k1].name_hash) != (
                    #[trigger] objects@[k2].name_hash),
                forall|h: u32| #[trigger]
                    name_hash_to_object@.contains_key(h) ==> name_hash_to_object@[h] < i
                        && objects@[name_hash_to_object@[h] as int].name_hash == h,
                forall|k: int|
                    0 <= k < i ==> name_hash_to_object@.contains_key(
                        (#[trigger] objects@[k]).name_hash,
                    ),
            decreases objects@.len() - i,
        {
            let h = objects[i].name_hash;
            if name_hash_to_object.contains_key(&h) {
                proof {
                    let k1 = name_hash_to_object@[h] as int;
                    assert(objects@[k1].name_hash == objects@[i as int].name_hash);
                    assert(!spec_distinct_hashes(objects@));
                }
                return Err(Shader2Error::HashCollision { hash: h });
            }
            name_hash_to_object.insert(h, i);
            i = i + 1;
        }
        Ok(Shader2File { name_hash_to_object, objects })
    }

    /// The objects, in catalogue order.
    pub fn objects(&self) -> (r: &[Shader2Object])
        ensures
            r@ == self.spec_objects(),
    {
        self.objects.as_slice()
    }

    /// Decodes a whole catalogue file: the header, one raw object record
    /// per pointer, each object's name, annotations and per-kind payload,
    /// and finally the handle lookup table.
    #[verifier::loop_isolation(false)]
    pub fn new(data: &[u8]) -> (r: Result<Shader2File, Shader2Error>)
        ensures
            data@.len() < 32 ==> r == Err::<Shader2File, Shader2Error>(Shader2Error::Truncated),
            data@.len() >= 32 ==> ({
                let magic = vstd::bytes::spec_u32_from_le_bytes(data@.subrange(0, 4));
                (magic != SHADER2_MAGIC) <==> (r matches Err(Shader2Error::BadMagic { .. }))
            }),
            (r matches Ok(f) ==> data@.len() >= 32 && f.wf() && f.spec_objects().len()
                == vstd::bytes::spec_u32_from_le_bytes(data@.subrange(12, 16)) - 1),
    {
        if data.len() < 32 {
            return Err(Shader2Error::Truncated);
        }
        let header = read_shader2_header(data);
        if header.magic != SHADER2_MAGIC {
            return Err(Shader2Error::BadMagic { magic: header.magic });
        }
        if header.num_objects == 0 {
            return Err(Shader2Error::InvalidObjectCount);
        }
        let len = data.len();
        if header.stringtable_offs > len as u64 {
            return Err(Shader2Error::Truncated);
        }
        let table = vstd::slice::slice_subrange(data, header.stringtable_offs as usize, len);
        let nptrs = (header.num_objects - 1) as usize;
        if ((len - 32) as u64) < 8 * (nptrs as u64) {
            return Err(Shader2Error::Truncated);
        }
        let mut objects: Vec<Shader2Object> = Vec::new();
        let mut i: usize = 0;
        while i < nptrs
            invariant
                i <= nptrs,
                objects@.len() == i,
                8 * nptrs <= data@.len() - 32,
            decreases nptrs - i,
        {
            proof {
                lemma_ptr_slot_fits(32, i as int, nptrs as int, data@.len() as int);
            }
            let ptr = read_u64_at(data, 32 + 8 * i);
            if (len as u64) < 40 || ptr > (len as u64) - 40 {
                return Err(Shader2Error::Truncated);
            }
            let object = read_raw_shader2_object(data, ptr as usize);
            if object.name_offs == 0 {
                return Err(Shader2Error::MissingName);
            }
            let name_run = match table_run(table, object.name_offs) {
                Err(e) => {
                    return Err(e);
                },
                Ok(run) => run,
            };
            let name = utf8_lossy(name_run);
            let name_hash = crate::crc::crc32(name_run, 0xffff_ffff) & 0xfffff;
            let sname = if object.sname_offs != 0 {
                match table_run(table, object.sname_offs) {
                    Err(e) => {
                        return Err(e);
                    },
                    Ok(run) => Some(utf8_lossy(run)),
                }
            } else {
                None
            };
            let annotations = if object.annotations != 0 {
                match parse_variables(
                    data,
                    table,
                    object.annotations,
                    object.annotation_num(),
                    MAX_ANNOTATION_DEPTH,
                ) {
                    Err(e) => {
                        return Err(e);
                    },
                    Ok(v) => Some(v),
                }
            } else {
                None
            };
            let raw_type = object.obj_type();
            let obj_type = match ObjectType::from_raw(raw_type) {
                None => {
                    return Err(Shader2Error::InvalidObjectType { code: raw_type });
                },
                Some(t) => t,
            };
            let payload_at = (ptr as usize) + 40;
            let obj_specific = match obj_type {
                ObjectType::OT_CBUFFER => {
                    if len - payload_at < 24 {
                        return Err(Shader2Error::Truncated);
                    }
                    let raw = read_raw_shader2_cbuffer(data, payload_at);
                    let variables = match parse_variables(
                        data,
                        table,
                        raw.variables,
                        raw.num_variables(),
                        MAX_ANNOTATION_DEPTH,
                    ) {
                        Err(e) => {
                            return Err(e);
                        },
                        Ok(v) => v,
                    };
                    Shader2ObjectTypedInfo::CBuffer(
                        Shader2ObjectCBufferInfo { crc: raw.crc, variables },
                    )
                },
                ObjectType::OT_STRUCT => {
                    if len - payload_at < 16 {
                        return Err(Shader2Error::Truncated);
                    }
                    let raw = read_raw_shader2_struct(data, payload_at);
                    let variables = match parse_variables(
                        data,
                        table,
                        raw.members,
                        raw.num_members(),
                        MAX_ANNOTATION_DEPTH,
                    ) {
                        Err(e) => {
                            return Err(e);
                        },
                        Ok(v) => v,
                    };
                    Shader2ObjectTypedInfo::Struct(Shader2ObjectStructInfo { variables })
                },
                ObjectType::OT_INPUTLAYOUT => {
                    if len - payload_at < 16 {
                        return Err(Shader2Error::Truncated);
                    }
                    let raw = read_raw_input_layout(data, payload_at);
                    match parse_input_elements(data, table, payload_at + 16, raw.element_count()) {
                        Err(e) => {
                            return Err(e);
                        },
                        Ok(elements) => Shader2ObjectTypedInfo::InputLayout(
                            Shader2ObjectInputLayoutInfo { stride: raw.stride(), elements },
                        ),
                    }
                },
                _ => Shader2ObjectTypedInfo::NoInfo,
            };
            objects.push(
                Shader2Object { name, sname, annotations, obj_type, name_hash, obj_specific },
            );
            i = i + 1;
        }
        Shader2File::from_objects(objects)
    }

    /// Resolves a handle: its bits 12..32 are the name hash of the object
    /// it refers to. `None` when no object carries that hash.
    pub fn get_object_by_handle(&self, handle: u32) -> (r: Option<&Shader2Object>)
        requires
            self.wf(),
        ensures
            ({
                let hash = (handle & 0xfffff000) >> 0xc;
                match r {
                    Some(obj) => self.spec_index_map().contains_key(hash) && obj.name_hash == hash
                        && *obj == self.spec_objects()[self.spec_index_map()[hash] as int],
                    None => !self.spec_index_map().contains_key(hash),
                }
            }),
    {
        let hash = (handle & 0xfffff000) >> 0xc;
        match self.name_hash_to_object.get(&hash) {
            None => None,
            Some(idx) => Some(&self.objects[*idx]),
        }
    }
}

} // verus!
