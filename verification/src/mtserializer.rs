//! The document reader: decodes a self-describing binary container into a
//! tree of typed property values.
//!
//! A document is a 24-byte header, a schema blob of `database_size` bytes
//! (pointer table, schema records, property-name strings), and then a flat
//! instance stream (discriminants and payloads). The schema table is built
//! first, in full; the instance stream is then consumed strictly in declared
//! order, one property at a time — a single misread field would desynchronize
//! everything after it, so every read below carries an exact contract.

use vstd::prelude::*;

verus! {

use vstd::bytes::{spec_u16_from_le_bytes, spec_u32_from_le_bytes, spec_u64_from_le_bytes};
use crate::dti::{Dti, DtiRegistry, PropType, spec_prop_type_from_raw, PROP_ATTR_DYNAMIC};
use crate::reader::{Stream, read_u16_at, read_u32_at, read_u64_at};
use crate::text::{read_null_terminated_string, find_nul, shift_jis_of};

/// `"XFS\0"` read little-endian as a `u32`.
pub const XFS_MAGIC: u32 = 0x0053_4658;

/// The only supported major version of the container format.
pub const XFS_MAJOR_VERSION: u16 = 16;

/// The 24-byte document header.
#[derive(Clone, Copy, PartialEq, Eq, Structural, Debug)]
pub struct Header {
    pub magic: u32,
    pub major_version: u16,
    pub minor_version: u16,
    pub max_object_id: u32,
    pub reserved: u32,
    pub object_num: u32,
    pub database_size: u32,
}

/// The header encoded in the first 24 bytes of `s`.
pub open spec fn spec_header(s: Seq<u8>) -> Header
    recommends
        s.len() >= 24,
{
    Header {
        magic: spec_u32_from_le_bytes(s.subrange(0, 4)),
        major_version: spec_u16_from_le_bytes(s.subrange(4, 6)),
        minor_version: spec_u16_from_le_bytes(s.subrange(6, 8)),
        max_object_id: spec_u32_from_le_bytes(s.subrange(8, 12)),
        reserved: spec_u32_from_le_bytes(s.subrange(12, 16)),
        object_num: spec_u32_from_le_bytes(s.subrange(16, 20)),
        database_size: spec_u32_from_le_bytes(s.subrange(20, 24)),
    }
}

/// Reads the document header from the first 24 bytes of `data`.
pub fn read_header(data: &[u8]) -> (r: Header)
    requires
        data@.len() >= 24,
    ensures
        r == spec_header(data@),
{
    Header {
        magic: read_u32_at(data, 0),
        major_version: read_u16_at(data, 4),
        minor_version: read_u16_at(data, 6),
        max_object_id: read_u32_at(data, 8),
        reserved: read_u32_at(data, 12),
        object_num: read_u32_at(data, 16),
        database_size: read_u32_at(data, 20),
    }
}

/// The 16-byte schema header record one object pointer leads to.
#[derive(Clone, Copy, PartialEq, Eq, Structural, Debug)]
pub struct RawObjectInfo {
    pub dti_hash: u32,
    pub padding_0x4: u32,
    /// Packs `num_props` (15 bits) and `is_init` (bit 15).
    pub bitfield_0x8: u32,
    pub padding_0xc: u32,
}

/// Reads the 16-byte schema header record at `at`.
pub fn read_object_record(blob: &[u8], at: usize) -> (r: RawObjectInfo)
    requires
        at + 16 <= blob@.len(),
    ensures
        r.dti_hash == spec_u32_from_le_bytes(blob@.subrange(at as int, at + 4)),
        r.padding_0x4 == spec_u32_from_le_bytes(blob@.subrange(at + 4, at + 8)),
        r.bitfield_0x8 == spec_u32_from_le_bytes(blob@.subrange(at + 8, at + 12)),
        r.padding_0xc == spec_u32_from_le_bytes(blob@.subrange(at + 12, at + 16)),
{
    let len = blob.len();
    proof {
        assert(at + 16 <= len);
    }
    RawObjectInfo {
        dti_hash: read_u32_at(blob, at),
        padding_0x4: read_u32_at(blob, at + 4),
        bitfield_0x8: read_u32_at(blob, at + 8),
        padding_0xc: read_u32_at(blob, at + 12),
    }
}

/// The 48-byte property record; `num_props` of them follow each schema
/// header record.
#[derive(Clone, Copy, Debug)]
pub struct RawPropertyInfo {
    /// Byte offset of the property's name inside the database blob.
    pub name_offset: u64,
    /// Packs `raw_type` (8 bits), `attr` (8 bits), `declared_size` (15
    /// bits) and `disabled` (bit 31).
    pub bitfield_0x8: u32,
    /// Declared but unread space; the wire record is 48 bytes.
    pub pad: [u8; 36],
}

/// Reads the two meaningful fields of the 48-byte property record at `at`.
pub fn read_property_record(blob: &[u8], at: usize) -> (r: RawPropertyInfo)
    requires
        at + 48 <= blob@.len(),
    ensures
        r.name_offset == spec_u64_from_le_bytes(blob@.subrange(at as int, at + 8)),
        r.bitfield_0x8 == spec_u32_from_le_bytes(blob@.subrange(at + 8, at + 12)),
{
    let len = blob.len();
    proof {
        assert(at + 48 <= len);
    }
    RawPropertyInfo {
        name_offset: read_u64_at(blob, at),
        bitfield_0x8: read_u32_at(blob, at + 8),
        pad: [0u8; 36],
    }
}

// Property-record bitfield layout: raw type in bits 0..8, attributes in
// bits 8..16, declared size in bits 16..31, disabled flag in bit 31.

/// The raw type code packed in a property bitfield.
pub open spec fn bf_raw_type(v: u32) -> u32 {
    v & 0xff
}

/// The attribute byte packed in a property bitfield.
pub open spec fn bf_attr(v: u32) -> u32 {
    (v >> 8) & 0xff
}

/// The 15-bit declared size packed in a property bitfield.
pub open spec fn bf_size(v: u32) -> u32 {
    (v >> 16) & 0x7fff
}

/// The disabled flag packed in a property bitfield.
pub open spec fn bf_disabled(v: u32) -> bool {
    v & 0x8000_0000 != 0
}

/// Packs the four property fields back into one bitfield word.
pub open spec fn bf_pack(raw_type: u32, attr: u32, size: u32, disabled: bool) -> u32
    recommends
        raw_type < 0x100,
        attr < 0x100,
        size < 0x8000,
{
    (raw_type | (attr << 8)) | ((size << 16) | if disabled {
        0x8000_0000u32
    } else {
        0u32
    })
}

/// Unpacking a property bitfield and packing the four fields again gives
/// back exactly the original word: the four fields tile the 32 bits with no
/// overlap and no gap.
pub proof fn lemma_prop_bitfield_roundtrip(v: u32)
    ensures
        bf_pack(bf_raw_type(v), bf_attr(v), bf_size(v), bf_disabled(v)) == v,
        bf_raw_type(v) < 0x100,
        bf_attr(v) < 0x100,
        bf_size(v) < 0x8000,
{
    assert(((v & 0xff) | (((v >> 8) & 0xff) << 8)) | ((((v >> 16) & 0x7fff) << 16) | (if v
        & 0x8000_0000 != 0 {
        0x8000_0000u32
    } else {
        0u32
    })) == v) by (bit_vector);
    assert(v & 0xff < 0x100 && (v >> 8) & 0xff < 0x100 && (v >> 16) & 0x7fff < 0x8000)
        by (bit_vector);
}

/// One decoded schema property: its name, the unpacked bitfield, and the
/// grammar its values use.
pub struct PropertyInfo {
    pub name: String,
    pub prop_raw_type: u32,
    pub prop_attr: u32,
    pub prop_size: u32,
    pub is_dynamic: bool,
    pub prop_type: PropType,
    pub is_disabled: bool,
}

/// One decoded schema record: the resolved type and its declared property
/// list, in declared order.
pub struct ObjectInfo {
    pub dti: Dti,
    pub props: Vec<PropertyInfo>,
}

/// Why a document could not be decoded. All of these are structural and
/// fatal for the whole document.
#[derive(Clone, Copy, PartialEq, Eq, Structural, Debug)]
pub enum DecodeError {
    /// The first four bytes are not `"XFS\0"`, or the major version is not
    /// the supported one.
    BadMagicOrVersion { magic: u32, major_version: u16 },
    /// A schema record references a hash absent from the registry.
    UnknownType { hash: u32 },
    /// An object pointer aliases the pointer table or runs out of the blob.
    CorruptPointerTable { index: u32, pointer: u64 },
    /// A pre-initialized schema record, or a disabled property, neither of
    /// which any decode path supports.
    UnsupportedSchemaShape { object_index: u32, disabled_property: bool },
    /// A type code the active grammar does not handle.
    UnsupportedPropertyType { raw_type: u32, dynamic: bool },
    /// The input ran short at a fixed-size read.
    TruncatedInput { offset: u64, needed: u64 },
    /// A discriminant names a schema index past the end of the table.
    InvalidDiscriminant { discriminant: u32, table_len: u64 },
    /// A required node (the document root, or a dynamic class reference)
    /// decoded as absent.
    RequiredNodeAbsent,
    /// The mandatory trailing padding slot of a 3-float vector was not
    /// exactly zero.
    InvalidVectorPadding { found_bits: u32 },
}

// --- The schema table: what the blob must look like, object by object ---

/// The `i`-th entry of the object pointer table.
pub open spec fn spec_ptr(blob: Seq<u8>, i: int) -> u64 {
    spec_u64_from_le_bytes(blob.subrange(8 * i, 8 * i + 8))
}

/// A pointer must not alias the pointer table and must leave room for the
/// 16-byte schema header record it leads to.
pub open spec fn spec_ptr_ok(blob: Seq<u8>, n: int, i: int) -> bool {
    &&& 8 * n <= spec_ptr(blob, i)
    &&& spec_ptr(blob, i) + 16 <= blob.len()
}

/// The first bad pointer at or after index `i`, if any.
pub open spec fn spec_first_bad_ptr(blob: Seq<u8>, n: int, i: int) -> Option<int>
    decreases n - i,
{
    if i >= n {
        None
    } else if !spec_ptr_ok(blob, n, i) {
        Some(i)
    } else {
        spec_first_bad_ptr(blob, n, i + 1)
    }
}

/// The type hash of the schema header record at `p`.
pub open spec fn spec_obj_hash(blob: Seq<u8>, p: int) -> u32 {
    spec_u32_from_le_bytes(blob.subrange(p, p + 4))
}

/// The bitfield of the schema header record at `p`.
pub open spec fn spec_obj_bitfield(blob: Seq<u8>, p: int) -> u32 {
    spec_u32_from_le_bytes(blob.subrange(p + 8, p + 12))
}

/// The property count packed in a schema header bitfield (15 bits).
pub open spec fn spec_obj_num_props(blob: Seq<u8>, p: int) -> u32 {
    spec_obj_bitfield(blob, p) & 0x7fff
}

/// The pre-initialized flag packed in a schema header bitfield (bit 15).
pub open spec fn spec_obj_is_init(blob: Seq<u8>, p: int) -> bool {
    spec_obj_bitfield(blob, p) & 0x8000 != 0
}

/// The name offset of the `j`-th property record after the schema header
/// at `p`.
pub open spec fn spec_prop_name_offset(blob: Seq<u8>, p: int, j: int) -> u64 {
    spec_u64_from_le_bytes(blob.subrange(p + 16 + 48 * j, p + 16 + 48 * j + 8))
}

/// The bitfield of the `j`-th property record after the schema header at
/// `p`.
pub open spec fn spec_prop_bitfield(blob: Seq<u8>, p: int, j: int) -> u32 {
    spec_u32_from_le_bytes(blob.subrange(p + 16 + 48 * j + 8, p + 16 + 48 * j + 12))
}

/// Whether the capped null-terminated name scan starting at `no` succeeds:
/// either a terminator arrives within the 4096-byte defensive cap, or the
/// blob still has bytes past the cap so the name is truncated there.
pub open spec fn spec_name_ok(blob: Seq<u8>, no: int) -> bool {
    &&& 0 <= no <= blob.len()
    &&& {
        let nul = find_nul(blob, no);
        (nul < blob.len() && nul - no <= 4096) || no + 4096 < blob.len()
    }
}

/// The decoded name the scan starting at `no` produces.
pub open spec fn spec_name_chars(blob: Seq<u8>, no: int) -> Seq<char> {
    let nul = find_nul(blob, no);
    if nul < blob.len() && nul - no <= 4096 {
        shift_jis_of(blob.subrange(no, nul))
    } else {
        shift_jis_of(blob.subrange(no, no + 4096))
    }
}

/// The first property of the object at `p` whose name scan fails, among
/// indices `j..m`.
pub open spec fn spec_first_bad_name(blob: Seq<u8>, p: int, j: int, m: int) -> Option<int>
    decreases m - j,
{
    if j >= m {
        None
    } else if !spec_name_ok(blob, spec_prop_name_offset(blob, p, j) as int) {
        Some(j)
    } else {
        spec_first_bad_name(blob, p, j + 1, m)
    }
}

/// The first thing wrong with object `i`, in the order the builder checks:
/// the pre-initialized flag, then the registry lookup, then room for the
/// property records, then each property's name scan.
pub open spec fn spec_object_error(blob: Seq<u8>, reg: Map<u32, Dti>, i: int) -> Option<
    DecodeError,
> {
    let p = spec_ptr(blob, i) as int;
    let m = spec_obj_num_props(blob, p) as int;
    if spec_obj_is_init(blob, p) {
        Some(DecodeError::UnsupportedSchemaShape { object_index: i as u32, disabled_property: false })
    } else if !reg.contains_key(spec_obj_hash(blob, p)) {
        Some(DecodeError::UnknownType { hash: spec_obj_hash(blob, p) })
    } else if p + 16 + 48 * m > blob.len() {
        Some(DecodeError::TruncatedInput { offset: (p + 16) as u64, needed: (48 * m) as u64 })
    } else {
        match spec_first_bad_name(blob, p, 0, m) {
            Some(j) => Some(
                DecodeError::TruncatedInput {
                    offset: spec_prop_name_offset(blob, p, j),
                    needed: 1,
                },
            ),
            None => None,
        }
    }
}

/// The first error among objects `i..n`, if any.
pub open spec fn spec_first_obj_err(blob: Seq<u8>, reg: Map<u32, Dti>, n: int, i: int) -> Option<
    DecodeError,
>
    decreases n - i,
{
    if i >= n {
        None
    } else {
        match spec_object_error(blob, reg, i) {
            Some(e) => Some(e),
            None => spec_first_obj_err(blob, reg, n, i + 1),
        }
    }
}

/// What a correctly decoded `PropertyInfo` for property `j` of the object
/// at `p` holds.
pub open spec fn spec_prop_info_matches(blob: Seq<u8>, p: int, j: int, info: PropertyInfo) -> bool {
    let bf = spec_prop_bitfield(blob, p, j);
    &&& info.name@ == spec_name_chars(blob, spec_prop_name_offset(blob, p, j) as int)
    &&& info.prop_raw_type == bf_raw_type(bf)
    &&& info.prop_attr == bf_attr(bf)
    &&& info.prop_size == bf_size(bf)
    &&& info.is_dynamic == (bf_attr(bf) & PROP_ATTR_DYNAMIC != 0)
    &&& info.prop_type == spec_prop_type_from_raw(bf_raw_type(bf))
    &&& info.is_disabled == bf_disabled(bf)
}

/// What a correctly decoded `ObjectInfo` for pointer-table index `i`
/// holds.
pub open spec fn spec_object_matches(
    blob: Seq<u8>,
    reg: Map<u32, Dti>,
    i: int,
    obj: ObjectInfo,
) -> bool {
    let p = spec_ptr(blob, i) as int;
    &&& obj.dti == reg[spec_obj_hash(blob, p)]
    &&& obj.props@.len() == spec_obj_num_props(blob, p)
    &&& forall|j: int|
        0 <= j < obj.props@.len() ==> spec_prop_info_matches(blob, p, j, #[trigger] obj.props@[j])
}

/// Builds the schema table from the database blob: validates every object
/// pointer first, then resolves one `ObjectInfo` per pointer, in
/// pointer-table order — the order a type discriminant later indexes into.
///
/// The result is `Ok` exactly when the pointer table fits the blob, every
/// pointer is sound, and no object is pre-initialized, of unknown type,
/// short of property records, or carrying an unreadable property name; the
/// error reported is the first violation in checking order.
#[verifier::loop_isolation(false)]
pub fn build_schema_table(blob: &[u8], object_num: u32, registry: &DtiRegistry) -> (r: Result<
    Vec<ObjectInfo>,
    DecodeError,
>)
    requires
        registry.wf(),
    ensures
        ({
            let n = object_num as int;
            let reg = registry.entries();
            &&& 8 * n > blob@.len() ==> (r matches Err(DecodeError::TruncatedInput { .. }))
            &&& 8 * n <= blob@.len() ==> match spec_first_bad_ptr(blob@, n, 0) {
                Some(i) => r == Err::<Vec<ObjectInfo>, DecodeError>(
                    DecodeError::CorruptPointerTable { index: i as u32, pointer: spec_ptr(blob@, i) },
                ),
                None => match spec_first_obj_err(blob@, reg, n, 0) {
                    Some(e) => r == Err::<Vec<ObjectInfo>, DecodeError>(e),
                    None => (r matches Ok(objects) && objects@.len() == n && (forall|i: int|
                        0 <= i < n ==> spec_object_matches(blob@, reg, i, #[trigger] objects@[i]))),
                },
            }
        }),
{
    let n = object_num as usize;
    let blob_len = blob.len();
    if (blob_len as u64) < 8 * (object_num as u64) {
        return Err(
            DecodeError::TruncatedInput { offset: 0, needed: 8 * (object_num as u64) },
        );
    }
    let mut i: usize = 0;
    while i < n
        invariant
            i <= n,
            forall|k: int| 0 <= k < i ==> spec_ptr_ok(blob@, n as int, k),
            spec_first_bad_ptr(blob@, n as int, 0) == spec_first_bad_ptr(blob@, n as int, i as int),
        decreases n - i,
    {
        proof {
            assert(8 * i + 8 <= blob@.len());
        }
        let p = read_u64_at(blob, 8 * i);
        if p < 8 * (object_num as u64) || (blob_len as u64) < 16 || p > (blob_len as u64) - 16 {
            proof {
                assert(!spec_ptr_ok(blob@, n as int, i as int));
            }
            return Err(DecodeError::CorruptPointerTable { index: i as u32, pointer: p });
        }
        proof {
            assert(spec_ptr_ok(blob@, n as int, i as int));
            assert(spec_first_bad_ptr(blob@, n as int, i as int) == spec_first_bad_ptr(
                blob@,
                n as int,
                i + 1,
            ));
        }
        i = i + 1;
    }
    let mut objects: Vec<ObjectInfo> = Vec::new();
    let mut i: usize = 0;
    while i < n
        invariant
            i <= n,
            forall|k: int| 0 <= k < n ==> spec_ptr_ok(blob@, n as int, k),
            spec_first_bad_ptr(blob@, n as int, 0) is None,
            forall|k: int|
                0 <= k < i ==> spec_object_error(blob@, registry.entries(), k) is None,
            spec_first_obj_err(blob@, registry.entries(), n as int, 0) == spec_first_obj_err(
                blob@,
                registry.entries(),
                n as int,
                i as int,
            ),
            objects@.len() == i,
            forall|k: int|
                0 <= k < i ==> spec_object_matches(
                    blob@,
                    registry.entries(),
                    k,
                    #[trigger] objects@[k],
                ),
        decreases n - i,
    {
        proof {
            assert(8 * i + 8 <= blob@.len());
            assert(spec_ptr_ok(blob@, n as int, i as int));
        }
        let p64 = read_u64_at(blob, 8 * i);
        let p = p64 as usize;
        let rec = read_object_record(blob, p);
        let num_props = rec.bitfield_0x8 & 0x7fff;
        let is_init = rec.bitfield_0x8 & 0x8000 != 0;
        if is_init {
            return Err(
                DecodeError::UnsupportedSchemaShape {
                    object_index: i as u32,
                    disabled_property: false,
                },
            );
        }
        let dti = match registry.lookup(rec.dti_hash) {
            None => {
                return Err(DecodeError::UnknownType { hash: rec.dti_hash });
            },
            Some(d) => d.clone(),
        };
        proof {
            let bfv: u32 = rec.bitfield_0x8;
            assert(num_props < 0x8000) by (bit_vector)
                requires
                    num_props == bfv & 0x7fff,
            ;
        }
        let need = 48 * (num_props as usize);
        if need > blob_len - (p + 16) {
            return Err(
                DecodeError::TruncatedInput {
                    offset: (p as u64) + 16,
                    needed: 48 * (num_props as u64),
                },
            );
        }
        let ghost pg = p64 as int;
        let ghost m = spec_obj_num_props(blob@, pg) as int;
        let mut props: Vec<PropertyInfo> = Vec::new();
        let mut j: usize = 0;
        while j < num_props as usize
            invariant
                j <= m,
                num_props as int == m,
                p as int == pg,
                pg + 16 + 48 * m <= blob@.len(),
                props@.len() == j,
                forall|jj: int|
                    0 <= jj < j ==> spec_name_ok(
                        blob@,
                        spec_prop_name_offset(blob@, pg, jj) as int,
                    ),
                forall|jj: int|
                    0 <= jj < j ==> spec_prop_info_matches(blob@, pg, jj, #[trigger] props@[jj]),
                spec_first_bad_name(blob@, pg, 0, m) == spec_first_bad_name(blob@, pg, j as int, m),
            decreases m - j,
        {
            let q = p + 16 + 48 * j;
            let prec = read_property_record(blob, q);
            let no64 = prec.name_offset;
            if no64 > blob_len as u64 {
                proof {
                    assert(!spec_name_ok(blob@, spec_prop_name_offset(blob@, pg, j as int) as int));
                }
                return Err(DecodeError::TruncatedInput { offset: no64, needed: 1 });
            }
            let no = no64 as usize;
            let mut st = Stream::new(blob, no);
            let name = match read_null_terminated_string(&mut st, 4096) {
                None => {
                    proof {
                        assert(!spec_name_ok(
                            blob@,
                            spec_prop_name_offset(blob@, pg, j as int) as int,
                        ));
                    }
                    return Err(DecodeError::TruncatedInput { offset: no64, needed: 1 });
                },
                Some(nm) => nm,
            };
            let bf = prec.bitfield_0x8;
            let raw_type = bf & 0xff;
            let attr = (bf >> 8) & 0xff;
            let size = (bf >> 16) & 0x7fff;
            let disabled = bf & 0x8000_0000 != 0;
            let is_dynamic = attr & PROP_ATTR_DYNAMIC != 0;
            let prop_type = PropType::from_raw(raw_type);
            props.push(
                PropertyInfo {
                    name,
                    prop_raw_type: raw_type,
                    prop_attr: attr,
                    prop_size: size,
                    is_dynamic,
                    prop_type,
                    is_disabled: disabled,
                },
            );
            proof {
                assert(spec_name_ok(blob@, spec_prop_name_offset(blob@, pg, j as int) as int));
                assert(spec_first_bad_name(blob@, pg, j as int, m) == spec_first_bad_name(
                    blob@,
                    pg,
                    j + 1,
                    m,
                ));
                assert(spec_prop_info_matches(blob@, pg, j as int, props@[j as int]));
            }
            j = j + 1;
        }
        objects.push(ObjectInfo { dti, props });
        proof {
            assert(spec_first_bad_name(blob@, pg, m, m) is None);
            assert(spec_object_error(blob@, registry.entries(), i as int) is None);
            assert(spec_first_obj_err(blob@, registry.entries(), n as int, i as int)
                == spec_first_obj_err(blob@, registry.entries(), n as int, i + 1));
            assert(spec_object_matches(blob@, registry.entries(), i as int, objects@[i as int]));
        }
        i = i + 1;
    }
    Ok(objects)
}

// --- Decoded values ---

/// One decoded value. Floating-point payloads are kept as their IEEE-754
/// bit patterns; the wire carries bits, and callers that want arithmetic
/// convert at the edge.
pub enum PropertyValue {
    /// A nested node; `None` when the wire held the null sentinel.
    Class(Option<Class>),
    U16(u16),
    /// A variable-count list of strings, the dynamic grammar's own value.
    Custom(Vec<String>),
    /// Three single-precision values, as bit patterns.
    Vector3(u32, u32, u32),
    Bool(bool),
    U8(u8),
    /// A single-precision value, as a bit pattern.
    F32(u32),
    S32(i32),
    U32(u32),
    S16(i16),
    S8(i8),
    String(String),
}

/// The ordered, possibly-empty sequence of values one property occurrence
/// decoded to.
pub struct Property(Vec<PropertyValue>);

impl View for Property {
    type V = Seq<PropertyValue>;

    closed spec fn view(&self) -> Seq<PropertyValue> {
        self.0@
    }
}

impl Property {
    /// The decoded values, in wire order.
    pub fn values(&self) -> (r: &[PropertyValue])
        ensures
            r@ == self@,
    {
        self.0.as_slice()
    }
}

/// One decoded node: its resolved type and its properties, in declared
/// order. Nodes are value trees; decoding the same schema twice gives two
/// independent nodes.
pub struct Class {
    class_type: Dti,
    props: Vec<(String, Property)>,
}

impl Class {
    /// The node's type descriptor.
    pub closed spec fn spec_class_type(&self) -> Dti {
        self.class_type
    }

    /// The node's `(name, values)` pairs, in declared order.
    pub closed spec fn spec_props(&self) -> Seq<(String, Property)> {
        self.props@
    }

    /// The node's type descriptor.
    pub fn class_type(&self) -> (r: &Dti)
        ensures
            *r == self.spec_class_type(),
    {
        &self.class_type
    }

    /// The node's `(name, values)` pairs, in declared order.
    pub fn props(&self) -> (r: &[(String, Property)])
        ensures
            r@ == self.spec_props(),
    {
        self.props.as_slice()
    }
}

/// The value shapes the static grammar produces, per property type.
pub open spec fn static_value_ok(t: PropType, v: PropertyValue) -> bool {
    match t {
        PropType::Class => v is Class,
        PropType::ClassRef => v is Class,
        PropType::U16 => v is U16,
        PropType::Vector3 => v is Vector3,
        PropType::Bool => v is Bool,
        PropType::U8 => v is U8,
        PropType::F32 => v is F32,
        PropType::S32 => v is S32,
        PropType::U32 => v is U32,
        PropType::S16 => v is S16,
        PropType::S8 => v is S8,
        PropType::String => v is String,
        _ => false,
    }
}

/// The value shapes the dynamic grammar produces: a deliberately disjoint
/// set — `custom` only here, `string` only in the static grammar, and a
/// class reference must not be absent.
pub open spec fn dynamic_value_ok(t: PropType, v: PropertyValue) -> bool {
    match t {
        PropType::Custom => v is Custom,
        PropType::Bool => v is Bool,
        PropType::ClassRef => v matches PropertyValue::Class(Some(_)),
        PropType::S16 => v is S16,
        PropType::S32 => v is S32,
        PropType::U32 => v is U32,
        _ => false,
    }
}

/// The byte width of a static-grammar value, for the types whose values
/// all have one fixed width. Nested nodes and strings vary.
pub open spec fn static_fixed_width(t: PropType) -> Option<int> {
    match t {
        PropType::U16 => Some(2),
        PropType::Vector3 => Some(16),
        PropType::Bool => Some(1),
        PropType::U8 => Some(1),
        PropType::F32 => Some(4),
        PropType::S32 => Some(4),
        PropType::U32 => Some(4),
        PropType::S16 => Some(2),
        PropType::S8 => Some(1),
        _ => None,
    }
}

/// The byte width of a dynamic-grammar value, for the fixed ones.
pub open spec fn dynamic_fixed_width(t: PropType) -> Option<int> {
    match t {
        PropType::Bool => Some(1),
        PropType::S16 => Some(2),
        PropType::S32 => Some(4),
        PropType::U32 => Some(4),
        _ => None,
    }
}

/// The value a fixed-width scalar of type `t` decodes to from the bytes
/// of `b` starting at `at`.
pub open spec fn spec_scalar_value_at(t: PropType, b: Seq<u8>, at: int) -> PropertyValue
    recommends
        static_fixed_width(t) is Some,
{
    match t {
        PropType::U16 => PropertyValue::U16(spec_u16_from_le_bytes(b.subrange(at, at + 2))),
        PropType::Vector3 => PropertyValue::Vector3(
            spec_u32_from_le_bytes(b.subrange(at, at + 4)),
            spec_u32_from_le_bytes(b.subrange(at + 4, at + 8)),
            spec_u32_from_le_bytes(b.subrange(at + 8, at + 12)),
        ),
        PropType::Bool => PropertyValue::Bool(b[at] != 0),
        PropType::U8 => PropertyValue::U8(b[at]),
        PropType::F32 => PropertyValue::F32(spec_u32_from_le_bytes(b.subrange(at, at + 4))),
        PropType::S32 => PropertyValue::S32(
            spec_u32_from_le_bytes(b.subrange(at, at + 4)) as i32,
        ),
        PropType::U32 => PropertyValue::U32(spec_u32_from_le_bytes(b.subrange(at, at + 4))),
        PropType::S16 => PropertyValue::S16(
            spec_u16_from_le_bytes(b.subrange(at, at + 2)) as i16,
        ),
        PropType::S8 => PropertyValue::S8(b[at] as i8),
        _ => PropertyValue::Bool(false),
    }
}

/// Whether the mandatory trailing padding slot of the vector value at
/// `at` holds exactly zero.
pub open spec fn vec3_pad_ok(b: Seq<u8>, at: int) -> bool {
    spec_u32_from_le_bytes(b.subrange(at + 12, at + 16)) & 0x7fff_ffff == 0
}

/// Bounds for one fixed-width item inside a declared array span: the
/// item's cell ends within the array's span, and cells tile it.
proof fn lemma_item_span(p0: int, idx: int, n: int, w: int)
    by (nonlinear_arith)
    requires
        0 <= idx < n,
        1 <= w,
    ensures
        idx * w + w <= n * w,
        (idx + 1) * w == idx * w + w,
{
}

/// Every value of `p` has the shape the property's grammar assigns to its
/// type.
pub open spec fn prop_values_ok(info: PropertyInfo, p: Property) -> bool {
    forall|k: int|
        0 <= k < p@.len() ==> (if info.is_dynamic {
            dynamic_value_ok(info.prop_type, #[trigger] p@[k])
        } else {
            static_value_ok(info.prop_type, p@[k])
        })
}

/// What `read_class` guarantees about one decoded node: its type and
/// property names come from the schema record the discriminant selected,
/// in declared order, and every value fits its property's grammar.
pub open spec fn spec_class_matches(cl: Class, obj: ObjectInfo) -> bool {
    &&& cl.spec_class_type() == obj.dti
    &&& cl.spec_props().len() == obj.props@.len()
    &&& forall|j: int|
        0 <= j < cl.spec_props().len() ==> (#[trigger] cl.spec_props()[j]).0@ == obj.props@[j].name@
            && prop_values_ok(obj.props@[j], cl.spec_props()[j].1)
}

// --- A positional mirror of the instance-stream grammar ---
//
// The decoding functions below are recursive and their values have
// variable sizes, so their contracts state consumption through a spec
// mirror: a recursive specification that walks the same grammar over the
// bytes and yields either the exact position after the decoded span or
// the kind of failure. Each function then returns `Ok` exactly when its
// mirror does. The mirror needs only the shape of the schema — which
// grammar each property uses and what type it has — so that shape is
// split out as a ghost structure a spec function can build straight from
// the blob.

/// The shape of one schema property: everything the instance grammar
/// dispatches on.
pub struct ShapeProp {
    pub raw_type: u32,
    pub prop_type: PropType,
    pub is_dynamic: bool,
    pub is_disabled: bool,
}

/// The shape of one schema record.
pub struct ShapeObject {
    pub props: Seq<ShapeProp>,
}

/// The shape of one decoded property.
pub open spec fn shape_of_prop(p: PropertyInfo) -> ShapeProp {
    ShapeProp {
        raw_type: p.prop_raw_type,
        prop_type: p.prop_type,
        is_dynamic: p.is_dynamic,
        is_disabled: p.is_disabled,
    }
}

/// The shape of a decoded property list.
pub open spec fn shape_of_props(props: Seq<PropertyInfo>) -> Seq<ShapeProp> {
    props.map_values(|p: PropertyInfo| shape_of_prop(p))
}

/// The shape of a decoded schema table.
pub open spec fn shape_of(objects: Seq<ObjectInfo>) -> Seq<ShapeObject> {
    objects.map_values(|o: ObjectInfo| ShapeObject { props: shape_of_props(o.props@) })
}

/// The shape of the schema table encoded in the blob, read straight from
/// the records the pointer table leads to.
pub open spec fn spec_schema_shape(blob: Seq<u8>, n: int) -> Seq<ShapeObject> {
    Seq::new(
        n as nat,
        |i: int|
            {
                let p = spec_ptr(blob, i) as int;
                ShapeObject {
                    props: Seq::new(
                        spec_obj_num_props(blob, p) as nat,
                        |j: int|
                            {
                                let bf = spec_prop_bitfield(blob, p, j);
                                ShapeProp {
                                    raw_type: bf_raw_type(bf),
                                    prop_type: spec_prop_type_from_raw(bf_raw_type(bf)),
                                    is_dynamic: bf_attr(bf) & PROP_ATTR_DYNAMIC != 0,
                                    is_disabled: bf_disabled(bf),
                                }
                            },
                    ),
                }
            },
    )
}

/// A schema table that decodes correctly has exactly the shape the blob
/// encodes.
pub proof fn lemma_schema_shape(blob: Seq<u8>, reg: Map<u32, Dti>, n: int, objects: Seq<ObjectInfo>)
    requires
        objects.len() == n,
        forall|i: int| 0 <= i < n ==> spec_object_matches(blob, reg, i, #[trigger] objects[i]),
    ensures
        shape_of(objects) == spec_schema_shape(blob, n),
{
    assert forall|i: int| 0 <= i < n implies shape_of(objects)[i] == spec_schema_shape(blob, n)[i] by {
        assert(spec_object_matches(blob, reg, i, objects[i]));
        assert(shape_of(objects)[i].props =~= spec_schema_shape(blob, n)[i].props);
        assert(shape_of(objects)[i] =~= spec_schema_shape(blob, n)[i]);
    }
    assert(shape_of(objects) =~= spec_schema_shape(blob, n));
}

/// Whether two errors report the same kind of failure.
pub open spec fn same_error_kind(a: DecodeError, b: DecodeError) -> bool {
    match (a, b) {
        (DecodeError::BadMagicOrVersion { .. }, DecodeError::BadMagicOrVersion { .. }) => true,
        (DecodeError::UnknownType { .. }, DecodeError::UnknownType { .. }) => true,
        (DecodeError::CorruptPointerTable { .. }, DecodeError::CorruptPointerTable { .. }) => true,
        (DecodeError::UnsupportedSchemaShape { .. }, DecodeError::UnsupportedSchemaShape { .. }) => true,
        (
            DecodeError::UnsupportedPropertyType { .. },
            DecodeError::UnsupportedPropertyType { .. },
        ) => true,
        (DecodeError::TruncatedInput { .. }, DecodeError::TruncatedInput { .. }) => true,
        (DecodeError::InvalidDiscriminant { .. }, DecodeError::InvalidDiscriminant { .. }) => true,
        (DecodeError::RequiredNodeAbsent, DecodeError::RequiredNodeAbsent) => true,
        (DecodeError::InvalidVectorPadding { .. }, DecodeError::InvalidVectorPadding { .. }) => true,
        _ => false,
    }
}

/// The position after a capped null-terminated string read starting at
/// `p`, or the failure that stops it.
pub open spec fn mirror_string(b: Seq<u8>, p: int, cap: int) -> Result<int, DecodeError> {
    let nul = find_nul(b, p);
    if nul < b.len() && nul - p <= cap {
        Ok(nul + 1)
    } else if p + cap < b.len() {
        Ok(p + cap + 1)
    } else {
        Err(DecodeError::TruncatedInput { offset: b.len() as u64, needed: 1 })
    }
}

/// The position after one node occurrence starting at `p`, or the failure
/// that stops it.
pub open spec fn mirror_class(b: Seq<u8>, p: int, shapes: Seq<ShapeObject>) -> Result<
    int,
    DecodeError,
>
    decreases b.len() - p, 0int, 0int,
{
    if p + 4 > b.len() {
        Err(DecodeError::TruncatedInput { offset: p as u64, needed: 4 })
    } else {
        let d = spec_u32_from_le_bytes(b.subrange(p, p + 4));
        if d & 0xfffe == 0xfffe {
            Ok(p + 4)
        } else {
            let idx = ((d >> 1) & 0x7fff) as int;
            if idx >= shapes.len() {
                Err(
                    DecodeError::InvalidDiscriminant {
                        discriminant: d,
                        table_len: shapes.len() as u64,
                    },
                )
            } else if p + 12 > b.len() {
                Err(DecodeError::TruncatedInput { offset: (p + 4) as u64, needed: 8 })
            } else {
                mirror_props(b, p + 12, shapes, idx, 0)
            }
        }
    }
}

/// The position after the declared properties `j..` of schema record
/// `idx`, read in order from `q`.
pub open spec fn mirror_props(
    b: Seq<u8>,
    q: int,
    shapes: Seq<ShapeObject>,
    idx: int,
    j: int,
) -> Result<int, DecodeError>
    decreases b.len() - q, 3int, shapes[idx].props.len() - j,
{
    if j < 0 || j >= shapes[idx].props.len() {
        Ok(q)
    } else {
        let info = shapes[idx].props[j];
        if info.is_disabled {
            Err(
                DecodeError::UnsupportedSchemaShape {
                    object_index: idx as u32,
                    disabled_property: true,
                },
            )
        } else if q + 4 > b.len() {
            Err(DecodeError::TruncatedInput { offset: q as u64, needed: 4 })
        } else {
            let n = spec_u32_from_le_bytes(b.subrange(q, q + 4)) as int;
            let step = if info.is_dynamic {
                mirror_dynamic_items(b, q + 4, shapes, info, n)
            } else {
                mirror_static_items(b, q + 4, shapes, info, n)
            };
            match step {
                Err(e) => Err(e),
                Ok(q2) => {
                    if q < q2 <= b.len() {
                        mirror_props(b, q2, shapes, idx, j + 1)
                    } else {
                        Ok(q2)
                    }
                },
            }
        }
    }
}

/// The position after `k` static-grammar values starting at `q`.
pub open spec fn mirror_static_items(
    b: Seq<u8>,
    q: int,
    shapes: Seq<ShapeObject>,
    info: ShapeProp,
    k: int,
) -> Result<int, DecodeError>
    decreases b.len() - q, 2int, k,
{
    if k <= 0 {
        Ok(q)
    } else {
        let step: Result<int, DecodeError> = match static_fixed_width(info.prop_type) {
            Some(w) => {
                if info.prop_type == PropType::Vector3 {
                    let avail = b.len() - q;
                    if avail >= 16 {
                        let pad = spec_u32_from_le_bytes(b.subrange(q + 12, q + 16));
                        if pad & 0x7fff_ffff == 0 {
                            Ok(q + 16)
                        } else {
                            Err(DecodeError::InvalidVectorPadding { found_bits: pad })
                        }
                    } else {
                        Err(
                            DecodeError::TruncatedInput {
                                offset: (q + 4 * (avail / 4)) as u64,
                                needed: (16 - 4 * (avail / 4)) as u64,
                            },
                        )
                    }
                } else if q + w > b.len() {
                    Err(DecodeError::TruncatedInput { offset: q as u64, needed: w as u64 })
                } else {
                    Ok(q + w)
                }
            },
            None => {
                if info.prop_type == PropType::Class || info.prop_type == PropType::ClassRef {
                    mirror_class(b, q, shapes)
                } else if info.prop_type == PropType::String {
                    mirror_string(b, q, 512)
                } else {
                    Err(
                        DecodeError::UnsupportedPropertyType {
                            raw_type: info.raw_type,
                            dynamic: false,
                        },
                    )
                }
            },
        };
        match step {
            Err(e) => Err(e),
            Ok(q2) => {
                if q < q2 <= b.len() {
                    mirror_static_items(b, q2, shapes, info, k - 1)
                } else {
                    Ok(q2)
                }
            },
        }
    }
}

/// The position after `k` dynamic-grammar values starting at `q`.
pub open spec fn mirror_dynamic_items(
    b: Seq<u8>,
    q: int,
    shapes: Seq<ShapeObject>,
    info: ShapeProp,
    k: int,
) -> Result<int, DecodeError>
    decreases b.len() - q, 2int, k,
{
    if k <= 0 {
        Ok(q)
    } else {
        let step: Result<int, DecodeError> = match dynamic_fixed_width(info.prop_type) {
            Some(w) => {
                if q + w > b.len() {
                    Err(DecodeError::TruncatedInput { offset: q as u64, needed: w as u64 })
                } else {
                    Ok(q + w)
                }
            },
            None => {
                if info.prop_type == PropType::Custom {
                    if q + 1 > b.len() {
                        Err(DecodeError::TruncatedInput { offset: q as u64, needed: 1 })
                    } else {
                        mirror_customs(b, q + 1, b[q] as int)
                    }
                } else if info.prop_type == PropType::ClassRef {
                    if q + 4 <= b.len() && spec_u32_from_le_bytes(b.subrange(q, q + 4)) & 0xfffe
                        == 0xfffe {
                        Err(DecodeError::RequiredNodeAbsent)
                    } else {
                        mirror_class(b, q, shapes)
                    }
                } else {
                    Err(
                        DecodeError::UnsupportedPropertyType {
                            raw_type: info.raw_type,
                            dynamic: true,
                        },
                    )
                }
            },
        };
        match step {
            Err(e) => Err(e),
            Ok(q2) => {
                if q < q2 <= b.len() {
                    mirror_dynamic_items(b, q2, shapes, info, k - 1)
                } else {
                    Ok(q2)
                }
            },
        }
    }
}

/// The position after `m` capped strings of a custom value starting at
/// `q`.
pub open spec fn mirror_customs(b: Seq<u8>, q: int, m: int) -> Result<int, DecodeError>
    decreases b.len() - q, 1int, m,
{
    if m <= 0 {
        Ok(q)
    } else {
        match mirror_string(b, q, 128) {
            Err(e) => Err(e),
            Ok(q2) => {
                if q < q2 <= b.len() {
                    mirror_customs(b, q2, m - 1)
                } else {
                    Ok(q2)
                }
            },
        }
    }
}

/// The position after one whole property occurrence — the element count
/// and its values — read with the grammar the property declares.
pub open spec fn mirror_prop(b: Seq<u8>, q: int, shapes: Seq<ShapeObject>, info: ShapeProp) -> Result<
    int,
    DecodeError,
> {
    if q + 4 > b.len() {
        Err(DecodeError::TruncatedInput { offset: q as u64, needed: 4 })
    } else {
        let n = spec_u32_from_le_bytes(b.subrange(q, q + 4)) as int;
        if info.is_dynamic {
            mirror_dynamic_items(b, q + 4, shapes, info, n)
        } else {
            mirror_static_items(b, q + 4, shapes, info, n)
        }
    }
}

/// Reads one static-grammar property occurrence: a `u32` element count,
/// then that many values of the property's type.
#[verifier::loop_isolation(false)]
fn read_static_prop(s: &mut Stream, prop: &PropertyInfo, objects: &Vec<ObjectInfo>) -> (r: Result<
    Property,
    DecodeError,
>)
    requires
        old(s).wf(),
        !prop.is_dynamic,
    ensures
        final(s).wf(),
        final(s).bytes() == old(s).bytes(),
        old(s).pos() <= final(s).pos(),
        old(s).pos() + 4 > old(s).bytes().len() ==> (r matches Err(DecodeError::TruncatedInput {
            ..
        })),
        (r matches Ok(p) ==> {
            &&& old(s).pos() + 4 <= old(s).bytes().len()
            &&& p@.len() == spec_u32_from_le_bytes(
                old(s).bytes().subrange(old(s).pos(), old(s).pos() + 4),
            )
            &&& forall|k: int| 0 <= k < p@.len() ==> static_value_ok(prop.prop_type, #[trigger] p@[k])
            &&& final(s).pos() >= old(s).pos() + 4
        }),
        // For the fixed-width scalar types the contract is exact: success
        // is owed whenever the declared array fits (and, for vectors,
        // every padding slot is zero), every value is the one encoded at
        // its position, and the consumption is the array's exact span.
        ({
            let b = old(s).bytes();
            let p0 = old(s).pos();
            static_fixed_width(prop.prop_type) matches Some(w) ==> p0 + 4 <= b.len() ==> {
                let n = spec_u32_from_le_bytes(b.subrange(p0, p0 + 4)) as int;
                &&& (p0 + 4 + n * w <= b.len() && (prop.prop_type != PropType::Vector3 || (
                forall|k: int| 0 <= k < n ==> #[trigger] vec3_pad_ok(b, p0 + 4 + 16 * k))) ==> r is Ok)
                &&& (r matches Ok(p) ==> final(s).pos() == p0 + 4 + n * w && (forall|k: int|
                    0 <= k < n ==> #[trigger] p@[k] == spec_scalar_value_at(
                        prop.prop_type,
                        b,
                        p0 + 4 + k * w,
                    )))
            }
        }),
        // The mirror pins the outcome completely: this function returns
        // `Ok` exactly when the mirror does, consuming exactly the span
        // the mirror gives, and fails with the same kind of error
        // otherwise.
        ({
            let b = old(s).bytes();
            let p0 = old(s).pos();
            match mirror_prop(b, p0, shape_of(objects@), shape_of_prop(*prop)) {
                Ok(q) => r is Ok && final(s).pos() == q,
                Err(e) => (r matches Err(e2) && same_error_kind(e, e2)),
            }
        }),
        (r matches Err(e) ==> !(e is BadMagicOrVersion)),
    decreases old(s).bytes().len() - old(s).pos(),
{
    let ghost p0 = old(s).pos();
    let ghost b = old(s).bytes();
    let ghost shapes = shape_of(objects@);
    let ghost ip = shape_of_prop(*prop);
    let array_len = match s.read_u32() {
        None => {
            return Err(
                DecodeError::TruncatedInput { offset: s.position() as u64, needed: 4 },
            );
        },
        Some(v) => v,
    };
    let mut values: Vec<PropertyValue> = Vec::new();
    let mut idx: u32 = 0;
    while idx < array_len
        invariant
            s.wf(),
            s.bytes() == old(s).bytes(),
            s.pos() >= p0 + 4,
            idx <= array_len,
            values@.len() == idx,
            mirror_static_items(b, s.pos(), shapes, ip, array_len - idx) == mirror_static_items(
                b,
                p0 + 4,
                shapes,
                ip,
                array_len as int,
            ),
            forall|k: int| 0 <= k < idx ==> static_value_ok(prop.prop_type, #[trigger] values@[k]),
            static_fixed_width(prop.prop_type) matches Some(w) ==> s.pos() == p0 + 4 + idx * w && (
            forall|k: int|
                0 <= k < idx ==> #[trigger] values@[k] == spec_scalar_value_at(
                    prop.prop_type,
                    old(s).bytes(),
                    p0 + 4 + k * w,
                )),
        decreases array_len - idx,
    {
        let ghost q = s.pos();
        let v = match prop.prop_type {
            PropType::Class | PropType::ClassRef => {
                match read_class(s, objects) {
                    Err(e) => {
                        proof {
                            assert(mirror_class(b, q, shapes) is Err);
                            assert(mirror_static_items(b, q, shapes, ip, array_len - idx)
                                matches Err(em) && same_error_kind(em, e));
                        }
                        return Err(e);
                    },
                    Ok(c) => {
                        proof {
                            assert(q + 4 <= b.len());
                            assert(q < s.pos() <= b.len());
                            assert(mirror_static_items(b, q, shapes, ip, array_len - idx)
                                == mirror_static_items(
                                b,
                                s.pos(),
                                shapes,
                                ip,
                                array_len - idx - 1,
                            ));
                        }
                        PropertyValue::Class(c)
                    },
                }
            },
            PropType::U16 => {
                match s.read_u16() {
                    None => {
                        proof {
                            if p0 + 4 + (array_len as int) * 2 <= old(s).bytes().len() {
                                lemma_item_span(p0, idx as int, array_len as int, 2);
                                assert(false);
                            }
                            assert(mirror_static_items(b, q, shapes, ip, array_len - idx)
                                is Err);
                        }
                        return Err(
                            DecodeError::TruncatedInput { offset: s.position() as u64, needed: 2 },
                        );
                    },
                    Some(v) => {
                        let decoded = PropertyValue::U16(v);
                        proof {
                            lemma_item_span(p0, idx as int, array_len as int, 2);
                            assert(decoded == spec_scalar_value_at(
                                prop.prop_type,
                                old(s).bytes(),
                                p0 + 4 + (idx as int) * 2,
                            ));
                            assert(mirror_static_items(b, q, shapes, ip, array_len - idx)
                                == mirror_static_items(
                                b,
                                q + 2,
                                shapes,
                                ip,
                                array_len - idx - 1,
                            ));
                        }
                        decoded
                    },
                }
            },
            PropType::Vector3 => {
                match read_vector3(s) {
                    Err(e) => {
                        proof {
                            let n = array_len as int;
                            if p0 + 4 + n * 16 <= b.len() && (forall|k: int|
                                0 <= k < n ==> #[trigger] vec3_pad_ok(b, p0 + 4 + 16 * k)) {
                                lemma_item_span(p0, idx as int, n, 16);
                                assert(vec3_pad_ok(b, p0 + 4 + 16 * (idx as int)));
                                assert(false);
                            }
                            assert(mirror_static_items(b, q, shapes, ip, array_len - idx)
                                matches Err(em) && same_error_kind(em, e));
                        }
                        return Err(e);
                    },
                    Ok((x, y, z)) => {
                        let decoded = PropertyValue::Vector3(x, y, z);
                        proof {
                            lemma_item_span(p0, idx as int, array_len as int, 16);
                            assert(decoded == spec_scalar_value_at(
                                prop.prop_type,
                                old(s).bytes(),
                                p0 + 4 + (idx as int) * 16,
                            ));
                            assert(mirror_static_items(b, q, shapes, ip, array_len - idx)
                                == mirror_static_items(
                                b,
                                q + 16,
                                shapes,
                                ip,
                                array_len - idx - 1,
                            ));
                        }
                        decoded
                    },
                }
            },
            PropType::Bool => {
                match s.read_u8() {
                    None => {
                        proof {
                            if p0 + 4 + (array_len as int) * 1 <= old(s).bytes().len() {
                                lemma_item_span(p0, idx as int, array_len as int, 1);
                                assert(false);
                            }
                            assert(mirror_static_items(b, q, shapes, ip, array_len - idx)
                                is Err);
                        }
                        return Err(
                            DecodeError::TruncatedInput { offset: s.position() as u64, needed: 1 },
                        );
                    },
                    Some(b) => {
                        let decoded = PropertyValue::Bool(b != 0);
                        proof {
                            lemma_item_span(p0, idx as int, array_len as int, 1);
                            assert(decoded == spec_scalar_value_at(
                                prop.prop_type,
                                old(s).bytes(),
                                p0 + 4 + (idx as int) * 1,
                            ));
                            assert(mirror_static_items(old(s).bytes(), q, shapes, ip, array_len - idx)
                                == mirror_static_items(
                                old(s).bytes(),
                                q + 1,
                                shapes,
                                ip,
                                array_len - idx - 1,
                            ));
                        }
                        decoded
                    },
                }
            },
            PropType::U8 => {
                match s.read_u8() {
                    None => {
                        proof {
                            if p0 + 4 + (array_len as int) * 1 <= old(s).bytes().len() {
                                lemma_item_span(p0, idx as int, array_len as int, 1);
                                assert(false);
                            }
                            assert(mirror_static_items(b, q, shapes, ip, array_len - idx)
                                is Err);
                        }
                        return Err(
                            DecodeError::TruncatedInput { offset: s.position() as u64, needed: 1 },
                        );
                    },
                    Some(b) => {
                        let decoded = PropertyValue::U8(b);
                        proof {
                            lemma_item_span(p0, idx as int, array_len as int, 1);
                            assert(decoded == spec_scalar_value_at(
                                prop.prop_type,
                                old(s).bytes(),
                                p0 + 4 + (idx as int) * 1,
                            ));
                            assert(mirror_static_items(old(s).bytes(), q, shapes, ip, array_len - idx)
                                == mirror_static_items(
                                old(s).bytes(),
                                q + 1,
                                shapes,
                                ip,
                                array_len - idx - 1,
                            ));
                        }
                        decoded
                    },
                }
            },
            PropType::F32 => {
                match s.read_u32() {
                    None => {
                        proof {
                            if p0 + 4 + (array_len as int) * 4 <= old(s).bytes().len() {
                                lemma_item_span(p0, idx as int, array_len as int, 4);
                                assert(false);
                            }
                            assert(mirror_static_items(b, q, shapes, ip, array_len - idx)
                                is Err);
                        }
                        return Err(
                            DecodeError::TruncatedInput { offset: s.position() as u64, needed: 4 },
                        );
                    },
                    Some(v) => {
                        let decoded = PropertyValue::F32(v);
                        proof {
                            lemma_item_span(p0, idx as int, array_len as int, 4);
                            assert(decoded == spec_scalar_value_at(
                                prop.prop_type,
                                old(s).bytes(),
                                p0 + 4 + (idx as int) * 4,
                            ));
                            assert(mirror_static_items(b, q, shapes, ip, array_len - idx)
                                == mirror_static_items(
                                b,
                                q + 4,
                                shapes,
                                ip,
                                array_len - idx - 1,
                            ));
                        }
                        decoded
                    },
                }
            },
            PropType::S32 => {
                match s.read_u32() {
                    None => {
                        proof {
                            if p0 + 4 + (array_len as int) * 4 <= old(s).bytes().len() {
                                lemma_item_span(p0, idx as int, array_len as int, 4);
                                assert(false);
                            }
                            assert(mirror_static_items(b, q, shapes, ip, array_len - idx)
                                is Err);
                        }
                        return Err(
                            DecodeError::TruncatedInput { offset: s.position() as u64, needed: 4 },
                        );
                    },
                    Some(v) => {
                        let decoded = PropertyValue::S32(#[verifier::truncate] (v as i32));
                        proof {
                            lemma_item_span(p0, idx as int, array_len as int, 4);
                            assert(decoded == spec_scalar_value_at(
                                prop.prop_type,
                                old(s).bytes(),
                                p0 + 4 + (idx as int) * 4,
                            ));
                            assert(mirror_static_items(b, q, shapes, ip, array_len - idx)
                                == mirror_static_items(
                                b,
                                q + 4,
                                shapes,
                                ip,
                                array_len - idx - 1,
                            ));
                        }
                        decoded
                    },
                }
            },
            PropType::U32 => {
                match s.read_u32() {
                    None => {
                        proof {
                            if p0 + 4 + (array_len as int) * 4 <= old(s).bytes().len() {
                                lemma_item_span(p0, idx as int, array_len as int, 4);
                                assert(false);
                            }
                            assert(mirror_static_items(b, q, shapes, ip, array_len - idx)
                                is Err);
                        }
                        return Err(
                            DecodeError::TruncatedInput { offset: s.position() as u64, needed: 4 },
                        );
                    },
                    Some(v) => {
                        let decoded = PropertyValue::U32(v);
                        proof {
                            lemma_item_span(p0, idx as int, array_len as int, 4);
                            assert(decoded == spec_scalar_value_at(
                                prop.prop_type,
                                old(s).bytes(),
                                p0 + 4 + (idx as int) * 4,
                            ));
                            assert(mirror_static_items(b, q, shapes, ip, array_len - idx)
                                == mirror_static_items(
                                b,
                                q + 4,
                                shapes,
                                ip,
                                array_len - idx - 1,
                            ));
                        }
                        decoded
                    },
                }
            },
            PropType::S16 => {
                match s.read_u16() {
                    None => {
                        proof {
                            if p0 + 4 + (array_len as int) * 2 <= old(s).bytes().len() {
                                lemma_item_span(p0, idx as int, array_len as int, 2);
                                assert(false);
                            }
                            assert(mirror_static_items(b, q, shapes, ip, array_len - idx)
                                is Err);
                        }
                        return Err(
                            DecodeError::TruncatedInput { offset: s.position() as u64, needed: 2 },
                        );
                    },
                    Some(v) => {
                        let decoded = PropertyValue::S16(#[verifier::truncate] (v as i16));
                        proof {
                            lemma_item_span(p0, idx as int, array_len as int, 2);
                            assert(decoded == spec_scalar_value_at(
                                prop.prop_type,
                                old(s).bytes(),
                                p0 + 4 + (idx as int) * 2,
                            ));
                            assert(mirror_static_items(b, q, shapes, ip, array_len - idx)
                                == mirror_static_items(
                                b,
                                q + 2,
                                shapes,
                                ip,
                                array_len - idx - 1,
                            ));
                        }
                        decoded
                    },
                }
            },
            PropType::S8 => {
                match s.read_u8() {
                    None => {
                        proof {
                            if p0 + 4 + (array_len as int) * 1 <= old(s).bytes().len() {
                                lemma_item_span(p0, idx as int, array_len as int, 1);
                                assert(false);
                            }
                            assert(mirror_static_items(b, q, shapes, ip, array_len - idx)
                                is Err);
                        }
                        return Err(
                            DecodeError::TruncatedInput { offset: s.position() as u64, needed: 1 },
                        );
                    },
                    Some(b) => {
                        let decoded = PropertyValue::S8(#[verifier::truncate] (b as i8));
                        proof {
                            lemma_item_span(p0, idx as int, array_len as int, 1);
                            assert(decoded == spec_scalar_value_at(
                                prop.prop_type,
                                old(s).bytes(),
                                p0 + 4 + (idx as int) * 1,
                            ));
                            assert(mirror_static_items(old(s).bytes(), q, shapes, ip, array_len - idx)
                                == mirror_static_items(
                                old(s).bytes(),
                                q + 1,
                                shapes,
                                ip,
                                array_len - idx - 1,
                            ));
                        }
                        decoded
                    },
                }
            },
            PropType::String => {
                match read_null_terminated_string(s, 512) {
                    None => {
                        proof {
                            assert(mirror_string(b, q, 512) is Err);
                        }
                        return Err(
                            DecodeError::TruncatedInput { offset: s.position() as u64, needed: 1 },
                        );
                    },
                    Some(st) => {
                        proof {
                            crate::text::lemma_find_nul_bounds(b, q);
                            assert(mirror_string(b, q, 512) == Ok::<int, DecodeError>(s.pos()));
                            assert(q < s.pos() <= b.len());
                            assert(mirror_static_items(b, q, shapes, ip, array_len - idx)
                                == mirror_static_items(
                                b,
                                s.pos(),
                                shapes,
                                ip,
                                array_len - idx - 1,
                            ));
                        }
                        PropertyValue::String(st)
                    },
                }
            },
            _ => {
                proof {
                    assert(mirror_static_items(b, q, shapes, ip, array_len - idx) is Err);
                }
                return Err(
                    DecodeError::UnsupportedPropertyType {
                        raw_type: prop.prop_raw_type,
                        dynamic: false,
                    },
                );
            },
        };
        values.push(v);
        idx = idx + 1;
    }
    proof {
        assert(mirror_static_items(b, s.pos(), shapes, ip, 0) == Ok::<int, DecodeError>(s.pos()));
        assert(mirror_prop(b, p0, shapes, ip) == Ok::<int, DecodeError>(s.pos()));
    }
    Ok(Property(values))
}

/// Reads a static 3-float vector: three payload words, then the mandatory
/// padding word, which must be exactly zero (either sign of floating-point
/// zero); anything else is a format violation, not a value to ignore.
fn read_vector3(s: &mut Stream) -> (r: Result<(u32, u32, u32), DecodeError>)
    requires
        old(s).wf(),
    ensures
        final(s).wf(),
        final(s).bytes() == old(s).bytes(),
        old(s).pos() <= final(s).pos(),
        ({
            let b = old(s).bytes();
            let p = old(s).pos();
            if p + 16 > b.len() {
                r matches Err(DecodeError::TruncatedInput { .. })
            } else {
                let x = spec_u32_from_le_bytes(b.subrange(p, p + 4));
                let y = spec_u32_from_le_bytes(b.subrange(p + 4, p + 8));
                let z = spec_u32_from_le_bytes(b.subrange(p + 8, p + 12));
                let pad = spec_u32_from_le_bytes(b.subrange(p + 12, p + 16));
                if pad & 0x7fff_ffff == 0 {
                    r == Ok::<(u32, u32, u32), DecodeError>((x, y, z)) && final(s).pos() == p + 16
                } else {
                    r == Err::<(u32, u32, u32), DecodeError>(
                        DecodeError::InvalidVectorPadding { found_bits: pad },
                    )
                }
            }
        }),
{
    let x = match s.read_u32() {
        None => {
            return Err(DecodeError::TruncatedInput { offset: s.position() as u64, needed: 16 });
        },
        Some(v) => v,
    };
    let y = match s.read_u32() {
        None => {
            return Err(DecodeError::TruncatedInput { offset: s.position() as u64, needed: 12 });
        },
        Some(v) => v,
    };
    let z = match s.read_u32() {
        None => {
            return Err(DecodeError::TruncatedInput { offset: s.position() as u64, needed: 8 });
        },
        Some(v) => v,
    };
    let pad = match s.read_u32() {
        None => {
            return Err(DecodeError::TruncatedInput { offset: s.position() as u64, needed: 4 });
        },
        Some(v) => v,
    };
    if pad & 0x7fff_ffff != 0 {
        return Err(DecodeError::InvalidVectorPadding { found_bits: pad });
    }
    Ok((x, y, z))
}

/// Reads one dynamic-grammar property occurrence: a `u32` element count,
/// then that many values from the dynamic grammar's own set of shapes.
#[verifier::loop_isolation(false)]
fn read_dynamic_prop(s: &mut Stream, prop: &PropertyInfo, objects: &Vec<ObjectInfo>) -> (r: Result<
    Property,
    DecodeError,
>)
    requires
        old(s).wf(),
        prop.is_dynamic,
    ensures
        final(s).wf(),
        final(s).bytes() == old(s).bytes(),
        old(s).pos() <= final(s).pos(),
        old(s).pos() + 4 > old(s).bytes().len() ==> (r matches Err(DecodeError::TruncatedInput {
            ..
        })),
        (r matches Ok(p) ==> {
            &&& old(s).pos() + 4 <= old(s).bytes().len()
            &&& p@.len() == spec_u32_from_le_bytes(
                old(s).bytes().subrange(old(s).pos(), old(s).pos() + 4),
            )
            &&& forall|k: int|
                0 <= k < p@.len() ==> dynamic_value_ok(prop.prop_type, #[trigger] p@[k])
            &&& final(s).pos() >= old(s).pos() + 4
        }),
        // For the fixed-width scalar types of this grammar the contract is
        // exact, as it is for the static one.
        ({
            let b = old(s).bytes();
            let p0 = old(s).pos();
            dynamic_fixed_width(prop.prop_type) matches Some(w) ==> p0 + 4 <= b.len() ==> {
                let n = spec_u32_from_le_bytes(b.subrange(p0, p0 + 4)) as int;
                &&& (p0 + 4 + n * w <= b.len() ==> r is Ok)
                &&& (r matches Ok(p) ==> final(s).pos() == p0 + 4 + n * w && (forall|k: int|
                    0 <= k < n ==> #[trigger] p@[k] == spec_scalar_value_at(
                        prop.prop_type,
                        b,
                        p0 + 4 + k * w,
                    )))
            }
        }),
        // The mirror pins the outcome completely, as it does for the
        // static grammar.
        ({
            let b = old(s).bytes();
            let p0 = old(s).pos();
            match mirror_prop(b, p0, shape_of(objects@), shape_of_prop(*prop)) {
                Ok(q) => r is Ok && final(s).pos() == q,
                Err(e) => (r matches Err(e2) && same_error_kind(e, e2)),
            }
        }),
        (r matches Err(e) ==> !(e is BadMagicOrVersion)),
    decreases old(s).bytes().len() - old(s).pos(),
{
    let ghost p0 = old(s).pos();
    let ghost b = old(s).bytes();
    let ghost shapes = shape_of(objects@);
    let ghost ip = shape_of_prop(*prop);
    let array_len = match s.read_u32() {
        None => {
            return Err(
                DecodeError::TruncatedInput { offset: s.position() as u64, needed: 4 },
            );
        },
        Some(v) => v,
    };
    let mut values: Vec<PropertyValue> = Vec::new();
    let mut idx: u32 = 0;
    while idx < array_len
        invariant
            s.wf(),
            s.bytes() == old(s).bytes(),
            s.pos() >= p0 + 4,
            idx <= array_len,
            values@.len() == idx,
            mirror_dynamic_items(b, s.pos(), shapes, ip, array_len - idx) == mirror_dynamic_items(
                b,
                p0 + 4,
                shapes,
                ip,
                array_len as int,
            ),
            forall|k: int| 0 <= k < idx ==> dynamic_value_ok(prop.prop_type, #[trigger] values@[k]),
            dynamic_fixed_width(prop.prop_type) matches Some(w) ==> s.pos() == p0 + 4 + idx * w && (
            forall|k: int|
                0 <= k < idx ==> #[trigger] values@[k] == spec_scalar_value_at(
                    prop.prop_type,
                    old(s).bytes(),
                    p0 + 4 + k * w,
                )),
        decreases array_len - idx,
    {
        let ghost q = s.pos();
        let v = match prop.prop_type {
            PropType::Custom => {
                let num_customs = match s.read_u8() {
                    None => {
                        proof {
                            assert(mirror_dynamic_items(b, q, shapes, ip, array_len - idx)
                                is Err);
                        }
                        return Err(
                            DecodeError::TruncatedInput { offset: s.position() as u64, needed: 1 },
                        );
                    },
                    Some(b) => b,
                };
                let mut customs: Vec<String> = Vec::new();
                let mut k: u8 = 0;
                while k < num_customs
                    invariant
                        s.wf(),
                        s.bytes() == old(s).bytes(),
                        s.pos() >= p0 + 4,
                        s.pos() > q,
                        k <= num_customs,
                        mirror_customs(b, s.pos(), num_customs - k) == mirror_customs(
                            b,
                            q + 1,
                            num_customs as int,
                        ),
                    decreases num_customs - k,
                {
                    let ghost qs = s.pos();
                    match read_null_terminated_string(s, 128) {
                        None => {
                            proof {
                                assert(mirror_customs(b, qs, num_customs - k) is Err);
                            }
                            return Err(
                                DecodeError::TruncatedInput {
                                    offset: s.position() as u64,
                                    needed: 1,
                                },
                            );
                        },
                        Some(st) => {
                            proof {
                                crate::text::lemma_find_nul_bounds(b, qs);
                                assert(mirror_string(b, qs, 128) == Ok::<int, DecodeError>(
                                    s.pos(),
                                ));
                                assert(qs < s.pos() <= b.len());
                                assert(mirror_customs(b, qs, num_customs - k) == mirror_customs(
                                    b,
                                    s.pos(),
                                    num_customs - k - 1,
                                ));
                            }
                            customs.push(st)
                        },
                    };
                    k = k + 1;
                }
                proof {
                    assert(mirror_customs(b, s.pos(), 0) == Ok::<int, DecodeError>(s.pos()));
                    assert(mirror_dynamic_items(b, q, shapes, ip, array_len - idx)
                        == mirror_dynamic_items(
                        b,
                        s.pos(),
                        shapes,
                        ip,
                        array_len - idx - 1,
                    ));
                }
                PropertyValue::Custom(customs)
            },
            PropType::Bool => {
                match s.read_u8() {
                    None => {
                        proof {
                            if p0 + 4 + (array_len as int) * 1 <= old(s).bytes().len() {
                                lemma_item_span(p0, idx as int, array_len as int, 1);
                                assert(false);
                            }
                            assert(mirror_dynamic_items(old(s).bytes(), q, shapes, ip, array_len - idx)
                                is Err);
                        }
                        return Err(
                            DecodeError::TruncatedInput { offset: s.position() as u64, needed: 1 },
                        );
                    },
                    Some(b) => {
                        let decoded = PropertyValue::Bool(b != 0);
                        proof {
                            lemma_item_span(p0, idx as int, array_len as int, 1);
                            assert(decoded == spec_scalar_value_at(
                                prop.prop_type,
                                old(s).bytes(),
                                p0 + 4 + (idx as int) * 1,
                            ));
                            assert(mirror_dynamic_items(old(s).bytes(), q, shapes, ip, array_len - idx)
                                == mirror_dynamic_items(
                                old(s).bytes(),
                                q + 1,
                                shapes,
                                ip,
                                array_len - idx - 1,
                            ));
                        }
                        decoded
                    },
                }
            },
            PropType::ClassRef => {
                match read_class(s, objects) {
                    Err(e) => {
                        proof {
                            assert(mirror_class(b, q, shapes) is Err);
                            assert(mirror_dynamic_items(b, q, shapes, ip, array_len - idx)
                                is Err);
                        }
                        return Err(e);
                    },
                    Ok(None) => {
                        proof {
                            assert(mirror_dynamic_items(b, q, shapes, ip, array_len - idx)
                                == Err::<int, DecodeError>(DecodeError::RequiredNodeAbsent));
                        }
                        return Err(DecodeError::RequiredNodeAbsent);
                    },
                    Ok(Some(c)) => {
                        proof {
                            assert(q + 4 <= b.len());
                            assert(q < s.pos() <= b.len());
                            assert(mirror_dynamic_items(b, q, shapes, ip, array_len - idx)
                                == mirror_dynamic_items(
                                b,
                                s.pos(),
                                shapes,
                                ip,
                                array_len - idx - 1,
                            ));
                        }
                        PropertyValue::Class(Some(c))
                    },
                }
            },
            PropType::S16 => {
                match s.read_u16() {
                    None => {
                        proof {
                            if p0 + 4 + (array_len as int) * 2 <= old(s).bytes().len() {
                                lemma_item_span(p0, idx as int, array_len as int, 2);
                                assert(false);
                            }
                            assert(mirror_dynamic_items(old(s).bytes(), q, shapes, ip, array_len - idx)
                                is Err);
                        }
                        return Err(
                            DecodeError::TruncatedInput { offset: s.position() as u64, needed: 2 },
                        );
                    },
                    Some(v) => {
                        let decoded = PropertyValue::S16(#[verifier::truncate] (v as i16));
                        proof {
                            lemma_item_span(p0, idx as int, array_len as int, 2);
                            assert(decoded == spec_scalar_value_at(
                                prop.prop_type,
                                old(s).bytes(),
                                p0 + 4 + (idx as int) * 2,
                            ));
                            assert(mirror_dynamic_items(old(s).bytes(), q, shapes, ip, array_len - idx)
                                == mirror_dynamic_items(
                                old(s).bytes(),
                                q + 2,
                                shapes,
                                ip,
                                array_len - idx - 1,
                            ));
                        }
                        decoded
                    },
                }
            },
            PropType::S32 => {
                match s.read_u32() {
                    None => {
                        proof {
                            if p0 + 4 + (array_len as int) * 4 <= old(s).bytes().len() {
                                lemma_item_span(p0, idx as int, array_len as int, 4);
                                assert(false);
                            }
                            assert(mirror_dynamic_items(old(s).bytes(), q, shapes, ip, array_len - idx)
                                is Err);
                        }
                        return Err(
                            DecodeError::TruncatedInput { offset: s.position() as u64, needed: 4 },
                        );
                    },
                    Some(v) => {
                        let decoded = PropertyValue::S32(#[verifier::truncate] (v as i32));
                        proof {
                            lemma_item_span(p0, idx as int, array_len as int, 4);
                            assert(decoded == spec_scalar_value_at(
                                prop.prop_type,
                                old(s).bytes(),
                                p0 + 4 + (idx as int) * 4,
                            ));
                            assert(mirror_dynamic_items(old(s).bytes(), q, shapes, ip, array_len - idx)
                                == mirror_dynamic_items(
                                old(s).bytes(),
                                q + 4,
                                shapes,
                                ip,
                                array_len - idx - 1,
                            ));
                        }
                        decoded
                    },
                }
            },
            PropType::U32 => {
                match s.read_u32() {
                    None => {
                        proof {
                            if p0 + 4 + (array_len as int) * 4 <= old(s).bytes().len() {
                                lemma_item_span(p0, idx as int, array_len as int, 4);
                                assert(false);
                            }
                            assert(mirror_dynamic_items(old(s).bytes(), q, shapes, ip, array_len - idx)
                                is Err);
                        }
                        return Err(
                            DecodeError::TruncatedInput { offset: s.position() as u64, needed: 4 },
                        );
                    },
                    Some(v) => {
                        let decoded = PropertyValue::U32(v);
                        proof {
                            lemma_item_span(p0, idx as int, array_len as int, 4);
                            assert(decoded == spec_scalar_value_at(
                                prop.prop_type,
                                old(s).bytes(),
                                p0 + 4 + (idx as int) * 4,
                            ));
                            assert(mirror_dynamic_items(old(s).bytes(), q, shapes, ip, array_len - idx)
                                == mirror_dynamic_items(
                                old(s).bytes(),
                                q + 4,
                                shapes,
                                ip,
                                array_len - idx - 1,
                            ));
                        }
                        decoded
                    },
                }
            },
            _ => {
                proof {
                    assert(mirror_dynamic_items(b, q, shapes, ip, array_len - idx) == Err::<
                        int,
                        DecodeError,
                    >(
                        DecodeError::UnsupportedPropertyType {
                            raw_type: prop.prop_raw_type,
                            dynamic: true,
                        },
                    ));
                }
                return Err(
                    DecodeError::UnsupportedPropertyType {
                        raw_type: prop.prop_raw_type,
                        dynamic: true,
                    },
                );
            },
        };
        values.push(v);
        idx = idx + 1;
    }
    proof {
        assert(mirror_dynamic_items(b, s.pos(), shapes, ip, 0) == Ok::<int, DecodeError>(s.pos()));
        assert(mirror_prop(b, p0, shapes, ip) == Ok::<int, DecodeError>(s.pos()));
    }
    Ok(Property(values))
}

/// Reads one node occurrence from the instance stream.
///
/// The 4-byte discriminant either carries the null sentinel in its low 16
/// bits — then the node is absent and exactly those 4 bytes are consumed —
/// or selects a schema-table index. A selected node then consumes 8
/// reserved bytes (unknown meaning; consuming them keeps the stream
/// aligned) and each declared property in order.
#[verifier::loop_isolation(false)]
fn read_class(s: &mut Stream, objects: &Vec<ObjectInfo>) -> (r: Result<Option<Class>, DecodeError>)
    requires
        old(s).wf(),
    ensures
        final(s).wf(),
        final(s).bytes() == old(s).bytes(),
        old(s).pos() <= final(s).pos(),
        old(s).pos() + 4 > old(s).bytes().len() ==> (r matches Err(DecodeError::TruncatedInput {
            ..
        })),
        old(s).pos() + 4 <= old(s).bytes().len() ==> ({
            let d = spec_u32_from_le_bytes(old(s).bytes().subrange(old(s).pos(), old(s).pos() + 4));
            &&& d & 0xfffe == 0xfffe ==> r == Ok::<Option<Class>, DecodeError>(None)
                && final(s).pos() == old(s).pos() + 4
            &&& d & 0xfffe != 0xfffe ==> {
                let idx = ((d >> 1) & 0x7fff) as int;
                &&& idx >= objects@.len() ==> r == Err::<Option<Class>, DecodeError>(
                    DecodeError::InvalidDiscriminant {
                        discriminant: d,
                        table_len: objects@.len() as u64,
                    },
                )
                &&& (r matches Ok(c) ==> idx < objects@.len() && (c matches Some(cl)
                    && spec_class_matches(cl, objects@[idx]) && final(s).pos() >= old(s).pos()
                    + 12))
            }
        }),
        // An absent node comes from the sentinel alone, never from
        // anything else.
        r == Ok::<Option<Class>, DecodeError>(None) ==> old(s).pos() + 4 <= old(s).bytes().len()
            && spec_u32_from_le_bytes(old(s).bytes().subrange(old(s).pos(), old(s).pos() + 4))
            & 0xfffe == 0xfffe,
        // For a schema with no declared properties the node's span is just
        // the discriminant and the reserved bytes, so success is owed
        // whenever those twelve bytes are present.
        old(s).pos() + 4 <= old(s).bytes().len() ==> ({
            let d = spec_u32_from_le_bytes(old(s).bytes().subrange(old(s).pos(), old(s).pos() + 4));
            let idx = ((d >> 1) & 0x7fff) as int;
            d & 0xfffe != 0xfffe && idx < objects@.len() && objects@[idx].props@.len() == 0 ==> (
            if old(s).pos() + 12 <= old(s).bytes().len() {
                r is Ok && final(s).pos() == old(s).pos() + 12
            } else {
                r matches Err(DecodeError::TruncatedInput { .. })
            })
        }),
        // The mirror pins the outcome completely: an `Ok` node consumes
        // exactly the mirrored span, and failures keep the mirrored kind.
        ({
            let b = old(s).bytes();
            let p0 = old(s).pos();
            match mirror_class(b, p0, shape_of(objects@)) {
                Ok(q) => r is Ok && final(s).pos() == q,
                Err(e) => (r matches Err(e2) && same_error_kind(e, e2)),
            }
        }),
        (r matches Err(e) ==> !(e is BadMagicOrVersion)),
    decreases old(s).bytes().len() - old(s).pos(),
{
    let ghost p0 = old(s).pos();
    let ghost b = old(s).bytes();
    let ghost shapes = shape_of(objects@);
    let class_info = match s.read_u32() {
        None => {
            return Err(
                DecodeError::TruncatedInput { offset: s.position() as u64, needed: 4 },
            );
        },
        Some(v) => v,
    };
    proof {
        assert(shapes.len() == objects@.len());
    }
    if class_info & 0xfffe == 0xfffe {
        return Ok(None);
    }
    let idx = ((class_info >> 1) & 0x7fff) as usize;
    if idx >= objects.len() {
        return Err(
            DecodeError::InvalidDiscriminant {
                discriminant: class_info,
                table_len: objects.len() as u64,
            },
        );
    }
    // 8 reserved bytes follow every selecting discriminant; their meaning is
    // unknown upstream, but consuming them is load-bearing for alignment.
    match s.read_u64() {
        None => {
            return Err(
                DecodeError::TruncatedInput { offset: s.position() as u64, needed: 8 },
            );
        },
        Some(_) => (),
    };
    let object_info = &objects[idx];
    let nprops = object_info.props.len();
    let mut props: Vec<(String, Property)> = Vec::new();
    let mut j: usize = 0;
    proof {
        assert(shapes[idx as int].props.len() == objects@[idx as int].props@.len());
    }
    while j < nprops
        invariant
            s.wf(),
            s.bytes() == old(s).bytes(),
            s.pos() >= p0 + 12,
            j == 0 ==> s.pos() == p0 + 12,
            idx < objects@.len(),
            nprops == objects@[idx as int].props@.len(),
            j <= nprops,
            props@.len() == j,
            mirror_props(b, s.pos(), shapes, idx as int, j as int) == mirror_props(
                b,
                p0 + 12,
                shapes,
                idx as int,
                0,
            ),
            forall|jj: int|
                0 <= jj < j ==> (#[trigger] props@[jj]).0@ == objects@[idx as int].props@[jj].name@
                    && prop_values_ok(objects@[idx as int].props@[jj], props@[jj].1),
        decreases nprops - j,
    {
        let ghost qj = s.pos();
        let prop = &object_info.props[j];
        proof {
            assert(shapes[idx as int].props[j as int] == shape_of_prop(
                objects@[idx as int].props@[j as int],
            ));
        }
        if prop.is_disabled {
            proof {
                assert(mirror_props(b, qj, shapes, idx as int, j as int) is Err);
            }
            return Err(
                DecodeError::UnsupportedSchemaShape {
                    object_index: idx as u32,
                    disabled_property: true,
                },
            );
        }
        let value = if prop.is_dynamic {
            read_dynamic_prop(s, prop, objects)
        } else {
            read_static_prop(s, prop, objects)
        };
        let value = match value {
            Err(e) => {
                proof {
                    assert(mirror_prop(b, qj, shapes, shape_of_prop(*prop)) is Err);
                    assert(mirror_props(b, qj, shapes, idx as int, j as int) matches Err(em)
                        && same_error_kind(em, e));
                }
                return Err(e);
            },
            Ok(v) => v,
        };
        proof {
            assert(mirror_prop(b, qj, shapes, shape_of_prop(*prop)) == Ok::<int, DecodeError>(
                s.pos(),
            ));
            assert(qj < s.pos() <= b.len());
            assert(mirror_props(b, qj, shapes, idx as int, j as int) == mirror_props(
                b,
                s.pos(),
                shapes,
                idx as int,
                j + 1,
            ));
        }
        props.push((prop.name.clone(), value));
        j = j + 1;
    }
    proof {
        assert(mirror_props(b, s.pos(), shapes, idx as int, nprops as int) == Ok::<
            int,
            DecodeError,
        >(s.pos()));
    }
    Ok(Some(Class { class_type: object_info.dti.clone(), props }))
}

/// Decodes one whole document: header, database blob, schema table, then
/// exactly one root node, which must be present.
pub fn deserialize(data: &[u8], registry: &DtiRegistry) -> (r: Result<Class, DecodeError>)
    requires
        registry.wf(),
    ensures
        data@.len() < 24 ==> (r matches Err(DecodeError::TruncatedInput { .. })),
        data@.len() >= 24 ==> ({
            let h = spec_header(data@);
            (h.magic != XFS_MAGIC || h.major_version != XFS_MAJOR_VERSION) <==> (r matches Err(
                DecodeError::BadMagicOrVersion { .. },
            ))
        }),
        data@.len() >= 24 ==> ({
            let h = spec_header(data@);
            h.magic == XFS_MAGIC && h.major_version == XFS_MAJOR_VERSION && data@.len() < 24
                + h.database_size ==> (r matches Err(DecodeError::TruncatedInput { .. }))
        }),
        data@.len() >= 24 ==> ({
            let h = spec_header(data@);
            let blob = data@.subrange(24, 24 + h.database_size);
            let n = h.object_num as int;
            h.magic == XFS_MAGIC && h.major_version == XFS_MAJOR_VERSION && 24 + h.database_size
                <= data@.len() ==> {
                &&& 8 * n > blob.len() ==> (r matches Err(DecodeError::TruncatedInput { .. }))
                &&& 8 * n <= blob.len() ==> match spec_first_bad_ptr(blob, n, 0) {
                    Some(i) => r == Err::<Class, DecodeError>(
                        DecodeError::CorruptPointerTable {
                            index: i as u32,
                            pointer: spec_ptr(blob, i),
                        },
                    ),
                    None => match spec_first_obj_err(blob, registry.entries(), n, 0) {
                        Some(e) => r == Err::<Class, DecodeError>(e),
                        None => true,
                    },
                }
            }
        }),
        data@.len() >= 24 ==> ({
            let h = spec_header(data@);
            let blob = data@.subrange(24, 24 + h.database_size);
            let n = h.object_num as int;
            h.magic == XFS_MAGIC && h.major_version == XFS_MAJOR_VERSION && 24 + h.database_size
                <= data@.len() && 8 * n <= blob.len() && spec_first_bad_ptr(blob, n, 0) is None
                && spec_first_obj_err(blob, registry.entries(), n, 0) is None && 24
                + h.database_size + 4 <= data@.len() && spec_u32_from_le_bytes(
                data@.subrange(24 + h.database_size, 24 + h.database_size + 4),
            ) & 0xfffe == 0xfffe ==> r == Err::<Class, DecodeError>(DecodeError::RequiredNodeAbsent)
        }),
        (r matches Ok(cl) ==> data@.len() >= 24 && ({
            let h = spec_header(data@);
            let blob = data@.subrange(24, 24 + h.database_size);
            let d = spec_u32_from_le_bytes(
                data@.subrange(24 + h.database_size, 24 + h.database_size + 4),
            );
            let idx = ((d >> 1) & 0x7fff) as int;
            let p = spec_ptr(blob, idx) as int;
            &&& h.magic == XFS_MAGIC && h.major_version == XFS_MAJOR_VERSION
            &&& 24 + h.database_size + 4 <= data@.len()
            &&& spec_first_bad_ptr(blob, h.object_num as int, 0) is None
            &&& spec_first_obj_err(blob, registry.entries(), h.object_num as int, 0) is None
            &&& d & 0xfffe != 0xfffe
            &&& idx < h.object_num
            &&& cl.spec_class_type() == registry.entries()[spec_obj_hash(blob, p)]
            &&& cl.spec_props().len() == spec_obj_num_props(blob, p)
        })),
        // Once the schema table is sound, the instance stream's outcome is
        // pinned completely by the positional mirror of the grammar: the
        // decode succeeds exactly when the mirror does (with an absent
        // root reported as its own failure), and fails with the mirrored
        // kind of error otherwise.
        data@.len() >= 24 ==> ({
            let h = spec_header(data@);
            let blob = data@.subrange(24, 24 + h.database_size);
            let n = h.object_num as int;
            h.magic == XFS_MAGIC && h.major_version == XFS_MAJOR_VERSION && 24 + h.database_size
                <= data@.len() && 8 * n <= blob.len() && spec_first_bad_ptr(blob, n, 0) is None
                && spec_first_obj_err(blob, registry.entries(), n, 0) is None ==> match mirror_class(
                data@,
                24 + h.database_size,
                spec_schema_shape(blob, n),
            ) {
                Ok(q) => if 24 + h.database_size + 4 <= data@.len() && spec_u32_from_le_bytes(
                    data@.subrange(24 + h.database_size, 24 + h.database_size + 4),
                ) & 0xfffe == 0xfffe {
                    r == Err::<Class, DecodeError>(DecodeError::RequiredNodeAbsent)
                } else {
                    r is Ok
                },
                Err(e) => (r matches Err(e2) && same_error_kind(e, e2)),
            }
        }),
        // For a root schema with no declared properties the whole instance
        // stream is twelve bytes, so decoding is owed to succeed on any
        // otherwise sound document that holds them.
        data@.len() >= 24 ==> ({
            let h = spec_header(data@);
            let blob = data@.subrange(24, 24 + h.database_size);
            let n = h.object_num as int;
            let d = spec_u32_from_le_bytes(
                data@.subrange(24 + h.database_size, 24 + h.database_size + 4),
            );
            let idx = ((d >> 1) & 0x7fff) as int;
            h.magic == XFS_MAGIC && h.major_version == XFS_MAJOR_VERSION && 24 + h.database_size
                <= data@.len() && 8 * n <= blob.len() && spec_first_bad_ptr(blob, n, 0) is None
                && spec_first_obj_err(blob, registry.entries(), n, 0) is None && 24
                + h.database_size + 12 <= data@.len() && d & 0xfffe != 0xfffe && idx < n
                && spec_obj_num_props(blob, spec_ptr(blob, idx) as int) == 0 ==> r is Ok
        }),
{
    if data.len() < 24 {
        return Err(DecodeError::TruncatedInput { offset: 0, needed: 24 });
    }
    let header = read_header(data);
    if header.magic != XFS_MAGIC || header.major_version != XFS_MAJOR_VERSION {
        return Err(
            DecodeError::BadMagicOrVersion {
                magic: header.magic,
                major_version: header.major_version,
            },
        );
    }
    let db_size = header.database_size as usize;
    if data.len() - 24 < db_size {
        return Err(
            DecodeError::TruncatedInput { offset: 24, needed: header.database_size as u64 },
        );
    }
    let blob = vstd::slice::slice_subrange(data, 24, 24 + db_size);
    let objects = match build_schema_table(blob, header.object_num, registry) {
        Err(e) => {
            proof {
                lemma_first_obj_err_kinds(blob@, registry.entries(), header.object_num as int, 0);
            }
            return Err(e);
        },
        Ok(o) => {
            proof {
                lemma_schema_shape(blob@, registry.entries(), header.object_num as int, o@);
            }
            o
        },
    };
    let mut s = Stream::new(data, 24 + db_size);
    let root = match read_class(&mut s, &objects) {
        Err(e) => {
            return Err(e);
        },
        Ok(c) => c,
    };
    match root {
        None => Err(DecodeError::RequiredNodeAbsent),
        Some(c) => Ok(c),
    }
}

/// The schema mirror only ever reports an unknown type, an unsupported
/// schema shape, or truncation — never a bad magic value.
proof fn lemma_first_obj_err_kinds(blob: Seq<u8>, reg: Map<u32, Dti>, n: int, i: int)
    ensures
        match spec_first_obj_err(blob, reg, n, i) {
            Some(e) => e is UnknownType || e is UnsupportedSchemaShape || e is TruncatedInput,
            None => true,
        },
    decreases n - i,
{
    if i < n {
        lemma_first_obj_err_kinds(blob, reg, n, i + 1);
    }
}

} // verus!
