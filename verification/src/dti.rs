//! The type registry: a read-only mapping from a 31-bit name hash to a type
//! descriptor, plus the property-type codes that schema records refer to.
//!
//! A descriptor's hash is always the CRC-32 of its name (seeded with
//! `0xFFFF_FFFF`, top bit cleared); the registry keeps that relation as an
//! invariant for every entry.

use vstd::prelude::*;

verus! {

use std::collections::HashMap;
use crate::crc::spec_crc32;

broadcast use vstd::std_specs::hash::group_hash_axioms;

/// The attribute bit of a property whose values use the dynamic decode
/// grammar instead of the static one.
pub const PROP_ATTR_DYNAMIC: u32 = 0x20;

/// The hash a registry entry named `name` must carry: the CRC-32 of the
/// UTF-8 bytes of the name, seeded with `0xFFFF_FFFF`, with the top bit
/// cleared.
pub open spec fn dti_hash_of(name: Seq<char>) -> u32 {
    spec_crc32(vstd::utf8::encode_utf8(name), 0xFFFF_FFFFu32) & 0x7FFF_FFFFu32
}

/// A type descriptor: qualified name, its hash, and the file extension
/// associated with the type, if any.
pub struct Dti {
    pub name: String,
    pub hash: u32,
    pub file_ext: Option<String>,
}

impl Clone for Dti {
    fn clone(&self) -> (r: Self)
        ensures
            r == *self,
    {
        Dti {
            name: self.name.clone(),
            hash: self.hash,
            file_ext: match &self.file_ext {
                Some(e) => Some(e.clone()),
                None => None,
            },
        }
    }
}

/// The process-wide table of known types, keyed by hash. Populated once at
/// startup, then only read.
pub struct DtiRegistry {
    map: HashMap<u32, Dti>,
}

impl DtiRegistry {
    /// The registered descriptors, keyed by hash.
    pub closed spec fn entries(&self) -> Map<u32, Dti> {
        self.map@
    }

    /// Every entry's key is its descriptor's hash, and that hash is derived
    /// from the descriptor's name.
    pub open spec fn wf(&self) -> bool {
        forall|h: u32| #[trigger]
            self.entries().contains_key(h) ==> self.entries()[h].hash == h && h == dti_hash_of(
                self.entries()[h].name@,
            )
    }

    /// An empty registry.
    pub fn new() -> (r: DtiRegistry)
        ensures
            r.wf(),
            r.entries() == Map::<u32, Dti>::empty(),
    {
        DtiRegistry { map: HashMap::new() }
    }

    /// Adds a type under the hash of its name and returns that hash. An
    /// existing entry with the same hash is replaced.
    pub fn register(&mut self, name: String, file_ext: Option<String>) -> (hash: u32)
        requires
            old(self).wf(),
        ensures
            final(self).wf(),
            hash == dti_hash_of(name@),
            final(self).entries() == old(self).entries().insert(
                hash,
                Dti { name, hash, file_ext },
            ),
    {
        let hash = crate::crc::crc32(name.as_str().as_bytes(), 0xFFFF_FFFFu32) & 0x7FFF_FFFFu32;
        let dti = Dti { name, hash, file_ext };
        self.map.insert(hash, dti);
        hash
    }

    /// Looks the hash up. `None` means the document references a type this
    /// registry does not know, which is fatal for that document.
    pub fn lookup(&self, hash: u32) -> (r: Option<&Dti>)
        requires
            self.wf(),
        ensures
            match r {
                Some(d) => self.entries().contains_key(hash) && *d == self.entries()[hash]
                    && d.hash == hash && hash == dti_hash_of(d.name@),
                None => !self.entries().contains_key(hash),
            },
    {
        self.map.get(&hash)
    }
}

/// Looks `hash` up in the registry.
pub fn from_hash(registry: &DtiRegistry, hash: u32) -> (r: Option<&Dti>)
    requires
        registry.wf(),
    ensures
        match r {
            Some(d) => registry.entries().contains_key(hash) && *d == registry.entries()[hash],
            None => !registry.entries().contains_key(hash),
        },
{
    registry.lookup(hash)
}

/// Every registry entry obeys the hash law: its key equals the descriptor's
/// own hash field, which is the seeded CRC-32 of the descriptor's name with
/// the top bit cleared.
pub proof fn lemma_registry_hash_law(registry: &DtiRegistry, h: u32)
    requires
        registry.wf(),
        registry.entries().contains_key(h),
    ensures
        registry.entries()[h].hash == h,
        registry.entries()[h].hash == dti_hash_of(registry.entries()[h].name@),
{
}

/// The shape a property's values take, decoded from the raw type code of a
/// schema property record.
#[derive(Clone, Copy, PartialEq, Eq, Structural, Debug)]
pub enum PropType {
    Class,
    ClassRef,
    Bool,
    U8,
    U16,
    U32,
    U64,
    S8,
    S16,
    S32,
    S64,
    F32,
    F64,
    String,
    Vector3,
    Custom,
    Unknown,
}

/// The type a raw code denotes; codes outside the table decode to
/// `Unknown`.
pub open spec fn spec_prop_type_from_raw(code: u32) -> PropType {
    if code == 1 {
        PropType::Class
    } else if code == 2 {
        PropType::ClassRef
    } else if code == 3 {
        PropType::Bool
    } else if code == 4 {
        PropType::U8
    } else if code == 5 {
        PropType::U16
    } else if code == 6 {
        PropType::U32
    } else if code == 7 {
        PropType::U64
    } else if code == 8 {
        PropType::S8
    } else if code == 9 {
        PropType::S16
    } else if code == 10 {
        PropType::S32
    } else if code == 11 {
        PropType::S64
    } else if code == 12 {
        PropType::F32
    } else if code == 13 {
        PropType::F64
    } else if code == 14 {
        PropType::String
    } else if code == 20 {
        PropType::Vector3
    } else if code == 0x80 {
        PropType::Custom
    } else {
        PropType::Unknown
    }
}

impl PropType {
    /// Decodes a raw type code.
    pub fn from_raw(code: u32) -> (r: PropType)
        ensures
            r == spec_prop_type_from_raw(code),
    {
        match code {
            1 => PropType::Class,
            2 => PropType::ClassRef,
            3 => PropType::Bool,
            4 => PropType::U8,
            5 => PropType::U16,
            6 => PropType::U32,
            7 => PropType::U64,
            8 => PropType::S8,
            9 => PropType::S16,
            10 => PropType::S32,
            11 => PropType::S64,
            12 => PropType::F32,
            13 => PropType::F64,
            14 => PropType::String,
            20 => PropType::Vector3,
            0x80 => PropType::Custom,
            _ => PropType::Unknown,
        }
    }
}

} // verus!
