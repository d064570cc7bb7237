//! The type registry, its hash law, and the checksum it rests on.

use mtreader::crc::crc32;
use mtreader::dti::{from_hash, DtiRegistry, PropType};

fn sample_registry() -> (DtiRegistry, Vec<(u32, String)>) {
    let mut registry = DtiRegistry::new();
    let mut entries: Vec<(u32, String)> = Vec::new();
    let names = [
        "bitset_prop<32>",
        "rTexture",
        "rMaterial",
        "cSystem",
        "uActor",
    ];
    for name in names {
        let hash = registry.register(name.to_string(), None);
        entries.push((hash, name.to_string()));
    }
    (registry, entries)
}

#[test]
fn test_from_hash() {
    let (registry, _) = sample_registry();
    assert_eq!("bitset_prop<32>", from_hash(&registry, 0x5d5af4f2).unwrap().name);
}

#[test]
fn test_dti_hashes() {
    // Make sure the hashes match up with the names
    let (_, entries) = sample_registry();
    for (hash, name) in &entries {
        let hash_computed = crc32(name.as_bytes(), u32::MAX) & 0x7fffffff;
        assert_eq!(
            *hash, hash_computed,
            "'{}' {:08x} != {:08x}",
            name, hash, hash_computed
        )
    }
}

#[test]
fn registry_lookup_misses_unknown_hash() {
    let (registry, _) = sample_registry();
    assert!(from_hash(&registry, 0x12345678).is_none());
    assert!(registry.lookup(0).is_none());
}

#[test]
fn registry_keeps_file_extension() {
    let mut registry = DtiRegistry::new();
    let hash = registry.register("rTexture".to_string(), Some("tex".to_string()));
    let dti = registry.lookup(hash).unwrap();
    assert_eq!(dti.name, "rTexture");
    assert_eq!(dti.hash, hash);
    assert_eq!(dti.file_ext.as_deref(), Some("tex"));
}

#[test]
fn crc32_known_values() {
    // The reflected CRC-32 check value, written with an explicit seed and
    // final complement.
    assert_eq!(crc32(b"123456789", 0xffff_ffff) ^ 0xffff_ffff, 0xcbf4_3926);
    assert_eq!(crc32(b"", 0xffff_ffff), 0xffff_ffff);
    assert_eq!(crc32(b"bitset_prop<32>", 0xffff_ffff) & 0x7fff_ffff, 0x5d5a_f4f2);
}

#[test]
fn crc32_seed_chains_across_splits() {
    let whole = crc32(b"abcdef", 0xffff_ffff);
    let first = crc32(b"abc", 0xffff_ffff);
    let chained = crc32(b"def", first);
    assert_eq!(whole, chained);
}

#[test]
fn prop_type_codes_decode() {
    assert_eq!(PropType::from_raw(1), PropType::Class);
    assert_eq!(PropType::from_raw(2), PropType::ClassRef);
    assert_eq!(PropType::from_raw(3), PropType::Bool);
    assert_eq!(PropType::from_raw(6), PropType::U32);
    assert_eq!(PropType::from_raw(14), PropType::String);
    assert_eq!(PropType::from_raw(20), PropType::Vector3);
    assert_eq!(PropType::from_raw(0x80), PropType::Custom);
    assert_eq!(PropType::from_raw(0x7f), PropType::Unknown);
}
