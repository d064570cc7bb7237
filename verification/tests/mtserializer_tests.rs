//! The document reader, driven end to end over hand-assembled documents.

use mtreader::dti::DtiRegistry;
use mtreader::mtserializer::{build_schema_table, deserialize, DecodeError, PropertyValue};

fn registry_with(names: &[&str]) -> (DtiRegistry, Vec<u32>) {
    let mut registry = DtiRegistry::new();
    let mut hashes = Vec::new();
    for name in names {
        hashes.push(registry.register(name.to_string(), None));
    }
    (registry, hashes)
}

fn header_bytes(object_num: u32, database_size: u32) -> Vec<u8> {
    let mut h = Vec::new();
    h.extend_from_slice(b"XFS\0");
    h.extend_from_slice(&16u16.to_le_bytes());
    h.extend_from_slice(&0u16.to_le_bytes());
    h.extend_from_slice(&0u32.to_le_bytes());
    h.extend_from_slice(&0u32.to_le_bytes());
    h.extend_from_slice(&object_num.to_le_bytes());
    h.extend_from_slice(&database_size.to_le_bytes());
    h
}

fn object_record(hash: u32, bitfield: u32) -> Vec<u8> {
    let mut r = Vec::new();
    r.extend_from_slice(&hash.to_le_bytes());
    r.extend_from_slice(&0u32.to_le_bytes());
    r.extend_from_slice(&bitfield.to_le_bytes());
    r.extend_from_slice(&0u32.to_le_bytes());
    r
}

fn property_record(name_offset: u64, bitfield: u32) -> Vec<u8> {
    let mut r = Vec::new();
    r.extend_from_slice(&name_offset.to_le_bytes());
    r.extend_from_slice(&bitfield.to_le_bytes());
    r.extend_from_slice(&[0u8; 36]);
    r
}

/// A blob holding one pointer-table entry and one schema record whose
/// properties' names are appended at the end.
fn one_object_blob(hash: u32, prop_bitfields: &[u32]) -> Vec<u8> {
    let n = prop_bitfields.len();
    let mut blob = Vec::new();
    blob.extend_from_slice(&8u64.to_le_bytes());
    blob.extend_from_slice(&object_record(hash, n as u32));
    let names_base = 8 + 16 + 48 * n as u64;
    for (j, bf) in prop_bitfields.iter().enumerate() {
        blob.extend_from_slice(&property_record(names_base + 3 * j as u64, *bf));
    }
    for j in 0..n {
        blob.push(b'p');
        blob.push(b'0' + j as u8);
        blob.push(0);
    }
    blob
}

fn document(blob: &[u8], object_num: u32, instance: &[u8]) -> Vec<u8> {
    let mut doc = header_bytes(object_num, blob.len() as u32);
    doc.extend_from_slice(blob);
    doc.extend_from_slice(instance);
    doc
}

#[test]
fn minimal_document_decodes_to_empty_node() {
    let (registry, hashes) = registry_with(&["bitset_prop<32>"]);
    let blob = one_object_blob(hashes[0], &[]);
    assert_eq!(blob.len(), 24);
    let mut instance = Vec::new();
    instance.extend_from_slice(&0u32.to_le_bytes());
    instance.extend_from_slice(&0u64.to_le_bytes());
    let doc = document(&blob, 1, &instance);
    assert_eq!(doc.len(), 60);
    let class = deserialize(&doc, &registry).unwrap();
    assert_eq!(class.class_type().name, "bitset_prop<32>");
    assert_eq!(class.class_type().hash, 0x5d5af4f2);
    assert!(class.props().is_empty());
}

#[test]
fn bad_magic_is_rejected_before_anything_else() {
    let (registry, _) = registry_with(&["bitset_prop<32>"]);
    let mut doc = header_bytes(1, 9999);
    doc[0] = b'Y';
    assert!(matches!(
        deserialize(&doc, &registry),
        Err(DecodeError::BadMagicOrVersion { .. })
    ));
}

#[test]
fn bad_major_version_is_rejected() {
    let (registry, _) = registry_with(&["bitset_prop<32>"]);
    let mut doc = header_bytes(0, 0);
    doc[4] = 15;
    assert!(matches!(
        deserialize(&doc, &registry),
        Err(DecodeError::BadMagicOrVersion { .. })
    ));
}

#[test]
fn short_header_is_truncated_input() {
    let (registry, _) = registry_with(&["bitset_prop<32>"]);
    assert!(matches!(
        deserialize(b"XFS\0", &registry),
        Err(DecodeError::TruncatedInput { .. })
    ));
}

#[test]
fn short_database_blob_is_truncated_input() {
    let (registry, _) = registry_with(&["bitset_prop<32>"]);
    let doc = header_bytes(1, 100);
    assert!(matches!(
        deserialize(&doc, &registry),
        Err(DecodeError::TruncatedInput { .. })
    ));
}

#[test]
fn pointer_aliasing_the_table_is_corrupt() {
    let (registry, hashes) = registry_with(&["bitset_prop<32>"]);
    let mut blob = Vec::new();
    blob.extend_from_slice(&0u64.to_le_bytes());
    blob.extend_from_slice(&object_record(hashes[0], 0));
    let doc = document(&blob, 1, &[]);
    assert!(matches!(
        deserialize(&doc, &registry),
        Err(DecodeError::CorruptPointerTable { index: 0, pointer: 0 })
    ));
}

#[test]
fn pointer_past_the_blob_is_corrupt() {
    let (registry, _) = registry_with(&["bitset_prop<32>"]);
    let mut blob = Vec::new();
    blob.extend_from_slice(&24u64.to_le_bytes());
    blob.extend_from_slice(&[0u8; 16]);
    let doc = document(&blob, 1, &[]);
    assert!(matches!(
        deserialize(&doc, &registry),
        Err(DecodeError::CorruptPointerTable { index: 0, pointer: 24 })
    ));
}

#[test]
fn unknown_type_hash_is_fatal() {
    let (registry, _) = registry_with(&["bitset_prop<32>"]);
    let blob = one_object_blob(0x0102_0304, &[]);
    let doc = document(&blob, 1, &[]);
    assert!(matches!(
        deserialize(&doc, &registry),
        Err(DecodeError::UnknownType { hash: 0x0102_0304 })
    ));
}

#[test]
fn pre_initialized_schema_is_unsupported() {
    let (registry, hashes) = registry_with(&["bitset_prop<32>"]);
    let mut blob = Vec::new();
    blob.extend_from_slice(&8u64.to_le_bytes());
    blob.extend_from_slice(&object_record(hashes[0], 0x8000));
    let doc = document(&blob, 1, &[]);
    assert!(matches!(
        deserialize(&doc, &registry),
        Err(DecodeError::UnsupportedSchemaShape {
            object_index: 0,
            disabled_property: false
        })
    ));
}

#[test]
fn null_root_is_required_node_absent() {
    let (registry, hashes) = registry_with(&["bitset_prop<32>"]);
    let blob = one_object_blob(hashes[0], &[]);
    let instance = 0x0000_fffeu32.to_le_bytes();
    let doc = document(&blob, 1, &instance);
    assert!(matches!(
        deserialize(&doc, &registry),
        Err(DecodeError::RequiredNodeAbsent)
    ));
}

#[test]
fn null_sentinel_consumes_exactly_four_bytes() {
    // One nested-node slot decoding to the sentinel, then a u32 property:
    // the u32 only reads its value correctly if the sentinel consumed 4
    // bytes, not 12.
    let (registry, hashes) = registry_with(&["bitset_prop<32>"]);
    let blob = one_object_blob(hashes[0], &[1, 6]);
    let mut instance = Vec::new();
    instance.extend_from_slice(&0u32.to_le_bytes());
    instance.extend_from_slice(&0u64.to_le_bytes());
    instance.extend_from_slice(&1u32.to_le_bytes());
    instance.extend_from_slice(&0x0001_fffeu32.to_le_bytes());
    instance.extend_from_slice(&1u32.to_le_bytes());
    instance.extend_from_slice(&0xdead_beefu32.to_le_bytes());
    let doc = document(&blob, 1, &instance);
    let class = deserialize(&doc, &registry).unwrap();
    assert_eq!(class.props().len(), 2);
    assert_eq!(class.props()[0].0, "p0");
    assert!(matches!(class.props()[0].1.values(), [PropertyValue::Class(None)]));
    assert_eq!(class.props()[1].0, "p1");
    assert!(matches!(
        class.props()[1].1.values(),
        [PropertyValue::U32(0xdead_beef)]
    ));
}

#[test]
fn out_of_range_discriminant_is_invalid() {
    let (registry, hashes) = registry_with(&["bitset_prop<32>"]);
    let blob = one_object_blob(hashes[0], &[]);
    let instance = (5u32 << 1).to_le_bytes();
    let doc = document(&blob, 1, &instance);
    assert!(matches!(
        deserialize(&doc, &registry),
        Err(DecodeError::InvalidDiscriminant { discriminant: 10, table_len: 1 })
    ));
}

#[test]
fn disabled_property_is_unsupported() {
    let (registry, hashes) = registry_with(&["bitset_prop<32>"]);
    let blob = one_object_blob(hashes[0], &[0x8000_0006]);
    let mut instance = Vec::new();
    instance.extend_from_slice(&0u32.to_le_bytes());
    instance.extend_from_slice(&0u64.to_le_bytes());
    let doc = document(&blob, 1, &instance);
    assert!(matches!(
        deserialize(&doc, &registry),
        Err(DecodeError::UnsupportedSchemaShape {
            object_index: 0,
            disabled_property: true
        })
    ));
}

#[test]
fn unsupported_static_type_fails_when_a_value_is_read() {
    let (registry, hashes) = registry_with(&["bitset_prop<32>"]);
    let blob = one_object_blob(hashes[0], &[99]);
    let mut instance = Vec::new();
    instance.extend_from_slice(&0u32.to_le_bytes());
    instance.extend_from_slice(&0u64.to_le_bytes());
    instance.extend_from_slice(&1u32.to_le_bytes());
    let doc = document(&blob, 1, &instance);
    assert!(matches!(
        deserialize(&doc, &registry),
        Err(DecodeError::UnsupportedPropertyType { raw_type: 99, dynamic: false })
    ));
}

#[test]
fn unsupported_static_type_passes_when_its_array_is_empty() {
    let (registry, hashes) = registry_with(&["bitset_prop<32>"]);
    let blob = one_object_blob(hashes[0], &[99]);
    let mut instance = Vec::new();
    instance.extend_from_slice(&0u32.to_le_bytes());
    instance.extend_from_slice(&0u64.to_le_bytes());
    instance.extend_from_slice(&0u32.to_le_bytes());
    let doc = document(&blob, 1, &instance);
    let class = deserialize(&doc, &registry).unwrap();
    assert!(class.props()[0].1.values().is_empty());
}

#[test]
fn string_is_static_only() {
    // The grammars deliberately diverge: a string-typed dynamic property
    // is a hard failure.
    let (registry, hashes) = registry_with(&["bitset_prop<32>"]);
    let blob = one_object_blob(hashes[0], &[0x200e]);
    let mut instance = Vec::new();
    instance.extend_from_slice(&0u32.to_le_bytes());
    instance.extend_from_slice(&0u64.to_le_bytes());
    instance.extend_from_slice(&1u32.to_le_bytes());
    let doc = document(&blob, 1, &instance);
    assert!(matches!(
        deserialize(&doc, &registry),
        Err(DecodeError::UnsupportedPropertyType { raw_type: 14, dynamic: true })
    ));
}

#[test]
fn vector3_with_zero_padding_decodes() {
    let (registry, hashes) = registry_with(&["bitset_prop<32>"]);
    let blob = one_object_blob(hashes[0], &[20]);
    let mut instance = Vec::new();
    instance.extend_from_slice(&0u32.to_le_bytes());
    instance.extend_from_slice(&0u64.to_le_bytes());
    instance.extend_from_slice(&1u32.to_le_bytes());
    instance.extend_from_slice(&1.0f32.to_le_bytes());
    instance.extend_from_slice(&2.0f32.to_le_bytes());
    instance.extend_from_slice(&3.0f32.to_le_bytes());
    instance.extend_from_slice(&0.0f32.to_le_bytes());
    let doc = document(&blob, 1, &instance);
    let class = deserialize(&doc, &registry).unwrap();
    match class.props()[0].1.values() {
        [PropertyValue::Vector3(x, y, z)] => {
            assert_eq!(f32::from_bits(*x), 1.0);
            assert_eq!(f32::from_bits(*y), 2.0);
            assert_eq!(f32::from_bits(*z), 3.0);
        }
        other => panic!("unexpected values: {:?}", other.len()),
    }
}

#[test]
fn vector3_accepts_negative_zero_padding() {
    let (registry, hashes) = registry_with(&["bitset_prop<32>"]);
    let blob = one_object_blob(hashes[0], &[20]);
    let mut instance = Vec::new();
    instance.extend_from_slice(&0u32.to_le_bytes());
    instance.extend_from_slice(&0u64.to_le_bytes());
    instance.extend_from_slice(&1u32.to_le_bytes());
    instance.extend_from_slice(&[0u8; 12]);
    instance.extend_from_slice(&(-0.0f32).to_le_bytes());
    let doc = document(&blob, 1, &instance);
    assert!(deserialize(&doc, &registry).is_ok());
}

#[test]
fn vector3_with_nonzero_padding_is_a_format_violation() {
    let (registry, hashes) = registry_with(&["bitset_prop<32>"]);
    let blob = one_object_blob(hashes[0], &[20]);
    let mut instance = Vec::new();
    instance.extend_from_slice(&0u32.to_le_bytes());
    instance.extend_from_slice(&0u64.to_le_bytes());
    instance.extend_from_slice(&1u32.to_le_bytes());
    instance.extend_from_slice(&[0u8; 12]);
    instance.extend_from_slice(&1.0f32.to_le_bytes());
    let doc = document(&blob, 1, &instance);
    match deserialize(&doc, &registry) {
        Err(DecodeError::InvalidVectorPadding { found_bits }) => {
            assert_eq!(found_bits, 1.0f32.to_bits());
        }
        _ => panic!("expected a vector padding violation"),
    }
}

#[test]
fn static_scalars_decode_in_declared_order() {
    let (registry, hashes) = registry_with(&["bitset_prop<32>"]);
    // bool, u8, u16, s32, f32, s8
    let blob = one_object_blob(hashes[0], &[3, 4, 5, 10, 12, 8]);
    let mut instance = Vec::new();
    instance.extend_from_slice(&0u32.to_le_bytes());
    instance.extend_from_slice(&0u64.to_le_bytes());
    instance.extend_from_slice(&1u32.to_le_bytes());
    instance.push(2);
    instance.extend_from_slice(&1u32.to_le_bytes());
    instance.push(0xab);
    instance.extend_from_slice(&1u32.to_le_bytes());
    instance.extend_from_slice(&0x1234u16.to_le_bytes());
    instance.extend_from_slice(&1u32.to_le_bytes());
    instance.extend_from_slice(&(-7i32).to_le_bytes());
    instance.extend_from_slice(&1u32.to_le_bytes());
    instance.extend_from_slice(&2.5f32.to_le_bytes());
    instance.extend_from_slice(&1u32.to_le_bytes());
    instance.extend_from_slice(&(-3i8).to_le_bytes());
    let doc = document(&blob, 1, &instance);
    let class = deserialize(&doc, &registry).unwrap();
    assert!(matches!(class.props()[0].1.values(), [PropertyValue::Bool(true)]));
    assert!(matches!(class.props()[1].1.values(), [PropertyValue::U8(0xab)]));
    assert!(matches!(class.props()[2].1.values(), [PropertyValue::U16(0x1234)]));
    assert!(matches!(class.props()[3].1.values(), [PropertyValue::S32(-7)]));
    match class.props()[4].1.values() {
        [PropertyValue::F32(bits)] => assert_eq!(f32::from_bits(*bits), 2.5),
        _ => panic!("expected one f32 value"),
    }
    assert!(matches!(class.props()[5].1.values(), [PropertyValue::S8(-3)]));
}

#[test]
fn static_string_uses_the_legacy_encoding() {
    let (registry, hashes) = registry_with(&["bitset_prop<32>"]);
    let blob = one_object_blob(hashes[0], &[14]);
    let mut instance = Vec::new();
    instance.extend_from_slice(&0u32.to_le_bytes());
    instance.extend_from_slice(&0u64.to_le_bytes());
    instance.extend_from_slice(&1u32.to_le_bytes());
    instance.extend_from_slice(&[0x83, 0x65, 0x00]);
    let doc = document(&blob, 1, &instance);
    let class = deserialize(&doc, &registry).unwrap();
    let (expected, _, _) = encoding_rs::SHIFT_JIS.decode(&[0x83, 0x65]);
    match class.props()[0].1.values() {
        [PropertyValue::String(s)] => {
            assert_eq!(s, expected.as_ref());
            assert_ne!(s.as_bytes(), &[0x83, 0x65]);
        }
        _ => panic!("expected one string value"),
    }
}

#[test]
fn dynamic_custom_reads_counted_strings() {
    let (registry, hashes) = registry_with(&["bitset_prop<32>"]);
    let blob = one_object_blob(hashes[0], &[0x2080]);
    let mut instance = Vec::new();
    instance.extend_from_slice(&0u32.to_le_bytes());
    instance.extend_from_slice(&0u64.to_le_bytes());
    instance.extend_from_slice(&1u32.to_le_bytes());
    instance.push(2);
    instance.extend_from_slice(b"ab\0cd\0");
    let doc = document(&blob, 1, &instance);
    let class = deserialize(&doc, &registry).unwrap();
    match class.props()[0].1.values() {
        [PropertyValue::Custom(items)] => {
            assert_eq!(items.len(), 2);
            assert_eq!(items[0], "ab");
            assert_eq!(items[1], "cd");
        }
        _ => panic!("expected one custom value"),
    }
}

#[test]
fn dynamic_classref_must_be_present() {
    let (registry, hashes) = registry_with(&["bitset_prop<32>"]);
    let blob = one_object_blob(hashes[0], &[0x2002]);
    let mut instance = Vec::new();
    instance.extend_from_slice(&0u32.to_le_bytes());
    instance.extend_from_slice(&0u64.to_le_bytes());
    instance.extend_from_slice(&1u32.to_le_bytes());
    instance.extend_from_slice(&0x0000_fffeu32.to_le_bytes());
    let doc = document(&blob, 1, &instance);
    assert!(matches!(
        deserialize(&doc, &registry),
        Err(DecodeError::RequiredNodeAbsent)
    ));
}

#[test]
fn dynamic_classref_decodes_a_nested_node() {
    let (registry, hashes) = registry_with(&["bitset_prop<32>", "rTexture"]);
    // Two schema records: index 0 with one dynamic classref property, and
    // index 1 with no properties.
    let mut blob = Vec::new();
    blob.extend_from_slice(&16u64.to_le_bytes());
    blob.extend_from_slice(&80u64.to_le_bytes());
    blob.extend_from_slice(&object_record(hashes[0], 1));
    blob.extend_from_slice(&property_record(96, 0x2002));
    blob.extend_from_slice(&object_record(hashes[1], 0));
    blob.extend_from_slice(b"p0\0");
    let mut instance = Vec::new();
    instance.extend_from_slice(&0u32.to_le_bytes());
    instance.extend_from_slice(&0u64.to_le_bytes());
    instance.extend_from_slice(&1u32.to_le_bytes());
    instance.extend_from_slice(&(1u32 << 1).to_le_bytes());
    instance.extend_from_slice(&0u64.to_le_bytes());
    let doc = document(&blob, 2, &instance);
    let class = deserialize(&doc, &registry).unwrap();
    match class.props()[0].1.values() {
        [PropertyValue::Class(Some(inner))] => {
            assert_eq!(inner.class_type().name, "rTexture");
            assert!(inner.props().is_empty());
        }
        _ => panic!("expected one nested node"),
    }
}

#[test]
fn schema_builder_unpacks_property_bitfields_exactly() {
    let (registry, hashes) = registry_with(&["bitset_prop<32>"]);
    let v: u32 = 0xdead_beef;
    let blob = one_object_blob(hashes[0], &[v]);
    let table = build_schema_table(&blob, 1, &registry).unwrap();
    let prop = &table[0].props[0];
    assert_eq!(prop.prop_raw_type, v & 0xff);
    assert_eq!(prop.prop_attr, (v >> 8) & 0xff);
    assert_eq!(prop.prop_size, (v >> 16) & 0x7fff);
    assert_eq!(prop.is_disabled, v & 0x8000_0000 != 0);
    assert!(prop.is_dynamic);
    // Packing the four unpacked fields again reproduces the word.
    let repacked = prop.prop_raw_type
        | (prop.prop_attr << 8)
        | (prop.prop_size << 16)
        | if prop.is_disabled { 0x8000_0000 } else { 0 };
    assert_eq!(repacked, v);
    assert_eq!(prop.name, "p0");
}

#[test]
fn truncated_instance_stream_is_truncated_input() {
    let (registry, hashes) = registry_with(&["bitset_prop<32>"]);
    let blob = one_object_blob(hashes[0], &[6]);
    let mut instance = Vec::new();
    instance.extend_from_slice(&0u32.to_le_bytes());
    instance.extend_from_slice(&0u64.to_le_bytes());
    instance.extend_from_slice(&1u32.to_le_bytes());
    instance.extend_from_slice(&[0xaa, 0xbb]);
    let doc = document(&blob, 1, &instance);
    assert!(matches!(
        deserialize(&doc, &registry),
        Err(DecodeError::TruncatedInput { .. })
    ));
}

#[test]
fn nested_nodes_keep_the_stream_aligned() {
    // A schema whose first property nests another node of the same type:
    // the inner node terminates with the sentinel, and every u32 read
    // after a nesting level must still land on its own bytes.
    let (registry, hashes) = registry_with(&["bitset_prop<32>"]);
    let blob = one_object_blob(hashes[0], &[1, 6]);
    let mut instance = Vec::new();
    instance.extend_from_slice(&0u32.to_le_bytes()); // root discriminant
    instance.extend_from_slice(&0u64.to_le_bytes());
    instance.extend_from_slice(&1u32.to_le_bytes()); // root p0: one nested node
    instance.extend_from_slice(&0u32.to_le_bytes()); // nested discriminant
    instance.extend_from_slice(&0u64.to_le_bytes());
    instance.extend_from_slice(&1u32.to_le_bytes()); // nested p0: one absent node
    instance.extend_from_slice(&0x0000_fffeu32.to_le_bytes());
    instance.extend_from_slice(&1u32.to_le_bytes()); // nested p1
    instance.extend_from_slice(&0x1111_1111u32.to_le_bytes());
    instance.extend_from_slice(&1u32.to_le_bytes()); // root p1
    instance.extend_from_slice(&0x2222_2222u32.to_le_bytes());
    let doc = document(&blob, 1, &instance);
    let class = deserialize(&doc, &registry).unwrap();
    let inner = match class.props()[0].1.values() {
        [PropertyValue::Class(Some(inner))] => inner,
        _ => panic!("expected one nested node"),
    };
    assert!(matches!(inner.props()[0].1.values(), [PropertyValue::Class(None)]));
    assert!(matches!(
        inner.props()[1].1.values(),
        [PropertyValue::U32(0x1111_1111)]
    ));
    assert!(matches!(
        class.props()[1].1.values(),
        [PropertyValue::U32(0x2222_2222)]
    ));
}
