//! The fixed-layout record parsers, the capped string reader, and the hex
//! dump.

use mtreader::dti::DtiRegistry;
use mtreader::hexdump::{hexdump, hexdump_custom};
use mtreader::reader::Stream;
use mtreader::rguimessage::{
    index_item_hashes_match, split_message_buffer, GmdError, GuiMessageFile, RawGuiMessageIndexItem,
};
use mtreader::rmaterial::{MaterialError, MaterialFile};
use mtreader::rmodel::{read_primitive_info, ModelError, ModelFile, PrimitiveTopology};
use mtreader::rscheduler::{read_scheduler_track, SchedulerError, SchedulerFile};
use mtreader::rshader2::{
    InputElementFormat, ObjectType, Shader2Error, Shader2File, Shader2Object,
    Shader2ObjectTypedInfo,
};
use mtreader::rshaderpackage::{read_shader_package_code_info, ShaderPackageFile};
use mtreader::rtexture::{FormatType, TextureError, TextureFile};
use mtreader::text::read_null_terminated_string;
use mtreader::crc::crc32;
use mtreader::rarchive::{ArchiveError, ArchiveFile};

#[test]
fn null_terminated_string_stops_at_the_terminator() {
    let data = b"abc\0xyz";
    let mut stream = Stream::new(data, 0);
    let s = read_null_terminated_string(&mut stream, 512).unwrap();
    assert_eq!(s, "abc");
    assert_eq!(stream.position(), 4);
}

#[test]
fn null_terminated_string_without_terminator_fails() {
    let data = b"abc";
    let mut stream = Stream::new(data, 0);
    assert!(read_null_terminated_string(&mut stream, 512).is_none());
}

#[test]
fn null_terminated_string_is_capped() {
    let mut data = vec![b'a'; 10];
    data.extend_from_slice(b"rest");
    let mut stream = Stream::new(&data, 0);
    let s = read_null_terminated_string(&mut stream, 5).unwrap();
    assert_eq!(s, "aaaaa");
    // The cap consumes one extra byte beyond the kept content.
    assert_eq!(stream.position(), 6);
}

#[test]
fn primitive_info_unpacks_its_bitfields() {
    let mut rec = Vec::new();
    rec.extend_from_slice(&((7u32 << 16) | 3).to_le_bytes());
    rec.extend_from_slice(&((9u32 << 12) | 5).to_le_bytes());
    let vlb: u32 = (4 << 24) | (32 << 16) | (3 << 3);
    rec.extend_from_slice(&vlb.to_le_bytes());
    rec.extend_from_slice(&10u32.to_le_bytes());
    rec.extend_from_slice(&11u32.to_le_bytes());
    rec.extend_from_slice(&12u32.to_le_bytes());
    rec.extend_from_slice(&13u32.to_le_bytes());
    rec.extend_from_slice(&14u32.to_le_bytes());
    rec.extend_from_slice(&15u32.to_le_bytes());
    rec.extend_from_slice(&(6u32 << 8).to_le_bytes());
    rec.extend_from_slice(&0u32.to_le_bytes());
    rec.extend_from_slice(&0u32.to_le_bytes());
    rec.extend_from_slice(&0u64.to_le_bytes());
    let p = read_primitive_info(&rec, 0);
    assert_eq!(p.vertex_num(), 7);
    assert_eq!(p.parts_no(), 5);
    assert_eq!(p.material_no(), 9);
    assert_eq!(p.weight_num(), 3);
    assert_eq!(p.vertex_stride(), 32);
    assert_eq!(p.raw_topology(), 4);
    assert_eq!(p.topology(), Some(PrimitiveTopology::TriangleStrip));
    assert_eq!(p.vertex_base(), 11);
    assert_eq!(p.inputlayout(), 12);
    assert_eq!(p.index_ofs(), 13);
    assert_eq!(p.index_num(), 14);
    assert_eq!(p.index_base(), 15);
    assert_eq!(p.boundary_num(), 6);
}

#[test]
fn texture_file_reads_dimensions_and_data() {
    let mut data = Vec::new();
    data.extend_from_slice(b"TEX\0");
    let bf4: u32 = (2 << 28) | (1 << 24) | 0x9; // 2D, prebias 1, version 9
    data.extend_from_slice(&bf4.to_le_bytes());
    let bf8: u32 = (6u32 << 19) | (8u32 << 6) | 1; // height 6, width 8, one level
    data.extend_from_slice(&bf8.to_le_bytes());
    let bfc: u32 = (7 << 8) | 1; // format 7, one layer
    data.extend_from_slice(&bfc.to_le_bytes());
    data.extend_from_slice(&24u64.to_le_bytes());
    data.extend_from_slice(&[0xaa, 0xbb, 0xcc]);
    let tex = TextureFile::new(&data).unwrap();
    assert_eq!(tex.width(), 16);
    assert_eq!(tex.height(), 12);
    assert_eq!(tex.format(), Some(FormatType::FORMAT_R8G8B8A8_UNORM));
    assert_eq!(tex.data(), &[0xaa, 0xbb, 0xcc]);
}

#[test]
fn texture_file_rejects_wrong_magic_and_type() {
    assert!(matches!(TextureFile::new(b"BAD"), Err(TextureError::Truncated)));
    let mut data = Vec::new();
    data.extend_from_slice(b"XEX\0");
    data.extend_from_slice(&[0u8; 12]);
    assert!(matches!(TextureFile::new(&data), Err(TextureError::BadMagic { .. })));
    let mut data = Vec::new();
    data.extend_from_slice(b"TEX\0");
    let bf4: u32 = 6 << 28; // a cube map, not plain 2D
    data.extend_from_slice(&bf4.to_le_bytes());
    data.extend_from_slice(&[0u8; 8]);
    assert!(matches!(
        TextureFile::new(&data),
        Err(TextureError::UnsupportedType { raw_type: 6 })
    ));
}

#[test]
fn scheduler_file_validates_its_container() {
    let mut data = Vec::new();
    data.extend_from_slice(b"SDL\0");
    data.extend_from_slice(&0x16u16.to_le_bytes());
    data.extend_from_slice(&0u16.to_le_bytes());
    data.extend_from_slice(&[0u8; 24]);
    assert!(matches!(SchedulerFile::new(&data), Ok(SchedulerFile {})));
    let mut bad = data.clone();
    bad[0] = b'X';
    assert!(matches!(SchedulerFile::new(&bad), Err(SchedulerError::BadMagic { .. })));
    let mut bad = data.clone();
    bad[4] = 0x15;
    assert!(matches!(
        SchedulerFile::new(&bad),
        Err(SchedulerError::BadVersion { .. })
    ));
    let mut short = data.clone();
    short[6] = 2; // two declared tracks, none present
    assert!(matches!(SchedulerFile::new(&short), Err(SchedulerError::Truncated)));
}

#[test]
fn scheduler_track_unpacks_its_bitfield() {
    let mut rec = Vec::new();
    rec.extend_from_slice(&((300u32 << 16) | (9 << 8) | 5).to_le_bytes());
    rec.extend_from_slice(&[0u8; 44]);
    let track = read_scheduler_track(&rec, 0);
    assert_eq!(track.track_type(), 5);
    assert_eq!(track.prop_type(), 9);
    assert_eq!(track.key_num(), 300);
}

fn shader_object(name: &str, name_hash: u32) -> Shader2Object {
    Shader2Object {
        name: name.to_string(),
        sname: None,
        annotations: None,
        obj_type: ObjectType::OT_TEXTURE,
        name_hash,
        obj_specific: Shader2ObjectTypedInfo::NoInfo,
    }
}

#[test]
fn shader2_handles_resolve_through_the_hash_table() {
    let objects = vec![shader_object("tAlbedoMap", 5), shader_object("tNormalMap", 9)];
    let file = Shader2File::from_objects(objects).unwrap();
    let found = file.get_object_by_handle(5 << 12).unwrap();
    assert_eq!(found.name(), "tAlbedoMap");
    let found = file.get_object_by_handle((9 << 12) | 0xfff).unwrap();
    assert_eq!(found.name(), "tNormalMap");
    assert!(file.get_object_by_handle(7 << 12).is_none());
    assert_eq!(file.objects().len(), 2);
}

#[test]
fn shader2_rejects_colliding_hashes() {
    let objects = vec![shader_object("a", 5), shader_object("b", 5)];
    assert!(matches!(
        Shader2File::from_objects(objects),
        Err(Shader2Error::HashCollision { hash: 5 })
    ));
}

#[test]
fn shader_package_code_info_unpacks_its_size() {
    let mut rec = Vec::new();
    rec.extend_from_slice(&((640u32 << 10) | 0x3ff).to_le_bytes());
    rec.extend_from_slice(&7u32.to_le_bytes());
    rec.extend_from_slice(&0x1000u64.to_le_bytes());
    let info = read_shader_package_code_info(&rec, 0);
    assert_eq!(info.code_size(), 640);
    assert_eq!(info.crc, 7);
    assert_eq!(info.pcode, 0x1000);
}

#[test]
fn message_buffer_splits_on_null_bytes() {
    let split = split_message_buffer(b"ab\0cd\0ef");
    assert_eq!(split.len(), 2);
    assert_eq!(split[0], b"ab");
    assert_eq!(split[1], b"cd");
    assert_eq!(split_message_buffer(b"\0").len(), 1);
    assert!(split_message_buffer(b"").is_empty());
}

#[test]
fn message_index_hash_chain_checks_out() {
    let label = b"GS5_SAVERR_01";
    let hash = crc32(label, 0xffff_ffff);
    let hash_a = crc32(label, hash);
    let hash_b = crc32(label, hash_a);
    let good = RawGuiMessageIndexItem {
        message_index: 0,
        hash_a,
        hash_b,
        padding: 0xcdcdcdcd,
        label_offset: 0,
        hash_link: 0,
    };
    assert!(index_item_hashes_match(label, &good));
    let bad = RawGuiMessageIndexItem { hash_a: hash_a ^ 1, ..good };
    assert!(!index_item_hashes_match(label, &bad));
}

#[test]
fn material_file_resolves_names_and_textures() {
    let mut registry = DtiRegistry::new();
    let tex_hash = registry.register("rTexture".to_string(), Some("tex".to_string()));
    let mat_hash = registry.register("rMaterial".to_string(), None);
    let shader2 = Shader2File::from_objects(Vec::new()).unwrap();

    let mut data = Vec::new();
    data.extend_from_slice(b"MRL\0");
    data.extend_from_slice(&0u32.to_le_bytes());
    data.extend_from_slice(&1u32.to_le_bytes()); // one material
    data.extend_from_slice(&1u32.to_le_bytes()); // one texture
    data.extend_from_slice(&0u32.to_le_bytes());
    data.extend_from_slice(&0u32.to_le_bytes());
    data.extend_from_slice(&40u64.to_le_bytes()); // textures at 40
    data.extend_from_slice(&192u64.to_le_bytes()); // materials at 192
    // texture record
    data.extend_from_slice(&tex_hash.to_le_bytes());
    data.extend_from_slice(&[0u8; 20]);
    let mut path = [0u8; 128];
    path[..8].copy_from_slice(b"body.tex");
    data.extend_from_slice(&path);
    // material record
    data.extend_from_slice(&mat_hash.to_le_bytes());
    data.extend_from_slice(&0u32.to_le_bytes());
    data.extend_from_slice(&crc32(b"mat0", 0xffff_ffff).to_le_bytes());
    data.extend_from_slice(&[0u8; 60]);

    let file = MaterialFile::new(&data, &shader2, &registry).unwrap();
    assert_eq!(file.textures(), &["body.tex".to_string()]);
    assert_eq!(file.materials().len(), 1);
    let found = file.material_by_name("mat0").unwrap();
    assert_eq!(found.mat_type().name, "rMaterial");
    assert_eq!(found.name_hash(), crc32(b"mat0", 0xffff_ffff));
    assert!(found.albedo_texture_idx().is_none());
    assert!(file.material_by_name("other").is_none());
}

#[test]
fn hexdump_renders_rows_and_printable_columns() {
    assert_eq!(hexdump_custom(&[0x41, 0x00], 2), "41 00  | A.\n");
    assert_eq!(hexdump_custom(&[0x41, 0x42, 0x43], 2), "41 42  | AB\n43     | C\n");
    assert_eq!(hexdump(&[]), "");
    let one_row = hexdump(&[0xff; 16]);
    assert_eq!(
        one_row,
        "ff ff ff ff ff ff ff ff ff ff ff ff ff ff ff ff  | ................\n"
    );
}

fn gmd_bytes(package: &str, entries: &[(&str, &str)], language_id: u32, time: u64) -> Vec<u8> {
    let mut label_buf: Vec<u8> = Vec::new();
    let mut message_buf: Vec<u8> = Vec::new();
    let mut offsets: Vec<u64> = Vec::new();
    for (label, message) in entries {
        offsets.push(label_buf.len() as u64);
        label_buf.extend_from_slice(label.as_bytes());
        label_buf.push(0);
        message_buf.extend_from_slice(message.as_bytes());
        message_buf.push(0);
    }
    let mut data = Vec::new();
    data.extend_from_slice(b"GMD\0");
    data.extend_from_slice(&0x10302u32.to_le_bytes());
    data.extend_from_slice(&language_id.to_le_bytes());
    data.extend_from_slice(&time.to_le_bytes());
    data.extend_from_slice(&(entries.len() as u32).to_le_bytes());
    data.extend_from_slice(&(entries.len() as u32).to_le_bytes());
    data.extend_from_slice(&(label_buf.len() as u32).to_le_bytes());
    data.extend_from_slice(&(message_buf.len() as u32).to_le_bytes());
    data.extend_from_slice(&(package.len() as u32).to_le_bytes());
    data.extend_from_slice(package.as_bytes());
    data.push(0);
    for (i, (label, _)) in entries.iter().enumerate() {
        let hash = crc32(label.as_bytes(), 0xffff_ffff);
        let hash_a = crc32(label.as_bytes(), hash);
        let hash_b = crc32(label.as_bytes(), hash_a);
        data.extend_from_slice(&(i as u32).to_le_bytes());
        data.extend_from_slice(&hash_a.to_le_bytes());
        data.extend_from_slice(&hash_b.to_le_bytes());
        data.extend_from_slice(&0xcdcdcdcdu32.to_le_bytes());
        data.extend_from_slice(&offsets[i].to_le_bytes());
        data.extend_from_slice(&0u64.to_le_bytes());
    }
    if !entries.is_empty() {
        data.extend_from_slice(&[0u8; 2048]);
    }
    data.extend_from_slice(&label_buf);
    data.extend_from_slice(&message_buf);
    data
}

#[test]
fn message_file_decodes_and_round_trips() {
    let entries = [("SAVE_OK", "Saved."), ("SAVE_ERR", "Could not save.")];
    let data = gmd_bytes("pkg/system", &entries, 3, 1_234_567);
    let file = GuiMessageFile::new(&data).unwrap();
    assert_eq!(file.package_name(), "pkg/system");
    assert_eq!(file.language_id(), 3);
    assert_eq!(file.update_time(), 1_234_567);
    assert_eq!(file.messages().len(), 2);
    assert_eq!(file.messages()[0].label, "SAVE_OK");
    assert_eq!(file.messages()[0].message, "Saved.");
    assert_eq!(file.messages()[1].label, "SAVE_ERR");
    assert_eq!(file.messages()[1].message, "Could not save.");

    let saved = file.save().unwrap();
    let again = GuiMessageFile::new(&saved).unwrap();
    assert_eq!(again.package_name(), "pkg/system");
    assert_eq!(again.language_id(), 3);
    assert_eq!(again.update_time(), 1_234_567);
    assert_eq!(again.messages().len(), 2);
    assert_eq!(again.messages()[1].label, "SAVE_ERR");
    assert_eq!(again.messages()[1].message, "Could not save.");
}

#[test]
fn message_file_rejects_wrong_hashes() {
    let mut data = gmd_bytes("pkg", &[("ONLY", "msg")], 0, 0);
    // Corrupt the first index record's hash chain; it sits right after
    // the header and the package name.
    let item_base = 40 + "pkg".len() + 1;
    data[item_base + 4] ^= 0xff;
    assert!(matches!(
        GuiMessageFile::new(&data),
        Err(GmdError::HashMismatch { index: 0 })
    ));
}

#[test]
fn message_file_save_rejects_colliding_slots() {
    // Find two labels whose seeded CRC-32 values share a low byte.
    let first = "L0";
    let target = crc32(first.as_bytes(), 0xffff_ffff) & 0xff;
    let mut other = String::new();
    for i in 1..10_000 {
        let cand = format!("L{}", i);
        if crc32(cand.as_bytes(), 0xffff_ffff) & 0xff == target {
            other = cand;
            break;
        }
    }
    assert!(!other.is_empty());
    let entries = [(first, "a"), (other.as_str(), "b")];
    let data = gmd_bytes("pkg", &entries, 0, 0);
    let file = GuiMessageFile::new(&data).unwrap();
    assert!(matches!(file.save(), Err(GmdError::HashCollision)));
}

#[test]
fn texture_file_with_no_images_is_rejected() {
    let mut data = Vec::new();
    data.extend_from_slice(b"TEX\0");
    let bf4: u32 = 2 << 28; // plain 2D
    data.extend_from_slice(&bf4.to_le_bytes());
    data.extend_from_slice(&0u32.to_le_bytes()); // no levels
    data.extend_from_slice(&0u32.to_le_bytes()); // no layers
    assert!(matches!(TextureFile::new(&data), Err(TextureError::NoImages)));
}

fn material_bytes(texture_dti: u32, material_dti: u32, state: Option<(u32, u64, u32)>) -> Vec<u8> {
    // One texture record at 40, one material record at 192; an optional
    // state record right after the material record, at 264.
    let mut data = Vec::new();
    data.extend_from_slice(b"MRL\0");
    data.extend_from_slice(&0u32.to_le_bytes());
    data.extend_from_slice(&1u32.to_le_bytes());
    data.extend_from_slice(&1u32.to_le_bytes());
    data.extend_from_slice(&0u32.to_le_bytes());
    data.extend_from_slice(&0u32.to_le_bytes());
    data.extend_from_slice(&40u64.to_le_bytes());
    data.extend_from_slice(&192u64.to_le_bytes());
    data.extend_from_slice(&texture_dti.to_le_bytes());
    data.extend_from_slice(&[0u8; 20]);
    let mut path = [0u8; 128];
    path[..8].copy_from_slice(b"body.tex");
    data.extend_from_slice(&path);
    data.extend_from_slice(&material_dti.to_le_bytes());
    data.extend_from_slice(&0u32.to_le_bytes());
    data.extend_from_slice(&crc32(b"mat0", 0xffff_ffff).to_le_bytes());
    data.extend_from_slice(&[0u8; 16]);
    // state_num sits in the bitfield at offset 28 of the record
    data.extend_from_slice(&(if state.is_some() { 1u32 } else { 0u32 }).to_le_bytes());
    data.extend_from_slice(&[0u8; 24]);
    data.extend_from_slice(&264u64.to_le_bytes()); // states pointer
    data.extend_from_slice(&[0u8; 8]);
    if let Some((bitfield, sh_value, sh_crc)) = state {
        data.extend_from_slice(&bitfield.to_le_bytes());
        data.extend_from_slice(&0u32.to_le_bytes());
        data.extend_from_slice(&sh_value.to_le_bytes());
        data.extend_from_slice(&sh_crc.to_le_bytes());
        data.extend_from_slice(&0u32.to_le_bytes());
    }
    data
}

#[test]
fn material_file_rejects_bad_types() {
    let mut registry = DtiRegistry::new();
    let tex_hash = registry.register("rTexture".to_string(), None);
    let mat_hash = registry.register("rMaterial".to_string(), None);
    let shader2 = Shader2File::from_objects(Vec::new()).unwrap();

    // A texture record whose hash is unknown to the registry.
    let data = material_bytes(0x0102_0304, mat_hash, None);
    assert!(matches!(
        MaterialFile::new(&data, &shader2, &registry),
        Err(MaterialError::UnknownType { hash: 0x0102_0304 })
    ));

    // A texture record whose type is not the texture type.
    let data = material_bytes(mat_hash, mat_hash, None);
    assert!(matches!(
        MaterialFile::new(&data, &shader2, &registry),
        Err(MaterialError::NotATexture { .. })
    ));

    // A state record with a kind code outside the known set.
    let data = material_bytes(tex_hash, mat_hash, Some((0xf, 0, 0)));
    assert!(matches!(
        MaterialFile::new(&data, &shader2, &registry),
        Err(MaterialError::InvalidStateType { code: 0xf })
    ));

    // A texture state whose shader handle resolves to nothing.
    let data = material_bytes(tex_hash, mat_hash, Some((3, 1, 5 << 12)));
    assert!(matches!(
        MaterialFile::new(&data, &shader2, &registry),
        Err(MaterialError::UnknownShaderObject { .. })
    ));
}

#[test]
fn material_file_resolves_the_albedo_texture() {
    let mut registry = DtiRegistry::new();
    let tex_hash = registry.register("rTexture".to_string(), None);
    let mat_hash = registry.register("rMaterial".to_string(), None);
    let shader2 = Shader2File::from_objects(vec![shader_object("tAlbedoMap", 7)]).unwrap();
    // A texture state (kind 3) naming texture 1 through the albedo-map
    // shader object.
    let data = material_bytes(tex_hash, mat_hash, Some((3, 1, 7 << 12)));
    let file = MaterialFile::new(&data, &shader2, &registry).unwrap();
    assert_eq!(file.materials()[0].albedo_texture_idx(), Some(0));
}

#[test]
fn message_file_rejects_bad_containers() {
    let data = gmd_bytes("pkg", &[("A", "b")], 0, 0);
    let mut bad = data.clone();
    bad[0] = b'X';
    assert!(matches!(GuiMessageFile::new(&bad), Err(GmdError::BadMagic { .. })));
    let mut bad = data.clone();
    bad[4] = 0x01;
    assert!(matches!(GuiMessageFile::new(&bad), Err(GmdError::BadVersion { .. })));
    let mut short = data.clone();
    short.truncate(48);
    assert!(matches!(GuiMessageFile::new(&short), Err(GmdError::Truncated)));
}

#[test]
fn message_file_rejects_invalid_text() {
    let mut data = gmd_bytes("pkg", &[("A", "ok")], 0, 0);
    // Corrupt the message body ("ok" at the very end) into invalid UTF-8.
    let n = data.len();
    data[n - 2] = 0xff;
    assert!(matches!(GuiMessageFile::new(&data), Err(GmdError::InvalidText)));
}

#[test]
fn hexdump_pads_a_short_final_chunk() {
    assert_eq!(hexdump_custom(&[0x41], 4), "41           | A\n");
}

#[test]
fn shader2_file_decodes_a_small_catalogue() {
    let mut data = Vec::new();
    data.extend_from_slice(b"MFX\0");
    data.extend_from_slice(&1u16.to_le_bytes());
    data.extend_from_slice(&0u16.to_le_bytes());
    data.extend_from_slice(&7u32.to_le_bytes());
    data.extend_from_slice(&3u32.to_le_bytes()); // object indexing starts at 1
    data.extend_from_slice(&160u64.to_le_bytes()); // string table
    data.extend_from_slice(&0u64.to_le_bytes());
    // two object pointers
    data.extend_from_slice(&48u64.to_le_bytes());
    data.extend_from_slice(&88u64.to_le_bytes());
    // a texture object named tAlbedoMap
    data.extend_from_slice(&1u64.to_le_bytes()); // name at table offset 1
    data.extend_from_slice(&0u64.to_le_bytes()); // no shader name
    data.extend_from_slice(&1u32.to_le_bytes()); // OT_TEXTURE, no annotations
    data.extend_from_slice(&0u32.to_le_bytes());
    data.extend_from_slice(&0u32.to_le_bytes());
    data.extend_from_slice(&0u32.to_le_bytes());
    data.extend_from_slice(&0u64.to_le_bytes()); // no annotation list
    // an input layout named layout0, with one element
    data.extend_from_slice(&21u64.to_le_bytes());
    data.extend_from_slice(&0u64.to_le_bytes());
    data.extend_from_slice(&9u32.to_le_bytes()); // OT_INPUTLAYOUT
    data.extend_from_slice(&0u32.to_le_bytes());
    data.extend_from_slice(&0u32.to_le_bytes());
    data.extend_from_slice(&0u32.to_le_bytes());
    data.extend_from_slice(&0u64.to_le_bytes());
    // input layout payload: one element, stride 20
    data.extend_from_slice(&(1u32 | (20 << 16)).to_le_bytes());
    data.extend_from_slice(&0u32.to_le_bytes());
    data.extend_from_slice(&0u64.to_le_bytes());
    // the element: name Position, sindex 1, f32, count 3, offset 12
    data.extend_from_slice(&12u64.to_le_bytes());
    data.extend_from_slice(&(1u32 | (1 << 6) | (3 << 11) | (12 << 22)).to_le_bytes());
    data.extend_from_slice(&0u32.to_le_bytes());
    // the string table; offset zero is reserved to mean "no name"
    data.extend_from_slice(b"\0tAlbedoMap\0Position\0layout0\0");

    let file = Shader2File::new(&data).unwrap();
    assert_eq!(file.objects().len(), 2);
    assert_eq!(file.objects()[0].name(), "tAlbedoMap");
    assert_eq!(file.objects()[1].name(), "layout0");
    let hash = crc32(b"tAlbedoMap", 0xffff_ffff) & 0xfffff;
    let found = file.get_object_by_handle(hash << 12).unwrap();
    assert_eq!(found.name(), "tAlbedoMap");
    match file.objects()[1].obj_specific() {
        Shader2ObjectTypedInfo::InputLayout(layout) => {
            assert_eq!(layout.stride, 20);
            assert_eq!(layout.elements.len(), 1);
            assert_eq!(layout.elements[0].name, "Position");
            assert_eq!(layout.elements[0].sindex, 1);
            assert_eq!(layout.elements[0].format, InputElementFormat::IEF_F32);
            assert_eq!(layout.elements[0].count, 3);
            assert_eq!(layout.elements[0].offset, 12);
        }
        _ => panic!("expected an input layout payload"),
    }
}

#[test]
fn shader2_file_rejects_a_wrong_magic() {
    let mut data = vec![0u8; 32];
    data[..4].copy_from_slice(b"MFY\0");
    assert!(matches!(Shader2File::new(&data), Err(Shader2Error::BadMagic { .. })));
}

#[test]
fn shader_package_resolves_input_layouts() {
    let core_size = 32848;
    let mut data = vec![0u8; 48 + core_size + 32];
    data[..4].copy_from_slice(b"SPK\0");
    data[24..26].copy_from_slice(&1u16.to_le_bytes()); // one input layout
    let body_offset = (48 + core_size + 32) as u64;
    data[40..48].copy_from_slice(&body_offset.to_le_bytes());
    // the input-layout list sits right after the core's fixed part
    data[48 + 16..48 + 24].copy_from_slice(&(core_size as u64).to_le_bytes());
    let rec = 48 + core_size;
    data[rec..rec + 4].copy_from_slice(&(9u32 << 12).to_le_bytes());
    data[rec + 16..rec + 20].copy_from_slice(&42u32.to_le_bytes());

    let shader2 = Shader2File::from_objects(vec![shader_object("layout0", 9)]).unwrap();
    let package = ShaderPackageFile::new(&data, &shader2).unwrap();
    assert_eq!(package.inputs().len(), 1);
    assert_eq!(package.inputs()[0].crc, 42);
    match &package.inputs()[0].layouts[0] {
        Some(obj) => assert_eq!(obj.name(), "layout0"),
        None => panic!("the first slot names a catalogue object"),
    }
    assert!(package.inputs()[0].layouts[1].is_none());
}

#[test]
fn model_file_reads_every_table() {
    let mut data = vec![0u8; 538];
    data[8..10].copy_from_slice(&1u16.to_le_bytes()); // one primitive
    data[10..12].copy_from_slice(&1u16.to_le_bytes()); // one material
    data[16..20].copy_from_slice(&2u32.to_le_bytes()); // two indices
    data[24..28].copy_from_slice(&4u32.to_le_bytes()); // four vertex bytes
    data[32..36].copy_from_slice(&1u32.to_le_bytes()); // one part
    data[48..56].copy_from_slice(&498u64.to_le_bytes()); // parts
    data[56..64].copy_from_slice(&170u64.to_le_bytes()); // material names
    data[64..72].copy_from_slice(&298u64.to_le_bytes()); // primitives
    data[72..80].copy_from_slice(&530u64.to_le_bytes()); // vertex data
    data[80..88].copy_from_slice(&534u64.to_le_bytes()); // index data
    data[160..164].copy_from_slice(&1u32.to_le_bytes()); // one boundary
    data[170..175].copy_from_slice(b"matA\0");
    data[298 + 4..298 + 8].copy_from_slice(&(5u32 | (9 << 12)).to_le_bytes());
    data[354..358].copy_from_slice(&7u32.to_le_bytes()); // boundary joint
    data[498..502].copy_from_slice(&3u32.to_le_bytes()); // part number
    data[530..534].copy_from_slice(&[1, 2, 3, 4]);
    data[534..536].copy_from_slice(&0x1111u16.to_le_bytes());
    data[536..538].copy_from_slice(&0x2222u16.to_le_bytes());

    let model = ModelFile::new(&data).unwrap();
    assert_eq!(model.material_names(), &["matA".to_string()]);
    assert_eq!(model.primitives().len(), 1);
    assert_eq!(model.primitives()[0].parts_no(), 5);
    assert_eq!(model.primitives()[0].material_no(), 9);
    assert_eq!(model.boundary_infos().len(), 1);
    assert_eq!(model.boundary_infos()[0].joint(), 7);
    assert_eq!(model.parts().len(), 1);
    assert_eq!(model.parts()[0].no, 3);
    assert_eq!(model.vertex_buf(), &[1, 2, 3, 4]);
    assert_eq!(model.index_buf(), &[0x1111, 0x2222]);

    assert!(matches!(ModelFile::new(&data[..100]), Err(ModelError::Truncated)));
}

fn archive_bytes(path: &str, dti_hash: u32, compressed: &[u8], orig_len: u32, quality: u32) -> Vec<u8> {
    let mut data = Vec::new();
    data.extend_from_slice(b"ARC\0");
    data.extend_from_slice(&7u16.to_le_bytes());
    data.extend_from_slice(&1u16.to_le_bytes());
    let mut cell = [0u8; 128];
    cell[..path.len()].copy_from_slice(path.as_bytes());
    data.extend_from_slice(&cell);
    data.extend_from_slice(&dti_hash.to_le_bytes());
    data.extend_from_slice(&(compressed.len() as u32).to_le_bytes());
    data.extend_from_slice(&(orig_len | (quality << 29)).to_le_bytes());
    data.extend_from_slice(&152u32.to_le_bytes());
    data.extend_from_slice(compressed);
    data
}

#[test]
fn archive_payloads_inflate_through_real_zlib() {
    let mut registry = DtiRegistry::new();
    let dti_hash = registry.register("rTexture".to_string(), None);
    let payload = b"one decompressed archive payload".to_vec();
    let mut encoder =
        flate2::write::ZlibEncoder::new(Vec::new(), flate2::Compression::default());
    std::io::Write::write_all(&mut encoder, &payload).unwrap();
    let compressed = encoder.finish().unwrap();

    let data = archive_bytes("ui\\title.tex", dti_hash, &compressed, payload.len() as u32, 2);
    let archive = ArchiveFile::new(data, &registry).unwrap();
    assert_eq!(archive.resource_infos().len(), 1);
    assert_eq!(archive.resource_infos()[0].path(), "ui\\title.tex");
    assert_eq!(archive.resource_infos()[0].quality(), 2);
    assert_eq!(archive.resource_infos()[0].dti().name, "rTexture");

    let dti = registry.lookup(dti_hash).unwrap();
    let got = archive.get_resource("ui\\title.tex", dti).unwrap().unwrap();
    assert_eq!(got, payload);
    assert!(archive.get_resource("ui\\other.tex", dti).unwrap().is_none());
}

#[test]
fn archive_rejects_bad_containers_and_payloads() {
    let mut registry = DtiRegistry::new();
    let dti_hash = registry.register("rTexture".to_string(), None);
    let payload = b"payload".to_vec();
    let mut encoder =
        flate2::write::ZlibEncoder::new(Vec::new(), flate2::Compression::default());
    std::io::Write::write_all(&mut encoder, &payload).unwrap();
    let compressed = encoder.finish().unwrap();

    let good = archive_bytes("a.tex", dti_hash, &compressed, payload.len() as u32, 0);
    let mut bad = good.clone();
    bad[0] = b'B';
    assert!(matches!(
        ArchiveFile::new(bad, &registry),
        Err(ArchiveError::BadMagic { .. })
    ));
    let mut bad = good.clone();
    bad[4] = 6;
    assert!(matches!(
        ArchiveFile::new(bad, &registry),
        Err(ArchiveError::BadVersion { .. })
    ));

    // A corrupted stream fails to inflate.
    let mut bad = good.clone();
    bad[160] ^= 0xff;
    let archive = ArchiveFile::new(bad, &registry).unwrap();
    let dti = registry.lookup(dti_hash).unwrap();
    assert!(matches!(
        archive.get_resource("a.tex", dti),
        Err(ArchiveError::BadPayload)
    ));

    // A declared size that disagrees with the inflated bytes is rejected.
    let wrong_size = archive_bytes("a.tex", dti_hash, &compressed, 3, 0);
    let archive = ArchiveFile::new(wrong_size, &registry).unwrap();
    assert!(matches!(
        archive.get_resource("a.tex", dti),
        Err(ArchiveError::BadPayload)
    ));
}
