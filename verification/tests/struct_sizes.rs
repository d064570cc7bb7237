//! The wire records must keep their on-disk sizes.

use mtreader::mtserializer::{Header, RawPropertyInfo};
use mtreader::rguimessage::RawGuiMessageIndexItem;
use mtreader::rscheduler::SchedulerTrack;
use mtreader::rshader2::{
    RawShader2CBuffer, RawShader2InputElement, RawShader2InputLayout, RawShader2Object,
    RawShader2Struct, RawShader2Variable, Shader2Header,
};
use mtreader::rshaderpackage::{
    RawShaderPackageShader, RawShaderPackageShaderCodeInfo, RawShaderPackageShaderInput,
    ShaderPackageHeader,
};
use mtreader::rtexture::TextureHeader;

#[test]
fn mtserializer_test_struct_sizes() {
    assert_eq!(0x18, std::mem::size_of::<Header>());
    assert_eq!(0x30, std::mem::size_of::<RawPropertyInfo>());
}

#[test]
fn rguimessage_test_struct_sizes() {
    assert_eq!(std::mem::size_of::<RawGuiMessageIndexItem>(), 1 << 5);
}

#[test]
fn rscheduler_test_struct_sizes() {
    assert_eq!(std::mem::size_of::<SchedulerTrack>(), 0x30);
}

#[test]
fn rshader2_test_struct_sizes() {
    assert_eq!(std::mem::size_of::<Shader2Header>(), 0x20);
    assert_eq!(std::mem::size_of::<RawShader2Object>(), 0x28);
    assert_eq!(std::mem::size_of::<RawShader2InputElement>(), 0x10);
    assert_eq!(std::mem::size_of::<RawShader2InputLayout>(), 16);
    assert_eq!(std::mem::size_of::<RawShader2Struct>(), 16);
    assert_eq!(std::mem::size_of::<RawShader2Variable>(), 0x30);
    assert_eq!(std::mem::size_of::<RawShader2CBuffer>(), 24);
}

#[test]
fn rshaderpackage_test_struct_sizes() {
    assert_eq!(0x30, std::mem::size_of::<ShaderPackageHeader>());
    assert_eq!(1 << 5, std::mem::size_of::<RawShaderPackageShaderInput>());
    assert_eq!(1 << 4, std::mem::size_of::<RawShaderPackageShaderCodeInfo>());
    assert_eq!(0x70, std::mem::size_of::<RawShaderPackageShader>());
}

#[test]
fn rtexture_test_struct_sizes() {
    assert_eq!(0x10, std::mem::size_of::<TextureHeader>());
}
