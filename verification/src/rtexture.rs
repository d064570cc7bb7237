//! Texture files: the 16-byte bit-packed header and the pixel-data slice
//! the offset table points at.

use vstd::prelude::*;

verus! {

use vstd::bytes::{spec_u32_from_le_bytes, spec_u64_from_le_bytes};
use crate::reader::{read_u32_at, read_u64_at};

/// `"TEX\0"` read little-endian as a `u32`.
pub const TEX_MAGIC: u32 = 0x0058_4554;

/// The pixel formats the viewer knows how to hand to a GPU.
#[derive(Clone, Copy, PartialEq, Eq, Structural, Debug)]
#[allow(non_camel_case_types)]
pub enum FormatType {
    FORMAT_R8G8B8A8_UNORM,
    FORMAT_BC1_UNORM,
    FORMAT_BC7_UNORM,
}

/// The format a raw code denotes, if it is a known one.
pub open spec fn spec_format_from_raw(code: u32) -> Option<FormatType> {
    if code == 7 {
        Some(FormatType::FORMAT_R8G8B8A8_UNORM)
    } else if code == 19 {
        Some(FormatType::FORMAT_BC1_UNORM)
    } else if code == 54 {
        Some(FormatType::FORMAT_BC7_UNORM)
    } else {
        None
    }
}

impl FormatType {
    /// Decodes a raw format code.
    pub fn from_raw(code: u32) -> (r: Option<FormatType>)
        ensures
            r == spec_format_from_raw(code),
    {
        if code == 7 {
            Some(FormatType::FORMAT_R8G8B8A8_UNORM)
        } else if code == 19 {
            Some(FormatType::FORMAT_BC1_UNORM)
        } else if code == 54 {
            Some(FormatType::FORMAT_BC7_UNORM)
        } else {
            None
        }
    }
}

/// How the texels of a texture are organised.
#[derive(Clone, Copy, PartialEq, Eq, Structural, Debug)]
#[allow(non_camel_case_types)]
pub enum TextureType {
    TT_UNDEFINED,
    TT_1D,
    TT_2D,
    TT_3D,
    TT_1DARRAY,
    TT_2DARRAY,
    TT_CUBE,
    TT_CUBEARRAY,
    TT_2DMS,
    TT_2DMSARRAY,
}

/// The texture type a raw code denotes, if it is a known one.
pub open spec fn spec_texture_type_from_raw(code: u32) -> Option<TextureType> {
    if code == 0 {
        Some(TextureType::TT_UNDEFINED)
    } else if code == 1 {
        Some(TextureType::TT_1D)
    } else if code == 2 {
        Some(TextureType::TT_2D)
    } else if code == 3 {
        Some(TextureType::TT_3D)
    } else if code == 4 {
        Some(TextureType::TT_1DARRAY)
    } else if code == 5 {
        Some(TextureType::TT_2DARRAY)
    } else if code == 6 {
        Some(TextureType::TT_CUBE)
    } else if code == 7 {
        Some(TextureType::TT_CUBEARRAY)
    } else if code == 8 {
        Some(TextureType::TT_2DMS)
    } else if code == 9 {
        Some(TextureType::TT_2DMSARRAY)
    } else {
        None
    }
}

impl TextureType {
    /// Decodes a raw texture-type code.
    pub fn from_raw(code: u32) -> (r: Option<TextureType>)
        ensures
            r == spec_texture_type_from_raw(code),
    {
        match code {
            0 => Some(TextureType::TT_UNDEFINED),
            1 => Some(TextureType::TT_1D),
            2 => Some(TextureType::TT_2D),
            3 => Some(TextureType::TT_3D),
            4 => Some(TextureType::TT_1DARRAY),
            5 => Some(TextureType::TT_2DARRAY),
            6 => Some(TextureType::TT_CUBE),
            7 => Some(TextureType::TT_CUBEARRAY),
            8 => Some(TextureType::TT_2DMS),
            9 => Some(TextureType::TT_2DMSARRAY),
            _ => None,
        }
    }
}

/// The 16-byte texture header: a magic word and three bit-packed words.
#[derive(Clone, Copy, PartialEq, Eq, Structural, Debug)]
pub struct TextureHeader {
    pub magic: u32,
    /// Packs `version` (16 bits), `attr` (8 bits), `prebias` (4 bits),
    /// `type` (4 bits).
    pub bitfield_4: u32,
    /// Packs `level_count` (6 bits), `width` (13 bits), `height` (13
    /// bits).
    pub bitfield_8: u32,
    /// Packs `array_count` (8 bits), `format` (8 bits), `depth` (13 bits)
    /// and three flags.
    pub bitfield_c: u32,
}

/// Reads the 16-byte texture header at the start of `data`.
pub fn read_texture_header(data: &[u8]) -> (r: TextureHeader)
    requires
        data@.len() >= 16,
    ensures
        r.magic == spec_u32_from_le_bytes(data@.subrange(0, 4)),
        r.bitfield_4 == spec_u32_from_le_bytes(data@.subrange(4, 8)),
        r.bitfield_8 == spec_u32_from_le_bytes(data@.subrange(8, 12)),
        r.bitfield_c == spec_u32_from_le_bytes(data@.subrange(12, 16)),
{
    TextureHeader {
        magic: read_u32_at(data, 0),
        bitfield_4: read_u32_at(data, 4),
        bitfield_8: read_u32_at(data, 8),
        bitfield_c: read_u32_at(data, 12),
    }
}

impl TextureHeader {
    /// The format version.
    pub fn version(&self) -> (r: u32)
        ensures
            r == self.bitfield_4 & 0xffff,
    {
        self.bitfield_4 & 0xffff
    }

    /// The power-of-two bias applied to the stored width and height.
    pub fn prebias(&self) -> (r: u32)
        ensures
            r == (self.bitfield_4 >> 24) & 0xf,
    {
        (self.bitfield_4 >> 24) & 0xf
    }

    /// The texture width: the stored 13-bit value scaled by the bias.
    pub fn width(&self) -> (r: u32)
        ensures
            r == ((self.bitfield_8 >> 6) & 0x1fff) << ((self.bitfield_4 >> 24) & 0xf),
    {
        let pb = self.prebias();
        proof {
            let b: u32 = self.bitfield_4;
            assert((b >> 24) & 0xf < 32) by (bit_vector);
        }
        ((self.bitfield_8 >> 6) & 0x1fff) << pb
    }

    /// The texture height: the stored 13-bit value scaled by the bias.
    pub fn height(&self) -> (r: u32)
        ensures
            r == ((self.bitfield_8 >> 19) & 0x1fff) << ((self.bitfield_4 >> 24) & 0xf),
    {
        let pb = self.prebias();
        proof {
            let b: u32 = self.bitfield_4;
            assert((b >> 24) & 0xf < 32) by (bit_vector);
        }
        ((self.bitfield_8 >> 19) & 0x1fff) << pb
    }

    /// The texture organisation, when the stored code is a known one.
    pub fn image_type(&self) -> (r: Option<TextureType>)
        ensures
            r == spec_texture_type_from_raw((self.bitfield_4 >> 28) & 0xf),
    {
        TextureType::from_raw((self.bitfield_4 >> 28) & 0xf)
    }

    /// The raw 8-bit format code.
    pub fn format_raw(&self) -> (r: u32)
        ensures
            r == (self.bitfield_c >> 8) & 0xff,
    {
        (self.bitfield_c >> 8) & 0xff
    }

    /// The pixel format, when the stored code is a known one.
    pub fn format(&self) -> (r: Option<FormatType>)
        ensures
            r == spec_format_from_raw((self.bitfield_c >> 8) & 0xff),
    {
        FormatType::from_raw(self.format_raw())
    }

    /// How many array layers the texture has.
    pub fn array_count(&self) -> (r: u32)
        ensures
            r == self.bitfield_c & 0xff,
    {
        self.bitfield_c & 0xff
    }

    /// How many mip levels the texture has.
    pub fn level_count(&self) -> (r: u32)
        ensures
            r == self.bitfield_8 & 0x3f,
    {
        self.bitfield_8 & 0x3f
    }
}

/// Why a texture file could not be decoded.
#[derive(Clone, Copy, PartialEq, Eq, Structural, Debug)]
pub enum TextureError {
    /// The input ran short of the header or the offset table.
    Truncated,
    /// The first four bytes are not `"TEX\0"`.
    BadMagic { magic: u32 },
    /// The texture is not a plain two-dimensional one, the only kind
    /// supported here.
    UnsupportedType { raw_type: u32 },
    /// The header declares no images at all, so there is no offset to read
    /// pixel data from.
    NoImages,
}

/// A decoded texture: its dimensions, format, and raw pixel data.
pub struct TextureFile {
    width: u32,
    height: u32,
    format: Option<FormatType>,
    data: Vec<u8>,
}

impl TextureFile {
    /// The stored width.
    pub closed spec fn spec_width(&self) -> u32 {
        self.width
    }

    /// The stored height.
    pub closed spec fn spec_height(&self) -> u32 {
        self.height
    }

    /// The stored format.
    pub closed spec fn spec_format(&self) -> Option<FormatType> {
        self.format
    }

    /// The stored pixel bytes.
    pub closed spec fn spec_data(&self) -> Seq<u8> {
        self.data@
    }

    /// Decodes a whole texture file: validates the header, then takes the
    /// pixel data from the first entry of the offset table to the end of
    /// the file. An offset pointing past the end yields empty pixel data,
    /// as a reader that seeks there would see.
    pub fn new(data: &[u8]) -> (r: Result<TextureFile, TextureError>)
        ensures
            data@.len() < 16 ==> r == Err::<TextureFile, TextureError>(TextureError::Truncated),
            data@.len() >= 16 ==> ({
                let h = TextureHeader {
                    magic: spec_u32_from_le_bytes(data@.subrange(0, 4)),
                    bitfield_4: spec_u32_from_le_bytes(data@.subrange(4, 8)),
                    bitfield_8: spec_u32_from_le_bytes(data@.subrange(8, 12)),
                    bitfield_c: spec_u32_from_le_bytes(data@.subrange(12, 16)),
                };
                let raw_type = (h.bitfield_4 >> 28) & 0xf;
                let num_images = (h.bitfield_c & 0xff) * (h.bitfield_8 & 0x3f);
                if h.magic != TEX_MAGIC {
                    r == Err::<TextureFile, TextureError>(TextureError::BadMagic { magic: h.magic })
                } else if spec_texture_type_from_raw(raw_type) != Some(TextureType::TT_2D) {
                    r == Err::<TextureFile, TextureError>(
                        TextureError::UnsupportedType { raw_type },
                    )
                } else if num_images == 0 {
                    r == Err::<TextureFile, TextureError>(TextureError::NoImages)
                } else if data@.len() < 16 + 8 * num_images {
                    r == Err::<TextureFile, TextureError>(TextureError::Truncated)
                } else {
                    let offset = spec_u64_from_le_bytes(data@.subrange(16, 24));
                    let start = if offset > data@.len() {
                        data@.len() as int
                    } else {
                        offset as int
                    };
                    r matches Ok(t) && t.spec_width() == ((h.bitfield_8 >> 6) & 0x1fff) << ((
                    h.bitfield_4 >> 24) & 0xf) && t.spec_height() == ((h.bitfield_8 >> 19) & 0x1fff)
                        << ((h.bitfield_4 >> 24) & 0xf) && t.spec_format()
                        == spec_format_from_raw((h.bitfield_c >> 8) & 0xff) && t.spec_data()
                        == data@.subrange(start, data@.len() as int)
                }
            }),
    {
        if data.len() < 16 {
            return Err(TextureError::Truncated);
        }
        let header = read_texture_header(data);
        if header.magic != TEX_MAGIC {
            return Err(TextureError::BadMagic { magic: header.magic });
        }
        let raw_type = (header.bitfield_4 >> 28) & 0xf;
        match TextureType::from_raw(raw_type) {
            Some(TextureType::TT_2D) => (),
            _ => {
                return Err(TextureError::UnsupportedType { raw_type });
            },
        };
        proof {
            let c: u32 = header.bitfield_c;
            let e: u32 = header.bitfield_8;
            assert(c & 0xff <= 0xff && e & 0x3f <= 0x3f) by (bit_vector);
            assert((c & 0xff) * (e & 0x3f) <= 0xff * 0x3f) by (nonlinear_arith)
                requires
                    c & 0xff <= 0xff && e & 0x3f <= 0x3f,
            ;
        }
        let num_images = header.array_count() * header.level_count();
        if num_images == 0 {
            return Err(TextureError::NoImages);
        }
        let len = data.len();
        if (len as u64) < 16 + 8 * (num_images as u64) {
            return Err(TextureError::Truncated);
        }
        let offset = read_u64_at(data, 16);
        let start: usize = if offset > len as u64 {
            len
        } else {
            offset as usize
        };
        let image_data = vstd::slice::slice_to_vec(vstd::slice::slice_subrange(data, start, len));
        Ok(
            TextureFile {
                width: header.width(),
                height: header.height(),
                format: header.format(),
                data: image_data,
            },
        )
    }

    /// The texture's width in texels.
    pub fn width(&self) -> (r: u32)
        ensures
            r == self.spec_width(),
    {
        self.width
    }

    /// The texture's height in texels.
    pub fn height(&self) -> (r: u32)
        ensures
            r == self.spec_height(),
    {
        self.height
    }

    /// The texture's pixel format, when its code was a known one.
    pub fn format(&self) -> (r: Option<FormatType>)
        ensures
            r == self.spec_format(),
    {
        self.format
    }

    /// The raw pixel bytes.
    pub fn data(&self) -> (r: &[u8])
        ensures
            r@ == self.spec_data(),
    {
        self.data.as_slice()
    }
}

} // verus!
