//! Reader for a proprietary binary game-asset container format.
//!
//! The heart of the crate is the document reader in [`mtserializer`]: it
//! decodes a self-describing binary protocol whose schema table sits at the
//! front of each file and whose instance data follows as a flat byte stream.
//! The remaining modules hold the type registry the reader resolves type
//! hashes against, and fixed-layout record parsers for the other asset kinds.

pub mod crc;
pub mod dti;
pub mod hexdump;
pub mod mtserializer;
pub mod rarchive;
pub mod reader;
pub mod rguimessage;
pub mod rmaterial;
pub mod rmodel;
pub mod rscheduler;
pub mod rshader2;
pub mod rshaderpackage;
pub mod rtexture;
pub mod text;
