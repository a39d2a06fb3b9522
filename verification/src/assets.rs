//! An alternate entry point for asset files laid out with the wide header
//! followed directly by little-endian metadata: the header is read on its
//! own, and the body reuses the revision-22 metadata parser.

use vstd::prelude::*;
use crate::error::Error;
use crate::raw;
use crate::serialized_file::version22;

verus! {

/// The full fixed-width header of an asset file, stored big-endian: the
/// four legacy fields, the byte-order marker with three reserved bytes,
/// then the wide sizes and offsets.  Fields the layout carries but this
/// reader does not interpret keep their bytes.
#[derive(Debug, Clone)]
pub struct AssetFileHeader {
    pub _metadata_size: u32,
    pub _file_size: u32,
    pub version: u32,
    pub _data_offset: u32,
    pub endianness: u8,
    pub _unknown: Vec<u8>,
    pub metadata_size: u32,
    pub file_size: i64,
    pub data_offset: i64,
    pub _unknown2: Vec<u8>,
}

/// Spec-level image of an [`AssetFileHeader`].
pub ghost struct AssetFileHeaderV {
    pub _metadata_size: u32,
    pub _file_size: u32,
    pub version: u32,
    pub _data_offset: u32,
    pub endianness: u8,
    pub _unknown: Seq<u8>,
    pub metadata_size: u32,
    pub file_size: i64,
    pub data_offset: i64,
    pub _unknown2: Seq<u8>,
}

impl View for AssetFileHeader {
    type V = AssetFileHeaderV;

    open spec fn view(&self) -> AssetFileHeaderV {
        AssetFileHeaderV {
            _metadata_size: self._metadata_size,
            _file_size: self._file_size,
            version: self.version,
            _data_offset: self._data_offset,
            endianness: self.endianness,
            _unknown: self._unknown@,
            metadata_size: self.metadata_size,
            file_size: self.file_size,
            data_offset: self.data_offset,
            _unknown2: self._unknown2@,
        }
    }
}

/// The asset-file header stored at the start of `d`, 48 bytes wide.
pub open spec fn spec_asset_header(d: Seq<u8>) -> Option<AssetFileHeaderV> {
    if d.len() < 48 {
        None
    } else {
        Some(
            AssetFileHeaderV {
                _metadata_size: raw::spec_u32_at(d, 0, false),
                _file_size: raw::spec_u32_at(d, 4, false),
                version: raw::spec_u32_at(d, 8, false),
                _data_offset: raw::spec_u32_at(d, 12, false),
                endianness: d[16],
                _unknown: d.subrange(17, 20),
                metadata_size: raw::spec_u32_at(d, 20, false),
                file_size: raw::spec_i64_at(d, 24, false),
                data_offset: raw::spec_i64_at(d, 32, false),
                _unknown2: d.subrange(40, 48),
            },
        )
    }
}

impl AssetFileHeader {
    /// Reads the 48-byte header.
    pub fn read(d: &Vec<u8>) -> (r: Result<AssetFileHeader, Error>)
        ensures
            match spec_asset_header(d@) {
                Some(v) => r matches Ok(h) && h@ == v,
                None => r matches Err(e) && e == Error::UnexpectedEof,
            },
    {
        if d.len() < 48 {
            return Err(Error::UnexpectedEof);
        }
        let (_metadata_size, _) = match raw::read_u32(d, 0, false) {
            Ok(v) => v,
            Err(e) => { return Err(e) },
        };
        let (_file_size, _) = match raw::read_u32(d, 4, false) {
            Ok(v) => v,
            Err(e) => { return Err(e) },
        };
        let (version, _) = match raw::read_u32(d, 8, false) {
            Ok(v) => v,
            Err(e) => { return Err(e) },
        };
        let (_data_offset, _) = match raw::read_u32(d, 12, false) {
            Ok(v) => v,
            Err(e) => { return Err(e) },
        };
        let endianness = d[16];
        let (_unknown, _) = match raw::read_bytes(d, 17, 3) {
            Ok(v) => v,
            Err(e) => { return Err(e) },
        };
        let (metadata_size, _) = match raw::read_u32(d, 20, false) {
            Ok(v) => v,
            Err(e) => { return Err(e) },
        };
        let (file_size, _) = match raw::read_i64(d, 24, false) {
            Ok(v) => v,
            Err(e) => { return Err(e) },
        };
        let (data_offset, _) = match raw::read_i64(d, 32, false) {
            Ok(v) => v,
            Err(e) => { return Err(e) },
        };
        let (_unknown2, _) = match raw::read_bytes(d, 40, 8) {
            Ok(v) => v,
            Err(e) => { return Err(e) },
        };
        Ok(AssetFileHeader {
            _metadata_size,
            _file_size,
            version,
            _data_offset,
            endianness,
            _unknown,
            metadata_size,
            file_size,
            data_offset,
            _unknown2,
        })
    }
}

/// An asset file read through this entry point: the big-endian header,
/// then the metadata body in little-endian byte order.
#[derive(Debug, Clone)]
pub struct AssetsFile {
    pub header: AssetFileHeader,
    pub content: version22::SerializedFileContent,
}

impl AssetsFile {
    /// Reads a whole asset file: the 48-byte header, then the metadata
    /// body at byte 48, always little-endian.
    pub fn read(d: &Vec<u8>) -> (r: Result<AssetsFile, Error>)
        ensures
            match spec_asset_header(d@) {
                Option::None => r matches Err(e) && e == Error::UnexpectedEof,
                Option::Some(h) => match version22::spec_content_at(d@, 48, true) {
                    Option::Some(c) => r matches Ok(f) && f.header@ == h && f.content@ == c.0,
                    Option::None => r.is_err(),
                },
            },
    {
        let header = match AssetFileHeader::read(d) {
            Ok(v) => v,
            Err(e) => { return Err(e) },
        };
        let (content, _) = match version22::read_content(d, 48, true) {
            Ok(v) => v,
            Err(e) => { return Err(e) },
        };
        Ok(AssetsFile { header, content })
    }
}

} // verus!
