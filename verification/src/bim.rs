//! The vocabulary of the `BIM` container: texture formats, material kinds,
//! and the fixed-layout header and mip records.

use crate::le::{i16_pattern, i64_pattern, le_bytes, put_le, unsigned_of_i16, unsigned_of_i64};
use crate::text::{contains_str, ends_with_str, occurs_in};
use texpresso::Format;
use vstd::prelude::*;

verus! {

/// Makes `texpresso::Format` known to the verifier: the block codec's
/// formats, with their variants as the codec declares them.
#[verifier::external_type_specification]
pub struct ExFormat(Format);

/// What a texture is used for, as the engine classifies it.
#[derive(Copy, Clone, PartialEq, Eq, Debug, Structural)]
#[allow(dead_code)]
pub enum TextureMaterialKind {
    TmkNone,
    TmkAlbedo,
    TmkSpecular,
    TmkNormal,
    TmkSmoothness,
    TmkCover,
    TmkSssmask,
    TmkColormask,
    TmkBloommask,
    TmkHeightmap,
    TmkDecalalbedo,
    TmkDecalnormal,
    TmkDecalspecular,
    TmkLightproject,
    TmkParticle,
    TmkUnused1,
    TmkUnused2,
    TmkLightmap,
    TmkUi,
    TmkFont,
    TmkLegacyFlashUi,
    TmkLightmapDirectional,
    TmkBlendmask,
    TmkCount,
}

impl TextureMaterialKind {
    /// The number that stands for this material kind in a container header.
    pub open spec fn spec_code(self) -> u32 {
        match self {
            TextureMaterialKind::TmkNone => 0x0,
            TextureMaterialKind::TmkAlbedo => 0x1,
            TextureMaterialKind::TmkSpecular => 0x2,
            TextureMaterialKind::TmkNormal => 0x3,
            TextureMaterialKind::TmkSmoothness => 0x4,
            TextureMaterialKind::TmkCover => 0x5,
            TextureMaterialKind::TmkSssmask => 0x6,
            TextureMaterialKind::TmkColormask => 0x7,
            TextureMaterialKind::TmkBloommask => 0x8,
            TextureMaterialKind::TmkHeightmap => 0x9,
            TextureMaterialKind::TmkDecalalbedo => 0xa,
            TextureMaterialKind::TmkDecalnormal => 0xb,
            TextureMaterialKind::TmkDecalspecular => 0xc,
            TextureMaterialKind::TmkLightproject => 0xd,
            TextureMaterialKind::TmkParticle => 0xe,
            TextureMaterialKind::TmkUnused1 => 0xf,
            TextureMaterialKind::TmkUnused2 => 0x10,
            TextureMaterialKind::TmkLightmap => 0x11,
            TextureMaterialKind::TmkUi => 0x12,
            TextureMaterialKind::TmkFont => 0x13,
            TextureMaterialKind::TmkLegacyFlashUi => 0x14,
            TextureMaterialKind::TmkLightmapDirectional => 0x15,
            TextureMaterialKind::TmkBlendmask => 0x16,
            TextureMaterialKind::TmkCount => 0x17,
        }
    }

    /// The number that stands for this material kind in a container header.
    pub fn code(&self) -> (code: u32)
        ensures
            code == self.spec_code(),
    {
        match self {
            TextureMaterialKind::TmkNone => 0x0,
            TextureMaterialKind::TmkAlbedo => 0x1,
            TextureMaterialKind::TmkSpecular => 0x2,
            TextureMaterialKind::TmkNormal => 0x3,
            TextureMaterialKind::TmkSmoothness => 0x4,
            TextureMaterialKind::TmkCover => 0x5,
            TextureMaterialKind::TmkSssmask => 0x6,
            TextureMaterialKind::TmkColormask => 0x7,
            TextureMaterialKind::TmkBloommask => 0x8,
            TextureMaterialKind::TmkHeightmap => 0x9,
            TextureMaterialKind::TmkDecalalbedo => 0xa,
            TextureMaterialKind::TmkDecalnormal => 0xb,
            TextureMaterialKind::TmkDecalspecular => 0xc,
            TextureMaterialKind::TmkLightproject => 0xd,
            TextureMaterialKind::TmkParticle => 0xe,
            TextureMaterialKind::TmkUnused1 => 0xf,
            TextureMaterialKind::TmkUnused2 => 0x10,
            TextureMaterialKind::TmkLightmap => 0x11,
            TextureMaterialKind::TmkUi => 0x12,
            TextureMaterialKind::TmkFont => 0x13,
            TextureMaterialKind::TmkLegacyFlashUi => 0x14,
            TextureMaterialKind::TmkLightmapDirectional => 0x15,
            TextureMaterialKind::TmkBlendmask => 0x16,
            TextureMaterialKind::TmkCount => 0x17,
        }
    }
}

/// Pixel formats that a container can declare.
#[derive(Copy, Clone, PartialEq, Eq, Debug, Structural)]
#[allow(dead_code)]
pub enum TextureFormat {
    FmtNone,
    FmtRgba32f,
    FmtRgba16f,
    FmtRgba8,
    FmtArgb8,
    FmtAlpha,
    FmtL8a8Deprecated,
    FmtRg8,
    FmtLum8Deprecated,
    FmtInt8Deprecated,
    FmtBc1,
    FmtBc3,
    FmtDepth,
    FmtDepthStencil,
    FmtX32f,
    FmtY16fX16f,
    FmtX16,
    FmtY16X16,
    FmtRgb565,
    FmtR8,
    FmtR11fg11fb10f,
    FmtX16f,
    FmtBc6hUf16,
    FmtBc7,
    FmtBc4,
    FmtBc5,
    FmtRg16f,
    FmtR10g10b10a2,
    FmtRg32f,
    FmtR32Uint,
    FmtR16Uint,
    FmtDepth16,
    FmtRgba8Srgb,
    FmtBc1Srgb,
    FmtBc3Srgb,
    FmtBc7Srgb,
    FmtBc6hSf16,
    FmtAstc4x4,
    FmtAstc4x4Srgb,
    FmtAstc5x4,
    FmtAstc5x4Srgb,
    FmtAstc5x5,
    FmtAstc5x5Srgb,
    FmtAstc6x5,
    FmtAstc6x5Srgb,
    FmtAstc6x6,
    FmtAstc6x6Srgb,
    FmtAstc8x5,
    FmtAstc8x5Srgb,
    FmtAstc8x6,
    FmtAstc8x6Srgb,
    FmtAstc8x8,
    FmtAstc8x8Srgb,
    FmtDepth32f,
    FmtBc1ZeroAlpha,
    FmtNextAvailable,
}

impl TextureFormat {
    /// The number that stands for this format in a container header.
    pub open spec fn spec_code(self) -> u32 {
        match self {
            TextureFormat::FmtNone => 0x0,
            TextureFormat::FmtRgba32f => 0x1,
            TextureFormat::FmtRgba16f => 0x2,
            TextureFormat::FmtRgba8 => 0x3,
            TextureFormat::FmtArgb8 => 0x4,
            TextureFormat::FmtAlpha => 0x5,
            TextureFormat::FmtL8a8Deprecated => 0x6,
            TextureFormat::FmtRg8 => 0x7,
            TextureFormat::FmtLum8Deprecated => 0x8,
            TextureFormat::FmtInt8Deprecated => 0x9,
            TextureFormat::FmtBc1 => 0xa,
            TextureFormat::FmtBc3 => 0xb,
            TextureFormat::FmtDepth => 0xc,
            TextureFormat::FmtDepthStencil => 0xd,
            TextureFormat::FmtX32f => 0xe,
            TextureFormat::FmtY16fX16f => 0xf,
            TextureFormat::FmtX16 => 0x10,
            TextureFormat::FmtY16X16 => 0x11,
            TextureFormat::FmtRgb565 => 0x12,
            TextureFormat::FmtR8 => 0x13,
            TextureFormat::FmtR11fg11fb10f => 0x14,
            TextureFormat::FmtX16f => 0x15,
            TextureFormat::FmtBc6hUf16 => 0x16,
            TextureFormat::FmtBc7 => 0x17,
            TextureFormat::FmtBc4 => 0x18,
            TextureFormat::FmtBc5 => 0x19,
            TextureFormat::FmtRg16f => 0x1a,
            TextureFormat::FmtR10g10b10a2 => 0x1b,
            TextureFormat::FmtRg32f => 0x1c,
            TextureFormat::FmtR32Uint => 0x1d,
            TextureFormat::FmtR16Uint => 0x1e,
            TextureFormat::FmtDepth16 => 0x1f,
            TextureFormat::FmtRgba8Srgb => 0x20,
            TextureFormat::FmtBc1Srgb => 0x21,
            TextureFormat::FmtBc3Srgb => 0x22,
            TextureFormat::FmtBc7Srgb => 0x23,
            TextureFormat::FmtBc6hSf16 => 0x24,
            TextureFormat::FmtAstc4x4 => 0x25,
            TextureFormat::FmtAstc4x4Srgb => 0x26,
            TextureFormat::FmtAstc5x4 => 0x27,
            TextureFormat::FmtAstc5x4Srgb => 0x28,
            TextureFormat::FmtAstc5x5 => 0x29,
            TextureFormat::FmtAstc5x5Srgb => 0x2a,
            TextureFormat::FmtAstc6x5 => 0x2b,
            TextureFormat::FmtAstc6x5Srgb => 0x2c,
            TextureFormat::FmtAstc6x6 => 0x2d,
            TextureFormat::FmtAstc6x6Srgb => 0x2e,
            TextureFormat::FmtAstc8x5 => 0x2f,
            TextureFormat::FmtAstc8x5Srgb => 0x30,
            TextureFormat::FmtAstc8x6 => 0x31,
            TextureFormat::FmtAstc8x6Srgb => 0x32,
            TextureFormat::FmtAstc8x8 => 0x33,
            TextureFormat::FmtAstc8x8Srgb => 0x34,
            TextureFormat::FmtDepth32f => 0x35,
            TextureFormat::FmtBc1ZeroAlpha => 0x36,
            TextureFormat::FmtNextAvailable => 0x37,
        }
    }

    /// The number that stands for this format in a container header.
    pub fn code(&self) -> (code: u32)
        ensures
            code == self.spec_code(),
    {
        match self {
            TextureFormat::FmtNone => 0x0,
            TextureFormat::FmtRgba32f => 0x1,
            TextureFormat::FmtRgba16f => 0x2,
            TextureFormat::FmtRgba8 => 0x3,
            TextureFormat::FmtArgb8 => 0x4,
            TextureFormat::FmtAlpha => 0x5,
            TextureFormat::FmtL8a8Deprecated => 0x6,
            TextureFormat::FmtRg8 => 0x7,
            TextureFormat::FmtLum8Deprecated => 0x8,
            TextureFormat::FmtInt8Deprecated => 0x9,
            TextureFormat::FmtBc1 => 0xa,
            TextureFormat::FmtBc3 => 0xb,
            TextureFormat::FmtDepth => 0xc,
            TextureFormat::FmtDepthStencil => 0xd,
            TextureFormat::FmtX32f => 0xe,
            TextureFormat::FmtY16fX16f => 0xf,
            TextureFormat::FmtX16 => 0x10,
            TextureFormat::FmtY16X16 => 0x11,
            TextureFormat::FmtRgb565 => 0x12,
            TextureFormat::FmtR8 => 0x13,
            TextureFormat::FmtR11fg11fb10f => 0x14,
            TextureFormat::FmtX16f => 0x15,
            TextureFormat::FmtBc6hUf16 => 0x16,
            TextureFormat::FmtBc7 => 0x17,
            TextureFormat::FmtBc4 => 0x18,
            TextureFormat::FmtBc5 => 0x19,
            TextureFormat::FmtRg16f => 0x1a,
            TextureFormat::FmtR10g10b10a2 => 0x1b,
            TextureFormat::FmtRg32f => 0x1c,
            TextureFormat::FmtR32Uint => 0x1d,
            TextureFormat::FmtR16Uint => 0x1e,
            TextureFormat::FmtDepth16 => 0x1f,
            TextureFormat::FmtRgba8Srgb => 0x20,
            TextureFormat::FmtBc1Srgb => 0x21,
            TextureFormat::FmtBc3Srgb => 0x22,
            TextureFormat::FmtBc7Srgb => 0x23,
            TextureFormat::FmtBc6hSf16 => 0x24,
            TextureFormat::FmtAstc4x4 => 0x25,
            TextureFormat::FmtAstc4x4Srgb => 0x26,
            TextureFormat::FmtAstc5x4 => 0x27,
            TextureFormat::FmtAstc5x4Srgb => 0x28,
            TextureFormat::FmtAstc5x5 => 0x29,
            TextureFormat::FmtAstc5x5Srgb => 0x2a,
            TextureFormat::FmtAstc6x5 => 0x2b,
            TextureFormat::FmtAstc6x5Srgb => 0x2c,
            TextureFormat::FmtAstc6x6 => 0x2d,
            TextureFormat::FmtAstc6x6Srgb => 0x2e,
            TextureFormat::FmtAstc8x5 => 0x2f,
            TextureFormat::FmtAstc8x5Srgb => 0x30,
            TextureFormat::FmtAstc8x6 => 0x31,
            TextureFormat::FmtAstc8x6Srgb => 0x32,
            TextureFormat::FmtAstc8x8 => 0x33,
            TextureFormat::FmtAstc8x8Srgb => 0x34,
            TextureFormat::FmtDepth32f => 0x35,
            TextureFormat::FmtBc1ZeroAlpha => 0x36,
            TextureFormat::FmtNextAvailable => 0x37,
        }
    }
}

/// The material kind that a file name asks for. An embedded `$mtlkind=` tag
/// wins over a suffix of the stripped name, a suffix wins over the format,
/// and without any hint the kind is `TmkNone`.
pub open spec fn spec_material_kind(
    file_name: Seq<char>,
    stripped_file_name: Seq<char>,
    format: TextureFormat,
) -> TextureMaterialKind {
    if occurs_in("$mtlkind=ui"@, file_name) {
        TextureMaterialKind::TmkUi
    } else if occurs_in("$mtlkind=decalnormal"@, file_name) {
        TextureMaterialKind::TmkDecalnormal
    } else if occurs_in("$mtlkind=decalalbedo"@, file_name) {
        TextureMaterialKind::TmkDecalalbedo
    } else if occurs_in("$mtlkind=decalspecular"@, file_name) {
        TextureMaterialKind::TmkDecalspecular
    } else if occurs_in("$mtlkind=particle"@, file_name) {
        TextureMaterialKind::TmkParticle
    } else if occurs_in("$mtlkind=heightmap"@, file_name) {
        TextureMaterialKind::TmkHeightmap
    } else if "_n"@.is_suffix_of(stripped_file_name) || "_Normal"@.is_suffix_of(
        stripped_file_name,
    ) {
        TextureMaterialKind::TmkNormal
    } else if "_s"@.is_suffix_of(stripped_file_name) {
        TextureMaterialKind::TmkSpecular
    } else if "_g"@.is_suffix_of(stripped_file_name) {
        TextureMaterialKind::TmkSmoothness
    } else if "_e"@.is_suffix_of(stripped_file_name) {
        TextureMaterialKind::TmkBloommask
    } else if "_h"@.is_suffix_of(stripped_file_name) {
        TextureMaterialKind::TmkHeightmap
    } else if "_sss"@.is_suffix_of(stripped_file_name) {
        TextureMaterialKind::TmkSssmask
    } else if format == TextureFormat::FmtBc1Srgb {
        TextureMaterialKind::TmkAlbedo
    } else {
        TextureMaterialKind::TmkNone
    }
}

impl TextureMaterialKind {
    /// Infers the material kind from a file name, the same name stripped of
    /// its tags and extension, and the output format.
    pub fn from_filename(
        file_name: String,
        stripped_file_name: String,
        format: TextureFormat,
    ) -> (kind: TextureMaterialKind)
        ensures
            kind == spec_material_kind(file_name@, stripped_file_name@, format),
    {
        let name = file_name.as_str();
        let stripped = stripped_file_name.as_str();
        if contains_str(name, "$mtlkind=ui") {
            TextureMaterialKind::TmkUi
        } else if contains_str(name, "$mtlkind=decalnormal") {
            TextureMaterialKind::TmkDecalnormal
        } else if contains_str(name, "$mtlkind=decalalbedo") {
            TextureMaterialKind::TmkDecalalbedo
        } else if contains_str(name, "$mtlkind=decalspecular") {
            TextureMaterialKind::TmkDecalspecular
        } else if contains_str(name, "$mtlkind=particle") {
            TextureMaterialKind::TmkParticle
        } else if contains_str(name, "$mtlkind=heightmap") {
            TextureMaterialKind::TmkHeightmap
        } else if ends_with_str(stripped, "_n") || ends_with_str(stripped, "_Normal") {
            TextureMaterialKind::TmkNormal
        } else if ends_with_str(stripped, "_s") {
            TextureMaterialKind::TmkSpecular
        } else if ends_with_str(stripped, "_g") {
            TextureMaterialKind::TmkSmoothness
        } else if ends_with_str(stripped, "_e") {
            TextureMaterialKind::TmkBloommask
        } else if ends_with_str(stripped, "_h") {
            TextureMaterialKind::TmkHeightmap
        } else if ends_with_str(stripped, "_sss") {
            TextureMaterialKind::TmkSssmask
        } else if format == TextureFormat::FmtBc1Srgb {
            TextureMaterialKind::TmkAlbedo
        } else {
            TextureMaterialKind::TmkNone
        }
    }
}

/// The output format that a file name asks for. A `$bc7`, `$bc5`, `$bc4`,
/// `$bc3` or `$alpha` tag wins, in that order; a normal-map suffix of the
/// stripped name selects BC5; everything else is BC1 sRGB.
pub open spec fn spec_format_of_name(file_name: Seq<char>, stripped_file_name: Seq<char>) -> TextureFormat {
    if occurs_in("$bc7"@, file_name) {
        TextureFormat::FmtBc7
    } else if occurs_in("$bc5"@, file_name) {
        TextureFormat::FmtBc5
    } else if occurs_in("$bc4"@, file_name) {
        TextureFormat::FmtBc4
    } else if occurs_in("$bc3"@, file_name) {
        TextureFormat::FmtBc3
    } else if occurs_in("$alpha"@, file_name) {
        TextureFormat::FmtAlpha
    } else if "_n"@.is_suffix_of(stripped_file_name) || "_Normal"@.is_suffix_of(
        stripped_file_name,
    ) {
        TextureFormat::FmtBc5
    } else {
        TextureFormat::FmtBc1Srgb
    }
}

impl TextureFormat {
    /// Bytes per compressed 4x4 block, for the block formats that the
    /// converter writes.
    pub open spec fn spec_block_size(self) -> Option<u32> {
        match self {
            TextureFormat::FmtBc1Srgb => Some(8u32),
            TextureFormat::FmtBc3 => Some(16u32),
            TextureFormat::FmtBc4 => Some(8u32),
            TextureFormat::FmtBc5 => Some(16u32),
            TextureFormat::FmtBc7 => Some(16u32),
            _ => None,
        }
    }

    /// Bytes per compressed 4x4 block, or `None` for a format without a
    /// fixed block.
    pub fn block_size(&self) -> (size: Option<u32>)
        ensures
            size == self.spec_block_size(),
    {
        match self {
            TextureFormat::FmtBc1Srgb => Some(8),
            TextureFormat::FmtBc3 => Some(16),
            TextureFormat::FmtBc4 => Some(8),
            TextureFormat::FmtBc5 => Some(16),
            TextureFormat::FmtBc7 => Some(16),
            _ => None,
        }
    }

    /// The block codec format that compresses this texture format, where
    /// there is one.
    pub open spec fn spec_texpresso_format(self) -> Option<Format> {
        match self {
            TextureFormat::FmtBc1Srgb => Some(Format::Bc1),
            TextureFormat::FmtBc3 => Some(Format::Bc3),
            TextureFormat::FmtBc4 => Some(Format::Bc4),
            TextureFormat::FmtBc5 => Some(Format::Bc5),
            _ => None,
        }
    }

    /// The block codec format that compresses this texture format, or a
    /// message for a format that the block codec does not handle.
    pub fn as_texpresso_format(&self) -> (outcome: Result<Format, String>)
        ensures
            match self.spec_texpresso_format() {
                Some(codec) => outcome == Ok::<Format, String>(codec),
                None => outcome is Err && outcome->Err_0@ == "Unsupported target BCn format"@,
            },
    {
        match self {
            TextureFormat::FmtBc1Srgb => Ok(Format::Bc1),
            TextureFormat::FmtBc3 => Ok(Format::Bc3),
            TextureFormat::FmtBc4 => Ok(Format::Bc4),
            TextureFormat::FmtBc5 => Ok(Format::Bc5),
            _ => Err("Unsupported target BCn format".to_owned()),
        }
    }

    /// Chooses the output format from a file name and the same name
    /// stripped of its tags and extension.
    pub fn from_filename(file_name: &str, stripped_file_name: &str) -> (format: TextureFormat)
        ensures
            format == spec_format_of_name(file_name@, stripped_file_name@),
    {
        if contains_str(file_name, "$bc7") {
            TextureFormat::FmtBc7
        } else if contains_str(file_name, "$bc5") {
            TextureFormat::FmtBc5
        } else if contains_str(file_name, "$bc4") {
            TextureFormat::FmtBc4
        } else if contains_str(file_name, "$bc3") {
            TextureFormat::FmtBc3
        } else if contains_str(file_name, "$alpha") {
            TextureFormat::FmtAlpha
        } else if ends_with_str(stripped_file_name, "_n") || ends_with_str(
            stripped_file_name,
            "_Normal",
        ) {
            TextureFormat::FmtBc5
        } else {
            TextureFormat::FmtBc1Srgb
        }
    }
}

/// The fixed 63-byte record that opens a container.
#[derive(Clone, Copy, Debug, PartialEq, Eq)]
pub struct BIMHeader {
    pub signature: [u8; 3],
    pub version: u8,
    pub texture_type: u32,
    pub texture_material_kind: u32,
    pub pixel_width: u32,
    pub pixel_height: u32,
    pub depth: u32,
    pub mip_count: u32,
    pub mip_level: i64,
    /// An IEEE 754 single-precision number, held as its bit pattern.
    pub unk_float_1: u32,
    pub bool_is_environment_map: u8,
    pub texture_format: u32,
    pub always_7: u32,
    pub null_padding: u32,
    pub atlas_padding: i16,
    pub bool_is_streamed: u8,
    pub unk_bool: u8,
    pub bool_no_mips: u8,
    pub bool_fft_bloom: u8,
    pub streamdb_mip_count: u32,
}

/// The bit pattern of the single-precision number 1.0.
pub const FLOAT_ONE_BITS: u32 = 0x3F80_0000;

impl BIMHeader {
    /// The header of an empty texture: signature `BIM`, version 0x15, the
    /// float 1.0, the constant 7, and zero everywhere else.
    pub open spec fn spec_default() -> BIMHeader {
        BIMHeader {
            signature: [0x42u8, 0x49u8, 0x4Du8],
            version: 0x15,
            texture_type: 0,
            texture_material_kind: 0,
            pixel_width: 0,
            pixel_height: 0,
            depth: 0,
            mip_count: 0,
            mip_level: 0,
            unk_float_1: FLOAT_ONE_BITS,
            bool_is_environment_map: 0,
            texture_format: 0,
            always_7: 7,
            null_padding: 0,
            atlas_padding: 0,
            bool_is_streamed: 0,
            unk_bool: 0,
            bool_no_mips: 0,
            bool_fft_bloom: 0,
            streamdb_mip_count: 0,
        }
    }

    /// The serialised header: every field in declaration order, integers
    /// little-endian.
    pub open spec fn spec_to_bytes(self) -> Seq<u8> {
        self.signature@ + seq![self.version] + le_bytes(self.texture_type as nat, 4) + le_bytes(
            self.texture_material_kind as nat,
            4,
        ) + le_bytes(self.pixel_width as nat, 4) + le_bytes(self.pixel_height as nat, 4)
            + le_bytes(self.depth as nat, 4) + le_bytes(self.mip_count as nat, 4) + le_bytes(
            unsigned_of_i64(self.mip_level),
            8,
        ) + le_bytes(self.unk_float_1 as nat, 4) + seq![self.bool_is_environment_map]
            + le_bytes(self.texture_format as nat, 4) + le_bytes(self.always_7 as nat, 4)
            + le_bytes(self.null_padding as nat, 4) + le_bytes(
            unsigned_of_i16(self.atlas_padding),
            2,
        ) + seq![
            self.bool_is_streamed,
            self.unk_bool,
            self.bool_no_mips,
            self.bool_fft_bloom,
        ] + le_bytes(self.streamdb_mip_count as nat, 4)
    }

    /// Serialises the header into its 63 bytes.
    pub fn to_bytes(&self) -> (bytes: [u8; 63])
        ensures
            bytes@ == self.spec_to_bytes(),
    {
        let mut bytes = [0u8; 63];
        bytes[0] = self.signature[0];
        bytes[1] = self.signature[1];
        bytes[2] = self.signature[2];
        bytes[3] = self.version;
        put_le(&mut bytes, 4, self.texture_type as u64, 4);
        put_le(&mut bytes, 8, self.texture_material_kind as u64, 4);
        put_le(&mut bytes, 12, self.pixel_width as u64, 4);
        put_le(&mut bytes, 16, self.pixel_height as u64, 4);
        put_le(&mut bytes, 20, self.depth as u64, 4);
        put_le(&mut bytes, 24, self.mip_count as u64, 4);
        put_le(&mut bytes, 28, i64_pattern(self.mip_level), 8);
        put_le(&mut bytes, 36, self.unk_float_1 as u64, 4);
        bytes[40] = self.bool_is_environment_map;
        put_le(&mut bytes, 41, self.texture_format as u64, 4);
        put_le(&mut bytes, 45, self.always_7 as u64, 4);
        put_le(&mut bytes, 49, self.null_padding as u64, 4);
        put_le(&mut bytes, 53, i16_pattern(self.atlas_padding), 2);
        bytes[55] = self.bool_is_streamed;
        bytes[56] = self.unk_bool;
        bytes[57] = self.bool_no_mips;
        bytes[58] = self.bool_fft_bloom;
        put_le(&mut bytes, 59, self.streamdb_mip_count as u64, 4);
        proof {
            crate::le::lemma_le_bytes_len(self.texture_type as nat, 4);
            crate::le::lemma_le_bytes_len(self.texture_material_kind as nat, 4);
            crate::le::lemma_le_bytes_len(self.pixel_width as nat, 4);
            crate::le::lemma_le_bytes_len(self.pixel_height as nat, 4);
            crate::le::lemma_le_bytes_len(self.depth as nat, 4);
            crate::le::lemma_le_bytes_len(self.mip_count as nat, 4);
            crate::le::lemma_le_bytes_len(unsigned_of_i64(self.mip_level), 8);
            crate::le::lemma_le_bytes_len(self.unk_float_1 as nat, 4);
            crate::le::lemma_le_bytes_len(self.texture_format as nat, 4);
            crate::le::lemma_le_bytes_len(self.always_7 as nat, 4);
            crate::le::lemma_le_bytes_len(self.null_padding as nat, 4);
            crate::le::lemma_le_bytes_len(unsigned_of_i16(self.atlas_padding), 2);
            crate::le::lemma_le_bytes_len(self.streamdb_mip_count as nat, 4);
            assert(bytes@ =~= self.spec_to_bytes());
        }
        bytes
    }
}

impl Default for BIMHeader {
    fn default() -> (header: Self)
        ensures
            header == BIMHeader::spec_default(),
    {
        Self {
            signature: [0x42, 0x49, 0x4D],
            version: 0x15,
            texture_type: 0,
            texture_material_kind: 0,
            pixel_width: 0,
            pixel_height: 0,
            depth: 0,
            mip_count: 0,
            mip_level: 0,
            unk_float_1: FLOAT_ONE_BITS,
            bool_is_environment_map: 0,
            texture_format: 0,
            always_7: 7,
            null_padding: 0,
            atlas_padding: 0,
            bool_is_streamed: 0,
            unk_bool: 0,
            bool_no_mips: 0,
            bool_fft_bloom: 0,
            streamdb_mip_count: 0,
        }
    }
}

/// The fixed 36-byte record that describes one mip level.
#[derive(Clone, Copy, Debug, PartialEq, Eq)]
pub struct BIMMipMap {
    pub mip_level: i64,
    pub mip_pixel_width: u32,
    pub mip_pixel_height: u32,
    pub unknown_flag: u32,
    pub decompressed_size: u32,
    pub flag_is_compressed: u32,
    pub compressed_size: u32,
    pub cumulative_size_streamdb: u32,
}

impl BIMMipMap {
    /// The record of an empty level: the unknown flag set, zero elsewhere.
    pub open spec fn spec_default() -> BIMMipMap {
        BIMMipMap {
            mip_level: 0,
            mip_pixel_width: 0,
            mip_pixel_height: 0,
            unknown_flag: 1,
            decompressed_size: 0,
            flag_is_compressed: 0,
            compressed_size: 0,
            cumulative_size_streamdb: 0,
        }
    }

    /// The serialised record: every field in declaration order,
    /// little-endian.
    pub open spec fn spec_to_bytes(self) -> Seq<u8> {
        le_bytes(unsigned_of_i64(self.mip_level), 8) + le_bytes(self.mip_pixel_width as nat, 4)
            + le_bytes(self.mip_pixel_height as nat, 4) + le_bytes(self.unknown_flag as nat, 4)
            + le_bytes(self.decompressed_size as nat, 4) + le_bytes(
            self.flag_is_compressed as nat,
            4,
        ) + le_bytes(self.compressed_size as nat, 4) + le_bytes(
            self.cumulative_size_streamdb as nat,
            4,
        )
    }

    /// Serialises the record into its 36 bytes.
    pub fn to_bytes(&self) -> (bytes: [u8; 36])
        ensures
            bytes@ == self.spec_to_bytes(),
    {
        let mut bytes = [0u8; 36];
        put_le(&mut bytes, 0, i64_pattern(self.mip_level), 8);
        put_le(&mut bytes, 8, self.mip_pixel_width as u64, 4);
        put_le(&mut bytes, 12, self.mip_pixel_height as u64, 4);
        put_le(&mut bytes, 16, self.unknown_flag as u64, 4);
        put_le(&mut bytes, 20, self.decompressed_size as u64, 4);
        put_le(&mut bytes, 24, self.flag_is_compressed as u64, 4);
        put_le(&mut bytes, 28, self.compressed_size as u64, 4);
        put_le(&mut bytes, 32, self.cumulative_size_streamdb as u64, 4);
        proof {
            crate::le::lemma_le_bytes_len(unsigned_of_i64(self.mip_level), 8);
            crate::le::lemma_le_bytes_len(self.mip_pixel_width as nat, 4);
            crate::le::lemma_le_bytes_len(self.mip_pixel_height as nat, 4);
            crate::le::lemma_le_bytes_len(self.unknown_flag as nat, 4);
            crate::le::lemma_le_bytes_len(self.decompressed_size as nat, 4);
            crate::le::lemma_le_bytes_len(self.flag_is_compressed as nat, 4);
            crate::le::lemma_le_bytes_len(self.compressed_size as nat, 4);
            crate::le::lemma_le_bytes_len(self.cumulative_size_streamdb as nat, 4);
            assert(bytes@ =~= self.spec_to_bytes());
        }
        bytes
    }
}

impl Default for BIMMipMap {
    fn default() -> (record: Self)
        ensures
            record == BIMMipMap::spec_default(),
    {
        Self {
            mip_level: 0,
            mip_pixel_width: 0,
            mip_pixel_height: 0,
            unknown_flag: 1,
            decompressed_size: 0,
            flag_is_compressed: 0,
            compressed_size: 0,
            cumulative_size_streamdb: 0,
        }
    }
}

} // verus!
