//! Compression of one padded mip level into the payload of its format.
//!
//! The alpha-only format keeps one byte per pixel and needs no codec. BC1,
//! BC3, BC4 and BC5 go to the block codec in one call over the whole
//! surface. A BC7 surface is encoded in bounded batches of blocks: its
//! compression yields the batcher of [`crate::bc7e`], which hands the
//! batches out and collects the encoded blocks.

use crate::bc7e::{Bc7Batcher, Bc7Progress};
use crate::bim::TextureFormat;
use crate::error::ConvertError;
use texpresso::Format;
use vstd::prelude::*;

verus! {

/// Number of 4-pixel blocks that cover `extent` pixels.
pub open spec fn block_count(extent: nat) -> nat {
    (extent + 3) / 4
}

/// Bytes that the block codec writes per 4x4 block.
pub open spec fn codec_block_size(codec: Format) -> nat {
    match codec {
        Format::Bc1 => 8,
        Format::Bc2 => 16,
        Format::Bc3 => 16,
        Format::Bc4 => 8,
        Format::Bc5 => 16,
    }
}

/// Bytes that the block codec writes for a `width` x `height` surface.
pub open spec fn codec_output_len(codec: Format, width: nat, height: nat) -> nat {
    block_count(width) * block_count(height) * codec_block_size(codec)
}

/// The alpha channel of a surface: the last byte of every whole pixel.
pub open spec fn spec_alpha_channel(image: Seq<u8>) -> Seq<u8> {
    Seq::new(image.len() / 4, |i: int| image[4 * i + 3])
}

/// The surfaces that the block codec is given: at least one pixel, a
/// buffer of exactly four bytes per pixel, and an output size that a
/// buffer can have.
pub open spec fn block_codec_accepts(image: Seq<u8>, width: nat, height: nat) -> bool {
    &&& width >= 1
    &&& height >= 1
    &&& image.len() == 4 * width * height
    &&& 16 * block_count(width) * block_count(height) <= usize::MAX
}

/// The bytes that the block codec produces for a surface, with range fit,
/// perceptual colour weights and no alpha weighting.
pub uninterp spec fn texpresso_blocks(
    codec: Format,
    rgba: Seq<u8>,
    width: int,
    height: int,
) -> Seq<u8>;

/// Calls `texpresso::Format::compress` on a whole surface, into a buffer of
/// `Format::compressed_size` bytes, with range fit, perceptual colour
/// weights and no alpha weighting. Trusted: the codec is a function of its
/// input, and the output has as many bytes as `compressed_size` says, one
/// block of `block_size` bytes per started 4x4 block.
#[verifier::external_body]
fn texpresso_compress(codec: Format, rgba: &[u8], width: usize, height: usize) -> (blocks: Vec<u8>)
    requires
        block_codec_accepts(rgba@, width as nat, height as nat),
    ensures
        blocks@ == texpresso_blocks(codec, rgba@, width as int, height as int),
        blocks@.len() == codec_output_len(codec, width as nat, height as nat),
{
    let params = texpresso::Params {
        algorithm: texpresso::Algorithm::RangeFit,
        weights: texpresso::COLOUR_WEIGHTS_PERCEPTUAL,
        weigh_colour_by_alpha: false,
    };
    let mut blocks = vec![0u8; codec.compressed_size(width, height)];
    codec.compress(rgba, width, height, params, &mut blocks);
    blocks
}

/// What the compression of a level yields: the payload itself, or, for
/// BC7, the batcher that will have collected it when every batch has been
/// encoded.
pub enum LevelPayload {
    /// The finished payload.
    Bytes(Vec<u8>),
    /// The batches of blocks still to be encoded.
    Batches(Bc7Batcher),
}

/// The yield of a level's compression as a value.
pub enum PayloadModel {
    /// The finished payload.
    Bytes(Seq<u8>),
    /// The progress of the batcher.
    Batches(Bc7Progress),
}

impl View for LevelPayload {
    type V = PayloadModel;

    open spec fn view(&self) -> PayloadModel {
        match self {
            LevelPayload::Bytes(bytes) => PayloadModel::Bytes(bytes@),
            LevelPayload::Batches(batcher) => PayloadModel::Batches(batcher@),
        }
    }
}

/// The surfaces that can be batched for the BC7 encoder: extents that fit
/// in 32 bits and a buffer of exactly four bytes per pixel.
pub open spec fn batcher_accepts(image: Seq<u8>, width: nat, height: nat) -> bool {
    &&& width <= u32::MAX
    &&& height <= u32::MAX
    &&& image.len() == 4 * width * height
}

/// What `compress_bcn` returns.
///
/// The alpha-only format yields the alpha channel. BC1 sRGB, BC3, BC4 and
/// BC5 yield the block codec's output on a surface that the codec accepts.
/// BC7 yields the batches of the surface, none of them encoded yet: runs
/// of up to 64 blocks, block row by block row, whose encoded blocks make a
/// payload of `blocks_x * blocks_y * 16` bytes with the block at `(x, y)`
/// at byte `(x + y * blocks_x) * 16`. A surface that the format's codec
/// cannot be given is a `DecodeError`, and a format without a codec is an
/// `UnsupportedFormat`.
pub open spec fn spec_compress_bcn(
    format: TextureFormat,
    image: Seq<u8>,
    width: nat,
    height: nat,
) -> Result<PayloadModel, ConvertError> {
    if format == TextureFormat::FmtAlpha {
        Ok(PayloadModel::Bytes(spec_alpha_channel(image)))
    } else if format == TextureFormat::FmtBc7 {
        if batcher_accepts(image, width, height) {
            Ok(PayloadModel::Batches(Bc7Progress::start(width, height)))
        } else {
            Err(ConvertError::DecodeError)
        }
    } else {
        match format.spec_texpresso_format() {
            Some(codec) => if block_codec_accepts(image, width, height) {
                Ok(
                    PayloadModel::Bytes(
                        texpresso_blocks(codec, image, width as int, height as int),
                    ),
                )
            } else {
                Err(ConvertError::DecodeError)
            },
            None => Err(ConvertError::UnsupportedFormat),
        }
    }
}

/// Keeps the alpha byte of every whole pixel.
pub fn extract_alpha(image: &[u8]) -> (alpha: Vec<u8>)
    ensures
        alpha@ == spec_alpha_channel(image@),
{
    let total: usize = image.len();
    let pixels: usize = total / 4;
    let mut alpha: Vec<u8> = Vec::new();
    let mut i: usize = 0;
    while i < pixels
        invariant
            i <= pixels,
            total == image@.len(),
            pixels == total / 4,
            alpha@.len() == i,
            forall|k: int| 0 <= k < i ==> alpha@[k] == image@[4 * k + 3],
        decreases pixels - i,
    {
        alpha.push(image[4 * i + 3]);
        i = i + 1;
    }
    assert(alpha@ =~= spec_alpha_channel(image@));
    alpha
}

/// Tells whether the block codec can be given this surface.
pub fn block_codec_check(image: &[u8], width: usize, height: usize) -> (accepted: bool)
    ensures
        accepted == block_codec_accepts(image@, width as nat, height as nat),
{
    let total: usize = image.len();
    if width == 0 || height == 0 {
        return false;
    }
    let pixels: usize = match width.checked_mul(height) {
        Some(pixels) => pixels,
        None => {
            proof {
                lemma_product_bounds(width as nat, height as nat);
                assert(4 * width * height == 4 * (width * height)) by (nonlinear_arith);
            }
            return false;
        },
    };
    let bytes: usize = match pixels.checked_mul(4) {
        Some(bytes) => bytes,
        None => {
            proof {
                assert(4 * width * height == 4 * (width * height)) by (nonlinear_arith);
            }
            return false;
        },
    };
    proof {
        assert(4 * width * height == 4 * (width * height)) by (nonlinear_arith);
    }
    if total != bytes {
        return false;
    }
    let blocks_x: usize = (width - 1) / 4 + 1;
    let blocks_y: usize = (height - 1) / 4 + 1;
    proof {
        lemma_product_bounds(width as nat, height as nat);
        assert(blocks_x * blocks_y <= width * height) by (nonlinear_arith)
            requires
                1 <= blocks_x <= width,
                1 <= blocks_y <= height,
        ;
        assert(16 * block_count(width as nat) * block_count(height as nat) == 16 * (blocks_x
            * blocks_y)) by (nonlinear_arith)
            requires
                block_count(width as nat) == blocks_x,
                block_count(height as nat) == blocks_y,
        ;
    }
    let blocks: usize = blocks_x * blocks_y;
    match blocks.checked_mul(16) {
        Some(_) => true,
        None => false,
    }
}

proof fn lemma_product_bounds(width: nat, height: nat)
    requires
        width >= 1,
        height >= 1,
    ensures
        width <= width * height,
        height <= width * height,
{
    assert(width <= width * height && height <= width * height) by (nonlinear_arith)
        requires
            width >= 1,
            height >= 1,
    ;
}

/// Compresses one mip level into the payload of `format`.
///
/// The alpha-only format yields the alpha channel, and BC1 sRGB, BC3, BC4
/// and BC5 the block codec's output. BC7 yields a batcher on the surface:
/// the encoder is not part of this library, so the payload is there when
/// the batcher's batches have been encoded and stored. A surface that the
/// format's codec cannot be given is a `DecodeError`; a format without a
/// codec is an `UnsupportedFormat`.
pub fn compress_bcn(format: TextureFormat, image: &[u8], width: usize, height: usize) -> (outcome:
    Result<LevelPayload, ConvertError>)
    ensures
        match outcome {
            Ok(payload) => spec_compress_bcn(format, image@, width as nat, height as nat) == Ok::<
                PayloadModel,
                ConvertError,
            >(payload@),
            Err(error) => spec_compress_bcn(format, image@, width as nat, height as nat) == Err::<
                PayloadModel,
                ConvertError,
            >(error),
        },
        outcome matches Ok(LevelPayload::Bytes(bytes)) ==> format.spec_texpresso_format() matches Some(
            codec,
        ) ==> bytes@.len() == codec_output_len(codec, width as nat, height as nat),
        outcome matches Ok(LevelPayload::Batches(batcher)) ==> batcher@.wf(),
{
    if format == TextureFormat::FmtAlpha {
        return Ok(LevelPayload::Bytes(extract_alpha(image)));
    }
    if format == TextureFormat::FmtBc7 {
        if width > 0xFFFF_FFFF || height > 0xFFFF_FFFF {
            return Err(ConvertError::DecodeError);
        }
        let batcher = Bc7Batcher::new(width as u32, height as u32);
        if !batcher.fits(image) {
            return Err(ConvertError::DecodeError);
        }
        return Ok(LevelPayload::Batches(batcher));
    }
    match format.as_texpresso_format() {
        Ok(codec) => {
            if block_codec_check(image, width, height) {
                Ok(LevelPayload::Bytes(texpresso_compress(codec, image, width, height)))
            } else {
                Err(ConvertError::DecodeError)
            }
        },
        Err(_) => Err(ConvertError::UnsupportedFormat),
    }
}

/// How the payload of a level is produced.
#[derive(Clone, Copy, Debug, PartialEq, Eq)]
pub enum LevelCodec {
    /// One alpha byte per pixel, no codec.
    AlphaOnly,
    /// One call of the block codec over the whole surface.
    Blocks(Format),
    /// Bounded batches of blocks for the BC7 encoder.
    Bc7Batches,
}

/// The codec that produces payloads of `format`, if there is one.
pub open spec fn spec_select_codec(format: TextureFormat) -> Option<LevelCodec> {
    match format {
        TextureFormat::FmtAlpha => Some(LevelCodec::AlphaOnly),
        TextureFormat::FmtBc7 => Some(LevelCodec::Bc7Batches),
        _ => match format.spec_texpresso_format() {
            Some(codec) => Some(LevelCodec::Blocks(codec)),
            None => None,
        },
    }
}

/// Chooses the codec for an output format. A format that no codec
/// produces is an `UnsupportedFormat`.
pub fn select_codec(format: TextureFormat) -> (outcome: Result<LevelCodec, ConvertError>)
    ensures
        match spec_select_codec(format) {
            Some(codec) => outcome == Ok::<LevelCodec, ConvertError>(codec),
            None => outcome == Err::<LevelCodec, ConvertError>(ConvertError::UnsupportedFormat),
        },
{
    match format {
        TextureFormat::FmtAlpha => Ok(LevelCodec::AlphaOnly),
        TextureFormat::FmtBc7 => Ok(LevelCodec::Bc7Batches),
        _ => match format.as_texpresso_format() {
            Ok(codec) => Ok(LevelCodec::Blocks(codec)),
            Err(_) => Err(ConvertError::UnsupportedFormat),
        },
    }
}

} // verus!
