//! Downsampling of the source image to the extents of a mip level.
//!
//! The source is multiplied by its alpha once; every level is then
//! resampled from it with a box filter and divided by its alpha again.

use crate::error::ConvertError;
use crate::mipmap::{mip_dimension, spec_mip_dimension};
use crate::padding::is_surface;
use fast_image_resize::{FilterType, Image, MulDiv, PixelType, ResizeAlg, Resizer};
use std::num::NonZeroU32;
use vstd::prelude::*;

verus! {

/// The surfaces that the resampler is given: a well-formed surface whose
/// pixel count fits in 32 bits and whose buffer leaves room for one more
/// pixel in the address space.
pub open spec fn resizable(pixels: Seq<u8>, width: nat, height: nat) -> bool {
    &&& is_surface(pixels, width, height)
    &&& width * height <= u32::MAX
    &&& 4 * width * height + 4 <= usize::MAX
}

/// Calls `fast_image_resize::MulDiv::multiply_alpha_inplace` on an image
/// made of the buffer with `Image::from_vec_u8`. Trusted: when the call
/// succeeds, the buffer that comes back is as long as the one that went in.
#[verifier::external_body]
fn multiply_alpha(pixels: Vec<u8>, width: u32, height: u32) -> (outcome: Option<Vec<u8>>)
    requires
        resizable(pixels@, width as nat, height as nat),
    ensures
        outcome matches Some(scaled) ==> scaled@.len() == pixels@.len(),
{
    let (w, h) = (NonZeroU32::new(width)?, NonZeroU32::new(height)?);
    let mut image = Image::from_vec_u8(w, h, pixels, PixelType::U8x4).ok()?;
    MulDiv::default().multiply_alpha_inplace(&mut image.view_mut()).ok()?;
    Some(image.into_vec())
}

/// Calls `fast_image_resize::MulDiv::divide_alpha_inplace` on an image made
/// of the buffer with `Image::from_vec_u8`. Trusted: when the call
/// succeeds, the buffer that comes back is as long as the one that went in.
#[verifier::external_body]
fn divide_alpha(pixels: Vec<u8>, width: u32, height: u32) -> (outcome: Option<Vec<u8>>)
    requires
        resizable(pixels@, width as nat, height as nat),
    ensures
        outcome matches Some(scaled) ==> scaled@.len() == pixels@.len(),
{
    let (w, h) = (NonZeroU32::new(width)?, NonZeroU32::new(height)?);
    let mut image = Image::from_vec_u8(w, h, pixels, PixelType::U8x4).ok()?;
    MulDiv::default().divide_alpha_inplace(&mut image.view_mut()).ok()?;
    Some(image.into_vec())
}

/// Calls `fast_image_resize::Resizer::resize` with box-filter convolution,
/// from an image made of a copy of `source` into a new image of
/// `new_width` x `new_height` pixels. Trusted: when the call succeeds, the
/// buffer that comes back holds four bytes for each pixel of the new
/// extents.
#[verifier::external_body]
fn resize_box(source: &[u8], width: u32, height: u32, new_width: u32, new_height: u32) -> (outcome:
    Option<Vec<u8>>)
    requires
        resizable(source@, width as nat, height as nat),
        1 <= new_width <= width,
        1 <= new_height <= height,
    ensures
        outcome matches Some(resized) ==> is_surface(resized@, new_width as nat, new_height as nat),
{
    let (w, h) = (NonZeroU32::new(width)?, NonZeroU32::new(height)?);
    let (new_w, new_h) = (NonZeroU32::new(new_width)?, NonZeroU32::new(new_height)?);
    let src = Image::from_vec_u8(w, h, source.to_vec(), PixelType::U8x4).ok()?;
    let mut dst = Image::new(new_w, new_h, PixelType::U8x4);
    let mut resizer = Resizer::new(ResizeAlg::Convolution(FilterType::Box));
    resizer.resize(&src.view(), &mut dst.view_mut()).ok()?;
    Some(dst.into_vec())
}

/// Tells whether the resampler can be given this surface.
pub fn resizable_check(pixels: &[u8], width: u32, height: u32) -> (accepted: bool)
    ensures
        accepted == resizable(pixels@, width as nat, height as nat),
{
    let total: usize = pixels.len();
    if width == 0 || height == 0 {
        return false;
    }
    proof {
        assert(width * height <= 0xFFFF_FFFF * 0xFFFF_FFFF) by (nonlinear_arith)
            requires
                width <= 0xFFFF_FFFF,
                height <= 0xFFFF_FFFF,
        ;
        assert(4 * width * height == 4 * (width * height)) by (nonlinear_arith);
    }
    let count: u64 = (width as u64) * (height as u64);
    if count > 0xFFFF_FFFF {
        return false;
    }
    let bytes: u64 = 4 * count;
    total as u64 == bytes && total <= usize::MAX - 4
}

/// What a codec's answer means for the conversion: its result, or
/// `CodecFailure` where it gave none.
pub fn codec_outcome(answer: Option<Vec<u8>>) -> (outcome: Result<Vec<u8>, ConvertError>)
    ensures
        match answer {
            Some(bytes) => outcome == Ok::<Vec<u8>, ConvertError>(bytes),
            None => outcome == Err::<Vec<u8>, ConvertError>(ConvertError::CodecFailure),
        },
{
    match answer {
        Some(bytes) => Ok(bytes),
        None => Err(ConvertError::CodecFailure),
    }
}

/// Multiplies the colour channels of a surface by its alpha, as the
/// resampler needs them.
///
/// A surface that the resampler cannot be given is a `DecodeError`. On any
/// other surface the result is a surface of the same extents, or
/// `CodecFailure` where the resampler refused.
pub fn premultiply(pixels: Vec<u8>, width: u32, height: u32) -> (outcome: Result<
    Vec<u8>,
    ConvertError,
>)
    ensures
        !resizable(pixels@, width as nat, height as nat) <==> outcome == Err::<
            Vec<u8>,
            ConvertError,
        >(ConvertError::DecodeError),
        outcome matches Ok(scaled) ==> resizable(scaled@, width as nat, height as nat),
        outcome matches Err(error) ==> error == ConvertError::DecodeError || error
            == ConvertError::CodecFailure,
{
    if !resizable_check(pixels.as_slice(), width, height) {
        return Err(ConvertError::DecodeError);
    }
    codec_outcome(multiply_alpha(pixels, width, height))
}

/// Produces mip level `level` of a premultiplied source: resampled with a
/// box filter to the level's extents and divided by its alpha. Returns the
/// level's surface, width and height.
///
/// A source that the resampler cannot be given is a `DecodeError`. On any
/// other source the result is a surface of the level's extents, or
/// `CodecFailure` where the resampler refused.
pub fn resize_level(source: &[u8], width: u32, height: u32, level: u32) -> (outcome: Result<
    (Vec<u8>, u32, u32),
    ConvertError,
>)
    ensures
        !resizable(source@, width as nat, height as nat) <==> outcome == Err::<
            (Vec<u8>, u32, u32),
            ConvertError,
        >(ConvertError::DecodeError),
        outcome matches Ok(mip) ==> {
            &&& mip.1 == spec_mip_dimension(width as nat, level as nat)
            &&& mip.2 == spec_mip_dimension(height as nat, level as nat)
            &&& resizable(mip.0@, mip.1 as nat, mip.2 as nat)
        },
        outcome matches Err(error) ==> error == ConvertError::DecodeError || error
            == ConvertError::CodecFailure,
{
    if !resizable_check(source, width, height) {
        return Err(ConvertError::DecodeError);
    }
    let mip_width: u32 = mip_dimension(width, level);
    let mip_height: u32 = mip_dimension(height, level);
    proof {
        assert(mip_width * mip_height <= width * height && 4 * mip_width * mip_height <= 4 * width
            * height) by (nonlinear_arith)
            requires
                1 <= mip_width <= width,
                1 <= mip_height <= height,
        ;
    }
    match codec_outcome(resize_box(source, width, height, mip_width, mip_height)) {
        Ok(resized) => match codec_outcome(divide_alpha(resized, mip_width, mip_height)) {
            Ok(restored) => Ok((restored, mip_width, mip_height)),
            Err(error) => Err(error),
        },
        Err(error) => Err(error),
    }
}

} // verus!
