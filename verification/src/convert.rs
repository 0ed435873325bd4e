//! The conversion of one texture, step by step.
//!
//! A conversion is planned once ([`Plan::new`]): the format's codec is
//! chosen, the header is filled in and the source is made ready for
//! resampling. Every mip level is then a task of its own
//! ([`Plan::start_level`]) that reads the plan and nothing else, so the
//! levels can be worked on side by side. When all levels are there, in
//! whatever order, [`Plan::assemble`] puts them into level order and
//! serialises the container.

use crate::bc7e::{spec_batch_pixels, Bc7Batch, Bc7Batcher, Bc7Progress};
use crate::bim::{spec_material_kind, BIMHeader, TextureFormat, TextureMaterialKind};
use crate::codec::{
    block_codec_accepts, codec_output_len, compress_bcn, select_codec, spec_alpha_channel,
    spec_select_codec, texpresso_blocks, LevelCodec, LevelPayload,
};
use crate::container::{
    all_sized, assemblable, assemble, complete, join_levels, level_models, spec_container,
    spec_join, LevelModel, MipLevel,
};
use crate::error::ConvertError;
use crate::mipmap::{
    lemma_mip_count_bounds, lemma_mip_dimension_bounds, mip_count, spec_mip_count,
    spec_mip_dimension,
};
use crate::padding::{is_surface, lemma_padded_extent, pad_to_blocks, padded_extent, spec_pad};
use crate::resize::{premultiply, resizable, resize_level};
use vstd::prelude::*;

verus! {

/// The header of a texture: its extents, the length of its mip chain, its
/// format and the material kind that its name asks for; every other field
/// as in the default header.
pub open spec fn spec_plan_header(
    width: u32,
    height: u32,
    file_name: Seq<char>,
    stripped_file_name: Seq<char>,
    format: TextureFormat,
) -> BIMHeader {
    BIMHeader {
        pixel_width: width,
        pixel_height: height,
        mip_count: spec_mip_count(width as nat, height as nat) as u32,
        texture_format: format.spec_code(),
        texture_material_kind: spec_material_kind(file_name, stripped_file_name, format).spec_code(),
        ..BIMHeader::spec_default()
    }
}

/// The images that can be converted: a well-formed surface whose padded
/// form takes no more bytes than a 32-bit size can hold.
pub open spec fn plannable(pixels: Seq<u8>, width: nat, height: nat) -> bool {
    &&& is_surface(pixels, width, height)
    &&& 4 * padded_extent(width) * padded_extent(height) <= u32::MAX
}

/// A plannable image can be resampled, and so can each of its levels be
/// padded.
pub proof fn lemma_plannable(pixels: Seq<u8>, width: nat, height: nat)
    requires
        plannable(pixels, width, height),
    ensures
        resizable(pixels, width, height),
        padded_extent(width) <= u32::MAX,
        padded_extent(height) <= u32::MAX,
        width <= u32::MAX,
        height <= u32::MAX,
{
    lemma_padded_extent(width);
    lemma_padded_extent(height);
    let wide = padded_extent(width);
    let tall = padded_extent(height);
    lemma_padded_product(width, height, wide, tall);
    let a = wide / 4;
    let b = tall / 4;
    assert(4 * wide * tall == 64 * (a * b)) by (nonlinear_arith)
        requires
            wide == 4 * a,
            tall == 4 * b,
    ;
}

proof fn lemma_padded_product(width: nat, height: nat, wide: nat, tall: nat)
    requires
        1 <= width <= wide,
        1 <= height <= tall,
    ensures
        4 * width * height <= 4 * wide * tall,
        width * height <= 4 * wide * tall,
        wide <= 4 * wide * tall,
        tall <= 4 * wide * tall,
        wide * tall <= 4 * wide * tall,
        4 * wide * tall == 4 * (wide * tall),
        4 * width * height == 4 * (width * height),
{
    assert(width * height <= wide * tall && wide <= wide * tall && tall <= wide * tall && 4 * wide
        * tall == 4 * (wide * tall) && 4 * width * height == 4 * (width * height))
        by (nonlinear_arith)
        requires
            1 <= width <= wide,
            1 <= height <= tall,
    ;
}

/// Tells whether an image can be converted.
pub fn plannable_check(pixels: &[u8], width: u32, height: u32) -> (accepted: bool)
    ensures
        accepted == plannable(pixels@, width as nat, height as nat),
{
    let total: usize = pixels.len();
    if width == 0 || height == 0 {
        return false;
    }
    let wide: u64 = if width % 4 == 0 {
        width as u64
    } else {
        width as u64 + (4 - width % 4) as u64
    };
    let tall: u64 = if height % 4 == 0 {
        height as u64
    } else {
        height as u64 + (4 - height % 4) as u64
    };
    proof {
        lemma_padded_product(width as nat, height as nat, wide as nat, tall as nat);
        assert(wide == padded_extent(width as nat));
        assert(tall == padded_extent(height as nat));
        assert(wide > 0x4000_0000 || tall > 0x4000_0000 ==> 4 * (wide * tall) > 0xFFFF_FFFF)
            by (nonlinear_arith)
            requires
                wide >= 1,
                tall >= 1,
        ;
    }
    if wide > 0x4000_0000 || tall > 0x4000_0000 {
        return false;
    }
    proof {
        assert(wide * tall <= 0x4000_0000 * 0x4000_0000) by (nonlinear_arith)
            requires
                wide <= 0x4000_0000,
                tall <= 0x4000_0000,
        ;
    }
    if wide * tall > 0x3FFF_FFFF {
        return false;
    }
    let bytes: u64 = 4 * ((width as u64) * (height as u64));
    total as u64 == bytes
}

/// Fills in the header of a texture.
pub fn plan_header(
    width: u32,
    height: u32,
    file_name: &str,
    stripped_file_name: &str,
    format: TextureFormat,
) -> (header: BIMHeader)
    ensures
        header == spec_plan_header(width, height, file_name@, stripped_file_name@, format),
        header.mip_count == spec_mip_count(width as nat, height as nat),
{
    let kind = TextureMaterialKind::from_filename(
        file_name.to_owned(),
        stripped_file_name.to_owned(),
        format,
    );
    let base = BIMHeader::default();
    BIMHeader {
        pixel_width: width,
        pixel_height: height,
        mip_count: mip_count(width, height),
        texture_format: format.code(),
        texture_material_kind: kind.code(),
        ..base
    }
}

/// A planned conversion as a value.
pub struct PlanModel {
    /// The header of the container.
    pub header: BIMHeader,
    /// The output format.
    pub format: TextureFormat,
    /// Width of the source in pixels.
    pub width: nat,
    /// Height of the source in pixels.
    pub height: nat,
    /// The source, multiplied by its alpha for the resampler.
    pub source: Seq<u8>,
}

impl PlanModel {
    /// A plan holds a format that has a codec, a source that can be
    /// resampled and padded, and a header with the length of the mip
    /// chain.
    pub open spec fn wf(self) -> bool {
        &&& spec_select_codec(self.format) is Some
        &&& self.width <= u32::MAX
        &&& self.height <= u32::MAX
        &&& resizable(self.source, self.width, self.height)
        &&& 4 * padded_extent(self.width) * padded_extent(self.height) <= u32::MAX
        &&& self.header.mip_count == spec_mip_count(self.width, self.height)
    }

    /// Width of mip level `level` before padding.
    pub open spec fn level_width(self, level: nat) -> nat {
        spec_mip_dimension(self.width, level)
    }

    /// Height of mip level `level` before padding.
    pub open spec fn level_height(self, level: nat) -> nat {
        spec_mip_dimension(self.height, level)
    }
}

/// What every level task of a conversion reads: the header, the format and
/// the source image, multiplied by its alpha for the resampler.
pub struct Plan {
    header: BIMHeader,
    format: TextureFormat,
    width: u32,
    height: u32,
    source: Vec<u8>,
}

impl View for Plan {
    type V = PlanModel;

    closed spec fn view(&self) -> PlanModel {
        PlanModel {
            header: self.header,
            format: self.format,
            width: self.width as nat,
            height: self.height as nat,
            source: self.source@,
        }
    }
}

/// The work on one mip level as a value.
pub struct TaskModel {
    /// Index of the level.
    pub level: nat,
    /// Width of the padded surface in pixels.
    pub width: nat,
    /// Height of the padded surface in pixels.
    pub height: nat,
    /// The padded surface.
    pub surface: Seq<u8>,
    /// The payload, where a codec produced it in one call.
    pub payload: Option<Seq<u8>>,
    /// How far the BC7 encoding of the surface has come.
    pub progress: Bc7Progress,
}

impl TaskModel {
    /// The surface is padded to whole blocks and small enough for 32-bit
    /// sizes. A payload that is there fits a record and leaves nothing to
    /// encode; without one, the blocks of the surface are being encoded.
    pub open spec fn wf(self) -> bool {
        &&& self.level <= u32::MAX
        &&& self.width <= u32::MAX
        &&& self.height <= u32::MAX
        &&& self.surface.len() == 4 * self.width * self.height
        &&& self.width % 4 == 0
        &&& self.height % 4 == 0
        &&& self.width * self.height <= u32::MAX
        &&& self.progress.wf()
        &&& match self.payload {
            Some(payload) => payload.len() <= u32::MAX && self.progress == Bc7Progress::start(0, 0),
            None => self.progress.width == self.width && self.progress.height == self.height,
        }
    }

    /// The task on an empty surface: level 0, no pixels, an empty payload
    /// and nothing to encode.
    pub open spec fn idle() -> TaskModel {
        TaskModel {
            level: 0,
            width: 0,
            height: 0,
            surface: Seq::empty(),
            payload: Some(Seq::empty()),
            progress: Bc7Progress::start(0, 0),
        }
    }

    /// Nothing is left to encode.
    pub open spec fn finished(self) -> bool {
        self.progress.finished()
    }

    /// The payload as far as it is there: the codec's output, or the
    /// blocks that the BC7 encoder has returned so far.
    pub open spec fn spec_payload(self) -> Seq<u8> {
        match self.payload {
            Some(payload) => payload,
            None => self.progress.packed,
        }
    }

    /// The task as `Plan::start_level` leaves it for a format: with the
    /// payload of the alpha-only format or of the block codec, or ready
    /// for the first batch of the BC7 encoder.
    pub open spec fn started(self, format: TextureFormat) -> bool {
        match spec_select_codec(format) {
            Some(LevelCodec::AlphaOnly) => self.payload == Some(spec_alpha_channel(self.surface)),
            Some(LevelCodec::Blocks(codec)) => self.payload == Some(
                texpresso_blocks(codec, self.surface, self.width as int, self.height as int),
            ),
            _ => self.payload is None && self.progress == Bc7Progress::start(
                self.width,
                self.height,
            ),
        }
    }
}

/// The work on one mip level: its padded surface, and its payload as far
/// as it is there.
///
/// For the alpha-only format and the block codec the payload is there
/// from the start. A BC7 level hands out batches of blocks until nothing
/// is left to encode; the encoded blocks are its payload.
pub struct LevelTask {
    level: u32,
    width: u32,
    height: u32,
    surface: Vec<u8>,
    payload: Option<Vec<u8>>,
    batcher: Bc7Batcher,
}

impl View for LevelTask {
    type V = TaskModel;

    closed spec fn view(&self) -> TaskModel {
        TaskModel {
            level: self.level as nat,
            width: self.width as nat,
            height: self.height as nat,
            surface: self.surface@,
            payload: match self.payload {
                Some(payload) => Some(payload@),
                None => None,
            },
            progress: self.batcher@,
        }
    }
}

impl Plan {
    #[verifier::type_invariant]
    spec fn inv(&self) -> bool {
        self@.wf()
    }

    /// Plans the conversion of an image of `width` x `height` RGBA pixels.
    ///
    /// A format without a codec is an `UnsupportedFormat`, whatever the
    /// image. Given a codec, pixels that do not make an image that can be
    /// converted are a `DecodeError`. Otherwise the plan is made, unless
    /// the resampler refuses the source, which is a `CodecFailure`.
    pub fn new(
        pixels: Vec<u8>,
        width: u32,
        height: u32,
        file_name: &str,
        stripped_file_name: &str,
        format: TextureFormat,
    ) -> (outcome: Result<Plan, ConvertError>)
        ensures
            spec_select_codec(format) is None <==> outcome matches Err(
                ConvertError::UnsupportedFormat,
            ),
            spec_select_codec(format) is Some && !plannable(pixels@, width as nat, height as nat)
                <==> outcome matches Err(ConvertError::DecodeError),
            outcome matches Ok(plan) ==> {
                &&& plan@.wf()
                &&& plan@.header == spec_plan_header(
                    width,
                    height,
                    file_name@,
                    stripped_file_name@,
                    format,
                )
                &&& plan@.format == format
                &&& plan@.width == width
                &&& plan@.height == height
            },
            outcome matches Err(error) ==> error == ConvertError::UnsupportedFormat || error
                == ConvertError::DecodeError || error == ConvertError::CodecFailure,
    {
        if select_codec(format).is_err() {
            return Err(ConvertError::UnsupportedFormat);
        }
        if !plannable_check(pixels.as_slice(), width, height) {
            return Err(ConvertError::DecodeError);
        }
        proof {
            lemma_plannable(pixels@, width as nat, height as nat);
        }
        let header = plan_header(width, height, file_name, stripped_file_name, format);
        match premultiply(pixels, width, height) {
            Ok(source) => Ok(Plan { header, format, width, height, source }),
            Err(_) => Err(ConvertError::CodecFailure),
        }
    }

    /// The header of the container.
    pub fn header(&self) -> (header: BIMHeader)
        ensures
            header == self@.header,
    {
        self.header
    }

    /// The output format.
    pub fn format(&self) -> (format: TextureFormat)
        ensures
            format == self@.format,
    {
        self.format
    }

    /// Width of the source in pixels.
    pub fn width(&self) -> (width: u32)
        ensures
            width == self@.width,
    {
        self.width
    }

    /// Height of the source in pixels.
    pub fn height(&self) -> (height: u32)
        ensures
            height == self@.height,
    {
        self.height
    }

    /// Number of mip levels, and so of level tasks.
    pub fn mip_count(&self) -> (count: u32)
        ensures
            count == spec_mip_count(self@.width, self@.height),
            count == self@.header.mip_count,
            1 <= count <= 32,
    {
        proof {
            use_type_invariant(self);
            lemma_mip_count_bounds(self.width as nat, self.height as nat);
        }
        self.header.mip_count
    }

    /// Starts the work on mip level `level`: the source is resampled to
    /// the level's extents, padded to whole blocks and compressed. Where
    /// the format's codec takes a whole surface, the payload is there: one
    /// byte per pixel for the alpha-only format, one block per 4x4 pixels
    /// for the block codec. A BC7 level is ready for its first batch.
    ///
    /// The only failure is a `CodecFailure`, where the resampler refuses.
    pub fn start_level(&self, level: u32) -> (outcome: Result<LevelTask, ConvertError>)
        ensures
            match outcome {
                Ok(task) => {
                    &&& task@.wf()
                    &&& task@.level == level
                    &&& task@.width == padded_extent(self@.level_width(level as nat))
                    &&& task@.height == padded_extent(self@.level_height(level as nat))
                    &&& exists|resized: Seq<u8>|
                        is_surface(
                            resized,
                            self@.level_width(level as nat),
                            self@.level_height(level as nat),
                        ) && task@.surface == #[trigger] spec_pad(
                            resized,
                            self@.level_width(level as nat),
                            self@.level_height(level as nat),
                        )
                    &&& task@.started(self@.format)
                    &&& spec_select_codec(self@.format) matches Some(LevelCodec::Blocks(codec))
                        ==> task@.spec_payload().len() == codec_output_len(
                        codec,
                        task@.width,
                        task@.height,
                    )
                    &&& spec_select_codec(self@.format) == Some(LevelCodec::AlphaOnly)
                        ==> task@.spec_payload().len() == task@.width * task@.height
                    &&& spec_select_codec(self@.format) == Some(LevelCodec::Bc7Batches)
                        ==> task@.spec_payload().len() == 0
                },
                Err(error) => error == ConvertError::CodecFailure,
            },
    {
        let (surface, width, height) = match self.level_surface(level) {
            Ok(padded) => padded,
            Err(error) => {
                return Err(error);
            },
        };
        proof {
            use_type_invariant(self);
            lemma_block_counts(width as nat, height as nat);
        }
        proof {
            lemma_payload_fits(self.format, surface@, width as nat, height as nat);
        }
        match compress_bcn(self.format, surface.as_slice(), width as usize, height as usize) {
            Ok(LevelPayload::Bytes(payload)) => {
                let batcher = Bc7Batcher::new(0, 0);
                Ok(LevelTask { level, width, height, surface, payload: Some(payload), batcher })
            },
            Ok(LevelPayload::Batches(batcher)) => {
                Ok(LevelTask { level, width, height, surface, payload: None, batcher })
            },
            Err(_) => Err(ConvertError::CodecFailure),
        }
    }

    /// The surface of mip level `level`: the source resampled to the
    /// level's extents and padded to whole blocks. Returns the surface,
    /// its width and its height.
    ///
    /// The only failure is a `CodecFailure`, where the resampler refuses.
    pub fn level_surface(&self, level: u32) -> (outcome: Result<(Vec<u8>, u32, u32), ConvertError>)
        ensures
            match outcome {
                Ok(padded) => {
                    &&& padded.1 == padded_extent(self@.level_width(level as nat))
                    &&& padded.2 == padded_extent(self@.level_height(level as nat))
                    &&& is_surface(padded.0@, padded.1 as nat, padded.2 as nat)
                    &&& padded.1 * padded.2 <= u32::MAX
                    &&& padded.1 % 4 == 0 && padded.2 % 4 == 0
                    &&& block_codec_accepts(padded.0@, padded.1 as nat, padded.2 as nat)
                    &&& exists|resized: Seq<u8>|
                        is_surface(
                            resized,
                            self@.level_width(level as nat),
                            self@.level_height(level as nat),
                        ) && padded.0@ == #[trigger] spec_pad(
                            resized,
                            self@.level_width(level as nat),
                            self@.level_height(level as nat),
                        )
                },
                Err(error) => error == ConvertError::CodecFailure,
            },
    {
        proof {
            use_type_invariant(self);
        }
        let (resized, mip_width, mip_height) = match resize_level(
            self.source.as_slice(),
            self.width,
            self.height,
            level,
        ) {
            Ok(mip) => mip,
            Err(_) => {
                return Err(ConvertError::CodecFailure);
            },
        };
        proof {
            lemma_mip_dimension_bounds(self.width as nat, level as nat);
            lemma_mip_dimension_bounds(self.height as nat, level as nat);
            lemma_padded_extent(mip_width as nat);
            lemma_padded_extent(mip_height as nat);
            lemma_padded_extent(self.width as nat);
            lemma_padded_extent(self.height as nat);
            lemma_level_fits(
                mip_width as nat,
                mip_height as nat,
                self.width as nat,
                self.height as nat,
            );
        }
        let ghost before = resized@;
        let (surface, width, height) = pad_to_blocks(resized, mip_width, mip_height);
        proof {
            assert(is_surface(before, mip_width as nat, mip_height as nat));
            assert(surface@ == spec_pad(before, mip_width as nat, mip_height as nat));
            lemma_block_counts(width as nat, height as nat);
        }
        Ok((surface, width, height))
    }

    /// Puts the finished levels into level order, whatever order they
    /// arrived in, and serialises the container.
    ///
    /// Arrivals that are not exactly one for each level of the plan, an
    /// arrival whose record does not give the length of its payload, and
    /// levels that cannot be assembled are a `CodecFailure`.
    pub fn assemble(&self, arrivals: Vec<MipLevel>) -> (outcome: Result<Vec<u8>, ConvertError>)
        ensures
            match outcome {
                Ok(bytes) => {
                    &&& complete(level_models(arrivals@), self@.header.mip_count as nat)
                    &&& all_sized(level_models(arrivals@))
                    &&& all_sized(spec_join(level_models(arrivals@), self@.header.mip_count as nat))
                    &&& assemblable(
                        spec_join(level_models(arrivals@), self@.header.mip_count as nat),
                        self@.format,
                    )
                    &&& bytes@ == spec_container(
                        self@.header,
                        spec_join(level_models(arrivals@), self@.header.mip_count as nat),
                        self@.format,
                    )
                },
                Err(error) => {
                    &&& error == ConvertError::CodecFailure
                    &&& !(complete(level_models(arrivals@), self@.header.mip_count as nat)
                        && all_sized(level_models(arrivals@)) && assemblable(
                        spec_join(level_models(arrivals@), self@.header.mip_count as nat),
                        self@.format,
                    ))
                },
            },
    {
        let count: usize = arrivals.len();
        let mut i: usize = 0;
        while i < count
            invariant
                i <= count,
                count == arrivals@.len(),
                forall|k: int| 0 <= k < i ==> (#[trigger] level_models(arrivals@)[k]).sized(),
            decreases count - i,
        {
            let size: u32 = arrivals[i].record.compressed_size;
            if arrivals[i].payload.len() > 0xFFFF_FFFF || arrivals[i].payload.len() as u32 != size {
                assert(!level_models(arrivals@)[i as int].sized());
                return Err(ConvertError::CodecFailure);
            }
            assert(level_models(arrivals@)[i as int].sized());
            i = i + 1;
        }
        let levels = match join_levels(arrivals, self.header.mip_count) {
            Ok(levels) => levels,
            Err(error) => {
                return Err(error);
            },
        };
        proof {
            crate::container::lemma_join_keeps_sizes(
                level_models(arrivals@),
                self.header.mip_count as nat,
            );
        }
        assemble(&self.header, &levels, self.format)
    }
}

proof fn lemma_level_fits(mip_width: nat, mip_height: nat, width: nat, height: nat)
    requires
        1 <= mip_width <= width,
        1 <= mip_height <= height,
    ensures
        4 * padded_extent(mip_width) * padded_extent(mip_height) <= 4 * padded_extent(width)
            * padded_extent(height),
        padded_extent(mip_width) * padded_extent(mip_height) <= 4 * padded_extent(width)
            * padded_extent(height),
        padded_extent(mip_width) <= 4 * padded_extent(width) * padded_extent(height),
        padded_extent(mip_height) <= 4 * padded_extent(width) * padded_extent(height),
{
    lemma_padded_extent(mip_width);
    lemma_padded_extent(mip_height);
    lemma_padded_extent(width);
    lemma_padded_extent(height);
    let a = padded_extent(mip_width);
    let b = padded_extent(mip_height);
    let c = padded_extent(width);
    let d = padded_extent(height);
    assert(a <= c && b <= d);
    assert(4 * a * b <= 4 * c * d && a * b <= 4 * c * d && a <= 4 * c * d && b <= 4 * c * d)
        by (nonlinear_arith)
        requires
            1 <= a <= c,
            1 <= b <= d,
    ;
}

proof fn lemma_payload_fits(format: TextureFormat, surface: Seq<u8>, width: nat, height: nat)
    requires
        surface.len() == 4 * width * height,
        width % 4 == 0,
        height % 4 == 0,
    ensures
        spec_alpha_channel(surface).len() == width * height,
        format.spec_texpresso_format() matches Some(codec) ==> crate::codec::codec_output_len(
            codec,
            width,
            height,
        ) <= width * height,
{
    lemma_block_counts(width, height);
    assert(4 * width * height == 4 * (width * height)) by (nonlinear_arith);
    let blocks = crate::codec::block_count(width) * crate::codec::block_count(height);
    assert(16 * crate::codec::block_count(width) * crate::codec::block_count(height) == 16
        * blocks) by (nonlinear_arith)
        requires
            blocks == crate::codec::block_count(width) * crate::codec::block_count(height),
    ;
    if let Some(codec) = format.spec_texpresso_format() {
        let size = crate::codec::codec_block_size(codec);
        assert(blocks * size <= 16 * blocks) by (nonlinear_arith)
            requires
                size <= 16,
        ;
    }
}

proof fn lemma_block_counts(width: nat, height: nat)
    requires
        width % 4 == 0,
        height % 4 == 0,
    ensures
        crate::codec::block_count(width) == width / 4,
        crate::codec::block_count(height) == height / 4,
        16 * crate::codec::block_count(width) * crate::codec::block_count(height) == width
            * height,
        16 * ((width / 4) * (height / 4)) == width * height,
        width / 4 == 0 ==> width * height == 0,
        4 * width * (4 * (height / 4)) == 4 * width * height,
{
    let bx = width / 4;
    let by = height / 4;
    assert(16 * bx * by == (4 * bx) * (4 * by) && 16 * (bx * by) == (4 * bx) * (4 * by) && 4
        * width * (4 * by) == 4 * width * height) by (nonlinear_arith)
        requires
            width == 4 * bx,
            height == 4 * by,
    ;
}

impl LevelTask {
    #[verifier::type_invariant]
    spec fn inv(&self) -> bool {
        self@.wf()
    }

    /// A task on an empty surface, with an empty payload: level 0 of no
    /// pixels, nothing left to encode. It holds the place of a task while
    /// that task is being changed.
    fn idle() -> (task: LevelTask)
        ensures
            task@ == TaskModel::idle(),
            task@.wf(),
            task@.finished(),
            task@.spec_payload() == Seq::<u8>::empty(),
    {
        proof {
            assert(4 * 0nat * 0nat == 0) by (nonlinear_arith);
            assert(0nat * 0nat == 0) by (nonlinear_arith);
        }
        LevelTask {
            level: 0,
            width: 0,
            height: 0,
            surface: Vec::new(),
            payload: Some(Vec::new()),
            batcher: Bc7Batcher::new(0, 0),
        }
    }

    /// Index of the level.
    pub fn level(&self) -> (level: u32)
        ensures
            level == self@.level,
    {
        self.level
    }

    /// Width of the padded surface in pixels.
    pub fn width(&self) -> (width: u32)
        ensures
            width == self@.width,
    {
        self.width
    }

    /// Height of the padded surface in pixels.
    pub fn height(&self) -> (height: u32)
        ensures
            height == self@.height,
    {
        self.height
    }

    /// Tells whether nothing is left to encode.
    pub fn is_finished(&self) -> (finished: bool)
        ensures
            finished == self@.finished(),
    {
        self.batcher.is_finished()
    }

    /// The next batch of blocks for the BC7 encoder, or `None` when
    /// nothing is left to encode.
    pub fn next_batch(&self) -> (batch: Option<Bc7Batch>)
        ensures
            match batch {
                None => self@.finished(),
                Some(batch) => {
                    &&& !self@.finished()
                    &&& batch.num_blocks == self@.progress.next_count()
                    &&& batch.pixels@ == spec_batch_pixels(
                        self@.surface,
                        self@.width,
                        self@.progress.next_x,
                        self@.progress.next_y,
                        self@.progress.next_count(),
                    )
                },
            },
    {
        proof {
            use_type_invariant(self);
        }
        if self.batcher.is_finished() {
            return None;
        }
        match self.batcher.next_batch(self.surface.as_slice()) {
            Ok(batch) => batch,
            Err(_) => None,
        }
    }

    /// Takes the encoder's output for the batch that is due: 16 bytes for
    /// each of its blocks. Anything else, and any output when nothing is
    /// left to encode, is a `CodecFailure` and changes nothing.
    pub fn store(&mut self, blocks: &[u8]) -> (outcome: Result<(), ConvertError>)
        ensures
            old(self)@.progress.takes(blocks@) ==> outcome is Ok && final(self)@ == (TaskModel {
                progress: old(self)@.progress.stored(blocks@),
                ..old(self)@
            }),
            !old(self)@.progress.takes(blocks@) ==> outcome == Err::<(), ConvertError>(
                ConvertError::CodecFailure,
            ) && final(self)@ == old(self)@,
    {
        proof {
            use_type_invariant(&*self);
        }
        let mut taken = LevelTask::idle();
        core::mem::swap(self, &mut taken);
        let LevelTask { level, width, height, surface, payload, batcher } = taken;
        let mut batcher = batcher;
        let outcome = batcher.store(blocks);
        *self = LevelTask { level, width, height, surface, payload, batcher };
        outcome
    }

    /// Closes the task: the level with its record and payload. A task that
    /// still has blocks to encode is a `CodecFailure`.
    pub fn finish(self) -> (outcome: Result<MipLevel, ConvertError>)
        ensures
            match outcome {
                Ok(made) => self@.finished() && made@ == LevelModel::fresh(
                    self@.level,
                    self@.width,
                    self@.height,
                    self@.spec_payload(),
                ) && made@.sized(),
                Err(error) => !self@.finished() && error == ConvertError::CodecFailure,
            },
    {
        proof {
            use_type_invariant(&self);
        }
        if !self.batcher.is_finished() {
            return Err(ConvertError::CodecFailure);
        }
        let LevelTask { level, width, height, surface, payload, batcher } = self;
        let payload = match payload {
            Some(payload) => payload,
            None => {
                proof {
                    lemma_block_counts(width as nat, height as nat);
                }
                batcher.into_blocks()
            },
        };
        Ok(MipLevel::new(level, width, height, payload))
    }
}

} // verus!
