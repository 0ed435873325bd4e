//! Settings for the BC7 block encoder, and the batching of a surface into
//! the bounded runs of blocks that the encoder takes per call.

use crate::error::ConvertError;
use vstd::prelude::*;

verus! {

/// Encoder settings for opaque blocks.
#[derive(Copy, Clone)]
pub struct OpaqueSettings {
    pub max_mode13_partitions_to_try: u32,
    pub max_mode0_partitions_to_try: u32,
    pub max_mode2_partitions_to_try: u32,
    pub use_mode: [bool; 7],
    pub unused1: bool,
}

/// Encoder settings for blocks with alpha.
#[derive(Copy, Clone)]
pub struct AlphaSettings {
    pub max_mode7_partitions_to_try: u32,
    pub mode67_error_weight_mul: [u32; 4],
    pub use_mode4: bool,
    pub use_mode5: bool,
    pub use_mode6: bool,
    pub use_mode7: bool,
    pub use_mode4_rotation: bool,
    pub use_mode5_rotation: bool,
    pub unused2: bool,
    pub unused3: bool,
}

/// The full parameter block that the BC7 encoder reads.
#[derive(Copy, Clone)]
pub struct CompressBlockParams {
    pub max_partitions_mode: [u32; 8],
    pub weights: [u32; 4],
    pub uber_level: u32,
    pub refinement_passes: u32,
    pub mode4_rotation_mask: u32,
    pub mode4_index_mask: u32,
    pub mode5_rotation_mask: u32,
    pub uber1_mask: u32,
    pub perceptual: bool,
    pub pbit_search: bool,
    pub mode6_only: bool,
    pub unused0: bool,
    pub opaque_settings: OpaqueSettings,
    pub alpha_settings: AlphaSettings,
}

impl CompressBlockParams {
    /// The fastest preset: perceptual weights, mode 6 only, one refinement
    /// pass, one partition tried per mode.
    pub fn ultrafast() -> (params: Self)
        ensures
            params.max_partitions_mode@ == seq![16u32, 64, 64, 64, 0, 0, 0, 64],
            params.weights@ == seq![128u32, 64, 16, 256],
            params.uber_level == 0,
            params.refinement_passes == 1,
            params.mode4_rotation_mask == 5,
            params.mode4_index_mask == 3,
            params.mode5_rotation_mask == 1,
            params.uber1_mask == 7,
            params.perceptual,
            !params.pbit_search,
            params.mode6_only,
            !params.unused0,
            params.opaque_settings.max_mode13_partitions_to_try == 1,
            params.opaque_settings.max_mode0_partitions_to_try == 1,
            params.opaque_settings.max_mode2_partitions_to_try == 1,
            params.opaque_settings.use_mode@ == seq![true, true, true, true, true, true, true],
            !params.opaque_settings.unused1,
            params.alpha_settings.max_mode7_partitions_to_try == 1,
            params.alpha_settings.mode67_error_weight_mul@ == seq![1u32, 1, 1, 1],
            params.alpha_settings.use_mode4,
            params.alpha_settings.use_mode5,
            params.alpha_settings.use_mode6,
            !params.alpha_settings.use_mode7,
            params.alpha_settings.use_mode4_rotation,
            params.alpha_settings.use_mode5_rotation,
            !params.alpha_settings.unused2,
            !params.alpha_settings.unused3,
    {
        Self {
            max_partitions_mode: [16, 64, 64, 64, 0, 0, 0, 64],
            weights: [128, 64, 16, 256],
            uber_level: 0,
            refinement_passes: 1,
            mode4_rotation_mask: 1 + 4,
            mode4_index_mask: 3,
            mode5_rotation_mask: 1,
            uber1_mask: 7,
            perceptual: true,
            pbit_search: false,
            mode6_only: true,
            unused0: false,
            opaque_settings: OpaqueSettings {
                max_mode13_partitions_to_try: 1,
                max_mode0_partitions_to_try: 1,
                max_mode2_partitions_to_try: 1,
                use_mode: [true; 7],
                unused1: false,
            },
            alpha_settings: AlphaSettings {
                max_mode7_partitions_to_try: 1,
                mode67_error_weight_mul: [1; 4],
                use_mode4: true,
                use_mode5: true,
                use_mode6: true,
                use_mode7: false,
                use_mode4_rotation: true,
                use_mode5_rotation: true,
                unused2: false,
                unused3: false,
            },
        }
    }
}

/// The most blocks that one call of the encoder takes.
pub const BATCH_BLOCKS: usize = 64;

/// The 64 pixel bytes of the 4x4 block at block column `bx` and block row
/// `by` of a surface `width` pixels wide: its four rows of four pixels,
/// top to bottom.
pub open spec fn spec_block_pixels(image: Seq<u8>, width: nat, bx: nat, by: nat) -> Seq<u8> {
    Seq::new(64, |k: int| image[(4 * by + k / 16) * (4 * width) + 16 * bx + k % 16])
}

/// The pixel bytes of `count` neighbouring blocks of one block row,
/// starting at block column `bx`: 64 bytes per block, left to right.
pub open spec fn spec_batch_pixels(
    image: Seq<u8>,
    width: nat,
    bx: nat,
    by: nat,
    count: nat,
) -> Seq<u8> {
    Seq::new(
        64 * count,
        |k: int| spec_block_pixels(image, width, (bx + k / 64) as nat, by)[k % 64],
    )
}

/// One run of blocks for the encoder: the pixels of `num_blocks` blocks,
/// 64 bytes each.
pub struct Bc7Batch {
    pub num_blocks: u32,
    pub pixels: Vec<u8>,
}

/// How far the encoding of a surface has come.
pub struct Bc7Progress {
    /// Width of the surface in pixels.
    pub width: nat,
    /// Height of the surface in pixels.
    pub height: nat,
    /// Blocks per block row.
    pub blocks_x: nat,
    /// Number of block rows.
    pub blocks_y: nat,
    /// Block column at which the next batch starts.
    pub next_x: nat,
    /// Block row of the next batch.
    pub next_y: nat,
    /// The encoded blocks so far, 16 bytes each, in row-major order.
    pub packed: Seq<u8>,
}

impl Bc7Progress {
    /// The progress before the first batch on a surface of `width` x
    /// `height` pixels. Only whole blocks count: `width / 4` per block
    /// row and `height / 4` block rows, and no block row at all where a
    /// row would hold no block.
    pub open spec fn start(width: nat, height: nat) -> Bc7Progress {
        Bc7Progress {
            width,
            height,
            blocks_x: width / 4,
            blocks_y: if width / 4 == 0 {
                0
            } else {
                height / 4
            },
            next_x: 0,
            next_y: 0,
            packed: Seq::empty(),
        }
    }

    /// Batches start at multiples of 64 inside a block row, rows come one
    /// after the other, and the encoded bytes of the blocks before the
    /// next batch are all there: the next batch lands at byte offset
    /// `(next_x + next_y * blocks_x) * 16`.
    pub open spec fn wf(self) -> bool {
        &&& self.width <= u32::MAX
        &&& self.height <= u32::MAX
        &&& self.blocks_x == self.width / 4
        &&& self.blocks_y == Self::start(self.width, self.height).blocks_y
        &&& self.next_y <= self.blocks_y
        &&& self.next_x % 64 == 0
        &&& self.next_x <= self.blocks_x
        &&& self.next_y < self.blocks_y ==> self.next_x < self.blocks_x
        &&& self.next_y == self.blocks_y ==> self.next_x == 0
        &&& self.packed.len() == (self.next_x + self.next_y * self.blocks_x) * 16
    }

    /// Every block has been encoded.
    pub open spec fn finished(self) -> bool {
        self.next_y >= self.blocks_y
    }

    /// Number of blocks in the next batch: up to 64, and no further than
    /// the end of the block row.
    pub open spec fn next_count(self) -> nat {
        if self.finished() {
            0
        } else if self.blocks_x - self.next_x < 64 {
            (self.blocks_x - self.next_x) as nat
        } else {
            64
        }
    }

    /// The progress after the next batch came back as `blocks`.
    pub open spec fn stored(self, blocks: Seq<u8>) -> Bc7Progress {
        if self.next_x + self.next_count() < self.blocks_x {
            Bc7Progress {
                next_x: self.next_x + self.next_count(),
                packed: self.packed + blocks,
                ..self
            }
        } else {
            Bc7Progress {
                next_x: 0,
                next_y: self.next_y + 1,
                packed: self.packed + blocks,
                ..self
            }
        }
    }

    /// What is taken from the encoder: 16 bytes for each block of the
    /// batch that is due.
    pub open spec fn takes(self, blocks: Seq<u8>) -> bool {
        !self.finished() && blocks.len() == 16 * self.next_count()
    }
}

/// Walks a padded surface in batches of blocks for the BC7 encoder and
/// collects what the encoder returns.
///
/// The encoder is not part of this library. Whoever drives the batcher
/// asks for the next batch, has it encoded, and stores the result, until
/// the batcher is finished.
pub struct Bc7Batcher {
    width: u32,
    height: u32,
    blocks_x: usize,
    blocks_y: usize,
    next_x: usize,
    next_y: usize,
    packed: Vec<u8>,
}

impl View for Bc7Batcher {
    type V = Bc7Progress;

    closed spec fn view(&self) -> Bc7Progress {
        Bc7Progress {
            width: self.width as nat,
            height: self.height as nat,
            blocks_x: self.blocks_x as nat,
            blocks_y: self.blocks_y as nat,
            next_x: self.next_x as nat,
            next_y: self.next_y as nat,
            packed: self.packed@,
        }
    }
}

proof fn lemma_row_inside(row: int, rows: int, stride: int, col: int)
    requires
        0 <= row < rows,
        0 <= col,
        col + 16 <= stride,
    ensures
        0 <= row * stride,
        row * stride + col + 16 <= stride * rows,
{
    assert(0 <= row * stride && row * stride + stride <= stride * rows) by (nonlinear_arith)
        requires
            0 <= row < rows,
            0 <= stride,
    ;
}

proof fn lemma_offset_step(next_x: int, next_y: int, blocks_x: int, count: int)
    requires
        0 <= next_x,
        0 <= next_y,
        0 < count,
        next_x + count <= blocks_x,
    ensures
        (next_x + next_y * blocks_x) * 16 + 16 * count == (next_x + count + next_y * blocks_x) * 16,
        next_x + count == blocks_x ==> (next_x + count + next_y * blocks_x) * 16 == (0 + (next_y
            + 1) * blocks_x) * 16,
{
    assert((next_y + 1) * blocks_x == next_y * blocks_x + blocks_x) by (nonlinear_arith);
}

proof fn lemma_surface_rows(width: int, height: int, blocks_y: int)
    requires
        1 <= width,
        1 <= blocks_y,
        4 * blocks_y <= height,
    ensures
        4 * width <= 4 * (width * height),
        4 * blocks_y <= 4 * (width * height),
        (4 * width) * (4 * blocks_y) <= 4 * (width * height),
        4 * width * height == 4 * (width * height),
{
    assert(4 * width <= 4 * (width * height) && 4 * blocks_y <= 4 * (width * height) && (4
        * width) * (4 * blocks_y) <= 4 * (width * height) && 4 * width * height == 4 * (width
        * height)) by (nonlinear_arith)
        requires
            1 <= width,
            1 <= blocks_y,
            4 * blocks_y <= height,
    ;
}

impl Bc7Batcher {
    #[verifier::type_invariant]
    spec fn inv(&self) -> bool {
        self@.wf()
    }

    /// Starts on a surface of `width` x `height` pixels.
    pub fn new(width: u32, height: u32) -> (batcher: Self)
        ensures
            batcher@ == Bc7Progress::start(width as nat, height as nat),
            batcher@.wf(),
    {
        let blocks_x: usize = (width / 4) as usize;
        let blocks_y: usize = if blocks_x == 0 {
            0
        } else {
            (height / 4) as usize
        };
        proof {
            assert((0 + 0 * (blocks_x as nat)) * 16 == 0) by (nonlinear_arith);
        }
        Bc7Batcher { width, height, blocks_x, blocks_y, next_x: 0, next_y: 0, packed: Vec::new() }
    }

    /// Tells whether every block has been encoded.
    pub fn is_finished(&self) -> (finished: bool)
        ensures
            finished == self@.finished(),
            self@.wf(),
    {
        proof {
            use_type_invariant(self);
        }
        self.next_y >= self.blocks_y
    }

    /// Tells whether `image` is a buffer for the surface that the batcher
    /// was started on: four bytes for each of its pixels.
    pub fn fits(&self, image: &[u8]) -> (fitting: bool)
        ensures
            fitting == (image@.len() == 4 * self@.width * self@.height),
            self@.wf(),
    {
        proof {
            use_type_invariant(self);
            assert(self.width * self.height <= 0xFFFF_FFFF * 0xFFFF_FFFF) by (nonlinear_arith)
                requires
                    self.width <= 0xFFFF_FFFF,
                    self.height <= 0xFFFF_FFFF,
            ;
            assert(4 * self@.width * self@.height == 4 * (self.width * self.height))
                by (nonlinear_arith);
        }
        let total: usize = image.len();
        let pixels: u64 = (self.width as u64) * (self.height as u64);
        total % 4 == 0 && (total / 4) as u64 == pixels
    }

    /// The next batch to encode from `image`, the surface that the batcher
    /// was started on: `None` when the batcher is finished, otherwise the
    /// pixels of the next run of blocks of the current block row. A buffer
    /// that is not that surface is a `DecodeError`.
    pub fn next_batch(&self, image: &[u8]) -> (outcome: Result<Option<Bc7Batch>, ConvertError>)
        ensures
            self@.wf(),
            match outcome {
                Err(error) => error == ConvertError::DecodeError && image@.len() != 4
                    * self@.width * self@.height,
                Ok(None) => image@.len() == 4 * self@.width * self@.height && self@.finished(),
                Ok(Some(batch)) => {
                    &&& image@.len() == 4 * self@.width * self@.height
                    &&& !self@.finished()
                    &&& batch.num_blocks == self@.next_count()
                    &&& batch.pixels@ == spec_batch_pixels(
                        image@,
                        self@.width,
                        self@.next_x,
                        self@.next_y,
                        self@.next_count(),
                    )
                },
            },
    {
        if !self.fits(image) {
            return Err(ConvertError::DecodeError);
        }
        if self.next_y >= self.blocks_y {
            return Ok(None);
        }
        let total: usize = image.len();
        let count: usize = if self.blocks_x - self.next_x < BATCH_BLOCKS {
            self.blocks_x - self.next_x
        } else {
            BATCH_BLOCKS
        };
        proof {
            lemma_surface_rows(self.width as int, self.height as int, self.blocks_y as int);
        }
        let stride: usize = 4 * (self.width as usize);
        let ghost goal = spec_batch_pixels(
            image@,
            self.width as nat,
            self.next_x as nat,
            self.next_y as nat,
            count as nat,
        );
        let mut pixels: Vec<u8> = Vec::new();
        let mut b: usize = 0;
        while b < count
            invariant
                b <= count,
                self@.wf(),
                self.next_y < self.blocks_y,
                self.next_x + count <= self.blocks_x,
                count <= 64,
                stride == 4 * self.width,
                total == image@.len(),
                total >= stride * (4 * self.blocks_y),
                total >= 4 * self.blocks_y,
                goal == spec_batch_pixels(
                    image@,
                    self.width as nat,
                    self.next_x as nat,
                    self.next_y as nat,
                    count as nat,
                ),
                pixels@.len() == 64 * b,
                forall|k: int| 0 <= k < pixels@.len() ==> pixels@[k] == goal[k],
            decreases count - b,
        {
            let mut y: usize = 0;
            while y < 4
                invariant
                    y <= 4,
                    b < count,
                    self@.wf(),
                    self.next_y < self.blocks_y,
                    self.next_x + count <= self.blocks_x,
                    count <= 64,
                    stride == 4 * self.width,
                    total == image@.len(),
                    total >= stride * (4 * self.blocks_y),
                    total >= 4 * self.blocks_y,
                    goal == spec_batch_pixels(
                        image@,
                        self.width as nat,
                        self.next_x as nat,
                        self.next_y as nat,
                        count as nat,
                    ),
                    pixels@.len() == 64 * b + 16 * y,
                    forall|k: int| 0 <= k < pixels@.len() ==> pixels@[k] == goal[k],
                decreases 4 - y,
            {
                let row: usize = 4 * self.next_y + y;
                let col: usize = 16 * (self.next_x + b);
                proof {
                    lemma_row_inside(row as int, 4 * self.blocks_y as int, stride as int, col as int);
                }
                let start: usize = row * stride + col;
                let ghost before = pixels@;
                pixels.extend_from_slice(&image[start..start + 16]);
                proof {
                    assert forall|k: int| 0 <= k < pixels@.len() implies pixels@[k] == goal[k] by {
                        if k >= before.len() {
                            let j = k - before.len();
                            assert(pixels@[k] == image@.subrange(start as int, start + 16)[j]);
                            assert(k / 64 == b && k % 64 == 16 * y + j);
                            assert((k % 64) / 16 == y && (k % 64) % 16 == j);
                        }
                    }
                }
                y = y + 1;
            }
            b = b + 1;
        }
        proof {
            assert(pixels@ =~= goal);
        }
        Ok(Some(Bc7Batch { num_blocks: count as u32, pixels }))
    }

    /// Takes the encoder's output for the batch that is due: `blocks` must
    /// hold 16 bytes for each block of the batch. They are placed behind
    /// the blocks encoded before, and the batcher moves on. Anything else
    /// is a `CodecFailure` and changes nothing.
    pub fn store(&mut self, blocks: &[u8]) -> (outcome: Result<(), ConvertError>)
        ensures
            old(self)@.wf(),
            final(self)@.wf(),
            old(self)@.takes(blocks@) ==> outcome is Ok && final(self)@ == old(self)@.stored(
                blocks@,
            ),
            !old(self)@.takes(blocks@) ==> outcome == Err::<(), ConvertError>(
                ConvertError::CodecFailure,
            ) && final(self)@ == old(self)@,
    {
        proof {
            use_type_invariant(&*self);
        }
        if self.next_y >= self.blocks_y {
            return Err(ConvertError::CodecFailure);
        }
        let count: usize = if self.blocks_x - self.next_x < BATCH_BLOCKS {
            self.blocks_x - self.next_x
        } else {
            BATCH_BLOCKS
        };
        if blocks.len() != 16 * count {
            return Err(ConvertError::CodecFailure);
        }
        let mut taken = Bc7Batcher::new(0, 0);
        core::mem::swap(self, &mut taken);
        let Bc7Batcher { width, height, blocks_x, blocks_y, next_x, next_y, packed } = taken;
        let mut packed = packed;
        let ghost before = packed@;
        proof {
            lemma_offset_step(next_x as int, next_y as int, blocks_x as int, count as int);
        }
        packed.extend_from_slice(blocks);
        assert(packed@ =~= before + blocks@);
        if next_x + count < blocks_x {
            *self = Bc7Batcher {
                width,
                height,
                blocks_x,
                blocks_y,
                next_x: next_x + count,
                next_y,
                packed,
            };
        } else {
            *self = Bc7Batcher {
                width,
                height,
                blocks_x,
                blocks_y,
                next_x: 0,
                next_y: next_y + 1,
                packed,
            };
        }
        Ok(())
    }

    /// Hands out the encoded blocks collected so far: 16 bytes per block,
    /// in row-major order.
    pub fn into_blocks(self) -> (packed: Vec<u8>)
        ensures
            self@.wf(),
            packed@ == self@.packed,
            self@.finished() ==> packed@.len() == 16 * (self@.blocks_x * self@.blocks_y),
    {
        proof {
            use_type_invariant(&self);
            assert((0 + self.blocks_y * self.blocks_x) * 16 == 16 * (self.blocks_x * self.blocks_y))
                by (nonlinear_arith);
        }
        self.packed
    }
}

} // verus!
