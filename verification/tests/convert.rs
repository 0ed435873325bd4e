use bimage::bim::TextureFormat;
use bimage::container::MipLevel;
use bimage::convert::{plan_header, plannable_check, LevelTask, Plan};
use bimage::error::ConvertError;
use bimage::text::stripped_file_name;

/// A picture with some structure in every channel.
fn picture(width: u32, height: u32) -> Vec<u8> {
    let mut pixels = Vec::with_capacity(4 * (width * height) as usize);
    for y in 0..height {
        for x in 0..width {
            pixels.push((x * 255 / width.max(1)) as u8);
            pixels.push((y * 255 / height.max(1)) as u8);
            pixels.push(((x ^ y) & 0xFF) as u8);
            pixels.push(if (x / 8 + y / 8) % 2 == 0 { 255 } else { 200 });
        }
    }
    pixels
}

/// Stands in for the BC7 encoder: 16 bytes per block, made of the block's
/// first pixel.
fn stand_in_encoder(num_blocks: u32, pixels: &[u8]) -> Vec<u8> {
    let mut blocks = Vec::new();
    for block in 0..num_blocks as usize {
        blocks.extend_from_slice(&pixels[64 * block..64 * block + 4].repeat(4));
    }
    blocks
}

fn run_level(mut task: LevelTask) -> Result<MipLevel, ConvertError> {
    while let Some(batch) = task.next_batch() {
        task.store(&stand_in_encoder(batch.num_blocks, &batch.pixels))?;
    }
    task.finish()
}

/// Converts in the order of `order`, which lists every level once.
fn convert_in_order(
    pixels: Vec<u8>,
    width: u32,
    height: u32,
    file_name: &str,
    format: TextureFormat,
    order: &[u32],
) -> Result<Vec<u8>, ConvertError> {
    let stripped = stripped_file_name(file_name);
    let plan = Plan::new(pixels, width, height, file_name, &stripped, format)?;
    assert_eq!(plan.mip_count() as usize, order.len());
    let mut arrivals = Vec::new();
    for level in order {
        arrivals.push(run_level(plan.start_level(*level)?)?);
    }
    plan.assemble(arrivals)
}

fn convert_to_bimage(
    pixels: Vec<u8>,
    width: u32,
    height: u32,
    file_name: &str,
    format: TextureFormat,
) -> Result<Vec<u8>, ConvertError> {
    let levels: Vec<u32> = (0..bimage::mipmap::mip_count(width, height)).collect();
    convert_in_order(pixels, width, height, file_name, format, &levels)
}

fn helper_convert_to_bimage(
    file_path: &str,
    extent: u32,
    format: TextureFormat,
    expected_bim_bytes: [u8; 63],
) {
    let file_name = file_path.rsplit('/').next().unwrap();
    let bim_bytes = match convert_to_bimage(picture(extent, extent), extent, extent, file_name, format) {
        Ok(vec) => vec,
        Err(_) => panic!("Failed to convert to bimage"),
    };
    assert_eq!(bim_bytes[0..63], expected_bim_bytes);
}

#[test]
fn test_convert_to_bimage_1() {
    let file_path = "./test/symbols_arrow_03a_local.tga$bc7$streamed$mtlkind=decalnormal.png";
    let format = TextureFormat::FmtBc7;
    let bim_bytes: [u8; 63] = [
        66, 73, 77, 21, 0, 0, 0, 0, 11, 0, 0, 0, 128, 0, 0, 0, 128, 0, 0, 0, 0, 0, 0, 0, 8, 0, 0, 0, 0, 0, 0,
        0, 0, 0, 0, 0, 0, 0, 128, 63, 0, 23, 0, 0, 0, 7, 0, 0, 0, 0, 0, 0, 0, 0, 0, 0, 0, 0, 0, 0, 0, 0, 0,
    ];

    helper_convert_to_bimage(file_path, 128, format, bim_bytes);
}

#[test]
fn test_convert_to_bimage_2() {
    let file_path = "./test/glass_textured_orange_n.tga$bc5$streamed.png";
    let format = TextureFormat::FmtBc5;
    let bim_bytes: [u8; 63] = [
        66, 73, 77, 21, 0, 0, 0, 0, 3, 0, 0, 0, 128, 0, 0, 0, 128, 0, 0, 0, 0, 0, 0, 0, 8, 0, 0, 0, 0, 0, 0,
        0, 0, 0, 0, 0, 0, 0, 128, 63, 0, 25, 0, 0, 0, 7, 0, 0, 0, 0, 0, 0, 0, 0, 0, 0, 0, 0, 0, 0, 0, 0, 0,
    ];

    helper_convert_to_bimage(file_path, 128, format, bim_bytes);
}

#[test]
fn test_convert_to_bimage_3() {
    let file_path = "./test/asphalt_g.tga$bc4$streamed$mtlkind=heightmap.png";
    let format = TextureFormat::FmtBc4;
    let bim_bytes: [u8; 63] = [
        66, 73, 77, 21, 0, 0, 0, 0, 9, 0, 0, 0, 0, 8, 0, 0, 0, 8, 0, 0, 0, 0, 0, 0, 12, 0, 0, 0, 0, 0, 0, 0,
        0, 0, 0, 0, 0, 0, 128, 63, 0, 24, 0, 0, 0, 7, 0, 0, 0, 0, 0, 0, 0, 0, 0, 0, 0, 0, 0, 0, 0, 0, 0,
    ];

    helper_convert_to_bimage(file_path, 2048, format, bim_bytes);
}

#[test]
fn test_convert_to_bimage_4() {
    let file_path = "./test/hud_demon_icon_ability_quantumorb.tga$bc3$streamed.png";
    let format = TextureFormat::FmtBc3;
    let bim_bytes: [u8; 63] = [
        66, 73, 77, 21, 0, 0, 0, 0, 0, 0, 0, 0, 0, 1, 0, 0, 0, 1, 0, 0, 0, 0, 0, 0, 9, 0, 0, 0, 0, 0, 0, 0,
        0, 0, 0, 0, 0, 0, 128, 63, 0, 11, 0, 0, 0, 7, 0, 0, 0, 0, 0, 0, 0, 0, 0, 0, 0, 0, 0, 0, 0, 0, 0,
    ];

    helper_convert_to_bimage(file_path, 256, format, bim_bytes);
}

#[test]
fn test_convert_to_bimage_5() {
    let file_path = "./test/test.png";
    let format = TextureFormat::FmtBc1Srgb;
    let bim_bytes: [u8; 63] = [
        66, 73, 77, 21, 0, 0, 0, 0, 1, 0, 0, 0, 0, 8, 0, 0, 0, 8, 0, 0, 0, 0, 0, 0, 12, 0, 0, 0, 0, 0, 0, 0,
        0, 0, 0, 0, 0, 0, 128, 63, 0, 33, 0, 0, 0, 7, 0, 0, 0, 0, 0, 0, 0, 0, 0, 0, 0, 0, 0, 0, 0, 0, 0,
    ];

    helper_convert_to_bimage(file_path, 2048, format, bim_bytes);
}

fn field(bytes: &[u8], at: usize) -> u32 {
    u32::from_le_bytes(bytes[at..at + 4].try_into().unwrap())
}

#[test]
fn bc7_container_of_a_128_pixel_square() {
    let name = "symbols_arrow_03a_local.tga$bc7$streamed$mtlkind=decalnormal.png";
    let container = convert_to_bimage(picture(128, 128), 128, 128, name, TextureFormat::FmtBc7).unwrap();
    // Padded extents and sizes of the eight levels: 16 bytes per block.
    let extents = [128u32, 64, 32, 16, 8, 4, 4, 4];
    let total: u32 = extents.iter().map(|e| e * e).sum();
    assert_eq!(container.len(), 63 + 8 * 36 + total as usize);
    let mut offset = 0;
    for (i, extent) in extents.iter().enumerate() {
        let record = &container[63 + 36 * i..63 + 36 * (i + 1)];
        assert_eq!(record[0..8], (i as i64).to_le_bytes());
        assert_eq!(field(record, 8), *extent);
        assert_eq!(field(record, 12), *extent);
        assert_eq!(field(record, 16), 1);
        assert_eq!(field(record, 20), extent * extent);
        assert_eq!(field(record, 24), 0);
        assert_eq!(field(record, 28), extent * extent);
        assert_eq!(field(record, 32), offset);
        offset += extent * extent;
    }
    assert_eq!(container[container.len() - 4..], [0, 0, 0, 0]);
}

#[test]
fn bc5_container_ends_in_the_pattern() {
    let name = "glass_textured_orange_n.tga$bc5$streamed.png";
    let container = convert_to_bimage(picture(16, 16), 16, 16, name, TextureFormat::FmtBc5).unwrap();
    assert_eq!(container.len(), 63 + 5 * 36 + 256 + 64 + 16 + 16 + 16);
    assert_eq!(
        container[container.len() - 16..],
        [0x87, 0x86, 0x49, 0x92, 0x24, 0x49, 0x92, 0x24, 0x86, 0x85, 0x49, 0x92, 0x24, 0x49, 0x92, 0x2]
    );
}

#[test]
fn alpha_container_of_an_odd_image() {
    // 5x3: levels 5x3, 2x1, 1x1, padded to 8x4, 4x4, 4x4.
    let mut pixels = picture(5, 3);
    for pixel in pixels.chunks_mut(4) {
        pixel[3] = 255;
    }
    let container = convert_to_bimage(pixels, 5, 3, "mask$alpha.png", TextureFormat::FmtAlpha).unwrap();
    assert_eq!(field(&container, 12), 5);
    assert_eq!(field(&container, 16), 3);
    assert_eq!(field(&container, 24), 3);
    assert_eq!(field(&container, 41), 5);
    assert_eq!(container.len(), 63 + 3 * 36 + 32 + 16 + 16);
    let sizes = [(8u32, 4u32, 32u32, 0u32), (4, 4, 16, 32), (4, 4, 16, 48)];
    for (i, (w, h, size, offset)) in sizes.iter().enumerate() {
        let record = &container[63 + 36 * i..63 + 36 * (i + 1)];
        assert_eq!(field(record, 8), *w);
        assert_eq!(field(record, 12), *h);
        assert_eq!(field(record, 28), *size);
        assert_eq!(field(record, 32), *offset);
    }
    let payload = &container[63 + 3 * 36..];
    assert_eq!(payload[..60], [255u8; 60]);
    assert_eq!(payload[60..], [0, 0, 0, 0]);
}

#[test]
fn conversion_is_the_same_in_every_order_of_the_levels() {
    let name = "rock_n.png";
    let format = TextureFormat::FmtBc5;
    let expected = convert_to_bimage(picture(24, 10), 24, 10, name, format).unwrap();
    for order in [[4u32, 3, 2, 1, 0], [2, 0, 4, 1, 3], [1, 2, 3, 4, 0], [0, 2, 1, 4, 3]] {
        let container = convert_in_order(picture(24, 10), 24, 10, name, format, &order).unwrap();
        assert_eq!(container, expected);
    }
    let again = convert_to_bimage(picture(24, 10), 24, 10, name, format).unwrap();
    assert_eq!(again, expected);
}

#[test]
fn bc7_levels_are_encoded_batch_by_batch() {
    // 520 pixels wide: 130 blocks per row, batches of 64, 64 and 2.
    let plan =
        Plan::new(picture(520, 4), 520, 4, "wide$bc7.png", "wide", TextureFormat::FmtBc7).unwrap();
    let mut task = plan.start_level(0).unwrap();
    assert_eq!((task.level(), task.width(), task.height()), (0, 520, 4));
    assert!(!task.is_finished());
    let mut counts = Vec::new();
    while let Some(batch) = task.next_batch() {
        counts.push(batch.num_blocks);
        assert_eq!(batch.pixels.len(), 64 * batch.num_blocks as usize);
        task.store(&vec![counts.len() as u8; 16 * batch.num_blocks as usize]).unwrap();
    }
    assert_eq!(counts, [64, 64, 2]);
    let level = task.finish().unwrap();
    assert_eq!(level.payload.len(), 130 * 16);
    assert_eq!(level.payload[0], 1);
    assert_eq!(level.payload[64 * 16], 2);
    assert_eq!(level.payload[128 * 16], 3);
    assert_eq!(level.record.compressed_size, 130 * 16);
    assert_eq!(level.record.mip_pixel_width, 520);
}

#[test]
fn a_bc7_level_with_blocks_left_cannot_be_finished() {
    let plan = Plan::new(picture(8, 8), 8, 8, "a$bc7.png", "a", TextureFormat::FmtBc7).unwrap();
    let task = plan.start_level(0).unwrap();
    assert_eq!(task.finish().map(|level| level.payload.len()), Err(ConvertError::CodecFailure));
    let mut task = plan.start_level(0).unwrap();
    assert_eq!(task.store(&[0u8; 5]), Err(ConvertError::CodecFailure));
    let batch = task.next_batch().unwrap();
    assert_eq!(batch.num_blocks, 2);
    // A level of a format with a codec of its own has nothing to store.
    let plan = Plan::new(picture(8, 8), 8, 8, "a$bc4.png", "a", TextureFormat::FmtBc4).unwrap();
    let mut task = plan.start_level(0).unwrap();
    assert!(task.next_batch().is_none());
    assert_eq!(task.store(&[0u8; 32]), Err(ConvertError::CodecFailure));
    assert_eq!(task.finish().map(|level| level.payload.len()), Ok(32));
}

#[test]
fn an_unsupported_format_is_reported_before_the_image_is_looked_at() {
    for format in [TextureFormat::FmtRgba8, TextureFormat::FmtBc1, TextureFormat::FmtNone] {
        let planned = Plan::new(Vec::new(), 0, 0, "a.png", "a", format).map(|plan| plan.width());
        assert_eq!(planned, Err(ConvertError::UnsupportedFormat));
        let planned = Plan::new(picture(4, 4), 4, 4, "a.png", "a", format).map(|plan| plan.width());
        assert_eq!(planned, Err(ConvertError::UnsupportedFormat));
    }
}

#[test]
fn pixels_that_do_not_make_an_image_are_a_decode_error() {
    let format = TextureFormat::FmtBc1Srgb;
    let plan = |pixels: Vec<u8>, w: u32, h: u32| {
        Plan::new(pixels, w, h, "a.png", "a", format).map(|plan| plan.width())
    };
    assert_eq!(plan(Vec::new(), 0, 0), Err(ConvertError::DecodeError));
    assert_eq!(plan(vec![0; 16], 0, 4), Err(ConvertError::DecodeError));
    assert_eq!(plan(vec![0; 16], 2, 3), Err(ConvertError::DecodeError));
    assert_eq!(plan(vec![0; 17], 2, 2), Err(ConvertError::DecodeError));
    assert_eq!(plan(vec![0; 16], 40000, 40000), Err(ConvertError::DecodeError));
    assert_eq!(plan(vec![0; 16], 2, 2), Ok(2));
    assert!(plannable_check(&[0; 16], 2, 2));
    assert!(plannable_check(&[0; 12], 1, 3));
    assert!(!plannable_check(&[0; 12], 3, 2));
    assert!(!plannable_check(&[0; 12], u32::MAX, 1));
}

#[test]
fn arrivals_that_are_not_one_per_level_cannot_be_assembled() {
    let plan = Plan::new(picture(8, 8), 8, 8, "a$bc4.png", "a", TextureFormat::FmtBc4).unwrap();
    assert_eq!(plan.mip_count(), 4);
    let level = |i: u32| run_level(plan.start_level(i).unwrap()).unwrap();
    assert_eq!(plan.assemble(vec![level(0), level(1), level(2)]), Err(ConvertError::CodecFailure));
    assert_eq!(
        plan.assemble(vec![level(0), level(1), level(2), level(2)]),
        Err(ConvertError::CodecFailure)
    );
    assert_eq!(
        plan.assemble(vec![level(0), level(1), level(2), level(4)]),
        Err(ConvertError::CodecFailure)
    );
    assert!(plan.assemble(vec![level(3), level(1), level(2), level(0)]).is_ok());
}

#[test]
fn a_plan_shows_what_it_was_made_of() {
    let plan = Plan::new(picture(24, 10), 24, 10, "rock_n.png", "rock_n", TextureFormat::FmtBc5).unwrap();
    assert_eq!(plan.width(), 24);
    assert_eq!(plan.height(), 10);
    assert_eq!(plan.format(), TextureFormat::FmtBc5);
    assert_eq!(plan.mip_count(), 5);
    assert_eq!(plan.header(), plan_header(24, 10, "rock_n.png", "rock_n", TextureFormat::FmtBc5));
    assert_eq!(plan.header().texture_material_kind, 3);
    let extents = [(24u32, 12u32), (12, 8), (8, 4), (4, 4), (4, 4), (4, 4)];
    for (level, (w, h)) in extents.iter().enumerate() {
        let (surface, width, height) = plan.level_surface(level as u32).unwrap();
        assert_eq!((width, height), (*w, *h));
        assert_eq!(surface.len(), 4 * (w * h) as usize);
        let task = plan.start_level(level as u32).unwrap();
        assert_eq!((task.level(), task.width(), task.height()), (level as u32, *w, *h));
        assert!(task.is_finished());
    }
}

#[test]
fn planned_header() {
    let header = plan_header(300, 20, "wall_s.tga$bc3.png", "wall_s", TextureFormat::FmtBc3);
    assert_eq!(header.pixel_width, 300);
    assert_eq!(header.pixel_height, 20);
    assert_eq!(header.mip_count, 9);
    assert_eq!(header.texture_format, 11);
    assert_eq!(header.texture_material_kind, 2);
    assert_eq!(header.signature, *b"BIM");
    assert_eq!(header.version, 21);
    assert_eq!(header.always_7, 7);
    assert_eq!(header.depth, 0);
    assert_eq!(header.streamdb_mip_count, 0);
}

#[test]
fn an_arrival_whose_record_misstates_its_payload_cannot_be_assembled() {
    let plan = Plan::new(picture(8, 8), 8, 8, "a$bc4.png", "a", TextureFormat::FmtBc4).unwrap();
    let level = |i: u32| run_level(plan.start_level(i).unwrap()).unwrap();
    let mut wrong = level(1);
    wrong.record.compressed_size = 100;
    assert_eq!(
        plan.assemble(vec![level(0), wrong, level(2), level(3)]),
        Err(ConvertError::CodecFailure)
    );
    let mut short = level(3);
    short.payload.pop();
    assert_eq!(
        plan.assemble(vec![level(0), level(1), level(2), short]),
        Err(ConvertError::CodecFailure)
    );
    assert!(plan.assemble(vec![level(0), level(1), level(2), level(3)]).is_ok());
}

#[test]
fn a_started_level_has_a_payload_of_its_codecs_size() {
    for (name, format, bytes_per_block) in [
        ("a.png", TextureFormat::FmtBc1Srgb, 8usize),
        ("a$bc3.png", TextureFormat::FmtBc3, 16),
        ("a$bc4.png", TextureFormat::FmtBc4, 8),
        ("a$bc5.png", TextureFormat::FmtBc5, 16),
    ] {
        let plan = Plan::new(picture(20, 6), 20, 6, name, "a", format).unwrap();
        for (level, (w, h)) in [(20usize, 8usize), (12, 4), (8, 4), (4, 4), (4, 4)].iter().enumerate() {
            let made = run_level(plan.start_level(level as u32).unwrap()).unwrap();
            assert_eq!(made.payload.len(), (w / 4) * (h / 4) * bytes_per_block);
            assert_eq!(made.record.compressed_size as usize, made.payload.len());
            assert!(made.record.compressed_size > 0);
        }
    }
    let plan = Plan::new(picture(20, 6), 20, 6, "a$alpha.png", "a", TextureFormat::FmtAlpha).unwrap();
    let made = run_level(plan.start_level(1).unwrap()).unwrap();
    assert_eq!(made.payload.len(), 12 * 4);
}
