//! Assembly of a container: the header, one record per mip level, then the
//! payloads of all levels, level 0 first.

use crate::bim::{BIMHeader, BIMMipMap, TextureFormat};
use crate::error::ConvertError;
use vstd::prelude::*;

verus! {

/// One finished mip level: its record and its compressed payload.
pub struct MipLevel {
    pub record: BIMMipMap,
    pub payload: Vec<u8>,
}

/// A mip level as a value: its record and the bytes of its payload.
pub struct LevelModel {
    pub record: BIMMipMap,
    pub payload: Seq<u8>,
}

impl View for MipLevel {
    type V = LevelModel;

    open spec fn view(&self) -> LevelModel {
        LevelModel { record: self.record, payload: self.payload@ }
    }
}

/// The levels of a vector as values.
pub open spec fn level_models(levels: Seq<MipLevel>) -> Seq<LevelModel> {
    Seq::new(levels.len(), |i: int| levels[i]@)
}

impl LevelModel {
    /// The record of a level that was not compressed further: both sizes
    /// are the payload's length, the unknown flag is set, and the offset
    /// is still to be filled in.
    pub open spec fn fresh(level: nat, width: nat, height: nat, payload: Seq<u8>) -> LevelModel {
        LevelModel {
            record: BIMMipMap {
                mip_level: level as i64,
                mip_pixel_width: width as u32,
                mip_pixel_height: height as u32,
                unknown_flag: 1,
                decompressed_size: payload.len() as u32,
                flag_is_compressed: 0,
                compressed_size: payload.len() as u32,
                cumulative_size_streamdb: 0,
            },
            payload,
        }
    }

    /// The record's size is the payload's length.
    pub open spec fn sized(self) -> bool {
        self.record.compressed_size == self.payload.len()
    }
}

impl MipLevel {
    /// Makes the level for a payload: the record names the level, its
    /// padded extents and the payload's length; the offset is filled in
    /// when the container is assembled.
    pub fn new(level: u32, width: u32, height: u32, payload: Vec<u8>) -> (made: MipLevel)
        requires
            payload@.len() <= u32::MAX,
        ensures
            made@ == LevelModel::fresh(level as nat, width as nat, height as nat, payload@),
            made@.sized(),
    {
        let size: u32 = payload.len() as u32;
        MipLevel {
            record: BIMMipMap {
                mip_level: level as i64,
                mip_pixel_width: width,
                mip_pixel_height: height,
                unknown_flag: 1,
                decompressed_size: size,
                flag_is_compressed: 0,
                compressed_size: size,
                cumulative_size_streamdb: 0,
            },
            payload,
        }
    }
}

/// Offset of level `i` in the payload: the compressed sizes of the levels
/// before it, added up.
pub open spec fn spec_offset(levels: Seq<LevelModel>, i: int) -> nat
    decreases i,
{
    if i <= 0 {
        0
    } else {
        spec_offset(levels, i - 1) + levels[i - 1].record.compressed_size as nat
    }
}

/// The record of level `i` as it is written: with its offset filled in.
pub open spec fn spec_record(levels: Seq<LevelModel>, i: int) -> BIMMipMap {
    BIMMipMap { cumulative_size_streamdb: spec_offset(levels, i) as u32, ..levels[i].record }
}

/// The serialised records of the first `n` levels.
pub open spec fn spec_records(levels: Seq<LevelModel>, n: int) -> Seq<u8>
    decreases n,
{
    if n <= 0 {
        Seq::empty()
    } else {
        spec_records(levels, n - 1) + spec_record(levels, n - 1).spec_to_bytes()
    }
}

/// The payloads of the first `n` levels, one after the other.
pub open spec fn spec_payload(levels: Seq<LevelModel>, n: int) -> Seq<u8>
    decreases n,
{
    if n <= 0 {
        Seq::empty()
    } else {
        spec_payload(levels, n - 1) + levels[n - 1].payload
    }
}

/// Every record gives the length of its payload.
pub open spec fn all_sized(levels: Seq<LevelModel>) -> bool {
    forall|k: int| 0 <= k < levels.len() ==> (#[trigger] levels[k]).sized()
}

/// The fixed bytes that overwrite the end of the payload: a 16-byte
/// pattern for BC5, four zero bytes for every other format.
pub open spec fn spec_sentinel(format: TextureFormat) -> Seq<u8> {
    if format == TextureFormat::FmtBc5 {
        seq![
            0x87u8, 0x86u8, 0x49u8, 0x92u8, 0x24u8, 0x49u8, 0x92u8, 0x24u8,
            0x86u8, 0x85u8, 0x49u8, 0x92u8, 0x24u8, 0x49u8, 0x92u8, 0x02u8,
        ]
    } else {
        seq![0u8, 0u8, 0u8, 0u8]
    }
}

/// `payload` with its last bytes overwritten by `sentinel`.
pub open spec fn spec_patch_tail(payload: Seq<u8>, sentinel: Seq<u8>) -> Seq<u8> {
    payload.subrange(0, payload.len() - sentinel.len()) + sentinel
}

/// The levels that make a container: their sizes add up to an offset that
/// a record can hold, and the payload is long enough to take the sentinel.
pub open spec fn assemblable(levels: Seq<LevelModel>, format: TextureFormat) -> bool {
    &&& spec_offset(levels, levels.len() as int) <= u32::MAX
    &&& spec_payload(levels, levels.len() as int).len() >= spec_sentinel(format).len()
}

/// The bytes of a container: the header, the records in the order of
/// `levels` with their running offsets, and the payloads in the same
/// order with the sentinel over their end.
pub open spec fn spec_container(
    header: BIMHeader,
    levels: Seq<LevelModel>,
    format: TextureFormat,
) -> Seq<u8> {
    header.spec_to_bytes() + spec_records(levels, levels.len() as int) + spec_patch_tail(
        spec_payload(levels, levels.len() as int),
        spec_sentinel(format),
    )
}

/// Offsets never decrease from one level to the next, and grow across
/// every level that has a payload: level 0 starts at 0.
pub proof fn lemma_offsets_increase(levels: Seq<LevelModel>, i: int, j: int)
    requires
        0 <= i <= j <= levels.len(),
    ensures
        spec_offset(levels, 0) == 0,
        spec_offset(levels, i) <= spec_offset(levels, j),
        (i < j && forall|k: int| i <= k < j ==> levels[k].record.compressed_size > 0)
            ==> spec_offset(levels, i) < spec_offset(levels, j),
    decreases j - i,
{
    if i < j {
        lemma_offsets_increase(levels, i, j - 1);
    }
}

/// The records of `n` levels take 36 bytes each.
pub proof fn lemma_records_len(levels: Seq<LevelModel>, n: int)
    requires
        0 <= n,
    ensures
        spec_records(levels, n).len() == 36 * n,
    decreases n,
{
    if n > 0 {
        lemma_records_len(levels, n - 1);
        lemma_record_len(spec_record(levels, n - 1));
    }
}

/// A serialised record has 36 bytes.
pub proof fn lemma_record_len(record: BIMMipMap)
    ensures
        record.spec_to_bytes().len() == 36,
{
    crate::le::lemma_le_bytes_len(crate::le::unsigned_of_i64(record.mip_level), 8);
    crate::le::lemma_le_bytes_len(record.mip_pixel_width as nat, 4);
    crate::le::lemma_le_bytes_len(record.mip_pixel_height as nat, 4);
    crate::le::lemma_le_bytes_len(record.unknown_flag as nat, 4);
    crate::le::lemma_le_bytes_len(record.decompressed_size as nat, 4);
    crate::le::lemma_le_bytes_len(record.flag_is_compressed as nat, 4);
    crate::le::lemma_le_bytes_len(record.compressed_size as nat, 4);
    crate::le::lemma_le_bytes_len(record.cumulative_size_streamdb as nat, 4);
}

/// A serialised header has 63 bytes.
pub proof fn lemma_header_len(header: BIMHeader)
    ensures
        header.spec_to_bytes().len() == 63,
{
    crate::le::lemma_le_bytes_len(header.texture_type as nat, 4);
    crate::le::lemma_le_bytes_len(header.texture_material_kind as nat, 4);
    crate::le::lemma_le_bytes_len(header.pixel_width as nat, 4);
    crate::le::lemma_le_bytes_len(header.pixel_height as nat, 4);
    crate::le::lemma_le_bytes_len(header.depth as nat, 4);
    crate::le::lemma_le_bytes_len(header.mip_count as nat, 4);
    crate::le::lemma_le_bytes_len(crate::le::unsigned_of_i64(header.mip_level), 8);
    crate::le::lemma_le_bytes_len(header.unk_float_1 as nat, 4);
    crate::le::lemma_le_bytes_len(header.texture_format as nat, 4);
    crate::le::lemma_le_bytes_len(header.always_7 as nat, 4);
    crate::le::lemma_le_bytes_len(header.null_padding as nat, 4);
    crate::le::lemma_le_bytes_len(crate::le::unsigned_of_i16(header.atlas_padding), 2);
    crate::le::lemma_le_bytes_len(header.streamdb_mip_count as nat, 4);
}

/// The layout of a container: the header in its first 63 bytes, then 36
/// bytes for each level's record, then the payload, which keeps its
/// length under the sentinel.
pub proof fn lemma_container_layout(
    header: BIMHeader,
    levels: Seq<LevelModel>,
    format: TextureFormat,
    i: int,
)
    requires
        assemblable(levels, format),
        0 <= i < levels.len(),
    ensures
        spec_container(header, levels, format).len() == 63 + 36 * levels.len() + spec_payload(
            levels,
            levels.len() as int,
        ).len(),
        spec_container(header, levels, format).subrange(0, 63) == header.spec_to_bytes(),
        spec_container(header, levels, format).subrange(63 + 36 * i, 63 + 36 * (i + 1))
            == spec_record(levels, i).spec_to_bytes(),
{
    let n = levels.len() as int;
    let container = spec_container(header, levels, format);
    lemma_header_len(header);
    lemma_records_len(levels, n);
    lemma_records_len(levels, i);
    lemma_record_len(spec_record(levels, i));
    lemma_records_prefix(levels, i + 1, n);
    assert(container.subrange(0, 63) =~= header.spec_to_bytes());
    assert(spec_records(levels, i + 1) == spec_records(levels, i) + spec_record(
        levels,
        i,
    ).spec_to_bytes());
    let records = spec_records(levels, n);
    let upto = spec_records(levels, i + 1);
    let wanted = spec_record(levels, i).spec_to_bytes();
    assert forall|k: int| 0 <= k < 36 implies records[36 * i + k] == wanted[k] by {
        assert(records.subrange(0, 36 * (i + 1))[36 * i + k] == upto[36 * i + k]);
    }
    assert(container.subrange(63 + 36 * i, 63 + 36 * (i + 1)) =~= wanted);
}

/// The records of the first `m` levels open the records of the first `n`.
proof fn lemma_records_prefix(levels: Seq<LevelModel>, m: int, n: int)
    requires
        0 <= m <= n,
    ensures
        spec_records(levels, m).len() == 36 * m,
        spec_records(levels, n).len() == 36 * n,
        spec_records(levels, n).subrange(0, 36 * m) == spec_records(levels, m),
    decreases n - m,
{
    lemma_records_len(levels, m);
    lemma_records_len(levels, n);
    if m < n {
        lemma_records_prefix(levels, m, n - 1);
        lemma_records_len(levels, n - 1);
        assert(spec_records(levels, n).subrange(0, 36 * m) =~= spec_records(levels, n - 1).subrange(
            0,
            36 * m,
        ));
    } else {
        assert(spec_records(levels, n).subrange(0, 36 * m) =~= spec_records(levels, m));
    }
}

/// Where every record's size is its payload's length, the payload of level
/// `i` lies in the unpatched payload segment at the record's offset.
pub proof fn lemma_payload_segment(levels: Seq<LevelModel>, n: int, i: int)
    requires
        0 <= i < n <= levels.len(),
        forall|k: int| 0 <= k < n ==> (#[trigger] levels[k]).sized(),
    ensures
        spec_payload(levels, n).len() == spec_offset(levels, n),
        spec_offset(levels, i) + levels[i].payload.len() <= spec_payload(levels, n).len(),
        spec_payload(levels, n).subrange(
            spec_offset(levels, i) as int,
            (spec_offset(levels, i) + levels[i].payload.len()) as int,
        ) == levels[i].payload,
    decreases n,
{
    lemma_payload_len(levels, n);
    lemma_payload_len(levels, n - 1);
    if i == n - 1 {
        assert(spec_payload(levels, n).subrange(
            spec_offset(levels, i) as int,
            (spec_offset(levels, i) + levels[i].payload.len()) as int,
        ) =~= levels[i].payload);
    } else {
        lemma_payload_segment(levels, n - 1, i);
        assert(spec_payload(levels, n).subrange(
            spec_offset(levels, i) as int,
            (spec_offset(levels, i) + levels[i].payload.len()) as int,
        ) =~= spec_payload(levels, n - 1).subrange(
            spec_offset(levels, i) as int,
            (spec_offset(levels, i) + levels[i].payload.len()) as int,
        ));
    }
}

/// Where every record's size is its payload's length, the payload segment
/// is as long as the offset behind the last level.
pub proof fn lemma_payload_len(levels: Seq<LevelModel>, n: int)
    requires
        0 <= n <= levels.len(),
        forall|k: int| 0 <= k < n ==> (#[trigger] levels[k]).sized(),
    ensures
        spec_payload(levels, n).len() == spec_offset(levels, n),
    decreases n,
{
    if n > 0 {
        lemma_payload_len(levels, n - 1);
    }
}

/// Serialises a container from its header and its levels, which are
/// written in the order given: level 0 first.
///
/// Each record gets the offset of its payload, the sum of the compressed
/// sizes before it. The end of the payload is overwritten with the
/// format's sentinel. Levels whose sizes add up to more than a record can
/// hold, or whose payload is shorter than the sentinel, are a
/// `CodecFailure`.
pub fn assemble(header: &BIMHeader, levels: &Vec<MipLevel>, format: TextureFormat) -> (outcome:
    Result<Vec<u8>, ConvertError>)
    ensures
        match outcome {
            Ok(bytes) => assemblable(level_models(levels@), format) && bytes@ == spec_container(
                *header,
                level_models(levels@),
                format,
            ),
            Err(error) => !assemblable(level_models(levels@), format) && error
                == ConvertError::CodecFailure,
        },
{
    let ghost models = level_models(levels@);
    let count: usize = levels.len();
    let mut bim: Vec<u8> = Vec::new();
    let head = header.to_bytes();
    bim.extend_from_slice(&head);
    assert(bim@ =~= header.spec_to_bytes());
    let mut texture: Vec<u8> = Vec::new();
    let mut offset: u32 = 0;
    let mut i: usize = 0;
    while i < count
        invariant
            i <= count,
            count == levels@.len(),
            models == level_models(levels@),
            offset == spec_offset(models, i as int),
            bim@ == header.spec_to_bytes() + spec_records(models, i as int),
            texture@ == spec_payload(models, i as int),
        decreases count - i,
    {
        let record = BIMMipMap { cumulative_size_streamdb: offset, ..levels[i].record };
        assert(record == spec_record(models, i as int));
        let bytes = record.to_bytes();
        let ghost before = bim@;
        bim.extend_from_slice(&bytes);
        assert(bim@ =~= before + bytes@);
        assert(bim@ =~= header.spec_to_bytes() + spec_records(models, i + 1));
        let ghost gathered = texture@;
        texture.extend_from_slice(levels[i].payload.as_slice());
        assert(texture@ =~= gathered + models[i as int].payload);
        offset = match offset.checked_add(levels[i].record.compressed_size) {
            Some(next) => next,
            None => {
                proof {
                    lemma_offsets_increase(models, i + 1, count as int);
                }
                return Err(ConvertError::CodecFailure);
            },
        };
        i = i + 1;
    }
    let total: usize = texture.len();
    if format == TextureFormat::FmtBc5 {
        if total < 16 {
            return Err(ConvertError::CodecFailure);
        }
        texture.truncate(total - 16);
        let sentinel: [u8; 16] = [
            0x87, 0x86, 0x49, 0x92, 0x24, 0x49, 0x92, 0x24,
            0x86, 0x85, 0x49, 0x92, 0x24, 0x49, 0x92, 0x02,
        ];
        assert(sentinel@ =~= spec_sentinel(format));
        let ghost kept = texture@;
        texture.extend_from_slice(&sentinel);
        assert(texture@ =~= kept + sentinel@);
    } else {
        if total < 4 {
            return Err(ConvertError::CodecFailure);
        }
        texture.truncate(total - 4);
        let sentinel: [u8; 4] = [0, 0, 0, 0];
        assert(sentinel@ =~= spec_sentinel(format));
        let ghost kept = texture@;
        texture.extend_from_slice(&sentinel);
        assert(texture@ =~= kept + sentinel@);
    }
    bim.append(&mut texture);
    Ok(bim)
}

/// The level that arrival `j` belongs to.
pub open spec fn level_of(arrivals: Seq<LevelModel>, j: int) -> int {
    arrivals[j].record.mip_level as int
}

/// The arrivals of a finished fan-out: one for each of the levels
/// `0..count`, none twice, in any order.
pub open spec fn complete(arrivals: Seq<LevelModel>, count: nat) -> bool {
    &&& arrivals.len() == count
    &&& forall|j: int| 0 <= j < arrivals.len() ==> 0 <= #[trigger] level_of(arrivals, j) < count
    &&& forall|j: int, k: int|
        0 <= j < k < arrivals.len() ==> #[trigger] level_of(arrivals, j) != #[trigger] level_of(
            arrivals,
            k,
        )
    &&& forall|level: int|
        0 <= level < count ==> 0 <= #[trigger] position_of(arrivals, level) < arrivals.len()
            && level_of(arrivals, position_of(arrivals, level)) == level
}

/// Where level `level` stands among the arrivals.
pub open spec fn position_of(arrivals: Seq<LevelModel>, level: int) -> int {
    choose|j: int| 0 <= j < arrivals.len() && level_of(arrivals, j) == level
}

/// The arrivals in level order: level 0 first.
pub open spec fn spec_join(arrivals: Seq<LevelModel>, count: nat) -> Seq<LevelModel> {
    Seq::new(count, |level: int| arrivals[position_of(arrivals, level)])
}

/// Joining keeps every record with its payload: where each arrival's
/// record gives the length of its payload, so does each joined level.
pub proof fn lemma_join_keeps_sizes(arrivals: Seq<LevelModel>, count: nat)
    requires
        complete(arrivals, count),
        all_sized(arrivals),
    ensures
        all_sized(spec_join(arrivals, count)),
{
    let joined = spec_join(arrivals, count);
    assert forall|k: int| 0 <= k < joined.len() implies (#[trigger] joined[k]).sized() by {
        assert(arrivals[position_of(arrivals, k)].sized());
    }
}

/// The order in which the levels arrive does not matter: two complete
/// sets of the same arrivals join to the same levels, and so to the same
/// container bytes.
pub proof fn lemma_join_ignores_arrival_order(
    first: Seq<LevelModel>,
    second: Seq<LevelModel>,
    count: nat,
    header: BIMHeader,
    format: TextureFormat,
)
    requires
        complete(first, count),
        complete(second, count),
        first.to_multiset() == second.to_multiset(),
    ensures
        spec_join(first, count) == spec_join(second, count),
        spec_container(header, spec_join(first, count), format) == spec_container(
            header,
            spec_join(second, count),
            format,
        ),
{
    first.to_multiset_ensures();
    second.to_multiset_ensures();
    assert forall|level: int| 0 <= level < count implies first[position_of(first, level)]
        == second[position_of(second, level)] by {
        let arrival = first[position_of(first, level)];
        assert(first.contains(arrival));
        assert(first.to_multiset().count(arrival) > 0);
        assert(second.to_multiset().count(arrival) > 0);
        assert(second.contains(arrival));
        let k = choose|k: int| 0 <= k < second.len() && second[k] == arrival;
        let p = position_of(second, level);
        assert(level_of(second, k) == level);
        assert(level_of(second, p) == level);
        if k < p {
            assert(level_of(second, k) != level_of(second, p));
        } else if p < k {
            assert(level_of(second, p) != level_of(second, k));
        }
    }
    assert(spec_join(first, count) =~= spec_join(second, count));
}

/// Puts the arrivals of a fan-out into level order, whatever order they
/// finished in. Arrivals that are not exactly one for each of the levels
/// `0..count` are a `CodecFailure`.
pub fn join_levels(arrivals: Vec<MipLevel>, count: u32) -> (outcome: Result<
    Vec<MipLevel>,
    ConvertError,
>)
    ensures
        match outcome {
            Ok(levels) => complete(level_models(arrivals@), count as nat) && level_models(levels@)
                == spec_join(level_models(arrivals@), count as nat),
            Err(error) => !complete(level_models(arrivals@), count as nat) && error
                == ConvertError::CodecFailure,
        },
{
    let ghost all = level_models(arrivals@);
    let mut rest = arrivals;
    if rest.len() != count as usize {
        return Err(ConvertError::CodecFailure);
    }
    // `origin[k]` is where `rest[k]` stood among the arrivals, and
    // `taken[m]` is where the arrival joined as level `m` stood.
    let ghost mut origin: Seq<int> = Seq::new(all.len(), |k: int| k);
    let ghost mut taken: Seq<int> = Seq::empty();
    let mut joined: Vec<MipLevel> = Vec::new();
    let mut level: u32 = 0;
    proof {
        assert forall|j: int| 0 <= j < all.len() implies origin.contains(j) by {
            assert(origin[j] == j);
        }
    }
    while level < count
        invariant
            level <= count,
            all == level_models(arrivals@),
            all.len() == count,
            rest@.len() + level == count,
            origin.len() == rest@.len(),
            forall|k: int|
                0 <= k < rest@.len() ==> 0 <= #[trigger] origin[k] < all.len() && rest@[k]@
                    == all[origin[k]],
            taken.len() == level,
            joined@.len() == level,
            forall|m: int|
                0 <= m < level ==> 0 <= #[trigger] taken[m] < all.len() && level_of(all, taken[m])
                    == m && joined@[m]@ == all[taken[m]],
            forall|j: int|
                0 <= j < all.len() ==> origin.contains(j) || (0 <= #[trigger] level_of(all, j)
                    < level && taken[level_of(all, j)] == j),
        decreases count - level,
    {
        let wanted: i64 = level as i64;
        let mut found: usize = 0;
        while found < rest.len() && rest[found].record.mip_level != wanted
            invariant
                found <= rest@.len(),
                forall|k: int| 0 <= k < found ==> rest@[k]@.record.mip_level != wanted,
            decreases rest@.len() - found,
        {
            found = found + 1;
        }
        if found == rest.len() {
            proof {
                if complete(all, count as nat) {
                    let j = position_of(all, level as int);
                    assert(level_of(all, j) == level);
                    assert(origin.contains(j));
                    let k = choose|k: int| 0 <= k < origin.len() && origin[k] == j;
                    assert(rest@[k]@ == all[origin[k]]);
                    assert(rest@[k]@.record.mip_level != wanted);
                    assert(false);
                }
            }
            return Err(ConvertError::CodecFailure);
        }
        let ghost before = rest@;
        let ghost old_origin = origin;
        let item = rest.remove(found);
        proof {
            taken = taken.push(old_origin[found as int]);
            origin = old_origin.remove(found as int);
            assert forall|k: int| 0 <= k < rest@.len() implies 0 <= #[trigger] origin[k]
                < all.len() && rest@[k]@ == all[origin[k]] by {
                if k < found {
                    assert(origin[k] == old_origin[k]);
                    assert(rest@[k] == before[k]);
                } else {
                    assert(origin[k] == old_origin[k + 1]);
                    assert(rest@[k] == before[k + 1]);
                }
            }
            assert forall|j: int| 0 <= j < all.len() implies origin.contains(j) || (0
                <= #[trigger] level_of(all, j) < level + 1 && taken[level_of(all, j)] == j) by {
                if old_origin.contains(j) {
                    let k = choose|k: int| 0 <= k < old_origin.len() && old_origin[k] == j;
                    if k < found {
                        assert(origin[k] == j);
                    } else if k > found {
                        assert(origin[k - 1] == j);
                    } else {
                        assert(before[found as int]@ == all[j]);
                    }
                }
            }
        }
        joined.push(item);
        level = level + 1;
    }
    proof {
        assert forall|j: int| 0 <= j < all.len() implies 0 <= #[trigger] level_of(all, j)
            < count by {
            assert(!origin.contains(j));
        }
        assert forall|j: int, k: int| 0 <= j < k < all.len() implies #[trigger] level_of(all, j)
            != #[trigger] level_of(all, k) by {
            assert(!origin.contains(j));
            assert(!origin.contains(k));
        }
        assert forall|m: int| 0 <= m < count implies 0 <= #[trigger] position_of(all, m)
            < all.len() && level_of(all, position_of(all, m)) == m && joined@[m]@
            == all[position_of(all, m)] by {
            assert(level_of(all, taken[m]) == m);
            let p = position_of(all, m);
            assert(!origin.contains(p));
            assert(!origin.contains(taken[m]));
        }
        assert(level_models(joined@) =~= spec_join(all, count as nat));
    }
    Ok(joined)
}

} // verus!
