//! Binary tract frames: a 24-byte envelope followed by a payload.
//!
//! Offsets in the envelope: 0 magic (2 bytes), 2 version, 3 entry type, 4 length of the whole frame
//! (4 bytes), 8 timestamp (8 bytes), 16 CRC-32 of the payload (4 bytes), 20 byte-order flag,
//! 21 padding (3 bytes). The payload is the length of the metadata (4 bytes), the metadata as a
//! MessagePack value, and whatever else the entry type carries. Numbers stand in the byte order of
//! the machine that wrote them.

use crate::codec::{crc32, crc32_of, decode_msgpack, msgpack_parsed};
use crate::json::{items_view, Json, JsonView};
use vstd::endian::endianness;
use vstd::prelude::*;
use vstd::slice::slice_subrange;

verus! {

/// The number at the start of every frame.
pub const MAGIC: u16 = 0x4254;

/// The length of the envelope.
pub const ENVELOPE: usize = 24;

/// The two-byte number at `at`, the low byte first where `little`.
pub open spec fn u16_at(data: Seq<u8>, at: int, little: bool) -> int {
    if little {
        data[at] + 256 * data[at + 1]
    } else {
        256 * data[at] + data[at + 1]
    }
}

/// The four-byte number at `at`, the low byte first where `little`.
pub open spec fn u32_at(data: Seq<u8>, at: int, little: bool) -> int {
    if little {
        data[at] + 0x100 * data[at + 1] + 0x1_0000 * data[at + 2] + 0x100_0000 * data[at + 3]
    } else {
        0x100_0000 * data[at] + 0x1_0000 * data[at + 1] + 0x100 * data[at + 2] + data[at + 3]
    }
}

/// The metadata of one frame; nothing where the checksum does not hold, the payload is cut short
/// or the metadata is not a MessagePack value.
pub open spec fn frame_value(frame: Seq<u8>, little: bool) -> Option<JsonView> {
    let payload = frame.skip(ENVELOPE as int);
    let meta_len = u32_at(payload, 0, little);
    if crc32_of(payload) != u32_at(frame, 16, little) {
        None
    } else if payload.len() < 4 || 4 + meta_len > payload.len() {
        None
    } else {
        msgpack_parsed(payload.subrange(4, 4 + meta_len))
    }
}

/// One value, or none.
pub open spec fn at_most_one(v: Option<JsonView>) -> Seq<JsonView> {
    match v {
        Some(v) => seq![v],
        None => Seq::empty(),
    }
}

/// A frame starts at the front of `data`: the magic number stands there, and the length behind it is
/// no less than that of an envelope and no more than there is.
pub open spec fn starts_frame(data: Seq<u8>, little: bool) -> bool {
    &&& data.len() >= ENVELOPE
    &&& u16_at(data, 0, little) == MAGIC
    &&& ENVELOPE <= u32_at(data, 4, little) <= data.len()
}

/// The metadata of the frames in `data`, in order. A byte that starts no frame is passed over, be it
/// that the magic number does not stand there or that the length cannot be right; a frame whose
/// metadata cannot be had is passed over whole.
pub open spec fn btf_frames(data: Seq<u8>, little: bool) -> Seq<JsonView>
    decreases data.len(),
{
    if data.len() < ENVELOPE {
        Seq::empty()
    } else if !starts_frame(data, little) {
        btf_frames(data.drop_first(), little)
    } else {
        let total = u32_at(data, 4, little);
        at_most_one(frame_value(data.take(total), little)) + btf_frames(data.skip(total), little)
    }
}

/// `frame` is one whole frame: it starts with the magic number and is as long as it says.
pub open spec fn is_frame(frame: Seq<u8>, little: bool) -> bool {
    &&& frame.len() >= ENVELOPE
    &&& u16_at(frame, 0, little) == MAGIC
    &&& u32_at(frame, 4, little) == frame.len()
}

/// The metadata of each frame that has any, in order.
pub open spec fn frame_values(frames: Seq<Seq<u8>>, little: bool) -> Seq<JsonView>
    decreases frames.len(),
{
    if frames.len() == 0 {
        Seq::empty()
    } else {
        at_most_one(frame_value(frames[0], little)) + frame_values(frames.drop_first(), little)
    }
}

/// Reading a whole frame gives its metadata, if it has any, and then what follows the frame. So
/// a frame that fails its checksum loses nothing of what comes after it.
pub proof fn law_frame_then_rest(frame: Seq<u8>, rest: Seq<u8>, little: bool)
    requires
        is_frame(frame, little),
    ensures
        btf_frames(frame + rest, little) == at_most_one(frame_value(frame, little)) + btf_frames(
            rest,
            little,
        ),
{
    let data = frame + rest;
    assert(data.take(frame.len() as int) =~= frame);
    assert(data.skip(frame.len() as int) =~= rest);
}

/// Frames written one after another are read back in that order, one value for each frame that
/// holds one.
pub proof fn law_frames_in_order(frames: Seq<Seq<u8>>, little: bool)
    requires
        forall|i: int| 0 <= i < frames.len() ==> is_frame(#[trigger] frames[i], little),
    ensures
        btf_frames(frames.flatten(), little) == frame_values(frames, little),
    decreases frames.len(),
{
    if frames.len() > 0 {
        law_frames_in_order(frames.drop_first(), little);
        law_frame_then_rest(frames[0], frames.drop_first().flatten(), little);
    }
}

/// The two bytes of `n`, the low byte first where `little`.
pub open spec fn u16_bytes(n: int, little: bool) -> Seq<u8> {
    if little {
        seq![(n % 256) as u8, (n / 256 % 256) as u8]
    } else {
        seq![(n / 256 % 256) as u8, (n % 256) as u8]
    }
}

/// The four bytes of `n`, the low byte first where `little`.
pub open spec fn u32_bytes(n: int, little: bool) -> Seq<u8> {
    let b0 = (n % 0x100) as u8;
    let b1 = (n / 0x100 % 0x100) as u8;
    let b2 = (n / 0x1_0000 % 0x100) as u8;
    let b3 = (n / 0x100_0000 % 0x100) as u8;
    if little {
        seq![b0, b1, b2, b3]
    } else {
        seq![b3, b2, b1, b0]
    }
}

/// The payload around metadata: its length and the metadata itself, and then whatever else there is.
pub open spec fn payload_bytes(metadata: Seq<u8>, more: Seq<u8>, little: bool) -> Seq<u8> {
    u32_bytes(metadata.len() as int, little) + metadata + more
}

/// A frame around metadata. `kind` is the version and the entry type, `timestamp` the eight bytes
/// of the timestamp, `flag` the byte-order flag and the padding.
pub open spec fn frame_bytes(
    kind: Seq<u8>,
    timestamp: Seq<u8>,
    flag: Seq<u8>,
    metadata: Seq<u8>,
    more: Seq<u8>,
    little: bool,
) -> Seq<u8> {
    let payload = payload_bytes(metadata, more, little);
    u16_bytes(MAGIC as int, little) + kind + u32_bytes(ENVELOPE + payload.len(), little) + timestamp
        + u32_bytes(crc32_of(payload) as int, little) + flag + payload
}

/// The number that four bytes write is the number that they were made from.
proof fn lemma_u32_bytes(n: int, before: Seq<u8>, after: Seq<u8>, little: bool)
    requires
        0 <= n <= u32::MAX,
    ensures
        u32_at(before + u32_bytes(n, little) + after, before.len() as int, little) == n,
{
    let s = before + u32_bytes(n, little) + after;
    let at = before.len() as int;
    let b = u32_bytes(n, little);
    assert(s[at] == b[0] && s[at + 1] == b[1] && s[at + 2] == b[2] && s[at + 3] == b[3]);
    assert(n % 0x100 + 0x100 * (n / 0x100 % 0x100) + 0x1_0000 * (n / 0x1_0000 % 0x100) + 0x100_0000
        * (n / 0x100_0000 % 0x100) == n);
}

/// A frame that is written around metadata is one whole frame, and what is read from it is what the
/// metadata holds.
pub proof fn law_written_frame_is_read(
    kind: Seq<u8>,
    timestamp: Seq<u8>,
    flag: Seq<u8>,
    metadata: Seq<u8>,
    more: Seq<u8>,
    little: bool,
)
    requires
        kind.len() == 2,
        timestamp.len() == 8,
        flag.len() == 4,
        ENVELOPE + 4 + metadata.len() + more.len() <= u32::MAX,
    ensures
        is_frame(frame_bytes(kind, timestamp, flag, metadata, more, little), little),
        frame_value(frame_bytes(kind, timestamp, flag, metadata, more, little), little)
            == msgpack_parsed(metadata),
{
    let payload = payload_bytes(metadata, more, little);
    let frame = frame_bytes(kind, timestamp, flag, metadata, more, little);
    let magic = u16_bytes(MAGIC as int, little);
    let total = u32_bytes(ENVELOPE + payload.len(), little);
    let crc = u32_bytes(crc32_of(payload) as int, little);
    assert(frame[0] == magic[0] && frame[1] == magic[1]);
    let head = magic + kind;
    let tail = timestamp + crc + flag + payload;
    assert(frame =~= head + total + tail);
    lemma_u32_bytes(ENVELOPE + payload.len(), head, tail, little);
    let head = magic + kind + total + timestamp;
    assert(frame =~= head + crc + (flag + payload));
    lemma_u32_bytes(crc32_of(payload) as int, head, flag + payload, little);
    assert(frame.skip(ENVELOPE as int) =~= payload);
    assert(payload =~= Seq::<u8>::empty() + u32_bytes(metadata.len() as int, little) + (metadata
        + more));
    lemma_u32_bytes(metadata.len() as int, Seq::<u8>::empty(), metadata + more, little);
    assert(payload.subrange(4, 4 + metadata.len() as int) =~= metadata);
}

/// Bytes in which the magic number never stands give no frame.
pub proof fn law_garbage_gives_nothing(data: Seq<u8>, little: bool)
    requires
        forall|i: int| 0 <= i < data.len() - 1 ==> #[trigger] u16_at(data, i, little) != MAGIC,
    ensures
        btf_frames(data, little) == Seq::<JsonView>::empty(),
    decreases data.len(),
{
    if data.len() >= ENVELOPE {
        assert(u16_at(data, 0, little) != MAGIC);
        let rest = data.drop_first();
        assert forall|i: int| 0 <= i < rest.len() - 1 implies #[trigger] u16_at(rest, i, little)
            != MAGIC by {
            assert(u16_at(rest, i, little) == u16_at(data, i + 1, little));
        }
        law_garbage_gives_nothing(rest, little);
    }
}

/// What is malformed costs nothing of what follows it: where no frame starts within `bad`, reading
/// gives what stands behind `bad`. So a frame that claims to be shorter than its envelope, or longer
/// than what there is, is passed over.
pub proof fn law_malformed_is_passed_over(bad: Seq<u8>, rest: Seq<u8>, little: bool)
    requires
        forall|i: int|
            0 <= i < bad.len() ==> !starts_frame(#[trigger] (bad + rest).skip(i), little),
    ensures
        btf_frames(bad + rest, little) == btf_frames(rest, little),
    decreases bad.len(),
{
    let data = bad + rest;
    if bad.len() == 0 {
        assert(data =~= rest);
    } else {
        let less = bad.drop_first();
        assert(data.skip(0) =~= data);
        assert(data.drop_first() =~= less + rest);
        assert forall|i: int| 0 <= i < less.len() implies !starts_frame(
            #[trigger] (less + rest).skip(i),
            little,
        ) by {
            assert((less + rest).skip(i) =~= data.skip(i + 1));
        }
        law_malformed_is_passed_over(less, rest, little);
        if data.len() < ENVELOPE {
            lemma_short_gives_nothing(rest, little);
        }
    }
}

/// Fewer bytes than an envelope give nothing.
proof fn lemma_short_gives_nothing(data: Seq<u8>, little: bool)
    requires
        data.len() < ENVELOPE,
    ensures
        btf_frames(data, little) == Seq::<JsonView>::empty(),
{
}

/// An envelope of zeros behind the magic number, which claims a length that no frame has, is passed
/// over, and the frame behind it is read.
pub proof fn law_empty_envelope_is_passed_over(frame: Seq<u8>, rest: Seq<u8>, little: bool)
    requires
        is_frame(frame, little),
    ensures
        ({
            let bad = u16_bytes(MAGIC as int, little) + Seq::new(
                (ENVELOPE - 2) as nat,
                |i: int| 0u8,
            );
            btf_frames(bad + (frame + rest), little) == at_most_one(frame_value(frame, little))
                + btf_frames(rest, little)
        }),
{
    let zeros = Seq::new((ENVELOPE - 2) as nat, |i: int| 0u8);
    let bad = u16_bytes(MAGIC as int, little) + zeros;
    let tail = frame + rest;
    let data = bad + tail;
    assert forall|i: int| 0 <= i < bad.len() implies !starts_frame(
        #[trigger] data.skip(i),
        little,
    ) by {
        let here = data.skip(i);
        assert(here[0] == data[i] && here[1] == data[i + 1]);
        if i == 0 {
            assert(here[4] == 0 && here[5] == 0 && here[6] == 0 && here[7] == 0);
        } else if i == 1 {
            assert(data[2] == 0);
        } else {
            assert(data[i] == 0);
        }
    }
    law_malformed_is_passed_over(bad, tail, little);
    law_frame_then_rest(frame, rest, little);
}

/// Calls `u16::from_ne_bytes`. It claims that the bytes are taken in the byte order of the machine.
#[verifier::external_body]
fn native_u16(low: u8, high: u8) -> (r: u16)
    ensures
        r == u16_at(seq![low, high], 0, endianness() is Little),
{
    u16::from_ne_bytes([low, high])
}

/// Whether this machine writes the low byte of a number first.
pub fn native_is_little() -> (r: bool)
    ensures
        r == (endianness() is Little),
{
    native_u16(1, 0) == 1
}

/// Reads the two-byte number at `at`.
fn read_u16(data: &[u8], at: usize, little: bool) -> (r: u16)
    requires
        at + 2 <= data@.len(),
    ensures
        r == u16_at(data@, at as int, little),
{
    let a: u16 = data[at] as u16;
    let b: u16 = data[at + 1] as u16;
    if little {
        a + 256 * b
    } else {
        256 * a + b
    }
}

/// Reads the four-byte number at `at`.
fn read_u32(data: &[u8], at: usize, little: bool) -> (r: u32)
    requires
        at + 4 <= data@.len(),
    ensures
        r == u32_at(data@, at as int, little),
{
    let a: u32 = data[at] as u32;
    let b: u32 = data[at + 1] as u32;
    let c: u32 = data[at + 2] as u32;
    let d: u32 = data[at + 3] as u32;
    if little {
        a + 0x100 * b + 0x1_0000 * c + 0x100_0000 * d
    } else {
        0x100_0000 * a + 0x1_0000 * b + 0x100 * c + d
    }
}

/// Reads the metadata of one frame.
fn read_frame(frame: &[u8], little: bool) -> (r: Option<Json>)
    requires
        frame@.len() >= ENVELOPE,
    ensures
        match r {
            Some(v) => frame_value(frame@, little) == Some(v@),
            None => frame_value(frame@, little) is None,
        },
{
    let payload = slice_subrange(frame, ENVELOPE, frame.len());
    assert(payload@ =~= frame@.skip(ENVELOPE as int));
    if crc32(payload) != read_u32(frame, 16, little) {
        return None;
    }
    if payload.len() < 4 {
        return None;
    }
    let meta_len: usize = read_u32(payload, 0, little) as usize;
    if meta_len > payload.len() - 4 {
        return None;
    }
    decode_msgpack(slice_subrange(payload, 4, 4 + meta_len))
}

/// Reads the frames in `data`, whose numbers have the low byte first where `little`.
pub fn parse_btf_frames_as(data: &[u8], little: bool) -> (r: Vec<Json>)
    ensures
        items_view(r@) == btf_frames(data@, little),
{
    let mut frames: Vec<Json> = Vec::new();
    let mut pos: usize = 0;
    assert(data@.skip(0) =~= data@);
    assert(items_view(frames@) + btf_frames(data@, little) =~= btf_frames(data@, little));
    while data.len() - pos >= ENVELOPE
        invariant
            pos <= data@.len(),
            items_view(frames@) + btf_frames(data@.skip(pos as int), little) == btf_frames(
                data@,
                little,
            ),
        decreases data@.len() - pos,
    {
        let ghost here = data@.skip(pos as int);
        if read_u16(data, pos, little) != MAGIC {
            assert(here.drop_first() =~= data@.skip(pos + 1));
            pos += 1;
            continue;
        }
        let total: usize = read_u32(data, pos + 4, little) as usize;
        if total < ENVELOPE || total > data.len() - pos {
            assert(here.drop_first() =~= data@.skip(pos + 1));
            pos += 1;
            continue;
        }
        let frame = slice_subrange(data, pos, pos + total);
        assert(frame@ =~= here.take(total as int));
        assert(here.skip(total as int) =~= data@.skip(pos + total));
        let ghost before = items_view(frames@);
        let ghost after = btf_frames(data@.skip(pos + total), little);
        match read_frame(frame, little) {
            Some(v) => {
                frames.push(v);
                assert(items_view(frames@) + after =~= before + (seq![v@] + after));
            },
            None => {
                assert(before + (Seq::<JsonView>::empty() + after) =~= before + after);
            },
        }
        pos += total;
    }
    assert(items_view(frames@) =~= btf_frames(data@, little));
    frames
}

/// Reads the frames in `data`, which this machine wrote.
pub fn parse_btf_frames(data: &[u8]) -> (r: Vec<Json>)
    ensures
        items_view(r@) == btf_frames(data@, endianness() is Little),
{
    parse_btf_frames_as(data, native_is_little())
}

/// Frames written one after another, each with metadata, are all read back, in that order.
pub proof fn law_every_frame_is_read(
    frames: Seq<Seq<u8>>,
    values: Seq<JsonView>,
    little: bool,
)
    requires
        frames.len() == values.len(),
        forall|i: int|
            0 <= i < frames.len() ==> is_frame(#[trigger] frames[i], little) && frame_value(
                frames[i],
                little,
            ) == Some(values[i]),
    ensures
        btf_frames(frames.flatten(), little) == values,
    decreases frames.len(),
{
    if frames.len() == 0 {
        assert(btf_frames(frames.flatten(), little) =~= values);
    } else {
        let rest = frames.drop_first();
        assert forall|i: int| 0 <= i < rest.len() implies is_frame(#[trigger] rest[i], little)
            && frame_value(rest[i], little) == Some(values.drop_first()[i]) by {
            assert(rest[i] == frames[i + 1]);
        }
        law_every_frame_is_read(rest, values.drop_first(), little);
        law_frame_then_rest(frames[0], rest.flatten(), little);
        assert(values =~= seq![values[0]] + values.drop_first());
    }
}

/// Where the parts of a frame stand: the magic number in the first two bytes, the length of the whole
/// in four bytes from the fifth on, the checksum of what follows the twenty-fourth byte in four bytes
/// from the seventeenth on, and behind the envelope the length of the metadata and the metadata.
pub proof fn law_frame_layout(frame: Seq<u8>, metadata: Seq<u8>, more: Seq<u8>)
    requires
        frame.len() >= 24,
        frame.skip(28) == metadata + more,
        metadata.len() <= 0xffff,
        frame.len() >= 28,
        frame[24] == metadata.len() % 256,
        frame[25] == metadata.len() / 256,
        frame[26] == 0,
        frame[27] == 0,
    ensures
        is_frame(frame, true) <==> frame[0] == 0x54 && frame[1] == 0x42 && frame[4] + 0x100 * frame[5]
            + 0x1_0000 * frame[6] + 0x100_0000 * frame[7] == frame.len(),
        is_frame(frame, false) <==> frame[0] == 0x42 && frame[1] == 0x54 && frame[7] + 0x100 * frame[6]
            + 0x1_0000 * frame[5] + 0x100_0000 * frame[4] == frame.len(),
        frame_value(frame, true) == (if crc32_of(frame.skip(24)) == frame[16] + 0x100 * frame[17]
            + 0x1_0000 * frame[18] + 0x100_0000 * frame[19] {
            msgpack_parsed(metadata)
        } else {
            None
        }),
{
    let payload = frame.skip(24);
    assert(payload[0] == frame[24] && payload[1] == frame[25] && payload[2] == frame[26]
        && payload[3] == frame[27]);
    assert(u32_at(payload, 0, true) == metadata.len());
    assert(frame.skip(28).len() == metadata.len() + more.len());
    assert(payload.subrange(4, 4 + metadata.len() as int) =~= metadata) by {
        assert forall|i: int| 0 <= i < metadata.len() implies payload[4 + i] == metadata[i] by {
            assert(frame.skip(28)[i] == (metadata + more)[i]);
            assert(frame.skip(28)[i] == frame[28 + i]);
        }
    }
}

/// A frame whose payload is too short for a length, or for the metadata that it announces, holds
/// nothing.
pub proof fn law_short_payload_holds_nothing(frame: Seq<u8>, little: bool)
    requires
        frame.len() >= 24,
    ensures
        frame.len() < 28 ==> frame_value(frame, little) is None,
        frame.len() >= 28 && little && 28 + frame[24] + 0x100 * frame[25] + 0x1_0000 * frame[26]
            + 0x100_0000 * frame[27] > frame.len() ==> frame_value(frame, little) is None,
        frame.len() >= 28 && !little && 28 + frame[27] + 0x100 * frame[26] + 0x1_0000 * frame[25]
            + 0x100_0000 * frame[24] > frame.len() ==> frame_value(frame, little) is None,
{
    let payload = frame.skip(24);
    if frame.len() >= 28 {
        assert(payload[0] == frame[24] && payload[1] == frame[25] && payload[2] == frame[26]
            && payload[3] == frame[27]);
    }
}

} // verus!
