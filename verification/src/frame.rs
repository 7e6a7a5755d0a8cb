//! The segment log's frame encoding, the scan that replays a segment at open, and the
//! placement of new frames at the log's tail.
//!
//! ```text
//! [ body length: u32 le ][ check: u64 le ][ body ]
//! body = sequence u64 le | recorded_at_ms u64 le | kind length u16 le | kind | payload
//! ```
//!
//! A crash can tear the tail, so every frame carries a check value over its body. Only an
//! incomplete final write is truncated; corruption anywhere else is refused.

use vstd::prelude::*;
use vstd::bytes::*;
use vstd::string::StringSliceAdditionalSpecFns;
use vstd::utf8::{valid_utf8, encode_utf8};
use crate::bytes::{append_bytes, copy_range, overwrite_bytes};
use crate::error::{BrainError, Fault};

verus! {

/// The XXH3 64-bit hash of a byte sequence.
pub uninterp spec fn xxh3_of(bytes: Seq<u8>) -> u64;

/// `xxhash_rust::xxh3::xxh3_64`: the seedless XXH3-64 hash of the input, a function of the
/// input bytes alone.
#[verifier::external_body]
fn xxh3_64(bytes: &[u8]) -> (r: u64)
    ensures
        r == xxh3_of(bytes@),
{
    xxhash_rust::xxh3::xxh3_64(bytes)
}

#[verifier::external_type_specification]
#[verifier::external_body]
pub struct ExUtf8Error(core::str::Utf8Error);

/// `core::str::from_utf8`: succeeds exactly on valid UTF-8, borrowing the same bytes.
pub assume_specification[ core::str::from_utf8 ](v: &[u8]) -> (r: Result<&str, core::str::Utf8Error>)
    ensures
        r is Ok <==> valid_utf8(v@),
        r matches Ok(s) ==> s.spec_bytes() == v@,
;

pub const HEADER_BYTES: usize = 12;

/// Rotate to a new segment once the open one reaches this size.
pub const SEGMENT_BYTES: u64 = 64 * 1024 * 1024;

/// A frame's body: its metadata, its kind and its payload.
pub open spec fn body_spec(sequence: u64, recorded_at_ms: u64, kind: Seq<u8>, payload: Seq<u8>) -> Seq<u8> {
    spec_u64_to_le_bytes(sequence) + spec_u64_to_le_bytes(recorded_at_ms) + spec_u16_to_le_bytes(
        kind.len() as u16,
    ) + kind + payload
}

/// A whole frame: the body's length and check value, then the body.
pub open spec fn frame_spec(sequence: u64, recorded_at_ms: u64, kind: Seq<u8>, payload: Seq<u8>) -> Seq<u8> {
    let body = body_spec(sequence, recorded_at_ms, kind, payload);
    spec_u32_to_le_bytes(body.len() as u32) + spec_u64_to_le_bytes(xxh3_of(body)) + body
}

/// A frame read back out of a segment.
pub struct Frame {
    pub sequence: u64,
    pub recorded_at_ms: u64,
    pub kind: String,
    pub payload: Vec<u8>,
}

/// What a frame holds, as plain values.
pub struct FrameValue {
    pub sequence: u64,
    pub recorded_at_ms: u64,
    pub kind: Seq<u8>,
    pub payload: Seq<u8>,
}

impl Frame {
    pub open spec fn value(&self) -> FrameValue {
        FrameValue {
            sequence: self.sequence,
            recorded_at_ms: self.recorded_at_ms,
            kind: encode_utf8(self.kind@),
            payload: self.payload@,
        }
    }
}

/// Decoding the frame at the start of `bytes`: the frame and its total length, or `None` when
/// the frame is incomplete, fails its check, or its kind is not UTF-8.
pub open spec fn decode_spec(bytes: Seq<u8>) -> Option<(FrameValue, int)> {
    if bytes.len() < HEADER_BYTES {
        None
    } else {
        let length = spec_u32_from_le_bytes(bytes.subrange(0, 4)) as int;
        let check = spec_u64_from_le_bytes(bytes.subrange(4, 12));
        let end = HEADER_BYTES + length;
        if end > bytes.len() {
            None
        } else {
            let body = bytes.subrange(HEADER_BYTES as int, end);
            if xxh3_of(body) != check || body.len() < 18 {
                None
            } else {
                let kind_length = spec_u16_from_le_bytes(body.subrange(16, 18)) as int;
                if 18 + kind_length > body.len() {
                    None
                } else {
                    let kind = body.subrange(18, 18 + kind_length);
                    if !valid_utf8(kind) {
                        None
                    } else {
                        Some(
                            (
                                FrameValue {
                                    sequence: spec_u64_from_le_bytes(body.subrange(0, 8)),
                                    recorded_at_ms: spec_u64_from_le_bytes(body.subrange(8, 16)),
                                    kind,
                                    payload: body.subrange(18 + kind_length, body.len() as int),
                                },
                                end,
                            ),
                        )
                    }
                }
            }
        }
    }
}

/// Build one whole frame. A kind longer than `u16::MAX` bytes or a body longer than `u32::MAX`
/// bytes has its length field truncated, exactly as the encoding's fixed widths do.
pub fn encode(sequence: u64, recorded_at_ms: u64, kind: &str, payload: &[u8]) -> (frame: Vec<u8>)
    ensures
        frame@ == frame_spec(sequence, recorded_at_ms, kind.spec_bytes(), payload@),
{
    let kind_bytes = kind.as_bytes();
    let mut body: Vec<u8> = Vec::new();
    append_bytes(&mut body, u64_to_le_bytes(sequence).as_slice());
    append_bytes(&mut body, u64_to_le_bytes(recorded_at_ms).as_slice());
    let kind_length = kind_bytes.len() as u16;
    append_bytes(&mut body, u16_to_le_bytes(kind_length).as_slice());
    append_bytes(&mut body, kind_bytes);
    append_bytes(&mut body, payload);
    let check = xxh3_64(body.as_slice());
    let body_length = body.len() as u32;
    let mut frame: Vec<u8> = Vec::new();
    append_bytes(&mut frame, u32_to_le_bytes(body_length).as_slice());
    append_bytes(&mut frame, u64_to_le_bytes(check).as_slice());
    append_bytes(&mut frame, body.as_slice());
    frame
}

/// A frame for a record whose sequence and time the writer assigns later.
pub fn encode_unsequenced(kind: &str, payload: &[u8]) -> (frame: Vec<u8>)
    ensures
        frame@ == frame_spec(0, 0, kind.spec_bytes(), payload@),
{
    encode(0, 0, kind, payload)
}

/// Decode the frame at the start of `bytes`, returning it and its total length. `None` means
/// the frame is incomplete or does not verify: for the last frame in a segment that is a torn
/// write, and for any other it is corruption.
pub fn decode(bytes: &[u8]) -> (r: Option<(Frame, usize)>)
    ensures
        match r {
            Some((frame, length)) => decode_spec(bytes@) == Some((frame.value(), length as int)),
            None => decode_spec(bytes@) is None,
        },
{
    if bytes.len() < HEADER_BYTES {
        return None;
    }
    let length = u32_from_le_bytes(vstd::slice::slice_subrange(bytes, 0, 4)) as usize;
    let check = u64_from_le_bytes(vstd::slice::slice_subrange(bytes, 4, 12));
    if length > bytes.len() - HEADER_BYTES {
        return None;
    }
    let end = HEADER_BYTES + length;
    let body = vstd::slice::slice_subrange(bytes, HEADER_BYTES, end);
    if xxh3_64(body) != check {
        return None;
    }
    if body.len() < 18 {
        return None;
    }
    let sequence = u64_from_le_bytes(vstd::slice::slice_subrange(body, 0, 8));
    let recorded_at_ms = u64_from_le_bytes(vstd::slice::slice_subrange(body, 8, 16));
    let kind_length = u16_from_le_bytes(vstd::slice::slice_subrange(body, 16, 18)) as usize;
    if kind_length > body.len() - 18 {
        return None;
    }
    let kind_bytes = vstd::slice::slice_subrange(body, 18, 18 + kind_length);
    let kind = match core::str::from_utf8(kind_bytes) {
        Ok(kind) => kind.to_owned(),
        Err(_) => return None,
    };
    let payload = copy_range(body, 18 + kind_length, body.len());
    Some((Frame { sequence, recorded_at_ms, kind, payload }, end))
}

/// A frame body after its metadata was rewritten.
pub open spec fn patched_spec(bytes: Seq<u8>, sequence: u64, recorded_at_ms: u64) -> Seq<u8> {
    let body = spec_u64_to_le_bytes(sequence) + spec_u64_to_le_bytes(recorded_at_ms)
        + bytes.subrange(28, bytes.len() as int);
    bytes.subrange(0, 4) + spec_u64_to_le_bytes(xxh3_of(body)) + body
}

/// Stamp a pre-encoded frame with its sequence and time, and re-seal its check value.
pub fn patch_metadata(bytes: &mut Vec<u8>, sequence: u64, recorded_at_ms: u64) -> (r: Result<
    (),
    BrainError,
>)
    ensures
        match r {
            Ok(()) => old(bytes)@.len() >= HEADER_BYTES + 16 && final(bytes)@ == patched_spec(
                old(bytes)@,
                sequence,
                recorded_at_ms,
            ),
            Err(e) => old(bytes)@.len() < HEADER_BYTES + 16 && final(bytes)@ == old(bytes)@ && e
                == BrainError::Journal(Fault::FrameTooShort),
        },
{
    if bytes.len() < HEADER_BYTES + 16 {
        return Err(BrainError::Journal(Fault::FrameTooShort));
    }
    let ghost unpatched = bytes@;
    overwrite_bytes(bytes, HEADER_BYTES, u64_to_le_bytes(sequence).as_slice());
    overwrite_bytes(bytes, HEADER_BYTES + 8, u64_to_le_bytes(recorded_at_ms).as_slice());
    let length = bytes.len();
    let body = copy_range(bytes.as_slice(), HEADER_BYTES, length);
    let check = xxh3_64(body.as_slice());
    overwrite_bytes(bytes, 4, u64_to_le_bytes(check).as_slice());
    proof {
        let b = spec_u64_to_le_bytes(sequence) + spec_u64_to_le_bytes(recorded_at_ms)
            + unpatched.subrange(28, unpatched.len() as int);
        assert(body@ =~= b);
        assert(bytes@ =~= patched_spec(unpatched, sequence, recorded_at_ms));
    }
    Ok(())
}

/// Frame round trip: decoding a frame, wherever the bytes after it come from, gives back exactly
/// what was encoded and the frame's full length. Kinds are UTF-8 text within the `u16` length
/// field, and bodies fit the `u32` length field.
pub proof fn frame_round_trips(
    sequence: u64,
    recorded_at_ms: u64,
    kind: Seq<u8>,
    payload: Seq<u8>,
    rest: Seq<u8>,
)
    requires
        valid_utf8(kind),
        kind.len() <= u16::MAX,
        body_spec(sequence, recorded_at_ms, kind, payload).len() <= u32::MAX,
    ensures
        decode_spec(frame_spec(sequence, recorded_at_ms, kind, payload) + rest) == Some(
            (
                FrameValue { sequence, recorded_at_ms, kind, payload },
                frame_spec(sequence, recorded_at_ms, kind, payload).len() as int,
            ),
        ),
{
    lemma_auto_spec_u64_to_from_le_bytes();
    lemma_auto_spec_u32_to_from_le_bytes();
    lemma_auto_spec_u16_to_from_le_bytes();
    let body = body_spec(sequence, recorded_at_ms, kind, payload);
    let frame = frame_spec(sequence, recorded_at_ms, kind, payload);
    let bytes = frame + rest;
    let le_len = spec_u32_to_le_bytes(body.len() as u32);
    let le_check = spec_u64_to_le_bytes(xxh3_of(body));
    let le_seq = spec_u64_to_le_bytes(sequence);
    let le_at = spec_u64_to_le_bytes(recorded_at_ms);
    let le_kind = spec_u16_to_le_bytes(kind.len() as u16);
    assert(bytes.subrange(0, 4) =~= le_len);
    assert(bytes.subrange(4, 12) =~= le_check);
    assert(bytes.subrange(12, 12 + body.len() as int) =~= body);
    assert(body.subrange(0, 8) =~= le_seq);
    assert(body.subrange(8, 16) =~= le_at);
    assert(body.subrange(16, 18) =~= le_kind);
    assert(body.subrange(18, 18 + kind.len() as int) =~= kind);
    assert(body.subrange(18 + kind.len() as int, body.len() as int) =~= payload);
}

/// Stamping metadata into a frame encoded without it is the same as encoding with it.
pub proof fn patching_is_encoding(
    sequence: u64,
    recorded_at_ms: u64,
    kind: Seq<u8>,
    payload: Seq<u8>,
    old_sequence: u64,
    old_recorded_at_ms: u64,
)
    ensures
        patched_spec(
            frame_spec(old_sequence, old_recorded_at_ms, kind, payload),
            sequence,
            recorded_at_ms,
        ) == frame_spec(sequence, recorded_at_ms, kind, payload),
{
    lemma_auto_spec_u64_to_from_le_bytes();
    lemma_auto_spec_u32_to_from_le_bytes();
    lemma_auto_spec_u16_to_from_le_bytes();
    let old_frame = frame_spec(old_sequence, old_recorded_at_ms, kind, payload);
    let new_body = body_spec(sequence, recorded_at_ms, kind, payload);
    let old_body = body_spec(old_sequence, old_recorded_at_ms, kind, payload);
    assert(old_body.len() == new_body.len());
    assert(spec_u64_to_le_bytes(sequence) + spec_u64_to_le_bytes(recorded_at_ms)
        + old_frame.subrange(28, old_frame.len() as int) =~= new_body);
    assert(old_frame.subrange(0, 4) =~= spec_u32_to_le_bytes(new_body.len() as u32));
    assert(patched_spec(old_frame, sequence, recorded_at_ms) =~= frame_spec(
        sequence,
        recorded_at_ms,
        kind,
        payload,
    ));
}

/// Where a frame lives.
#[derive(Debug, Clone, Copy, PartialEq, Eq, Structural)]
pub struct Location {
    pub segment: u64,
    pub offset: u64,
    pub length: u32,
}

/// The frames a segment's bytes hold from its start, each with its length, up to the first
/// position where no whole verified frame begins.
pub open spec fn scan_spec(bytes: Seq<u8>) -> Seq<(FrameValue, int)>
    decreases bytes.len(),
{
    match decode_spec(bytes) {
        Some((frame, length)) => if 0 < length <= bytes.len() {
            seq![(frame, length)] + scan_spec(bytes.subrange(length, bytes.len() as int))
        } else {
            Seq::empty()
        },
        None => Seq::empty(),
    }
}

/// Where the `i`-th scanned frame starts: the lengths of the frames before it.
pub open spec fn scanned_offset(entries: Seq<(FrameValue, int)>, i: int) -> int
    decreases i,
{
    if i <= 0 {
        0
    } else {
        scanned_offset(entries, i - 1) + entries[i - 1].1
    }
}

/// Bytes after the last whole frame that are the start of a frame still being written: too
/// short for a header, or shorter than the header says the body is.
pub open spec fn incomplete_tail(remaining: Seq<u8>) -> bool {
    remaining.len() < HEADER_BYTES || HEADER_BYTES + spec_u32_from_le_bytes(
        remaining.subrange(0, 4),
    ) > remaining.len()
}

/// What replaying one segment found.
pub struct SegmentScan {
    /// Every whole verified frame, in write order, with where it lives.
    pub frames: Vec<(Frame, Location)>,
    /// The length of the verified prefix. Bytes beyond it are a torn final write, which the
    /// caller truncates.
    pub valid_len: usize,
}

/// Replay one segment file's bytes. A torn write is tolerated only at the end of the newest
/// segment (`is_last`); anything else that does not verify is corruption.
pub fn scan_segment(bytes: &[u8], segment: u64, is_last: bool) -> (r: Result<SegmentScan, BrainError>)
    ensures
        ({
            let entries = scan_spec(bytes@);
            let end = scanned_offset(entries, entries.len() as int);
            match r {
                Ok(scan) => {
                    &&& scan.valid_len == end
                    &&& (end == bytes@.len() || (is_last && incomplete_tail(
                        bytes@.subrange(end, bytes@.len() as int),
                    )))
                    &&& scan.frames@.len() == entries.len()
                    &&& forall|i: int|
                        0 <= i < entries.len() ==> {
                            &&& (#[trigger] scan.frames@[i]).0.value() == entries[i].0
                            &&& scan.frames@[i].1 == Location {
                                segment,
                                offset: scanned_offset(entries, i) as u64,
                                length: entries[i].1 as u32,
                            }
                        }
                },
                Err(e) => {
                    &&& end < bytes@.len()
                    &&& !(is_last && incomplete_tail(bytes@.subrange(end, bytes@.len() as int)))
                    &&& e == BrainError::Journal(
                        Fault::CorruptSegment { segment, offset: end as u64 },
                    )
                },
            }
        }),
{
    let ghost entries = scan_spec(bytes@);
    let mut frames: Vec<(Frame, Location)> = Vec::new();
    let mut offset: usize = 0;
    let ghost mut done: Seq<(FrameValue, int)> = Seq::empty();
    proof {
        assert(bytes@.subrange(0, bytes@.len() as int) =~= bytes@);
        assert(done + scan_spec(bytes@) =~= scan_spec(bytes@));
    }
    loop
        invariant
            offset <= bytes@.len(),
            entries == done + scan_spec(bytes@.subrange(offset as int, bytes@.len() as int)),
            offset == scanned_offset(done, done.len() as int),
            frames@.len() == done.len(),
            forall|i: int|
                0 <= i < done.len() ==> {
                    &&& (#[trigger] frames@[i]).0.value() == done[i].0
                    &&& frames@[i].1 == Location {
                        segment,
                        offset: scanned_offset(done, i) as u64,
                        length: done[i].1 as u32,
                    }
                },
        ensures
            offset <= bytes@.len(),
            entries == done,
            offset == scanned_offset(done, done.len() as int),
            frames@.len() == done.len(),
            forall|i: int|
                0 <= i < done.len() ==> {
                    &&& (#[trigger] frames@[i]).0.value() == done[i].0
                    &&& frames@[i].1 == Location {
                        segment,
                        offset: scanned_offset(done, i) as u64,
                        length: done[i].1 as u32,
                    }
                },
        decreases bytes@.len() - offset,
    {
        let rest = vstd::slice::slice_subrange(bytes, offset, bytes.len());
        match decode(rest) {
            Some((frame, length)) => {
                let ghost value = frame.value();
                proof {
                    let tail = bytes@.subrange(offset as int, bytes@.len() as int);
                    assert(rest@ == tail);
                    assert(scan_spec(tail) == seq![(value, length as int)] + scan_spec(
                        tail.subrange(length as int, tail.len() as int),
                    ));
                    assert(tail.subrange(length as int, tail.len() as int) =~= bytes@.subrange(
                        offset + length,
                        bytes@.len() as int,
                    ));
                }
                let location = Location { segment, offset: offset as u64, length: length as u32 };
                frames.push((frame, location));
                proof {
                    let old_done = done;
                    done = done.push((value, length as int));
                    assert(scanned_offset(done, old_done.len() as int) == scanned_offset(
                        old_done,
                        old_done.len() as int,
                    )) by {
                        lemma_scanned_offset_prefix(old_done, done, old_done.len() as int);
                    }
                    assert forall|i: int| 0 <= i < old_done.len() implies scanned_offset(done, i)
                        == scanned_offset(old_done, i) by {
                        lemma_scanned_offset_prefix(old_done, done, i);
                    }
                    assert(done =~= old_done + seq![(value, length as int)]);
                }
                offset = offset + length;
            },
            None => {
                proof {
                    assert(rest@ == bytes@.subrange(offset as int, bytes@.len() as int));
                    assert(done + scan_spec(rest@) =~= done);
                }
                break;
            },
        }
    }
    if offset < bytes.len() {
        let remaining = vstd::slice::slice_subrange(bytes, offset, bytes.len());
        let incomplete = remaining.len() < HEADER_BYTES || HEADER_BYTES as u64 + (u32_from_le_bytes(
            vstd::slice::slice_subrange(remaining, 0, 4),
        ) as u64) > remaining.len() as u64;
        if !is_last || !incomplete {
            return Err(BrainError::Journal(Fault::CorruptSegment { segment, offset: offset as u64 }));
        }
    }
    Ok(SegmentScan { frames, valid_len: offset })
}

proof fn lemma_scanned_offset_prefix(a: Seq<(FrameValue, int)>, b: Seq<(FrameValue, int)>, i: int)
    requires
        0 <= i <= a.len() <= b.len(),
        forall|k: int| 0 <= k < a.len() ==> a[k] == b[k],
    ensures
        scanned_offset(a, i) == scanned_offset(b, i),
    decreases i,
{
    if i > 0 {
        lemma_scanned_offset_prefix(a, b, i - 1);
    }
}

/// The bytes of frames written one after another.
pub open spec fn frames_bytes(frames: Seq<FrameValue>) -> Seq<u8>
    decreases frames.len(),
{
    if frames.len() == 0 {
        Seq::empty()
    } else {
        frame_spec(frames[0].sequence, frames[0].recorded_at_ms, frames[0].kind, frames[0].payload)
            + frames_bytes(frames.subrange(1, frames.len() as int))
    }
}

/// A frame whose fields fit the encoding's fixed-width length fields.
pub open spec fn encodable(frame: FrameValue) -> bool {
    &&& valid_utf8(frame.kind)
    &&& frame.kind.len() <= u16::MAX
    &&& body_spec(frame.sequence, frame.recorded_at_ms, frame.kind, frame.payload).len() <= u32::MAX
}

/// Replay law: a segment holding frames written in order, followed by bytes where no whole
/// frame verifies (nothing, or a torn write), replays to exactly those frames in write order.
pub proof fn a_segment_replays_every_frame_in_write_order(frames: Seq<FrameValue>, torn: Seq<u8>)
    requires
        forall|i: int| 0 <= i < frames.len() ==> encodable(#[trigger] frames[i]),
        decode_spec(torn) is None,
    ensures
        scan_spec(frames_bytes(frames) + torn).len() == frames.len(),
        forall|i: int|
            0 <= i < frames.len() ==> (#[trigger] scan_spec(frames_bytes(frames) + torn)[i]).0
                == frames[i],
    decreases frames.len(),
{
    if frames.len() == 0 {
        assert(frames_bytes(frames) + torn =~= torn);
    } else {
        let f = frames[0];
        let rest = frames.subrange(1, frames.len() as int);
        assert forall|i: int| 0 <= i < rest.len() implies encodable(#[trigger] rest[i]) by {
            assert(rest[i] == frames[i + 1]);
        }
        a_segment_replays_every_frame_in_write_order(rest, torn);
        let head = frame_spec(f.sequence, f.recorded_at_ms, f.kind, f.payload);
        let after = frames_bytes(rest) + torn;
        assert(encodable(frames[0]));
        frame_round_trips(f.sequence, f.recorded_at_ms, f.kind, f.payload, after);
        let all = frames_bytes(frames) + torn;
        assert(all =~= head + after);
        assert(all.subrange(head.len() as int, all.len() as int) =~= after);
        assert(f == FrameValue {
            sequence: f.sequence,
            recorded_at_ms: f.recorded_at_ms,
            kind: f.kind,
            payload: f.payload,
        });
        assert(scan_spec(all) == seq![(f, head.len() as int)] + scan_spec(after));
        assert forall|i: int| 0 <= i < frames.len() implies (#[trigger] scan_spec(all)[i]).0
            == frames[i] by {
            if i > 0 {
                assert(scan_spec(all)[i] == scan_spec(after)[i - 1]);
                assert(frames[i] == rest[i - 1]);
            }
        }
    }
}

/// Where the next frame of the log goes.
#[derive(Debug, Clone, Copy, PartialEq, Eq, Structural)]
pub struct Tail {
    pub segment: u64,
    pub offset: u64,
}

/// Placing one frame of `length` bytes: a frame that would carry a non-empty segment past its
/// size starts the next segment.
pub open spec fn place(tail: Tail, length: int) -> (Location, Tail) {
    let rotate = tail.offset > 0 && tail.offset + length > SEGMENT_BYTES;
    let segment = if rotate { (tail.segment + 1) as u64 } else { tail.segment };
    let offset = if rotate { 0 } else { tail.offset };
    (
        Location { segment, offset, length: length as u32 },
        Tail { segment, offset: (offset + length) as u64 },
    )
}

/// Placing frames of the given lengths one after another.
pub open spec fn place_all(tail: Tail, lengths: Seq<int>) -> (Seq<Location>, Tail)
    decreases lengths.len(),
{
    if lengths.len() == 0 {
        (Seq::empty(), tail)
    } else {
        let (before, mid) = place_all(tail, lengths.drop_last());
        let (location, next) = place(mid, lengths.last());
        (before.push(location), next)
    }
}

proof fn lemma_place_all_len(tail: Tail, lengths: Seq<int>)
    ensures
        place_all(tail, lengths).0.len() == lengths.len(),
    decreases lengths.len(),
{
    if lengths.len() > 0 {
        lemma_place_all_len(tail, lengths.drop_last());
    }
}

/// Placement law: a frame either starts its segment or ends within the segment size, the tail
/// sits right after it, and it lands either exactly at the old tail or at the start of the next
/// segment.
pub proof fn placed_frames_never_straddle_a_segment(tail: Tail, length: int)
    requires
        0 <= length,
        tail.segment < u64::MAX,
        tail.offset + length <= u64::MAX,
    ensures
        ({
            let (location, next) = place(tail, length);
            &&& location.offset == 0 || location.offset + length <= SEGMENT_BYTES
            &&& next.segment == location.segment
            &&& next.offset == location.offset + length
            &&& (location.segment == tail.segment && location.offset == tail.offset) || (
            location.segment == tail.segment + 1 && location.offset == 0)
        }),
{
}

pub open spec fn frame_lengths(frames: Seq<Vec<u8>>) -> Seq<int> {
    frames.map_values(|f: Vec<u8>| f@.len() as int)
}

/// Assign locations to encoded frames, in order, stamping each with its sequence (counting up
/// from `first_sequence`) and `recorded_at_ms`. The tail advances frame by frame; a frame too
/// short to carry metadata stops the batch with the tail left after the frames before it.
#[verifier::loop_isolation(false)]
pub fn prepare(
    tail: &mut Tail,
    encoded: Vec<Vec<u8>>,
    first_sequence: u64,
    recorded_at_ms: u64,
) -> (r: Result<Vec<(Location, Vec<u8>)>, BrainError>)
    requires
        first_sequence + encoded@.len() <= u64::MAX + 1,
        old(tail).segment + encoded@.len() <= u64::MAX,
    ensures
        match r {
            Ok(placed) => {
                &&& placed@.len() == encoded@.len()
                &&& *final(tail) == place_all(*old(tail), frame_lengths(encoded@)).1
                &&& forall|i: int|
                    0 <= i < encoded@.len() ==> {
                        &&& (#[trigger] placed@[i]).0 == place_all(
                            *old(tail),
                            frame_lengths(encoded@),
                        ).0[i]
                        &&& encoded@[i]@.len() >= HEADER_BYTES + 16
                        &&& placed@[i].1@ == patched_spec(
                            encoded@[i]@,
                            (first_sequence + i) as u64,
                            recorded_at_ms,
                        )
                    }
            },
            Err(e) => exists|j: int|
                0 <= j < encoded@.len() && {
                    &&& (#[trigger] encoded@[j])@.len() < HEADER_BYTES + 16
                    &&& forall|k: int| 0 <= k < j ==> (#[trigger] encoded@[k])@.len() >= HEADER_BYTES + 16
                    &&& *final(tail) == place_all(
                        *old(tail),
                        frame_lengths(encoded@).subrange(0, j),
                    ).1
                    &&& e == BrainError::Journal(Fault::FrameTooShort)
                },
        },
{
    let ghost start = *tail;
    let ghost all = encoded@;
    let ghost lengths = frame_lengths(encoded@);
    let n = encoded.len();
    let mut placed: Vec<(Location, Vec<u8>)> = Vec::new();
    for frame in it: encoded
        invariant
            n == all.len(),
            it.seq() == all,
            first_sequence + n <= u64::MAX + 1,
            start.segment + n <= u64::MAX,
            lengths == frame_lengths(all),
            placed@.len() == it.index(),
            *tail == place_all(start, lengths.subrange(0, it.index() as int)).1,
            tail.segment <= start.segment + it.index(),
            forall|k: int| 0 <= k < it.index() ==> (#[trigger] all[k])@.len() >= HEADER_BYTES + 16,
            forall|k: int|
                0 <= k < it.index() ==> {
                    &&& (#[trigger] placed@[k]).0 == place_all(
                        start,
                        lengths.subrange(0, it.index() as int),
                    ).0[k]
                    &&& placed@[k].1@ == patched_spec(
                        all[k]@,
                        (first_sequence + k) as u64,
                        recorded_at_ms,
                    )
                },
    {
        let i = placed.len();
        let ghost before = *tail;
        let mut bytes = frame;
        match patch_metadata(&mut bytes, first_sequence + i as u64, recorded_at_ms) {
            Ok(()) => {},
            Err(e) => {
                proof {
                    assert(all[i as int] == frame);
                    assert(all[i as int]@.len() < HEADER_BYTES + 16);
                    assert(lengths.subrange(0, i as int) == frame_lengths(all).subrange(0, i as int));
                    let j = i as int;
                    assert(0 <= j < all.len() && {
                        &&& (all[j])@.len() < HEADER_BYTES + 16
                        &&& forall|k: int| 0 <= k < j ==> (#[trigger] all[k])@.len() >= HEADER_BYTES + 16
                        &&& *tail == place_all(start, frame_lengths(all).subrange(0, j)).1
                        &&& e == BrainError::Journal(Fault::FrameTooShort)
                    });
                    assert(exists|j: int|
                        0 <= j < all.len() && {
                            &&& (#[trigger] all[j])@.len() < HEADER_BYTES + 16
                            &&& forall|k: int| 0 <= k < j ==> (#[trigger] all[k])@.len() >= HEADER_BYTES + 16
                            &&& *tail == place_all(start, frame_lengths(all).subrange(0, j)).1
                            &&& e == BrainError::Journal(Fault::FrameTooShort)
                        });
                }
                return Err(e);
            },
        }
        let length = bytes.len() as u64;
        proof {
            lemma_auto_spec_u64_to_from_le_bytes();
            assert(all[i as int] == frame);
            assert(length == lengths[i as int]);
            assert(bytes@.len() == all[i as int]@.len());
        }
        let rotate = tail.offset > 0 && (tail.offset > SEGMENT_BYTES || length > SEGMENT_BYTES
            - tail.offset);
        if rotate {
            tail.segment = tail.segment + 1;
            tail.offset = 0;
        }
        let location = Location { segment: tail.segment, offset: tail.offset, length: length as u32 };
        tail.offset = tail.offset + length;
        let ghost old_placed = placed@;
        placed.push((location, bytes));
        proof {
            let prefix = lengths.subrange(0, i as int);
            let grown = lengths.subrange(0, i + 1);
            assert(grown.drop_last() =~= prefix);
            assert(grown.last() == length);
            assert(place(before, length as int) == (location, *tail));
            let old_places = place_all(start, prefix).0;
            lemma_place_all_len(start, prefix);
            assert(place_all(start, grown).0 == old_places.push(location));
            assert(place_all(start, grown).1 == *tail);
            assert forall|k: int| 0 <= k < i + 1 implies {
                &&& (#[trigger] placed@[k]).0 == place_all(start, grown).0[k]
                &&& placed@[k].1@ == patched_spec(all[k]@, (first_sequence + k) as u64, recorded_at_ms)
            } by {
                if k < i {
                    assert(placed@[k] == old_placed[k]);
                }
            }
        }
    }
    proof {
        assert(lengths.subrange(0, n as int) =~= lengths);
    }
    Ok(placed)
}

} // verus!
