//! The fake `libaaudio.so` host bridge: the 26-slot AAudio C ABI the guest
//! resolves through `dlopen`/`dlsym`, the registry of fake builders and
//! streams its host thunks serve, the live-stream snapshot a drain uses, and
//! the PCM WAV framing of the host sink.

use vstd::prelude::*;
use vstd::std_specs::hash::*;
use std::collections::HashMap;
use crate::bytes::{c_str, c_str_len, prefix_eq, le_u32, le_u16, push_le_u32, push_le_u16};

verus! {

broadcast use vstd::std_specs::hash::group_hash_axioms;

/// Number of slots of the guest's AAudio function-pointer table.
pub const AAUDIO_SLOT_COUNT: usize = 26;

/// The symbol the guest resolves into table slot `i` (slot index is the ABI).
pub open spec fn aaudio_symbol(i: int) -> Seq<char> {
    if i == 0 {
        "AAudio_createStreamBuilder"@
    } else if i == 1 {
        "AAudioStreamBuilder_openStream"@
    } else if i == 2 {
        "AAudioStreamBuilder_setBufferCapacityInFrames"@
    } else if i == 3 {
        "AAudioStreamBuilder_setFormat"@
    } else if i == 4 {
        "AAudioStreamBuilder_setDirection"@
    } else if i == 5 {
        "AAudioStreamBuilder_setPerformanceMode"@
    } else if i == 6 {
        "AAudioStreamBuilder_setDataCallback"@
    } else if i == 7 {
        "AAudioStreamBuilder_setErrorCallback"@
    } else if i == 8 {
        "AAudioStreamBuilder_delete"@
    } else if i == 9 {
        "AAudioStreamBuilder_setUsage"@
    } else if i == 10 {
        "AAudioStreamBuilder_setInputPreset"@
    } else if i == 11 {
        "AAudioStream_getFramesPerBurst"@
    } else if i == 12 {
        "AAudioStream_getBufferCapacityInFrames"@
    } else if i == 13 {
        "AAudioStream_getBufferSizeInFrames"@
    } else if i == 14 {
        "AAudioStream_getSampleRate"@
    } else if i == 15 {
        "AAudioStream_getChannelCount"@
    } else if i == 16 {
        "AAudioStream_getXRunCount"@
    } else if i == 17 {
        "AAudioStream_setBufferSizeInFrames"@
    } else if i == 18 {
        "AAudioStream_getFormat"@
    } else if i == 19 {
        "AAudioStream_getState"@
    } else if i == 20 {
        "AAudioStream_requestStart"@
    } else if i == 21 {
        "AAudioStream_requestPause"@
    } else if i == 22 {
        "AAudioStream_requestStop"@
    } else if i == 23 {
        "AAudioStream_close"@
    } else if i == 24 {
        "AAudioStream_read"@
    } else if i == 25 {
        "AAudioStream_waitForStateChange"@
    } else {
        Seq::empty()
    }
}

/// The length of the symbol of slot `i`.
spec fn symbol_len(i: int) -> nat {
    if i == 0 {
        26
    } else if i == 1 {
        30
    } else if i == 2 {
        45
    } else if i == 3 {
        29
    } else if i == 4 {
        32
    } else if i == 5 {
        38
    } else if i == 6 {
        35
    } else if i == 7 {
        36
    } else if i == 8 {
        26
    } else if i == 9 {
        28
    } else if i == 10 {
        34
    } else if i == 11 {
        30
    } else if i == 12 {
        38
    } else if i == 13 {
        34
    } else if i == 14 {
        26
    } else if i == 15 {
        28
    } else if i == 16 {
        25
    } else if i == 17 {
        34
    } else if i == 18 {
        22
    } else if i == 19 {
        21
    } else if i == 20 {
        25
    } else if i == 21 {
        25
    } else if i == 22 {
        24
    } else if i == 23 {
        18
    } else if i == 24 {
        17
    } else if i == 25 {
        31
    } else {
        0
    }
}

/// Every symbol is made of ASCII letters and underscores, and has the
/// length `symbol_len` gives.
proof fn lemma_symbol_shape(i: int)
    requires
        0 <= i < 26,
    ensures
        aaudio_symbol(i).len() == symbol_len(i),
        forall|k: int| 0 <= k < aaudio_symbol(i).len() ==> 'A' <= #[trigger] aaudio_symbol(i)[k] <= 'z',
{
    if i == 0 {
        reveal_strlit("AAudio_createStreamBuilder");
    } else if i == 1 {
        reveal_strlit("AAudioStreamBuilder_openStream");
    } else if i == 2 {
        reveal_strlit("AAudioStreamBuilder_setBufferCapacityInFrames");
    } else if i == 3 {
        reveal_strlit("AAudioStreamBuilder_setFormat");
    } else if i == 4 {
        reveal_strlit("AAudioStreamBuilder_setDirection");
    } else if i == 5 {
        reveal_strlit("AAudioStreamBuilder_setPerformanceMode");
    } else if i == 6 {
        reveal_strlit("AAudioStreamBuilder_setDataCallback");
    } else if i == 7 {
        reveal_strlit("AAudioStreamBuilder_setErrorCallback");
    } else if i == 8 {
        reveal_strlit("AAudioStreamBuilder_delete");
    } else if i == 9 {
        reveal_strlit("AAudioStreamBuilder_setUsage");
    } else if i == 10 {
        reveal_strlit("AAudioStreamBuilder_setInputPreset");
    } else if i == 11 {
        reveal_strlit("AAudioStream_getFramesPerBurst");
    } else if i == 12 {
        reveal_strlit("AAudioStream_getBufferCapacityInFrames");
    } else if i == 13 {
        reveal_strlit("AAudioStream_getBufferSizeInFrames");
    } else if i == 14 {
        reveal_strlit("AAudioStream_getSampleRate");
    } else if i == 15 {
        reveal_strlit("AAudioStream_getChannelCount");
    } else if i == 16 {
        reveal_strlit("AAudioStream_getXRunCount");
    } else if i == 17 {
        reveal_strlit("AAudioStream_setBufferSizeInFrames");
    } else if i == 18 {
        reveal_strlit("AAudioStream_getFormat");
    } else if i == 19 {
        reveal_strlit("AAudioStream_getState");
    } else if i == 20 {
        reveal_strlit("AAudioStream_requestStart");
    } else if i == 21 {
        reveal_strlit("AAudioStream_requestPause");
    } else if i == 22 {
        reveal_strlit("AAudioStream_requestStop");
    } else if i == 23 {
        reveal_strlit("AAudioStream_close");
    } else if i == 24 {
        reveal_strlit("AAudioStream_read");
    } else if i == 25 {
        reveal_strlit("AAudioStream_waitForStateChange");
    }
}

/// The bytes of the symbol of slot `i`.
pub open spec fn aaudio_symbol_bytes(i: int) -> Seq<u8> {
    vstd::utf8::encode_utf8(aaudio_symbol(i))
}

/// Symbol for a given table slot, `None` past the 26 slots.
pub fn symbol_for_slot(i: usize) -> (r: Option<&'static str>)
    ensures
        i < 26 ==> (r matches Some(s) && s@ == aaudio_symbol(i as int)),
        i >= 26 ==> r is None,
{
    match i {
        0 => Some("AAudio_createStreamBuilder"),
        1 => Some("AAudioStreamBuilder_openStream"),
        2 => Some("AAudioStreamBuilder_setBufferCapacityInFrames"),
        3 => Some("AAudioStreamBuilder_setFormat"),
        4 => Some("AAudioStreamBuilder_setDirection"),
        5 => Some("AAudioStreamBuilder_setPerformanceMode"),
        6 => Some("AAudioStreamBuilder_setDataCallback"),
        7 => Some("AAudioStreamBuilder_setErrorCallback"),
        8 => Some("AAudioStreamBuilder_delete"),
        9 => Some("AAudioStreamBuilder_setUsage"),
        10 => Some("AAudioStreamBuilder_setInputPreset"),
        11 => Some("AAudioStream_getFramesPerBurst"),
        12 => Some("AAudioStream_getBufferCapacityInFrames"),
        13 => Some("AAudioStream_getBufferSizeInFrames"),
        14 => Some("AAudioStream_getSampleRate"),
        15 => Some("AAudioStream_getChannelCount"),
        16 => Some("AAudioStream_getXRunCount"),
        17 => Some("AAudioStream_setBufferSizeInFrames"),
        18 => Some("AAudioStream_getFormat"),
        19 => Some("AAudioStream_getState"),
        20 => Some("AAudioStream_requestStart"),
        21 => Some("AAudioStream_requestPause"),
        22 => Some("AAudioStream_requestStop"),
        23 => Some("AAudioStream_close"),
        24 => Some("AAudioStream_read"),
        25 => Some("AAudioStream_waitForStateChange"),
        _ => None,
    }
}

/// The slot whose symbol is the C string held by `name`: the first such
/// slot, or `None`.
pub open spec fn spec_slot_for_symbol(name: Seq<u8>) -> Option<usize> {
    if exists|i: int| 0 <= i < 26 && aaudio_symbol_bytes(i) == c_str(name) {
        Some((choose|i: int| 0 <= i < 26 && aaudio_symbol_bytes(i) == c_str(name) && forall|j: int|
            0 <= j < i ==> aaudio_symbol_bytes(j) != c_str(name)) as usize)
    } else {
        None
    }
}

/// Slot index for a symbol name (read up to its first NUL), or `None` if it
/// is not one of the 26 AAudio symbols.
pub fn slot_for_symbol(name: &[u8]) -> (r: Option<usize>)
    ensures
        r == spec_slot_for_symbol(name@),
        r matches Some(i) ==> i < 26 && aaudio_symbol_bytes(i as int) == c_str(name@),
{
    let end = c_str_len(name);
    let mut i: usize = 0;
    while i < 26
        invariant
            i <= 26,
            end <= name@.len(),
            c_str(name@) == name@.subrange(0, end as int),
            forall|j: int| 0 <= j < i ==> aaudio_symbol_bytes(j) != c_str(name@),
        decreases 26 - i,
    {
        let s = symbol_for_slot(i);
        let sym = match s {
            Some(t) => t,
            None => {
                return None;
            }
        };
        if prefix_eq(name, end, sym.as_bytes()) {
            proof {
                let w = choose|k: int| 0 <= k < 26 && aaudio_symbol_bytes(k) == c_str(name@) && forall|j: int|
                    0 <= j < k ==> aaudio_symbol_bytes(j) != c_str(name@);
                assert(0 <= i < 26 && aaudio_symbol_bytes(i as int) == c_str(name@) && forall|j: int|
                    0 <= j < i ==> aaudio_symbol_bytes(j) != c_str(name@));
                if w < i {
                } else if w > i {
                }
            }
            return Some(i);
        }
        i = i + 1;
    }
    None
}

/// The 26 symbols are pairwise distinct.
proof fn lemma_symbols_distinct(i: int, j: int)
    requires
        0 <= j < i < 26,
    ensures
        aaudio_symbol(i) != aaudio_symbol(j),
{
    lemma_symbol_shape(i);
    lemma_symbol_shape(j);
    if symbol_len(i) == symbol_len(j) {
        if i == 20 && j == 16 {
            reveal_strlit("AAudioStream_requestStart");
            reveal_strlit("AAudioStream_getXRunCount");
            assert(aaudio_symbol(i)[13] != aaudio_symbol(j)[13]);
        }
        if i == 21 && j == 16 {
            reveal_strlit("AAudioStream_requestPause");
            reveal_strlit("AAudioStream_getXRunCount");
            assert(aaudio_symbol(i)[13] != aaudio_symbol(j)[13]);
        }
        if i == 21 && j == 20 {
            reveal_strlit("AAudioStream_requestPause");
            reveal_strlit("AAudioStream_requestStart");
            assert(aaudio_symbol(i)[20] != aaudio_symbol(j)[20]);
        }
        if i == 8 && j == 0 {
            reveal_strlit("AAudioStreamBuilder_delete");
            reveal_strlit("AAudio_createStreamBuilder");
            assert(aaudio_symbol(i)[6] != aaudio_symbol(j)[6]);
        }
        if i == 14 && j == 0 {
            reveal_strlit("AAudioStream_getSampleRate");
            reveal_strlit("AAudio_createStreamBuilder");
            assert(aaudio_symbol(i)[6] != aaudio_symbol(j)[6]);
        }
        if i == 14 && j == 8 {
            reveal_strlit("AAudioStream_getSampleRate");
            reveal_strlit("AAudioStreamBuilder_delete");
            assert(aaudio_symbol(i)[12] != aaudio_symbol(j)[12]);
        }
        if i == 15 && j == 9 {
            reveal_strlit("AAudioStream_getChannelCount");
            reveal_strlit("AAudioStreamBuilder_setUsage");
            assert(aaudio_symbol(i)[12] != aaudio_symbol(j)[12]);
        }
        if i == 11 && j == 1 {
            reveal_strlit("AAudioStream_getFramesPerBurst");
            reveal_strlit("AAudioStreamBuilder_openStream");
            assert(aaudio_symbol(i)[12] != aaudio_symbol(j)[12]);
        }
        if i == 13 && j == 10 {
            reveal_strlit("AAudioStream_getBufferSizeInFrames");
            reveal_strlit("AAudioStreamBuilder_setInputPreset");
            assert(aaudio_symbol(i)[12] != aaudio_symbol(j)[12]);
        }
        if i == 17 && j == 10 {
            reveal_strlit("AAudioStream_setBufferSizeInFrames");
            reveal_strlit("AAudioStreamBuilder_setInputPreset");
            assert(aaudio_symbol(i)[12] != aaudio_symbol(j)[12]);
        }
        if i == 17 && j == 13 {
            reveal_strlit("AAudioStream_setBufferSizeInFrames");
            reveal_strlit("AAudioStream_getBufferSizeInFrames");
            assert(aaudio_symbol(i)[13] != aaudio_symbol(j)[13]);
        }
        if i == 12 && j == 5 {
            reveal_strlit("AAudioStream_getBufferCapacityInFrames");
            reveal_strlit("AAudioStreamBuilder_setPerformanceMode");
            assert(aaudio_symbol(i)[12] != aaudio_symbol(j)[12]);
        }
    }
}

/// A symbol's bytes are its ASCII characters, none of them NUL, so the
/// symbol is its own C string; and distinct slots have distinct bytes.
proof fn lemma_symbol_bytes(i: int)
    requires
        0 <= i < 26,
    ensures
        c_str(aaudio_symbol_bytes(i)) == aaudio_symbol_bytes(i),
        forall|j: int| 0 <= j < 26 && j != i ==> aaudio_symbol_bytes(j) != aaudio_symbol_bytes(i),
{
    broadcast use vstd::utf8::encode_utf8_decode_utf8;

    let s = aaudio_symbol(i);
    let b = aaudio_symbol_bytes(i);
    lemma_symbol_shape(i);
    assert forall|k: int| 0 <= k < s.len() implies '\0' <= #[trigger] s[k] <= '\u{7f}' by {
        assert('A' <= s[k] <= 'z');
    }
    assert(vstd::utf8::is_ascii_chars(s));
    vstd::utf8::is_ascii_chars_encode_utf8(s);
    assert forall|k: int| 0 <= k < b.len() implies b[k] != 0 by {
        assert(s[k] as u8 == b[k]);
        assert('A' <= s[k] <= 'z');
    }
    crate::bytes::lemma_nul_from_bounds(b, 0);
    assert(c_str(b) =~= b);
    assert forall|j: int| 0 <= j < 26 && j != i implies aaudio_symbol_bytes(j) != b by {
        if aaudio_symbol_bytes(j) == b {
            assert(vstd::utf8::decode_utf8(aaudio_symbol_bytes(j)) == aaudio_symbol(j));
            assert(vstd::utf8::decode_utf8(b) == s);
            if j < i {
                lemma_symbols_distinct(i, j);
            } else {
                lemma_symbols_distinct(j, i);
            }
        }
    }
}

/// The symbol table round-trips: looking up the symbol of slot `i` finds
/// slot `i` (for all 26 slots).
pub proof fn law_symbol_slots_round_trip(i: int)
    requires
        0 <= i < 26,
    ensures
        spec_slot_for_symbol(aaudio_symbol_bytes(i)) == Some(i as usize),
{
    let b = aaudio_symbol_bytes(i);
    lemma_symbol_bytes(i);
    assert(0 <= i < 26 && aaudio_symbol_bytes(i) == c_str(b) && forall|j: int|
        0 <= j < i ==> aaudio_symbol_bytes(j) != c_str(b));
    let w = choose|k: int| 0 <= k < 26 && aaudio_symbol_bytes(k) == c_str(b) && forall|j: int|
        0 <= j < k ==> aaudio_symbol_bytes(j) != c_str(b);
    if w != i {
        assert(aaudio_symbol_bytes(w) == b);
    }
}

/// Lookup reads a name only up to its first NUL: names that agree up to
/// their first NUL find the same slot, and a slot found is one of the 26.
pub proof fn law_slot_depends_on_c_string(name: Seq<u8>, other: Seq<u8>)
    ensures
        c_str(name) == c_str(other) ==> spec_slot_for_symbol(name) == spec_slot_for_symbol(other),
        spec_slot_for_symbol(name) matches Some(s) ==> s < 26,
{
}

/// AAudio success code.
pub const AAUDIO_OK: u64 = 0;
/// `openStream` on a missing or unknown builder.
pub const OPEN_STREAM_BAD_BUILDER: u64 = 0x33;
/// A stream control call on an unknown stream handle.
pub const INVALID_STREAM_HANDLE: u64 = 0x1d;
pub const FORMAT_UNDEFINED: i32 = 0;
pub const FORMAT_PCM_I16: i32 = 1;
pub const FORMAT_PCM_FLOAT: i32 = 2;
pub const STATE_STARTED: u32 = 3;
pub const STATE_STOPPING: u32 = 6;
pub const STATE_STOPPED: u32 = 7;
/// The state the guest's stop loop waits for; unknown streams report it too.
pub const STATE_DISCONNECTED: u32 = 10;

/// Builder handles are `0xAA00_<idx>` (index from 1).
pub open spec fn spec_builder_handle(i: usize) -> u64 {
    0xAA00_0000u64 | (i as u64)
}

/// Stream handles are `0xAA01_<idx>` (index from 1).
pub open spec fn spec_stream_handle(i: usize) -> u64 {
    0xAA01_0000u64 | (i as u64)
}

/// The builder index a handle names: its tag is 0xAA00 and its low 16 bits
/// are non-zero.
pub open spec fn spec_builder_idx(h: u64) -> Option<usize> {
    if h >> 16u64 == 0xAA00u64 && (h & 0xFFFFu64) != 0 {
        Some((h & 0xFFFFu64) as usize)
    } else {
        None
    }
}

/// The stream index a handle names: its tag is 0xAA01 and its low 16 bits
/// are non-zero.
pub open spec fn spec_stream_idx(h: u64) -> Option<usize> {
    if h >> 16u64 == 0xAA01u64 && (h & 0xFFFFu64) != 0 {
        Some((h & 0xFFFFu64) as usize)
    } else {
        None
    }
}

/// The opaque handle of builder `i`.
pub fn builder_handle(i: usize) -> (h: u64)
    ensures
        h == spec_builder_handle(i),
{
    0xAA00_0000u64 | (i as u64)
}

/// The opaque handle of stream `i`.
pub fn stream_handle(i: usize) -> (h: u64)
    ensures
        h == spec_stream_handle(i),
{
    0xAA01_0000u64 | (i as u64)
}

/// The builder index named by `h`, if it is a builder handle.
pub fn builder_idx(h: u64) -> (r: Option<usize>)
    ensures
        r == spec_builder_idx(h),
        r matches Some(i) ==> 1 <= i <= 0xFFFF,
{
    if h >> 16u64 == 0xAA00u64 {
        let low = h & 0xFFFFu64;
        if low != 0 {
            assert(h & 0xFFFFu64 <= 0xFFFFu64) by (bit_vector);
            return Some(low as usize);
        }
    }
    None
}

/// The stream index named by `h`, if it is a stream handle. The tag check
/// keeps a bare low index from ever aliasing a real stream.
pub fn stream_idx(h: u64) -> (r: Option<usize>)
    ensures
        r == spec_stream_idx(h),
        r matches Some(i) ==> 1 <= i <= 0xFFFF,
{
    if h >> 16u64 == 0xAA01u64 {
        let low = h & 0xFFFFu64;
        if low != 0 {
            assert(h & 0xFFFFu64 <= 0xFFFFu64) by (bit_vector);
            return Some(low as usize);
        }
    }
    None
}

/// Handles round-trip: the handle of builder (stream) `i`, for `i` in
/// 1..=0xFFFF, names builder (stream) `i` again, and builder and stream
/// handles never name each other's kind.
pub proof fn law_handles_round_trip(i: usize)
    requires
        1 <= i <= 0xFFFF,
    ensures
        spec_builder_idx(spec_builder_handle(i)) == Some(i),
        spec_stream_idx(spec_stream_handle(i)) == Some(i),
        spec_stream_idx(spec_builder_handle(i)) is None,
        spec_builder_idx(spec_stream_handle(i)) is None,
{
    let x = i as u64;
    assert(1 <= x <= 0xFFFF ==> ((0xAA00_0000u64 | x) >> 16u64 == 0xAA00u64 && (0xAA00_0000u64
        | x) & 0xFFFFu64 == x)) by (bit_vector);
    assert(1 <= x <= 0xFFFF ==> ((0xAA01_0000u64 | x) >> 16u64 == 0xAA01u64 && (0xAA01_0000u64
        | x) & 0xFFFFu64 == x)) by (bit_vector);
}

/// A new object's handle names it: the handle `createStreamBuilder` hands
/// out for the `n`-th builder finds that builder (position `n - 1`) among
/// the `n` builders, the handle `openStream` hands out for the `n`-th
/// stream finds that stream, and neither kind of handle is taken for the
/// other (for up to 0xFFFF objects of each kind).
pub proof fn law_new_handles_name_new_objects(n: nat)
    requires
        1 <= n <= 0xFFFF,
    ensures
        builder_pos(spec_builder_handle(n as usize), n) == Some(n - 1),
        stream_pos(spec_stream_handle(n as usize), n) == Some(n - 1),
        stream_pos(spec_builder_handle(n as usize), n) is None,
        builder_pos(spec_stream_handle(n as usize), n) is None,
{
    law_handles_round_trip(n as usize);
}

/// Host-side fields of a fake stream builder. The guest never dereferences
/// the handle; these are what the setters record.
#[derive(Clone, Copy, Debug)]
pub struct FakeBuilder {
    pub data_cb: u64,
    pub data_userdata: u64,
    pub err_cb: u64,
    pub err_userdata: u64,
    pub format: i32,
    pub direction: i32,
    pub buffer_capacity: i32,
}

/// A builder with every field zero.
pub open spec fn is_blank_builder(b: FakeBuilder) -> bool {
    b.data_cb == 0 && b.data_userdata == 0 && b.err_cb == 0 && b.err_userdata == 0 && b.format
        == 0 && b.direction == 0 && b.buffer_capacity == 0
}

fn blank_builder() -> (b: FakeBuilder)
    ensures
        is_blank_builder(b),
{
    FakeBuilder {
        data_cb: 0,
        data_userdata: 0,
        err_cb: 0,
        err_userdata: 0,
        format: 0,
        direction: 0,
        buffer_capacity: 0,
    }
}

/// Host-side values of a fake stream: what its getters return.
#[derive(Clone, Copy, Debug)]
pub struct FakeStream {
    pub data_cb: u64,
    pub data_userdata: u64,
    pub err_cb: u64,
    pub err_userdata: u64,
    pub format: i32,
    pub direction: i32,
    pub sample_rate: i32,
    pub channels: i32,
    pub frames_per_burst: i32,
    pub buffer_capacity: i32,
    pub buffer_size: i32,
    pub state: u32,
    pub xrun: u32,
}

/// The stream `openStream` makes from builder `b`: the builder's callbacks
/// and direction, with device-native defaults (48 kHz, stereo, 192 frames
/// per burst, format UNDEFINED) and state STOPPED.
pub open spec fn spec_stream_from_builder(b: FakeBuilder) -> FakeStream {
    FakeStream {
        data_cb: b.data_cb,
        data_userdata: b.data_userdata,
        err_cb: b.err_cb,
        err_userdata: b.err_userdata,
        format: FORMAT_UNDEFINED,
        direction: b.direction,
        sample_rate: 48_000,
        channels: 2,
        frames_per_burst: 192,
        buffer_capacity: 0,
        buffer_size: 0,
        state: STATE_STOPPED,
        xrun: 0,
    }
}

impl FakeStream {
    /// The stream `openStream` makes from builder `b`.
    pub fn from_builder(b: &FakeBuilder) -> (s: FakeStream)
        ensures
            s == spec_stream_from_builder(*b),
    {
        FakeStream {
            data_cb: b.data_cb,
            data_userdata: b.data_userdata,
            err_cb: b.err_cb,
            err_userdata: b.err_userdata,
            format: FORMAT_UNDEFINED,
            direction: b.direction,
            sample_rate: 48_000,
            channels: 2,
            frames_per_burst: 192,
            buffer_capacity: 0,
            buffer_size: 0,
            state: STATE_STOPPED,
            xrun: 0,
        }
    }
}

/// A stream `openStream` creates is stopped until started: it reports
/// state 7 (STOPPED), the device-native 48000 Hz, 2 channels and 192
/// frames per burst, format 0 (UNDEFINED), no buffer capacity or size and
/// no xruns, and it keeps the builder's callbacks and direction. The handle
/// returned for it finds it among the streams (for up to 0xFFFF streams),
/// so `getState` on that handle reports 7 before any `requestStart`.
pub proof fn law_opened_stream_starts_stopped(streams: Seq<FakeStream>, b: FakeBuilder)
    requires
        streams.len() < 0xFFFF,
    ensures
        ({
            let s2 = streams.push(spec_stream_from_builder(b));
            let s = s2[streams.len() as int];
            &&& stream_pos(spec_stream_handle(s2.len() as usize), s2.len()) == Some(
                streams.len() as int,
            )
            &&& s.state == 7
            &&& s.sample_rate == 48000
            &&& s.channels == 2
            &&& s.frames_per_burst == 192
            &&& s.format == 0
            &&& s.buffer_capacity == 0
            &&& s.buffer_size == 0
            &&& s.xrun == 0
            &&& s.data_cb == b.data_cb
            &&& s.data_userdata == b.data_userdata
            &&& s.err_cb == b.err_cb
            &&& s.err_userdata == b.err_userdata
            &&& s.direction == b.direction
        }),
{
    law_new_handles_name_new_objects(streams.len() + 1);
}

/// The 0-based position of the builder `h` names among `n` builders.
pub open spec fn builder_pos(h: u64, n: nat) -> Option<int> {
    match spec_builder_idx(h) {
        Some(i) => if i <= n {
            Some(i - 1)
        } else {
            None
        },
        None => None,
    }
}

/// The 0-based position of the stream `h` names among `n` streams.
pub open spec fn stream_pos(h: u64, n: nat) -> Option<int> {
    match spec_stream_idx(h) {
        Some(i) => if i <= n {
            Some(i - 1)
        } else {
            None
        },
        None => None,
    }
}

/// The registry of fake AAudio objects the host thunks serve.
pub struct Registry {
    builders: Vec<FakeBuilder>,
    streams: Vec<FakeStream>,
}

impl Registry {
    /// The builders, in creation order (builder `i` is at position `i - 1`).
    pub closed spec fn builders(&self) -> Seq<FakeBuilder> {
        self.builders@
    }

    /// The streams, in opening order (stream `i` is at position `i - 1`).
    pub closed spec fn streams(&self) -> Seq<FakeStream> {
        self.streams@
    }

    /// An empty registry.
    pub fn new() -> (r: Registry)
        ensures
            r.builders().len() == 0,
            r.streams().len() == 0,
    {
        Registry { builders: Vec::new(), streams: Vec::new() }
    }

    /// Number of builders created.
    pub fn builder_count(&self) -> (n: usize)
        ensures
            n == self.builders().len(),
    {
        self.builders.len()
    }

    /// Number of streams opened.
    pub fn stream_count(&self) -> (n: usize)
        ensures
            n == self.streams().len(),
    {
        self.streams.len()
    }

    /// Drop every builder and stream.
    pub fn clear(&mut self)
        ensures
            final(self).builders().len() == 0,
            final(self).streams().len() == 0,
    {
        self.builders = Vec::new();
        self.streams = Vec::new();
    }

    /// `AAudio_createStreamBuilder`: append a blank builder and return its
    /// handle (its 1-based index under the builder tag).
    pub fn create_stream_builder(&mut self) -> (h: u64)
        requires
            old(self).builders().len() < usize::MAX,
        ensures
            final(self).builders().len() == old(self).builders().len() + 1,
            final(self).builders().drop_last() == old(self).builders(),
            is_blank_builder(final(self).builders().last()),
            final(self).streams() == old(self).streams(),
            h == spec_builder_handle(final(self).builders().len() as usize),
    {
        self.builders.push(blank_builder());
        proof {
            assert(self.builders@.drop_last() =~= old(self).builders@);
        }
        builder_handle(self.builders.len())
    }

    /// `AAudioStreamBuilder_openStream`: open a stream from the builder `b`
    /// names and return the new stream's handle, or `Err(0x33)` when `b`
    /// names no existing builder (nothing changes then).
    pub fn builder_open_stream(&mut self, b: u64) -> (r: Result<u64, u64>)
        requires
            old(self).streams().len() < usize::MAX,
        ensures
            final(self).builders() == old(self).builders(),
            builder_pos(b, old(self).builders().len()) is None ==> r == Err::<u64, u64>(
                OPEN_STREAM_BAD_BUILDER,
            ) && final(self).streams() == old(self).streams(),
            builder_pos(b, old(self).builders().len()) matches Some(p) ==> {
                &&& final(self).streams() == old(self).streams().push(
                    spec_stream_from_builder(old(self).builders()[p]),
                )
                &&& r == Ok::<u64, u64>(spec_stream_handle(final(self).streams().len() as usize))
            },
    {
        let bi = match builder_idx(b) {
            Some(i) => i,
            None => {
                return Err(OPEN_STREAM_BAD_BUILDER);
            },
        };
        if bi > self.builders.len() {
            return Err(OPEN_STREAM_BAD_BUILDER);
        }
        let s = FakeStream::from_builder(&self.builders[bi - 1]);
        self.streams.push(s);
        Ok(stream_handle(self.streams.len()))
    }

    /// `AAudioStreamBuilder_setBufferCapacityInFrames`: record the capacity
    /// (low 32 bits) on the builder `b` names; unknown builders are ignored.
    /// Always AAUDIO_OK.
    pub fn builder_set_buffer_capacity(&mut self, b: u64, frames: u64) -> (r: u64)
        ensures
            r == AAUDIO_OK,
            final(self).streams() == old(self).streams(),
            final(self).builders().len() == old(self).builders().len(),
            forall|p: int| 0 <= p < old(self).builders().len() ==> #[trigger] final(self).builders()[p]
                == if builder_pos(b, old(self).builders().len()) == Some(p) {
                FakeBuilder { buffer_capacity: frames as i32, ..old(self).builders()[p] }
            } else {
                old(self).builders()[p]
            },
    {
        if let Some(i) = builder_idx(b) {
            if i <= self.builders.len() {
                let mut nb = self.builders[i - 1];
                nb.buffer_capacity = frames as i32;
                self.builders.set(i - 1, nb);
            }
        }
        AAUDIO_OK
    }

    /// `AAudioStreamBuilder_setFormat`: record the format (low 32 bits).
    pub fn builder_set_format(&mut self, b: u64, format: u64) -> (r: u64)
        ensures
            r == AAUDIO_OK,
            final(self).streams() == old(self).streams(),
            final(self).builders().len() == old(self).builders().len(),
            forall|p: int| 0 <= p < old(self).builders().len() ==> #[trigger] final(self).builders()[p]
                == if builder_pos(b, old(self).builders().len()) == Some(p) {
                FakeBuilder { format: format as i32, ..old(self).builders()[p] }
            } else {
                old(self).builders()[p]
            },
    {
        if let Some(i) = builder_idx(b) {
            if i <= self.builders.len() {
                let mut nb = self.builders[i - 1];
                nb.format = format as i32;
                self.builders.set(i - 1, nb);
            }
        }
        AAUDIO_OK
    }

    /// `AAudioStreamBuilder_setDirection`: record the direction (low 32 bits).
    pub fn builder_set_direction(&mut self, b: u64, direction: u64) -> (r: u64)
        ensures
            r == AAUDIO_OK,
            final(self).streams() == old(self).streams(),
            final(self).builders().len() == old(self).builders().len(),
            forall|p: int| 0 <= p < old(self).builders().len() ==> #[trigger] final(self).builders()[p]
                == if builder_pos(b, old(self).builders().len()) == Some(p) {
                FakeBuilder { direction: direction as i32, ..old(self).builders()[p] }
            } else {
                old(self).builders()[p]
            },
    {
        if let Some(i) = builder_idx(b) {
            if i <= self.builders.len() {
                let mut nb = self.builders[i - 1];
                nb.direction = direction as i32;
                self.builders.set(i - 1, nb);
            }
        }
        AAUDIO_OK
    }

    /// `AAudioStreamBuilder_setDataCallback`: record the guest data
    /// callback and its userdata.
    pub fn builder_set_data_callback(&mut self, b: u64, cb: u64, userdata: u64) -> (r: u64)
        ensures
            r == AAUDIO_OK,
            final(self).streams() == old(self).streams(),
            final(self).builders().len() == old(self).builders().len(),
            forall|p: int| 0 <= p < old(self).builders().len() ==> #[trigger] final(self).builders()[p]
                == if builder_pos(b, old(self).builders().len()) == Some(p) {
                FakeBuilder { data_cb: cb, data_userdata: userdata, ..old(self).builders()[p] }
            } else {
                old(self).builders()[p]
            },
    {
        if let Some(i) = builder_idx(b) {
            if i <= self.builders.len() {
                let mut nb = self.builders[i - 1];
                nb.data_cb = cb;
                nb.data_userdata = userdata;
                self.builders.set(i - 1, nb);
            }
        }
        AAUDIO_OK
    }

    /// `AAudioStreamBuilder_setErrorCallback`: record the guest error
    /// callback and its userdata.
    pub fn builder_set_error_callback(&mut self, b: u64, cb: u64, userdata: u64) -> (r: u64)
        ensures
            r == AAUDIO_OK,
            final(self).streams() == old(self).streams(),
            final(self).builders().len() == old(self).builders().len(),
            forall|p: int| 0 <= p < old(self).builders().len() ==> #[trigger] final(self).builders()[p]
                == if builder_pos(b, old(self).builders().len()) == Some(p) {
                FakeBuilder { err_cb: cb, err_userdata: userdata, ..old(self).builders()[p] }
            } else {
                old(self).builders()[p]
            },
    {
        if let Some(i) = builder_idx(b) {
            if i <= self.builders.len() {
                let mut nb = self.builders[i - 1];
                nb.err_cb = cb;
                nb.err_userdata = userdata;
                self.builders.set(i - 1, nb);
            }
        }
        AAUDIO_OK
    }

    /// `AAudioStreamBuilder_delete`: blank the builder `b` names (its slot,
    /// and so every other handle, stays valid).
    pub fn builder_delete(&mut self, b: u64) -> (r: u64)
        ensures
            r == AAUDIO_OK,
            final(self).streams() == old(self).streams(),
            final(self).builders().len() == old(self).builders().len(),
            forall|p: int| 0 <= p < old(self).builders().len() ==> if builder_pos(b, old(self).builders().len()) == Some(p) {
                is_blank_builder(#[trigger] final(self).builders()[p])
            } else {
                final(self).builders()[p] == old(self).builders()[p]
            },
    {
        if let Some(i) = builder_idx(b) {
            if i <= self.builders.len() {
                self.builders.set(i - 1, blank_builder());
            }
        }
        AAUDIO_OK
    }
}

impl Registry {
    /// `AAudioStream_getFramesPerBurst`: the stream's value, or 0 for an unknown stream.
    pub fn stream_get_frames_per_burst(&self, s: u64) -> (r: u64)
        ensures
            r == match stream_pos(s, self.streams().len()) {
                Some(p) => self.streams()[p].frames_per_burst as u64,
                None => 0u64,
            },
    {
        match stream_idx(s) {
            Some(i) => if i <= self.streams.len() {
                self.streams[i - 1].frames_per_burst as u64
            } else {
                0
            },
            None => 0,
        }
    }

    /// `AAudioStream_getBufferCapacityInFrames`: the stream's value, or 0 for an unknown stream.
    pub fn stream_get_buffer_capacity(&self, s: u64) -> (r: u64)
        ensures
            r == match stream_pos(s, self.streams().len()) {
                Some(p) => self.streams()[p].buffer_capacity as u64,
                None => 0u64,
            },
    {
        match stream_idx(s) {
            Some(i) => if i <= self.streams.len() {
                self.streams[i - 1].buffer_capacity as u64
            } else {
                0
            },
            None => 0,
        }
    }

    /// `AAudioStream_getBufferSizeInFrames`: the stream's value, or 0 for an unknown stream.
    pub fn stream_get_buffer_size(&self, s: u64) -> (r: u64)
        ensures
            r == match stream_pos(s, self.streams().len()) {
                Some(p) => self.streams()[p].buffer_size as u64,
                None => 0u64,
            },
    {
        match stream_idx(s) {
            Some(i) => if i <= self.streams.len() {
                self.streams[i - 1].buffer_size as u64
            } else {
                0
            },
            None => 0,
        }
    }

    /// `AAudioStream_getSampleRate`: the stream's value, or 48_000 for an unknown stream.
    pub fn stream_get_sample_rate(&self, s: u64) -> (r: u64)
        ensures
            r == match stream_pos(s, self.streams().len()) {
                Some(p) => self.streams()[p].sample_rate as u64,
                None => 48_000u64,
            },
    {
        match stream_idx(s) {
            Some(i) => if i <= self.streams.len() {
                self.streams[i - 1].sample_rate as u64
            } else {
                48_000
            },
            None => 48_000,
        }
    }

    /// `AAudioStream_getChannelCount`: the stream's value, or 2 for an unknown stream.
    pub fn stream_get_channel_count(&self, s: u64) -> (r: u64)
        ensures
            r == match stream_pos(s, self.streams().len()) {
                Some(p) => self.streams()[p].channels as u64,
                None => 2u64,
            },
    {
        match stream_idx(s) {
            Some(i) => if i <= self.streams.len() {
                self.streams[i - 1].channels as u64
            } else {
                2
            },
            None => 2,
        }
    }

    /// `AAudioStream_getXRunCount`: the stream's value, or 0 for an unknown stream.
    pub fn stream_get_xrun_count(&self, s: u64) -> (r: u64)
        ensures
            r == match stream_pos(s, self.streams().len()) {
                Some(p) => self.streams()[p].xrun as u64,
                None => 0u64,
            },
    {
        match stream_idx(s) {
            Some(i) => if i <= self.streams.len() {
                self.streams[i - 1].xrun as u64
            } else {
                0
            },
            None => 0,
        }
    }

    /// `AAudioStream_getFormat`: the stream's value, or 0 for an unknown stream.
    pub fn stream_get_format(&self, s: u64) -> (r: u64)
        ensures
            r == match stream_pos(s, self.streams().len()) {
                Some(p) => self.streams()[p].format as u64,
                None => 0u64,
            },
    {
        match stream_idx(s) {
            Some(i) => if i <= self.streams.len() {
                self.streams[i - 1].format as u64
            } else {
                0
            },
            None => 0,
        }
    }

    /// `AAudioStream_getState`: the stream's value, or 10 for an unknown stream.
    pub fn stream_get_state(&self, s: u64) -> (r: u64)
        ensures
            r == match stream_pos(s, self.streams().len()) {
                Some(p) => self.streams()[p].state as u64,
                None => 10u64,
            },
    {
        match stream_idx(s) {
            Some(i) => if i <= self.streams.len() {
                self.streams[i - 1].state as u64
            } else {
                10
            },
            None => 10,
        }
    }

    /// `AAudioStream_requestStart`: the stream becomes STARTED. AAUDIO_OK, or 0x1d for an unknown stream (nothing changes).
    pub fn stream_request_start(&mut self, s: u64) -> (r: u64)
        ensures
            final(self).builders() == old(self).builders(),
            stream_pos(s, old(self).streams().len()) is None ==> r == INVALID_STREAM_HANDLE
                && final(self).streams() == old(self).streams(),
            stream_pos(s, old(self).streams().len()) matches Some(p) ==> r == AAUDIO_OK
                && final(self).streams() == old(self).streams().update(
                p,
                FakeStream { state: STATE_STARTED, ..old(self).streams()[p] },
            ),
    {
        match stream_idx(s) {
            Some(i) => if i <= self.streams.len() {
                let mut ns = self.streams[i - 1];
                ns.state = STATE_STARTED;
                self.streams.set(i - 1, ns);
                AAUDIO_OK
            } else {
                INVALID_STREAM_HANDLE
            },
            None => INVALID_STREAM_HANDLE,
        }
    }

    /// `AAudioStream_requestPause`: the stream converges to DISCONNECTED. AAUDIO_OK, or 0x1d for an unknown stream (nothing changes).
    pub fn stream_request_pause(&mut self, s: u64) -> (r: u64)
        ensures
            final(self).builders() == old(self).builders(),
            stream_pos(s, old(self).streams().len()) is None ==> r == INVALID_STREAM_HANDLE
                && final(self).streams() == old(self).streams(),
            stream_pos(s, old(self).streams().len()) matches Some(p) ==> r == AAUDIO_OK
                && final(self).streams() == old(self).streams().update(
                p,
                FakeStream { state: STATE_DISCONNECTED, ..old(self).streams()[p] },
            ),
    {
        match stream_idx(s) {
            Some(i) => if i <= self.streams.len() {
                let mut ns = self.streams[i - 1];
                ns.state = STATE_DISCONNECTED;
                self.streams.set(i - 1, ns);
                AAUDIO_OK
            } else {
                INVALID_STREAM_HANDLE
            },
            None => INVALID_STREAM_HANDLE,
        }
    }

    /// `AAudioStream_requestStop`: the stream converges to the state 10 the guest's stop loop waits for. AAUDIO_OK, or 0x1d for an unknown stream (nothing changes).
    pub fn stream_request_stop(&mut self, s: u64) -> (r: u64)
        ensures
            final(self).builders() == old(self).builders(),
            stream_pos(s, old(self).streams().len()) is None ==> r == INVALID_STREAM_HANDLE
                && final(self).streams() == old(self).streams(),
            stream_pos(s, old(self).streams().len()) matches Some(p) ==> r == AAUDIO_OK
                && final(self).streams() == old(self).streams().update(
                p,
                FakeStream { state: STATE_DISCONNECTED, ..old(self).streams()[p] },
            ),
    {
        match stream_idx(s) {
            Some(i) => if i <= self.streams.len() {
                let mut ns = self.streams[i - 1];
                ns.state = STATE_DISCONNECTED;
                self.streams.set(i - 1, ns);
                AAUDIO_OK
            } else {
                INVALID_STREAM_HANDLE
            },
            None => INVALID_STREAM_HANDLE,
        }
    }

    /// `AAudioStream_close`: the stream returns to STOPPED. AAUDIO_OK, or 0x1d for an unknown stream (nothing changes).
    pub fn stream_close(&mut self, s: u64) -> (r: u64)
        ensures
            final(self).builders() == old(self).builders(),
            stream_pos(s, old(self).streams().len()) is None ==> r == INVALID_STREAM_HANDLE
                && final(self).streams() == old(self).streams(),
            stream_pos(s, old(self).streams().len()) matches Some(p) ==> r == AAUDIO_OK
                && final(self).streams() == old(self).streams().update(
                p,
                FakeStream { state: STATE_STOPPED, ..old(self).streams()[p] },
            ),
    {
        match stream_idx(s) {
            Some(i) => if i <= self.streams.len() {
                let mut ns = self.streams[i - 1];
                ns.state = STATE_STOPPED;
                self.streams.set(i - 1, ns);
                AAUDIO_OK
            } else {
                INVALID_STREAM_HANDLE
            },
            None => INVALID_STREAM_HANDLE,
        }
    }

    /// `AAudioStream_setBufferSizeInFrames`: set the size (low 32 bits),
    /// growing the capacity to it when it is larger. AAUDIO_OK, or 0x1d for
    /// an unknown stream.
    pub fn stream_set_buffer_size(&mut self, s: u64, frames: u64) -> (r: u64)
        ensures
            final(self).builders() == old(self).builders(),
            stream_pos(s, old(self).streams().len()) is None ==> r == INVALID_STREAM_HANDLE
                && final(self).streams() == old(self).streams(),
            stream_pos(s, old(self).streams().len()) matches Some(p) ==> {
                let o = old(self).streams()[p];
                let size = frames as i32;
                &&& r == AAUDIO_OK
                &&& final(self).streams() == old(self).streams().update(
                    p,
                    FakeStream {
                        buffer_size: size,
                        buffer_capacity: if size > o.buffer_capacity {
                            size
                        } else {
                            o.buffer_capacity
                        },
                        ..o
                    },
                )
            },
    {
        match stream_idx(s) {
            Some(i) => if i <= self.streams.len() {
                let mut ns = self.streams[i - 1];
                ns.buffer_size = frames as i32;
                if ns.buffer_size > ns.buffer_capacity {
                    ns.buffer_capacity = ns.buffer_size;
                }
                self.streams.set(i - 1, ns);
                AAUDIO_OK
            } else {
                INVALID_STREAM_HANDLE
            },
            None => INVALID_STREAM_HANDLE,
        }
    }

    /// `AAudioStream_waitForStateChange`: returns at once with the state to
    /// write to the guest's `state_out` (the current state, or DISCONNECTED
    /// for an unknown stream), so the guest's stop loop terminates.
    pub fn stream_wait_for_state_change(&self, s: u64) -> (r: u64)
        ensures
            r == match stream_pos(s, self.streams().len()) {
                Some(p) => self.streams()[p].state as u64,
                None => STATE_DISCONNECTED as u64,
            },
    {
        self.stream_get_state(s)
    }

    /// The first stream with a registered data callback, as a snapshot of
    /// what a drain needs; `None` when no stream has one (no output device
    /// open).
    pub fn live_stream_snapshot(&self) -> (r: Option<LiveStreamParams>)
        ensures
            r is None <==> forall|p: int| 0 <= p < self.streams().len() ==> #[trigger] self.streams()[p].data_cb == 0,
            r matches Some(lp) ==> exists|p: int| #![trigger self.streams()[p]]
                0 <= p < self.streams().len() && self.streams()[p].data_cb != 0 && (forall|q: int|
                0 <= q < p ==> #[trigger] self.streams()[q].data_cb == 0) && lp == spec_params_of(
                self.streams()[p],
                p,
            ),
    {
        let mut i: usize = 0;
        while i < self.streams.len()
            invariant
                i <= self.streams@.len(),
                forall|q: int| 0 <= q < i ==> #[trigger] self.streams@[q].data_cb == 0,
            decreases self.streams@.len() - i,
        {
            let st = self.streams[i];
            if st.data_cb != 0 {
                let lp = LiveStreamParams {
                    stream: stream_handle(i + 1),
                    data_cb: st.data_cb,
                    data_userdata: st.data_userdata,
                    format: st.format,
                    sample_rate: st.sample_rate,
                    channels: st.channels,
                    frames_per_burst: st.frames_per_burst,
                };
                assert(lp == spec_params_of(self.streams@[i as int], i as int));
                assert(self.streams()[i as int] == st);
                assert(self.streams()[i as int].data_cb != 0);
                return Some(lp);
            }
            i = i + 1;
        }
        None
    }
}

/// The snapshot of the stream at position `p`.
pub open spec fn spec_params_of(s: FakeStream, p: int) -> LiveStreamParams {
    LiveStreamParams {
        stream: spec_stream_handle((p + 1) as usize),
        data_cb: s.data_cb,
        data_userdata: s.data_userdata,
        format: s.format,
        sample_rate: s.sample_rate,
        channels: s.channels,
        frames_per_burst: s.frames_per_burst,
    }
}

/// Immutable snapshot of a live output stream (one with a data callback)
/// and the PCM parameters needed to size a drain buffer.
#[derive(Debug, Clone, Copy)]
pub struct LiveStreamParams {
    /// Stable opaque stream handle handed out by openStream.
    pub stream: u64,
    /// The guest data callback registered via setDataCallback.
    pub data_cb: u64,
    pub data_userdata: u64,
    pub format: i32,
    pub sample_rate: i32,
    pub channels: i32,
    pub frames_per_burst: i32,
}

/// Bytes per PCM sample of a format: 2 for PCM_I16, otherwise 4 (float).
pub open spec fn spec_bytes_per_sample(format: i32) -> usize {
    if format == FORMAT_PCM_I16 {
        2
    } else {
        4
    }
}

/// Bytes of a drain buffer of `frames` frames: frames * max(channels, 1) *
/// bytes per sample.
pub open spec fn spec_buffer_bytes(p: LiveStreamParams, frames: u32) -> int {
    frames as int * (if p.channels > 1 {
        p.channels as int
    } else {
        1
    }) * spec_bytes_per_sample(p.format) as int
}

impl LiveStreamParams {
    /// Bytes per PCM sample for the stream's format (PCM_I16 = 2, anything
    /// else is float = 4).
    pub fn bytes_per_sample(&self) -> (n: usize)
        ensures
            n == spec_bytes_per_sample(self.format),
    {
        if self.format == FORMAT_PCM_I16 {
            2
        } else {
            4
        }
    }

    /// Bytes for one full drain buffer covering `num_frames` frames.
    pub fn buffer_bytes(&self, num_frames: u32) -> (n: usize)
        requires
            spec_buffer_bytes(*self, num_frames) <= usize::MAX,
        ensures
            n == spec_buffer_bytes(*self, num_frames),
    {
        let ch: usize = if self.channels > 1 {
            self.channels as usize
        } else {
            1
        };
        let bps = self.bytes_per_sample();
        let f = num_frames as usize;
        assert(f * ch <= f * ch * bps) by (nonlinear_arith)
            requires
                bps >= 1,
        ;
        assert(f as int * ch as int * bps as int == spec_buffer_bytes(*self, num_frames));
        f * ch * bps
    }
}

/// One drain of the live stream: once the guest data callback has run (its
/// outcome is `callback`), the buffer holds `buffer_bytes(num_frames)` PCM
/// bytes; a callback that could not be driven is reported as the error.
pub fn drain_one_buffer(p: &LiveStreamParams, callback: Result<u64, String>, num_frames: u32) -> (r:
    Result<usize, String>)
    requires
        spec_buffer_bytes(*p, num_frames) <= usize::MAX,
    ensures
        callback is Err <==> r is Err,
        callback matches Err(e) ==> r == Err::<usize, String>(e),
        r matches Ok(n) ==> n == spec_buffer_bytes(*p, num_frames),
{
    match callback {
        Err(e) => Err(e),
        Ok(_) => Ok(p.buffer_bytes(num_frames)),
    }
}

/// The 44-byte PCM WAV header: RIFF chunk of size 36 + data_len, "WAVE",
/// a 16-byte "fmt " chunk (PCM = 1, channels, sample rate, byte rate =
/// rate * channels * (bits / 8), block align = channels * (bits / 8),
/// bits per sample), then the "data" chunk header of size data_len.
pub open spec fn wav_header(sample_rate: u32, channels: u16, bits: u16, data_len: u32) -> Seq<u8> {
    seq![0x52u8, 0x49u8, 0x46u8, 0x46u8] + le_u32((36 + data_len) as u32) + seq![
        0x57u8,
        0x41u8,
        0x56u8,
        0x45u8,
    ] + seq![0x66u8, 0x6du8, 0x74u8, 0x20u8] + le_u32(16) + le_u16(1) + le_u16(channels) + le_u32(
        sample_rate,
    ) + le_u32((sample_rate * channels * (bits / 8)) as u32) + le_u16(
        (channels * (bits / 8)) as u16,
    ) + le_u16(bits) + seq![0x64u8, 0x61u8, 0x74u8, 0x61u8] + le_u32(data_len)
}

/// The parameters for which the header's size arithmetic fits its fields.
pub open spec fn wav_params_fit(sample_rate: u32, channels: u16, bits: u16, data_len: u32) -> bool {
    &&& sample_rate * channels <= u32::MAX
    &&& sample_rate * channels * (bits / 8) <= u32::MAX
    &&& channels * (bits / 8) <= u16::MAX
    &&& 36 + data_len <= u32::MAX
}

/// The 44-byte PCM WAV header for the given PCM parameters and data length.
pub fn wav_header_bytes(sample_rate: u32, channels: u16, bits: u16, data_len: u32) -> (h: Vec<u8>)
    requires
        wav_params_fit(sample_rate, channels, bits, data_len),
    ensures
        h@ == wav_header(sample_rate, channels, bits, data_len),
        h@.len() == 44,
{
    let bps = bits / 8;
    let sc = sample_rate * (channels as u32);
    assert(sc as int * bps as int == sample_rate * channels * (bits / 8)) by (nonlinear_arith)
        requires
            sc == sample_rate * channels,
            bps == bits / 8,
    ;
    let byte_rate = sc * (bps as u32);
    let block_align = channels * bps;
    let mut h: Vec<u8> = Vec::new();
    h.push(0x52u8);
    h.push(0x49u8);
    h.push(0x46u8);
    h.push(0x46u8);
    push_le_u32(&mut h, 36 + data_len);
    h.push(0x57u8);
    h.push(0x41u8);
    h.push(0x56u8);
    h.push(0x45u8);
    h.push(0x66u8);
    h.push(0x6du8);
    h.push(0x74u8);
    h.push(0x20u8);
    push_le_u32(&mut h, 16);
    push_le_u16(&mut h, 1);
    push_le_u16(&mut h, channels);
    push_le_u32(&mut h, sample_rate);
    push_le_u32(&mut h, byte_rate);
    push_le_u16(&mut h, block_align);
    push_le_u16(&mut h, bits);
    h.push(0x64u8);
    h.push(0x61u8);
    h.push(0x74u8);
    h.push(0x61u8);
    push_le_u32(&mut h, data_len);
    assert(h@ =~= wav_header(sample_rate, channels, bits, data_len));
    h
}

/// The running accounting of a WAV sink: PCM parameters, bytes of PCM
/// appended (saturating at `u32::MAX`) and frames appended.
pub struct SinkState {
    pub sample_rate: u32,
    pub channels: u16,
    pub bits: u16,
    pub data_len: u32,
    pub frames_written: u64,
}

impl SinkState {
    /// A fresh sink: nothing appended yet.
    pub fn new(sample_rate: u32, channels: u16, bits: u16) -> (s: SinkState)
        ensures
            s.sample_rate == sample_rate,
            s.channels == channels,
            s.bits == bits,
            s.data_len == 0,
            s.frames_written == 0,
    {
        SinkState { sample_rate, channels, bits, data_len: 0, frames_written: 0 }
    }

    /// The header written when the sink opens (provisional data length 0).
    pub fn open_header(&self) -> (h: Vec<u8>)
        requires
            wav_params_fit(self.sample_rate, self.channels, self.bits, 0),
        ensures
            h@ == wav_header(self.sample_rate, self.channels, self.bits, 0),
    {
        wav_header_bytes(self.sample_rate, self.channels, self.bits, 0)
    }

    /// Account for `pcm_len` appended PCM bytes covering `num_frames` frames.
    /// The byte count is taken modulo 2^32 (as the length field is) and the
    /// running data length saturates at `u32::MAX`.
    pub fn record_append(&mut self, pcm_len: usize, num_frames: u32)
        requires
            old(self).frames_written + num_frames <= u64::MAX,
        ensures
            final(self).data_len == (if old(self).data_len + (pcm_len as u32) > u32::MAX {
                u32::MAX
            } else {
                (old(self).data_len + (pcm_len as u32)) as u32
            }),
            final(self).frames_written == old(self).frames_written + num_frames,
            final(self).sample_rate == old(self).sample_rate,
            final(self).channels == old(self).channels,
            final(self).bits == old(self).bits,
    {
        self.data_len = self.data_len.saturating_add(pcm_len as u32);
        self.frames_written = self.frames_written + num_frames as u64;
    }

    /// The two size fields `finish` patches into the header: the RIFF chunk
    /// size at byte 4 (36 + data length, saturating) and the data chunk size
    /// at byte 40, each as its little-endian bytes.
    pub fn finish_fields(&self) -> (r: (Vec<u8>, Vec<u8>))
        ensures
            r.0@ == le_u32(if 36 + self.data_len > u32::MAX {
                u32::MAX
            } else {
                (36 + self.data_len) as u32
            }),
            r.1@ == le_u32(self.data_len),
    {
        let riff = 36u32.saturating_add(self.data_len);
        let mut a: Vec<u8> = Vec::new();
        push_le_u32(&mut a, riff);
        let mut b: Vec<u8> = Vec::new();
        push_le_u32(&mut b, self.data_len);
        assert(a@ =~= le_u32(riff));
        assert(b@ =~= le_u32(self.data_len));
        (a, b)
    }
}

/// A finished sink holds a valid WAV file: patching the header written at
/// open (data length 0) with the RIFF size at bytes 4..8 and the data size
/// at bytes 40..44 gives exactly the header for the final data length.
pub proof fn law_finished_header_matches_data(
    sample_rate: u32,
    channels: u16,
    bits: u16,
    data_len: u32,
)
    requires
        wav_params_fit(sample_rate, channels, bits, data_len),
    ensures
        ({
            let h0 = wav_header(sample_rate, channels, bits, 0);
            h0.subrange(0, 4) + le_u32((36 + data_len) as u32) + h0.subrange(8, 40) + le_u32(
                data_len,
            ) == wav_header(sample_rate, channels, bits, data_len)
        }),
{
    let h0 = wav_header(sample_rate, channels, bits, 0);
    assert(h0.subrange(0, 4) + le_u32((36 + data_len) as u32) + h0.subrange(8, 40) + le_u32(
        data_len,
    ) =~= wav_header(sample_rate, channels, bits, data_len));
}

/// The fake `dlopen` handle returned for `libaaudio.so`.
pub fn fake_lib_handle() -> (h: u64)
    ensures
        h == 0xAA00,
{
    0x0000_0000_0000_AA00u64
}

/// True if `handle` is the fake `libaaudio.so` handle.
pub fn is_fake_handle(handle: u64) -> (r: bool)
    ensures
        r == (handle == 0xAA00),
{
    handle == fake_lib_handle()
}

/// The path the guest opens for AAudio.
pub open spec fn aaudio_lib_path() -> Seq<u8> {
    vstd::utf8::encode_utf8("libaaudio.so"@)
}

/// The guest `dlopen` decision: with the bridge enabled, `libaaudio.so`
/// opens as the fake handle; anything else (or a disabled bridge) goes to
/// the real host `dlopen` (`None`).
pub fn dlopen_intercept(path: &[u8], enabled: bool) -> (r: Option<u64>)
    ensures
        r == (if enabled && path@ == aaudio_lib_path() {
            Some(0xAA00u64)
        } else {
            None::<u64>
        }),
{
    if crate::bytes::bytes_eq(path, "libaaudio.so".as_bytes()) && enabled {
        Some(fake_lib_handle())
    } else {
        None
    }
}

/// The four loader imports the bridge intercepts.
#[derive(Clone, Copy, Debug, PartialEq, Eq, Structural)]
pub enum BridgeShim {
    Dlopen,
    Dlsym,
    Dlclose,
    Dlerror,
}

/// The intercepted import named by the C string in `name`, if any.
pub open spec fn spec_bridge_shim(name: Seq<u8>) -> Option<BridgeShim> {
    let n = c_str(name);
    if name.len() == 0 {
        None
    } else if n == vstd::utf8::encode_utf8("dlopen"@) {
        Some(BridgeShim::Dlopen)
    } else if n == vstd::utf8::encode_utf8("dlsym"@) {
        Some(BridgeShim::Dlsym)
    } else if n == vstd::utf8::encode_utf8("dlclose"@) {
        Some(BridgeShim::Dlclose)
    } else if n == vstd::utf8::encode_utf8("dlerror"@) {
        Some(BridgeShim::Dlerror)
    } else {
        None
    }
}

/// Resolver hook for the bridge: with the bridge enabled and `name` (read
/// up to its first NUL) one of dlopen/dlsym/dlclose/dlerror, `register`
/// binds that shim and its guest-callable address is returned; otherwise
/// `None` and nothing is registered.
pub fn resolve_bridge_name<F: FnOnce(BridgeShim) -> u64>(name: &[u8], enabled: bool, register: F) -> (r:
    Option<u64>)
    requires
        forall|k: BridgeShim| register.requires((k,)),
    ensures
        !enabled ==> r is None,
        enabled ==> match spec_bridge_shim(name@) {
            None => r is None,
            Some(k) => r matches Some(a) && register.ensures((k,), a),
        },
{
    if !enabled {
        return None;
    }
    if name.len() == 0 {
        return None;
    }
    let end = c_str_len(name);
    let kind = if prefix_eq(name, end, "dlopen".as_bytes()) {
        BridgeShim::Dlopen
    } else if prefix_eq(name, end, "dlsym".as_bytes()) {
        BridgeShim::Dlsym
    } else if prefix_eq(name, end, "dlclose".as_bytes()) {
        BridgeShim::Dlclose
    } else if prefix_eq(name, end, "dlerror".as_bytes()) {
        BridgeShim::Dlerror
    } else {
        return None;
    };
    Some(register(kind))
}

/// The cache of guest-callable addresses already handed out per AAudio
/// slot, so repeated `dlsym` of one name returns one address.
pub struct AaudioSymbolCache {
    slots: HashMap<usize, u64>,
}

/// The outcome of resolving `name` against cache `m`, where `fresh` is the
/// address a new registration yields: not an AAudio symbol -> no address,
/// cache unchanged; a cached slot -> its cached address; otherwise the fresh
/// address, now cached.
pub open spec fn spec_resolve(m: Map<usize, u64>, name: Seq<u8>, fresh: u64) -> (Option<u64>, Map<usize, u64>) {
    match spec_slot_for_symbol(name) {
        None => (None, m),
        Some(i) => if m.contains_key(i) {
            (Some(m[i]), m)
        } else {
            (Some(fresh), m.insert(i, fresh))
        },
    }
}

impl AaudioSymbolCache {
    /// An empty cache.
    pub fn new() -> (c: AaudioSymbolCache)
        ensures
            c@ == Map::<usize, u64>::empty(),
    {
        AaudioSymbolCache { slots: HashMap::new() }
    }
}

impl View for AaudioSymbolCache {
    type V = Map<usize, u64>;

    closed spec fn view(&self) -> Map<usize, u64> {
        self.slots@
    }
}

/// Guest-callable thunk address for an AAudio symbol, or `None` if `name`
/// is not one. Idempotent: the first resolution of a slot registers its
/// thunk through `register` (given the slot index) and caches the address;
/// later resolutions return the cached address without registering again.
pub fn resolve_aaudio_symbol<F: FnOnce(usize) -> u64>(
    cache: &mut AaudioSymbolCache,
    name: &[u8],
    register: F,
) -> (r: Option<u64>)
    requires
        forall|i: usize| i < 26 ==> register.requires((i,)),
    ensures
        spec_slot_for_symbol(name@) is None ==> r is None && final(cache)@ == old(cache)@,
        spec_slot_for_symbol(name@) matches Some(i) ==> (old(cache)@.contains_key(i) ==> (r, final(
            cache)@) == spec_resolve(old(cache)@, name@, 0)) && (!old(cache)@.contains_key(i) ==> (
        r matches Some(a) && register.ensures((i,), a) && (r, final(cache)@) == spec_resolve(
            old(cache)@,
            name@,
            a,
        ))),
{
    let i = match slot_for_symbol(name) {
        Some(i) => i,
        None => {
            return None;
        },
    };
    match cache.slots.get(&i) {
        Some(a) => {
            return Some(*a);
        },
        None => {},
    }
    let addr = register(i);
    cache.slots.insert(i, addr);
    Some(addr)
}

/// Slot identity: once a name has been resolved, resolving it again gives
/// the same address and leaves the cache as it is, whatever a new
/// registration would have yielded.
pub proof fn law_resolve_is_idempotent(m: Map<usize, u64>, name: Seq<u8>, fresh1: u64, fresh2: u64)
    ensures
        ({
            let (r1, m1) = spec_resolve(m, name, fresh1);
            let (r2, m2) = spec_resolve(m1, name, fresh2);
            r2 == r1 && m2 == m1
        }),
{
}

} // verus!
