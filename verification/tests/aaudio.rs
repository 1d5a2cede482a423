use arm64jit::aaudio::{
    builder_handle, builder_idx, dlopen_intercept, drain_one_buffer, fake_lib_handle,
    is_fake_handle, resolve_aaudio_symbol, resolve_bridge_name, slot_for_symbol, stream_handle,
    stream_idx, symbol_for_slot, wav_header_bytes, AaudioSymbolCache, BridgeShim,
    LiveStreamParams, Registry, SinkState, AAUDIO_SLOT_COUNT, FORMAT_PCM_I16, FORMAT_UNDEFINED,
    STATE_DISCONNECTED, STATE_STARTED,
};

#[test]
fn table_has_26_slots_all_filled() {
    assert_eq!(AAUDIO_SLOT_COUNT, 26);
    for i in 0..AAUDIO_SLOT_COUNT {
        assert!(symbol_for_slot(i).is_some(), "slot {i} must have a symbol");
    }
    assert!(symbol_for_slot(26).is_none());
}

#[test]
fn symbol_table_matches_known_aaudio_names() {
    assert_eq!(symbol_for_slot(0), Some("AAudio_createStreamBuilder"));
    assert_eq!(symbol_for_slot(1), Some("AAudioStreamBuilder_openStream"));
    assert_eq!(symbol_for_slot(5), Some("AAudioStreamBuilder_setPerformanceMode"));
    assert_eq!(symbol_for_slot(6), Some("AAudioStreamBuilder_setDataCallback"));
    assert_eq!(symbol_for_slot(19), Some("AAudioStream_getState"));
    assert_eq!(symbol_for_slot(20), Some("AAudioStream_requestStart"));
    assert_eq!(symbol_for_slot(25), Some("AAudioStream_waitForStateChange"));
    // slot lookup round-trips
    assert_eq!(slot_for_symbol(b"AAudioStream_requestStop\0"), Some(22));
    assert_eq!(slot_for_symbol(b"AAudio_nope\0"), None);
}

#[test]
fn slot_lookup_round_trips_every_slot() {
    for i in 0..AAUDIO_SLOT_COUNT {
        let name = symbol_for_slot(i).unwrap();
        assert_eq!(slot_for_symbol(name.as_bytes()), Some(i));
        let mut c = name.as_bytes().to_vec();
        c.push(0);
        c.extend_from_slice(b"trailing");
        assert_eq!(slot_for_symbol(&c), Some(i));
    }
    assert_eq!(slot_for_symbol(b""), None);
    assert_eq!(slot_for_symbol(b"AAudioStream_read_extra"), None);
}

#[test]
fn builder_stream_lifecycle_roundtrip() {
    let mut reg = Registry::new();
    let b = reg.create_stream_builder();
    assert_ne!(b, 0);
    assert_eq!(reg.builder_set_data_callback(b, 0x104fbfbd8, 0x7777), 0);
    let s = reg.builder_open_stream(b).unwrap();
    assert_ne!(s, 0);
    // getters return device-native values
    assert_eq!(reg.stream_get_sample_rate(s), 48_000);
    assert_eq!(reg.stream_get_channel_count(s), 2);
    assert_eq!(reg.stream_get_frames_per_burst(s), 192);
    // start advances state
    assert_eq!(reg.stream_request_start(s), 0);
    assert_eq!(reg.stream_get_state(s), STATE_STARTED as u64);
    // stop converges to the guest's stop-wait state (10)
    assert_eq!(reg.stream_request_stop(s), 0);
    assert_eq!(reg.stream_get_state(s), STATE_DISCONNECTED as u64);
}

#[test]
fn invalid_handles_are_safe() {
    let mut reg = Registry::new();
    assert_eq!(reg.stream_get_state(0xDEAD), STATE_DISCONNECTED as u64);
    assert_eq!(reg.stream_request_start(1), 0x1d);
    assert_eq!(reg.builder_open_stream(0), Err(0x33));
}

#[test]
fn wav_header_is_44_bytes_pcm() {
    let h = wav_header_bytes(48_000, 2, 16, 0);
    assert_eq!(h.len(), 44);
    assert_eq!(&h[0..4], b"RIFF");
    assert_eq!(&h[8..12], b"WAVE");
    assert_eq!(&h[12..16], b"fmt ");
    assert_eq!(&h[20..22], &1u16.to_le_bytes()); // PCM
    assert_eq!(&h[22..24], &2u16.to_le_bytes()); // stereo
    assert_eq!(&h[24..28], &48_000u32.to_le_bytes()); // rate
    // float32 (32-bit) framing — mono 32-bit => block align = 1*(32/8) = 4
    let hf = wav_header_bytes(44_100, 1, 32, 0);
    assert_eq!(&hf[32..34], &4u16.to_le_bytes()); // block align
    assert_eq!(&hf[34..36], &32u16.to_le_bytes()); // bits per sample
    assert_eq!(&hf[20..22], &1u16.to_le_bytes());
}

#[test]
fn wav_header_size_fields_and_byte_rate() {
    let h = wav_header_bytes(48_000, 2, 16, 1000);
    assert_eq!(&h[4..8], &1036u32.to_le_bytes());
    assert_eq!(&h[16..20], &16u32.to_le_bytes());
    assert_eq!(&h[28..32], &192_000u32.to_le_bytes());
    assert_eq!(&h[36..40], b"data");
    assert_eq!(&h[40..44], &1000u32.to_le_bytes());
}

#[test]
fn statics_reachable() {
    // The fully-static getters answer an unknown handle without panicking.
    let reg = Registry::new();
    assert_eq!(reg.stream_get_frames_per_burst(0), 0);
    assert_eq!(reg.stream_get_buffer_capacity(0), 0);
    assert_eq!(reg.stream_get_buffer_size(0), 0);
    assert_eq!(reg.stream_get_sample_rate(0), 48_000);
}

#[test]
fn live_stream_snapshot_none_when_no_data_cb() {
    let mut reg = Registry::new();
    let b = reg.create_stream_builder();
    let _ = reg.builder_open_stream(b);
    assert!(reg.live_stream_snapshot().is_none(), "no data_cb => not a live output stream");
    reg.clear();
}

#[test]
fn live_stream_snapshot_captures_fmod_output_stream() {
    let mut reg = Registry::new();
    let b = reg.create_stream_builder();
    reg.builder_set_data_callback(b, 0x104fbfbd8, 0x7777);
    let out = reg.builder_open_stream(b).unwrap();
    let snap = reg.live_stream_snapshot().expect("data_cb registered => snapshot present");
    assert_eq!(snap.stream, out, "snapshot stream handle == openStream out");
    assert_eq!(snap.data_cb, 0x104fbfbd8, "captured guest FMOD data callback");
    assert_eq!(snap.data_userdata, 0x7777, "captured data-callback userdata");
    assert_eq!(snap.sample_rate, 48_000, "device-native sample rate");
    assert_eq!(snap.channels, 2, "device-native channels");
    assert_eq!(snap.frames_per_burst, 192, "device-native frames/burst");
    assert_eq!(snap.bytes_per_sample(), 4, "UNDEFINED format => float 4 B/sample");
    assert_eq!(snap.buffer_bytes(192), 192 * 2 * 4, "buffer = frames*ch*bps");
    reg.clear();
}

#[test]
fn snapshot_picks_first_stream_with_callback() {
    let mut reg = Registry::new();
    let b0 = reg.create_stream_builder();
    let _s0 = reg.builder_open_stream(b0).unwrap();
    let b1 = reg.create_stream_builder();
    reg.builder_set_data_callback(b1, 0x1111, 0x2222);
    let s1 = reg.builder_open_stream(b1).unwrap();
    let snap = reg.live_stream_snapshot().unwrap();
    assert_eq!(snap.stream, s1);
    assert_eq!(snap.stream, stream_handle(2));
}

#[test]
fn drain_one_buffer_requires_active_image() {
    let p = LiveStreamParams {
        stream: 0xAA01_0001,
        data_cb: 0x104fbfbd8,
        data_userdata: 0x7777,
        format: FORMAT_UNDEFINED,
        sample_rate: 48_000,
        channels: 2,
        frames_per_burst: 192,
    };
    assert!(drain_one_buffer(&p, Err("no active guest image".to_string()), 192).is_err());
    assert_eq!(drain_one_buffer(&p, Ok(0), 192), Ok(192 * 2 * 4));
}

#[test]
fn pcm16_format_uses_two_bytes_per_sample() {
    let p = LiveStreamParams {
        stream: 1,
        data_cb: 1,
        data_userdata: 0,
        format: FORMAT_PCM_I16,
        sample_rate: 44_100,
        channels: 0,
        frames_per_burst: 0,
    };
    assert_eq!(p.bytes_per_sample(), 2);
    // channels below 1 count as 1
    assert_eq!(p.buffer_bytes(10), 20);
}

#[test]
fn handles_round_trip_and_tags_are_disjoint() {
    assert_eq!(builder_handle(1), 0xAA00_0001);
    assert_eq!(stream_handle(3), 0xAA01_0003);
    assert_eq!(builder_idx(builder_handle(7)), Some(7));
    assert_eq!(stream_idx(stream_handle(7)), Some(7));
    assert_eq!(stream_idx(builder_handle(7)), None);
    assert_eq!(builder_idx(stream_handle(7)), None);
    assert_eq!(stream_idx(0x01), None);
    assert_eq!(stream_idx(0xAA01_0000), None);
}

#[test]
fn builder_setters_and_buffer_size_growth() {
    let mut reg = Registry::new();
    let b = reg.create_stream_builder();
    assert_eq!(reg.builder_set_buffer_capacity(b, 512), 0);
    assert_eq!(reg.builder_set_format(b, 2), 0);
    assert_eq!(reg.builder_set_direction(b, 0), 0);
    assert_eq!(reg.builder_set_error_callback(b, 0x55, 0x66), 0);
    let s = reg.builder_open_stream(b).unwrap();
    // the stream starts from device defaults, not the builder's capacity/format
    assert_eq!(reg.stream_get_buffer_capacity(s), 0);
    assert_eq!(reg.stream_get_format(s), 0);
    assert_eq!(reg.stream_set_buffer_size(s, 384), 0);
    assert_eq!(reg.stream_get_buffer_size(s), 384);
    assert_eq!(reg.stream_get_buffer_capacity(s), 384);
    assert_eq!(reg.stream_set_buffer_size(s, 100), 0);
    assert_eq!(reg.stream_get_buffer_capacity(s), 384);
    assert_eq!(reg.stream_set_buffer_size(0xDEAD, 1), 0x1d);
    assert_eq!(reg.stream_request_pause(s), 0);
    assert_eq!(reg.stream_wait_for_state_change(s), 10);
    assert_eq!(reg.stream_close(s), 0);
    assert_eq!(reg.stream_get_state(s), 7);
    assert_eq!(reg.builder_delete(b), 0);
    // a deleted builder still opens (as a blank builder)
    let s2 = reg.builder_open_stream(b).unwrap();
    assert_eq!(s2, stream_handle(2));
    assert_eq!(reg.stream_get_xrun_count(s2), 0);
}

#[test]
fn sink_state_tracks_appends_and_patches_sizes() {
    let mut sink = SinkState::new(48_000, 2, 16);
    assert_eq!(sink.open_header().len(), 44);
    sink.record_append(768, 192);
    sink.record_append(768, 192);
    assert_eq!(sink.frames_written, 384);
    assert_eq!(sink.data_len, 1536);
    let (riff, data) = sink.finish_fields();
    assert_eq!(riff, (36u32 + 1536).to_le_bytes().to_vec());
    assert_eq!(data, 1536u32.to_le_bytes().to_vec());
    let empty = SinkState::new(44_100, 1, 32);
    let (riff, data) = empty.finish_fields();
    assert_eq!(riff, 36u32.to_le_bytes().to_vec(), "empty RIFF = 36");
    assert_eq!(data, 0u32.to_le_bytes().to_vec(), "empty data length = 0");
}

#[test]
fn fake_handle_and_dlopen_intercept() {
    assert_eq!(fake_lib_handle(), 0xAA00);
    assert!(is_fake_handle(0xAA00));
    assert!(!is_fake_handle(0xAA01));
    assert_eq!(dlopen_intercept(b"libaaudio.so", true), Some(0xAA00));
    assert_eq!(dlopen_intercept(b"libaaudio.so", false), None);
    assert_eq!(dlopen_intercept(b"libc.so", true), None);
}

#[test]
fn bridge_names_resolve_only_when_enabled() {
    assert_eq!(resolve_bridge_name(b"dlopen\0", false, |_| 1), None);
    assert_eq!(
        resolve_bridge_name(b"dlsym\0", true, |k| if k == BridgeShim::Dlsym { 42 } else { 0 }),
        Some(42)
    );
    assert_eq!(resolve_bridge_name(b"dlclose", true, |_| 7), Some(7));
    assert_eq!(resolve_bridge_name(b"dlerror\0x", true, |_| 8), Some(8));
    assert_eq!(resolve_bridge_name(b"dlopenx", true, |_| 9), None);
    assert_eq!(resolve_bridge_name(b"", true, |_| 9), None);
}

#[test]
fn resolve_aaudio_symbol_caches_slot_address() {
    let mut cache = AaudioSymbolCache::new();
    let a = resolve_aaudio_symbol(&mut cache, b"AAudioStream_getState\0", |slot| 0x9000 + slot as u64);
    assert_eq!(a, Some(0x9000 + 19));
    // a second resolution returns the cached address, not a fresh registration
    let b = resolve_aaudio_symbol(&mut cache, b"AAudioStream_getState\0", |_| 0xdead);
    assert_eq!(b, a);
    assert_eq!(resolve_aaudio_symbol(&mut cache, b"dlopen\0", |_| 1), None);
}
