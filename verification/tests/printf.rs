use arm64jit::printf::{
    conversions, decode_va_list, parse_format, render_to_buf, render_vfprintf, va_list_pointer_ok, ConvKind,
    FmtPiece, GuestArg, VaList,
};

const GARBAGE: u64 = 0xffffff80ffffffc8;
const BASE: u64 = 0x1_0000_1000;

fn cstr(b: &[u8]) -> Vec<u8> {
    b.iter().copied().take_while(|&c| c != 0).collect()
}

fn gp_slots(mut ap: VaList, n: usize) -> Vec<Option<u64>> {
    let mut out = Vec::new();
    for _ in 0..n {
        let s = ap.next_gp_slot();
        if s.is_some() {
            ap.advance_gp();
        }
        out.push(s);
    }
    out
}

#[test]
fn vfprintf_va_list_decoder_renders_terminate_message() {
    let ap = VaList { stack: 0, gr_top: BASE + 24, vr_top: 0, gr_offs: -24, vr_offs: 0 };
    assert_eq!(gp_slots(ap, 3), vec![Some(BASE), Some(BASE + 8), Some(BASE + 16)]);
    let fmt = b"terminating due to %s exception of type %s: %s\0";
    let args = vec![
        GuestArg { word: 0x1_0000_2000, text: Some(cstr(b"uncaught\0")) },
        GuestArg { word: 0x1_0000_2010, text: Some(cstr(b"std::runtime_error\0")) },
        GuestArg {
            word: 0x1_0000_2040,
            text: Some(cstr(b"Error creating context: eglCreateWindowSurface 300b\0")),
        },
    ];
    assert_eq!(conversions(&parse_format(fmt)), vec![ConvKind::Str, ConvKind::Str, ConvKind::Str]);
    let out = render_vfprintf(fmt, &args);
    assert!(!out.is_empty(), "decoder produced output");
    let s = String::from_utf8_lossy(&out);
    assert!(
        s.contains("terminating due to uncaught exception of type std::runtime_error: Error creating context: eglCreateWindowSurface 300b"),
        "decoded message: {s:?}"
    );
    assert!(!s.ends_with('\u{10}'), "no stray trailing byte: {s:?}");
}

#[test]
fn vsnprintf_chk_guards_garbage_renders_real_bounded() {
    let fmt = b"status: %s\\0";
    let bad = vec![GuestArg { word: GARBAGE, text: None }];
    let out = render_vfprintf(fmt, &bad);
    let (n, bytes) = render_to_buf(&out, 64);
    let s = String::from_utf8_lossy(&bytes[..n as usize]);
    assert!(s.contains("(bad-ptr)"), "garbage %s renders (bad-ptr): {s:?}");
    assert_eq!(bytes[n as usize], 0);
    let good = vec![GuestArg { word: 0x1_0000_3000, text: Some(cstr(b"all-good\\0")) }];
    let out2 = render_vfprintf(fmt, &good);
    let (n2, bytes2) = render_to_buf(&out2, 64);
    let s2 = String::from_utf8_lossy(&bytes2[..n2 as usize]);
    assert!(s2.contains("all-good"), "valid %s renders: {s2:?}");
    let (n0, bytes0) = render_to_buf(&out2, 0);
    assert_eq!(n0, 0, "size==0 writes nothing");
    assert!(bytes0.is_empty(), "buf untouched at size==0");
    let (n3, bytes3) = render_to_buf(&out2, 5);
    assert!(n3 <= 4, "truncated to size-1: {n3}");
    assert_eq!(bytes3[n3 as usize], 0, "truncated NUL");
    assert_eq!(&bytes3[..4], b"stat");
}

#[test]
fn vsprintf_chk_unbounded_guards_garbage_arg_indices() {
    let ap = VaList { stack: 0, gr_top: BASE + 16, vr_top: 0, gr_offs: -16, vr_offs: 0 };
    assert_eq!(gp_slots(ap, 2), vec![Some(BASE), Some(BASE + 8)]);
    let fmt = b"mode:%s|n=%d|\\0";
    let args = vec![GuestArg { word: GARBAGE, text: None }, GuestArg { word: 7, text: None }];
    let out = render_vfprintf(fmt, &args);
    let (n, bytes) = render_to_buf(&out, u64::MAX);
    let s = String::from_utf8_lossy(&bytes[..n as usize]);
    assert!(s.contains("(bad-ptr)") && s.contains("n=7"), "garbage+int render: {s:?}");
    assert_eq!(bytes[n as usize], 0, "NUL-terminated");
    let long = cstr(b"a-really-long-mode-string-here-that-exceeds-twenty-chars\\0");
    let args2 = vec![GuestArg { word: 0x1_0000_4000, text: Some(long) }, GuestArg { word: 7, text: None }];
    let out2 = render_vfprintf(fmt, &args2);
    let (n2, bytes2) = render_to_buf(&out2, u64::MAX);
    let s2 = String::from_utf8_lossy(&bytes2[..n2 as usize]);
    assert!(s2.starts_with("mode:a-really-long-mode-string"), "full render not clamped: {s2:?}");
    assert!(n2 > 20, "unbounded: wrote {n2}B (slen was 0x14=20)");
}

#[test]
fn conversions_render_each_kind() {
    let fmt = b"%c|%p|%x|%X|%u|%i|%f|%%|%s|%s\0";
    let pieces = parse_format(fmt);
    assert_eq!(
        conversions(&pieces),
        vec![
            ConvKind::Char,
            ConvKind::Ptr,
            ConvKind::Hex,
            ConvKind::Hex,
            ConvKind::Dec,
            ConvKind::Dec,
            ConvKind::Float,
            ConvKind::Str,
            ConvKind::Str
        ]
    );
    let args = vec![
        GuestArg { word: 0x141, text: None },
        GuestArg { word: 0xdead, text: None },
        GuestArg { word: 255, text: None },
        GuestArg { word: 0, text: None },
        GuestArg { word: 1234567890, text: None },
        GuestArg { word: 0, text: None },
        GuestArg { word: 0, text: None },
        GuestArg { word: 0, text: None },
    ];
    let out = render_vfprintf(fmt, &args);
    assert_eq!(out, b"A|0xdead|0xff|0x0|1234567890|0|<fp>|%|(null)|".to_vec());
}

#[test]
fn flags_width_and_length_modifiers_are_skipped() {
    let pieces = parse_format(b"%-08lld/%5.2s/%zu\0tail");
    assert_eq!(conversions(&pieces), vec![ConvKind::Dec, ConvKind::Str, ConvKind::Dec]);
    assert!(pieces.iter().all(|p| !matches!(p, FmtPiece::Lit(b't'))));
    let args = vec![
        GuestArg { word: 42, text: None },
        GuestArg { word: 0x1_0000_0000, text: Some(b"xy".to_vec()) },
        GuestArg { word: 9, text: None },
    ];
    assert_eq!(render_vfprintf(b"%-08lld/%5.2s/%zu\0tail", &args), b"42/xy/9".to_vec());
}

#[test]
fn va_list_reads_stack_after_registers_and_rejects_bad_slots() {
    let ap = VaList { stack: BASE + 0x100, gr_top: BASE + 8, vr_top: 0, gr_offs: -8, vr_offs: 0 };
    assert_eq!(gp_slots(ap, 3), vec![Some(BASE), Some(BASE + 0x100), Some(BASE + 0x108)]);
    let zero = VaList::zeroed();
    assert_eq!(zero.next_gp_slot(), None);
    let low = VaList { stack: 0x1000, gr_top: 0, vr_top: 0, gr_offs: 0, vr_offs: 0 };
    assert_eq!(low.next_gp_slot(), None);
    let unaligned = VaList { stack: BASE + 4, gr_top: 0, vr_top: 0, gr_offs: 0, vr_offs: 0 };
    assert_eq!(unaligned.next_gp_slot(), None);
    assert!(va_list_pointer_ok(0x1000));
    assert!(!va_list_pointer_ok(0x1004));
    assert_eq!(render_vfprintf(b"a%d%d\0", &[GuestArg { word: 5, text: None }]), b"a5".to_vec());
}

#[test]
fn va_list_area_decodes_little_endian_fields() {
    let mut area = vec![0u8; 32];
    area[0..8].copy_from_slice(&0x1_0000_8000u64.to_le_bytes());
    area[8..16].copy_from_slice(&(BASE + 24).to_le_bytes());
    area[16..24].copy_from_slice(&0x1_0000_9000u64.to_le_bytes());
    area[24..28].copy_from_slice(&(-24i32).to_le_bytes());
    area[28..32].copy_from_slice(&(-128i32).to_le_bytes());
    let ap = decode_va_list(&area);
    assert_eq!(ap.stack, 0x1_0000_8000);
    assert_eq!(ap.gr_top, BASE + 24);
    assert_eq!(ap.vr_top, 0x1_0000_9000);
    assert_eq!(ap.gr_offs, -24);
    assert_eq!(ap.vr_offs, 0);
    assert_eq!(gp_slots(ap, 4), vec![Some(BASE), Some(BASE + 8), Some(BASE + 16), Some(0x1_0000_8000)]);
}

#[test]
fn readable_empty_string_renders_nothing() {
    let args = vec![GuestArg { word: 0x1_0000_5000, text: Some(Vec::new()) }];
    assert_eq!(render_vfprintf(b"[%s]\0", &args), b"[]".to_vec());
    let bad = vec![GuestArg { word: 0x48, text: None }];
    assert_eq!(render_vfprintf(b"[%s]\0", &bad), b"[(bad-ptr)]".to_vec());
    let null = vec![GuestArg { word: 0, text: None }];
    assert_eq!(render_vfprintf(b"[%s]\0", &null), b"[(null)]".to_vec());
}

#[test]
fn unknown_conversions_are_copied_literally_and_unreadable_strings_are_bad() {
    let args = vec![GuestArg { word: 5, text: None }];
    assert_eq!(render_vfprintf(b"a%qb%d\0", &args), b"aqb5".to_vec());
    assert_eq!(conversions(&parse_format(b"%-5q%lld\0")), vec![ConvKind::Dec]);
    let unreadable = vec![GuestArg { word: 0x1_0000_6000, text: None }];
    assert_eq!(render_vfprintf(b"[%s]\0", &unreadable), b"[(bad-ptr)]".to_vec());
}
