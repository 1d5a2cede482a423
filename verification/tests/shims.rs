use arm64jit::resolver::ShimRegistry;
use arm64jit::shims::{
    asset_path, asset_relative_name, compare_u32_keys, cxa_atexit, cxa_guard_abort,
    cxa_guard_acquire, cxa_guard_release, fallback_stub, fwrite_total, guard_string_op,
    is_handle_name, is_host_file, ptr_ok, qsort_route, record_key, register_cxx_shims,
    register_fallback, register_graphics_stubs, register_shims, write_bionic_stat, AssetTable,
    CxxShim, HostShim, HostStat, BIONIC_STAT_SIZE,
    LibcShim, Looper, NativeWindow, OnceGuards, QsortRoute, StringOp, StubKind,
    ALOOPER_EVENT_INPUT, ALOOPER_POLL_TIMEOUT, ANATIVEWINDOW_HEIGHT, ANATIVEWINDOW_WIDTH,
    APP_CMD_INIT_WINDOW, APP_CMD_RESUME, APP_CMD_START, COMMAND_FD, FIRST_ASSET_HANDLE,
    GUARD_BUSY, GUARD_DONE, GUARD_FREE, KNOWN_U32_KEY_COMPAR,
};

const SENTINEL: u64 = 0x7ff0_0000_1000;
const GARBAGE: u64 = 0xffffff80ffffffc8;

#[test]
fn cxa_guard_acquire_release_abort_semantics() {
    let (r, g) = cxa_guard_acquire(GUARD_FREE);
    assert_eq!(r, 1);
    assert_eq!(g, 1, "in-progress marker");
    let g = cxa_guard_release();
    assert_eq!(g, 2, "done marker");
    let (r, g) = cxa_guard_acquire(g);
    assert_eq!(r, 0);
    assert_eq!(g, 2, "acquire does not disturb a completed guard");
    let g = cxa_guard_abort();
    assert_eq!(g, 0);
    assert_eq!(cxa_guard_acquire(g).0, 1);
    assert_eq!(cxa_guard_acquire(GUARD_BUSY), (0, GUARD_BUSY));
    assert_eq!(GUARD_DONE, 2);
    assert_eq!(cxa_atexit(), 0);
}

#[test]
fn register_cxx_shims_are_resolvable_by_name() {
    let mut reg = ShimRegistry::new();
    let n = register_cxx_shims(&mut reg);
    assert!(n >= 4, "guard_acquire/release/abort + atexit registered");
    let expect = [
        ("__cxa_guard_acquire", CxxShim::GuardAcquire),
        ("__cxa_guard_release", CxxShim::GuardRelease),
        ("__cxa_guard_abort", CxxShim::GuardAbort),
        ("__cxa_atexit", CxxShim::Atexit),
        ("__cxa_thread_atexit_impl", CxxShim::ThreadAtexitImpl),
        ("pthread_key_create", CxxShim::PthreadKeyCreate),
    ];
    for (name, shim) in expect {
        let bound = reg
            .resolve(name.as_bytes())
            .unwrap_or_else(|| panic!("{name:?} not resolvable by name"));
        assert_eq!(bound, HostShim::Cxx(shim), "{name:?} bound to its host shim");
    }
    assert_eq!(
        reg.resolve(b"__cxa_guard_acquire\0junk"),
        Some(HostShim::Cxx(CxxShim::GuardAcquire))
    );
    assert_eq!(reg.resolve(b"__cxa_guard"), None);
}

#[test]
fn register_shims_binds_the_bionic_table() {
    let mut reg = ShimRegistry::new();
    let n = register_shims(&mut reg);
    assert_eq!(n, 49);
    assert_eq!(reg.resolve(b"strlen\0"), Some(HostShim::Libc(LibcShim::Strlen)));
    assert_eq!(reg.resolve(b"qsort"), Some(HostShim::Libc(LibcShim::Qsort)));
    assert_eq!(
        reg.resolve(b"ALooper_pollOnce\0"),
        Some(HostShim::Libc(LibcShim::LooperPollOnce))
    );
    assert_eq!(
        reg.resolve(b"ANativeWindow_getHeight"),
        Some(HostShim::Libc(LibcShim::NativeWindowGetHeight))
    );
    assert_eq!(reg.resolve(b"eglGetDisplay"), None);
}

#[test]
fn later_registration_takes_precedence() {
    let mut reg = ShimRegistry::new();
    register_shims(&mut reg);
    let k = register_fallback(&mut reg, b"strlen\0");
    assert_eq!(k, StubKind::Zero);
    assert_eq!(reg.resolve(b"strlen"), Some(HostShim::Stub(StubKind::Zero)));
    reg.register_named(b"strlen\0", HostShim::Libc(LibcShim::Strlen));
    assert_eq!(reg.resolve(b"strlen"), Some(HostShim::Libc(LibcShim::Strlen)));
}

#[test]
fn fallback_stubs_pick_handle_or_zero() {
    let mut reg = ShimRegistry::new();
    let names: Vec<&[u8]> = vec![b"eglGetDisplay", b"AMediaCodec_createDecoderByType", b"AConfiguration_new", b"glClear"];
    let n = register_graphics_stubs(&mut reg, &names);
    assert_eq!(n, 4);
    assert_eq!(reg.resolve(b"eglGetDisplay"), Some(HostShim::Stub(StubKind::Handle)));
    assert_eq!(reg.resolve(b"AConfiguration_new"), Some(HostShim::Stub(StubKind::Handle)));
    assert_eq!(reg.resolve(b"glClear"), Some(HostShim::Stub(StubKind::Zero)));
    assert_eq!(
        reg.resolve(b"AMediaCodec_createDecoderByType"),
        Some(HostShim::Stub(StubKind::Zero))
    );
    assert_eq!(fallback_stub(b"AAsset_getBuffer"), StubKind::Handle);
    assert_eq!(fallback_stub(b"slCreateEngine"), StubKind::Handle);
    assert_eq!(fallback_stub(b"glDrawArrays"), StubKind::Zero);
}

#[test]
fn handle_name_heuristic() {
    assert!(is_handle_name(b"eglCreateWindowSurface"));
    assert!(is_handle_name(b"eglGetCurrentContext"));
    assert!(is_handle_name(b"AAssetManager_fromJava"));
    assert!(is_handle_name(b"ALooper_forThread"));
    assert!(is_handle_name(b"AMediaCodec_getOutputFormat"));
    assert!(!is_handle_name(b"eglSwapBuffers"));
    assert!(!is_handle_name(b"open"));
    assert!(!is_handle_name(b""));
    assert!(is_handle_name(b"x\xff_open"));
}

#[test]
fn alooper_pollonce_dispatches_host_fed_app_commands() {
    let mut l = Looper::new();
    let r = l.poll_once();
    assert_eq!(r.ret, ALOOPER_POLL_TIMEOUT as u32 as u64);
    assert!(!r.dispatched);
    l.post_app_command(APP_CMD_START);
    l.post_app_command(APP_CMD_RESUME);
    let r1 = l.poll_once();
    assert_eq!(r1.ret, APP_CMD_START as u64, "ident == posted command");
    assert_eq!(r1.out_data, APP_CMD_START as u64, "outData carries the app command");
    assert_eq!(r1.out_events, 1, "ALOOPER_EVENT_INPUT");
    assert_eq!(r1.out_fd, 0x23, "synthetic readable fd");
    let r2 = l.poll_once();
    assert_eq!(r2.ret, APP_CMD_RESUME as u64);
    assert_eq!(r2.out_data, APP_CMD_RESUME as u64);
    let r3 = l.poll_once();
    assert_eq!(r3.ret, ALOOPER_POLL_TIMEOUT as u32 as u64);
}

#[test]
fn alooper_pollonce_emits_registered_poll_source_not_raw_int() {
    let mut l = Looper::new();
    let src_ptr: u64 = 0x1_2345_6780;
    assert_eq!(l.add_fd(0, src_ptr), 1, "addFd registers the command source");
    l.post_app_command(APP_CMD_START);
    let r = l.poll_once();
    assert_eq!(r.ret, APP_CMD_START as u64, "ident still the posted command");
    assert_eq!(r.out_data, src_ptr, "outData is the registered android_poll_source*");
    assert_eq!(r.out_fd, COMMAND_FD);
    assert_eq!(r.out_events, ALOOPER_EVENT_INPUT);
    l.clear();
    l.post_app_command(APP_CMD_INIT_WINDOW);
    assert_eq!(l.poll_once().out_data, APP_CMD_INIT_WINDOW as u64);
}

#[test]
fn alooper_pollonce_falls_back_to_raw_cmd_without_registration() {
    let mut l = Looper::new();
    assert_eq!(l.add_fd(0, 0), 1);
    assert_eq!(l.add_fd(7, 0x1_0000_0000), 1);
    l.post_app_command(APP_CMD_RESUME);
    let r = l.poll_once();
    assert_eq!(r.out_data, APP_CMD_RESUME as u64, "no registration -> raw app_cmd fallback");
}

#[test]
fn anativewindow_fromsurface_returns_stable_nonnull_handle_with_size() {
    let mut w = NativeWindow::new();
    w.set_anativewindow_xid(0);
    let win = w.from_surface(SENTINEL);
    assert_ne!(win, 0, "ANativeWindow_fromSurface must not return NULL");
    assert_eq!(win, w.from_surface(SENTINEL));
    assert_eq!(
        (ANATIVEWINDOW_WIDTH, ANATIVEWINDOW_HEIGHT),
        (1280, 720),
        "non-null window reports a sane framebuffer"
    );
}

#[test]
fn anativewindow_fromsurface_returns_registered_real_x11_window() {
    let mut w = NativeWindow::new();
    w.set_anativewindow_xid(0x2c00000d);
    assert_eq!(w.anativewindow_xid(), 0x2c00000d);
    let handle = w.from_surface(SENTINEL);
    assert_eq!(handle, 0x2c00000d, "guest receives the real X11 Window XID");
    w.set_anativewindow_xid(0);
    let fallback = w.from_surface(SENTINEL);
    assert_ne!(fallback, 0);
    assert_eq!(fallback, w.from_surface(SENTINEL));
}

#[test]
fn qsort_interpose_hostside_u32_key_comparator_orders_and_is_named() {
    assert_eq!(KNOWN_U32_KEY_COMPAR & 0xffffffff, 0x28bbfc0);
    let rec = |vk: u32| {
        let mut r = vec![0u8; 0x50];
        r[24..28].copy_from_slice(&vk.to_le_bytes());
        r
    };
    let mut data = [rec(0x141), rec(0x0f), rec(0x3ff)];
    for i in 0..3 {
        for j in i + 1..3 {
            if compare_u32_keys(record_key(&data[i]), record_key(&data[j])) > 0 {
                data.swap(i, j);
            }
        }
    }
    let ks: Vec<u32> = data.iter().map(|r| record_key(r)).collect();
    assert_eq!(ks, vec![0x0f, 0x141, 0x3ff]);
    let mut reg = ShimRegistry::new();
    register_shims(&mut reg);
    assert_eq!(reg.resolve(b"qsort\0"), Some(HostShim::Libc(LibcShim::Qsort)));
}

#[test]
fn qsort_routes() {
    assert_eq!(qsort_route(0, 3, KNOWN_U32_KEY_COMPAR), QsortRoute::Skip);
    assert_eq!(qsort_route(0x1000, 0, KNOWN_U32_KEY_COMPAR), QsortRoute::Skip);
    assert_eq!(qsort_route(0x1000, 3, 0), QsortRoute::Skip);
    assert_eq!(qsort_route(0x1000, 3, KNOWN_U32_KEY_COMPAR), QsortRoute::HostKeySort);
    assert_eq!(qsort_route(0x1000, 3, 0x1028bbfc4), QsortRoute::GuestComparator);
    assert_eq!(compare_u32_keys(1, 2), -1);
    assert_eq!(compare_u32_keys(2, 1), 1);
    assert_eq!(compare_u32_keys(u32::MAX, u32::MAX), 0);
}

#[test]
fn guarded_string_ops_reject_garbage() {
    assert!(!ptr_ok(0));
    assert!(!ptr_ok(0x48));
    assert!(!ptr_ok(GARBAGE));
    assert!(ptr_ok(0x1_0000_0000));
    let good = 0x5555_0000_1000u64;
    assert_eq!(guard_string_op(StringOp::Strcmp, GARBAGE, good, 0), Some(0));
    assert_eq!(guard_string_op(StringOp::Strcmp, good, good, 0), None);
    assert_eq!(guard_string_op(StringOp::Strncmp, good, good, 0), Some(0));
    assert_eq!(guard_string_op(StringOp::Strncmp, good, good, 5), None);
    assert_eq!(guard_string_op(StringOp::Strcpy, good, GARBAGE, 0), Some(good));
    assert_eq!(guard_string_op(StringOp::Memchr, good, 0, 0), Some(0));
    assert_eq!(guard_string_op(StringOp::Memcmp, good, 0x48, 4), Some(0));
    assert_eq!(guard_string_op(StringOp::Strchr, good, 0, 0), None);
    assert_eq!(guard_string_op(StringOp::StrncpyChk2, 0x48, 0x48, 3), None);
    assert_eq!(guard_string_op(StringOp::StrncpyChk2, 0x48, 0, 3), Some(0x48));
}

#[test]
fn once_guards_run_each_control_once() {
    let mut g = OnceGuards::new();
    assert!(!g.begin_once(0, 0x1000));
    assert!(!g.begin_once(0x1000, 0));
    assert!(g.begin_once(0x2000, 0x1_0000_4000));
    assert!(!g.begin_once(0x2000, 0x1_0000_4000));
    assert!(g.begin_once(0x3000, 0x1_0000_4000));
}

#[test]
fn stdio_stream_and_fwrite_total() {
    assert!(is_host_file(0x5555_0000_0010));
    assert!(!is_host_file(0x5555_0000_0018));
    assert!(!is_host_file(304));
    assert!(!is_host_file(0x2_0000_0000));
    assert_eq!(fwrite_total(3, 5), 15);
    assert_eq!(fwrite_total(0, u64::MAX), 0);
    assert_eq!(fwrite_total(u64::MAX, 2), u64::MAX);
}

#[test]
fn asset_table_serves_opened_bytes() {
    let mut t = AssetTable::new();
    let h = t.open(b"STABLE-GLSL-PACK\x00\x01\x02".to_vec());
    assert_eq!(h, FIRST_ASSET_HANDLE);
    assert_eq!(t.get_length(h), 19);
    assert_eq!(t.get(h).unwrap().as_slice(), b"STABLE-GLSL-PACK\x00\x01\x02");
    let h2 = t.open(vec![1, 2, 3]);
    assert_eq!(h2, FIRST_ASSET_HANDLE + 1);
    assert_eq!(t.close(h), 0);
    assert_eq!(t.get_length(h), 0);
    assert!(t.get(h).is_none());
    assert_eq!(t.get_length(h2), 3);
    assert_eq!(t.close(0xdead), 0);
}

#[test]
fn asset_names_resolve_under_assets_root() {
    assert_eq!(asset_relative_name(b"assets/shaders/ui.pack"), b"shaders/ui.pack".to_vec());
    assert_eq!(asset_relative_name(b"shaders/ui.pack"), b"shaders/ui.pack".to_vec());
    assert_eq!(asset_path(b"/tmp/root/assets", b"assets/shaders/ui.pack"), b"/tmp/root/assets/shaders/ui.pack".to_vec());
    assert_eq!(asset_path(b"/tmp/root/assets", b"shaders/ui.pack"), b"/tmp/root/assets/shaders/ui.pack".to_vec());
}

fn sample_stat() -> HostStat {
    HostStat {
        dev: 0x803,
        ino: 0x1234_5678,
        mode: 0o100644,
        nlink: 1,
        uid: 1000,
        gid: 1000,
        rdev: 0,
        size: 19,
        blksize: 4096,
        blocks: 8,
        atime: 1_700_000_000,
        mtime: 1_700_000_001,
        ctime: 1_700_000_002,
    }
}

#[test]
fn bionic_stat_marshals_into_128_byte_aarch64_layout() {
    let mut buf = vec![0xABu8; 0x100];
    write_bionic_stat(&mut buf, &sample_stat());
    assert_eq!(buf.len(), 0x100);
    assert!(buf[BIONIC_STAT_SIZE..].iter().all(|&b| b == 0xAB), "bionic_stat overran the 128-byte guest struct");
    let mode = u32::from_le_bytes(buf[0x10..0x14].try_into().unwrap()) & 0o170000;
    assert_eq!(mode, 0o100000, "st_mode@0x10 S_IFREG");
    let size = i64::from_le_bytes(buf[0x28..0x30].try_into().unwrap());
    assert_eq!(size, 19, "st_size@0x28");
    assert_eq!(u64::from_le_bytes(buf[0..8].try_into().unwrap()), 0x803);
    assert_eq!(u64::from_le_bytes(buf[8..16].try_into().unwrap()), 0x1234_5678);
    assert_eq!(i32::from_le_bytes(buf[0x30..0x34].try_into().unwrap()), 4096);
    assert_eq!(&buf[0x34..0x38], &[0xAB; 4]);
    assert_eq!(i64::from_le_bytes(buf[0x38..0x40].try_into().unwrap()), 8);
    assert_eq!(i64::from_le_bytes(buf[0x48..0x50].try_into().unwrap()), 1_700_000_001);
    assert!(buf[0x58..0x80].iter().all(|&b| b == 0));
}

#[test]
fn bionic_stat_negative_blocks_read_as_zero() {
    let mut s = sample_stat();
    s.blocks = -3;
    s.size = -1;
    let mut buf = vec![0u8; 128];
    write_bionic_stat(&mut buf, &s);
    assert_eq!(buf.len(), 128);
    assert_eq!(i64::from_le_bytes(buf[0x38..0x40].try_into().unwrap()), 0);
    assert_eq!(i64::from_le_bytes(buf[0x28..0x30].try_into().unwrap()), -1);
}
