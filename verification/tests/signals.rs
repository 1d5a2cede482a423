use arm64jit::signals::{
    decode_sigaction, deliver, dispatch_current_thread, encode_sigaction, is_blocked,
    mark_pending, sigprocmask, sigreturn, take_deliverable_pending, unblockable_mask, CpuState,
    Delivery, Disposition, GuestSigAction, HandlerBuffers, SigActionTable, SigFrameStack, SIGRET,
};

fn buffers() -> HandlerBuffers {
    let si = vec![0u8; 128];
    let uc = vec![0u8; 1024];
    let si_addr = si.as_ptr() as u64;
    let uc_addr = uc.as_ptr() as u64;
    HandlerBuffers { si, uc, si_addr, uc_addr }
}

#[test]
fn sigprocmask_block_unblock_setmask_drops_unblockable_and_osets() {
    let mut st = CpuState::new();
    let mut table = SigActionTable::new();
    table.reset_actions();

    // Block SIGUSR1(10) + SIGUSR2(12): bits 9, 11.
    let block = (1u64 << 9) | (1u64 << 11);

    // SIG_BLOCK from an empty mask.
    let r = sigprocmask(&mut st, 0, Some(block), 8);
    assert_eq!(r.ret, 0);
    assert_eq!(st.blocked_mask, block);
    assert!(is_blocked(&st, 10));
    assert!(is_blocked(&st, 12));
    assert!(!is_blocked(&st, 11));

    // oset reports the just-set mask.
    let r = sigprocmask(&mut st, 1, Some(block), 8);
    assert_eq!(r.ret, 0);
    let oset = r.previous;
    assert_eq!(oset, block, "oset carries the previous mask");

    // SIG_UNBLOCK cleared both.
    assert_eq!(st.blocked_mask, 0, "SIG_UNBLOCK of the whole set clears it");
    assert!(!is_blocked(&st, 10));

    // Attempting to BLOCK SIGKILL(9)+SIGSTOP(19) must be silently dropped.
    let killstop = (1u64 << 8) | (1u64 << 18);
    let r = sigprocmask(&mut st, 0, Some(block | killstop), 8);
    assert_eq!(r.ret, 0);
    assert_eq!(st.blocked_mask, block);
    assert!(!is_blocked(&st, 9));
    assert!(!is_blocked(&st, 19));

    // SIG_SETMASK replaces wholesale.
    let only12 = 1u64 << 11;
    let r = sigprocmask(&mut st, 2, Some(only12), 8);
    assert_eq!(r.ret, 0);
    assert_eq!(st.blocked_mask, only12);
}

#[test]
fn sigprocmask_einval_paths() {
    let mut st = CpuState::new();
    // sigsetsize < 8 is invalid.
    assert_eq!(sigprocmask(&mut st, 0, None, 4).ret, -(libc::EINVAL) as i64);
    // how > 2 is invalid.
    assert_eq!(sigprocmask(&mut st, 3, None, 8).ret, -(libc::EINVAL) as i64);
    // SIG_SETMASK (2) with a NULL set is invalid.
    assert_eq!(sigprocmask(&mut st, 2, None, 8).ret, -(libc::EINVAL) as i64);
    // A NULL set + NULL oset with SIG_BLOCK is a no-op query that returns 0.
    assert_eq!(sigprocmask(&mut st, 0, None, 8).ret, 0);
}

#[test]
fn pending_deliverable_ordering_and_blocked_hold() {
    let mut st = CpuState::new();

    // mark 12 then 10 pending; both unblocked.
    mark_pending(&mut st, 12);
    mark_pending(&mut st, 10);
    // Lowest set bit = ascending signal number: 10 before 12.
    assert_eq!(take_deliverable_pending(&mut st), Some(10));
    assert_eq!(take_deliverable_pending(&mut st), Some(12));
    assert_eq!(take_deliverable_pending(&mut st), None, "drained");

    // A blocked signal stays pending and is not delivered.
    st.blocked_mask = 1u64 << 11; // block 12
    mark_pending(&mut st, 12);
    mark_pending(&mut st, 10);
    assert_eq!(take_deliverable_pending(&mut st), Some(10), "unblocked 10 delivered");
    assert_eq!(take_deliverable_pending(&mut st), None, "12 held blocked in pending_mask");
    assert!(st.pending_mask & (1u64 << 11) != 0, "12 still pending");
    // Once unblocked, it becomes deliverable.
    st.blocked_mask = 0;
    assert_eq!(take_deliverable_pending(&mut st), Some(12), "12 now delivered");
}

#[test]
fn sigaction_install_query_roundtrip_and_einval() {
    let mut table = SigActionTable::new();
    table.reset_actions();

    // Out-of-range signal is EINVAL.
    assert_eq!(table.rt_sigaction(0, None).0, -(libc::EINVAL) as i64);
    assert_eq!(table.rt_sigaction(65, None).0, -(libc::EINVAL) as i64);

    // Install handler 0x1234 with flags on SIGUSR1(10); mask @ 24 blocks SIGUSR2.
    let mut act = vec![0u8; 32];
    act[0..8].copy_from_slice(&0x1234u64.to_le_bytes());
    act[8..16].copy_from_slice(&0x4000u64.to_le_bytes());
    act[24..32].copy_from_slice(&(1u64 << 11).to_le_bytes());
    let r = table.rt_sigaction(10, Some(decode_sigaction(&act)));
    assert_eq!(r.0, 0);

    // Query it back via oact.
    let (r, old) = table.rt_sigaction(10, None);
    assert_eq!(r, 0);
    let oact = encode_sigaction(&old.unwrap());
    let handler = u64::from_le_bytes(oact[0..8].try_into().unwrap());
    let flags = u64::from_le_bytes(oact[8..16].try_into().unwrap());
    let mut mask = [0u8; 8];
    mask.copy_from_slice(&oact[24..32]);
    assert_eq!(handler, 0x1234);
    assert_eq!(flags, 0x4000);
    assert_eq!(mask, (1u64 << 11).to_le_bytes());
}

#[test]
fn handler_frame_sigreturn_restores_context() {
    let mut st = CpuState::new();
    let mut table = SigActionTable::new();
    let mut frames = SigFrameStack::new();
    table.reset_actions();

    // Seed an interrupted context that begin_handler must save + restore.
    for i in 0..32 {
        st.x[i] = 0x1000 + i as u64;
    }
    st.x[31] = 0x7000_0000; // sp
    st.x[0] = 0xDEAD; // will be overridden by the syscall-return 0
    st.pc = 0x402000; // interrupted pc
    st.tpidr = 0x1234_5678;
    st.nzcv = 0xABCD;

    // Install a real handler so dispatch enters begin_handler.
    let mut act = vec![0u8; 32];
    act[0..8].copy_from_slice(&0x1234u64.to_le_bytes());
    let r = table.rt_sigaction(10, Some(decode_sigaction(&act)));
    assert_eq!(r.0, 0);

    let bufs = buffers();
    let si_addr = bufs.si_addr;
    let d = dispatch_current_thread(&mut st, &table, &mut frames, 10, 0x402004, bufs);
    assert!(matches!(d, Disposition::Handler(0x1234)));

    // Handler ABI: x0=signo, x1=siginfo*, x2=ucontext*, x30=SIGRET, redirect set.
    assert_eq!(st.redirect_request, 0x1234, "handler queued to run");
    assert_eq!(st.x[0], 10, "x0 = signo");
    assert!(
        st.x[1] != 0 && st.x[2] != 0,
        "siginfo/ucontext pointers set ({:#x},{:#x})",
        st.x[1],
        st.x[2]
    );
    assert_eq!(st.x[30], SIGRET, "x30 = SIGRET");
    assert!((st.x[1] & 15) == 0, "siginfo pointer naturally aligned");
    assert_eq!(st.x[1], si_addr);

    // siginfo header: si_signo=10, si_errno=0.
    let si = frames.top_siginfo().unwrap();
    let signo = i32::from_le_bytes(si[0..4].try_into().unwrap());
    assert_eq!(signo, 10, "siginfo.si_signo");

    // sigreturn restores the interrupted context wholesale.
    let ok = sigreturn(&mut st, &mut frames);
    assert!(ok, "sigreturn finds a saved frame");
    assert_eq!(st.pc, 0x402004, "resumes right after the interrupted svc");
    assert_eq!(st.tpidr, 0x1234_5678);
    assert_eq!(st.nzcv, 0xABCD);
    assert_eq!(st.x[31], 0x7000_0000, "sp restored");
    for i in 1..31 {
        assert_eq!(st.x[i], 0x1000 + i as u64, "x{i} restored (except x0 overridden)");
    }
    // x0 was overridden to 0 (syscall return), not restored to 0xDEAD.
    assert_eq!(st.x[0], 0, "x0 forced to syscall-return 0");

    // A second sigreturn (no saved frame) is a stray — returns false.
    assert!(!sigreturn(&mut st, &mut frames), "stray sigreturn detected");
}

#[test]
fn unblockable_mask_is_kill_and_stop() {
    assert_eq!(unblockable_mask(), (1 << 8) | (1 << 18));
}

#[test]
fn default_dispositions_ignore_or_terminate() {
    let table = SigActionTable::new();
    let mut frames = SigFrameStack::new();
    let mut st = CpuState::new();
    // SIGTERM (15) by default terminates with 128 + 15.
    let d = dispatch_current_thread(&mut st, &table, &mut frames, 15, 0, buffers());
    assert!(matches!(d, Disposition::Terminate(143)));
    // SIGCHLD (17) by default is ignored.
    let d = dispatch_current_thread(&mut st, &table, &mut frames, 17, 0, buffers());
    assert!(matches!(d, Disposition::Ignored));
    assert_eq!(frames.depth(), 0);
}

#[test]
fn sig_ign_consumes_the_signal() {
    let mut table = SigActionTable::new();
    let mut act = vec![0u8; 32];
    act[0..8].copy_from_slice(&1u64.to_le_bytes());
    table.rt_sigaction(15, Some(decode_sigaction(&act)));
    let mut frames = SigFrameStack::new();
    let mut st = CpuState::new();
    let d = dispatch_current_thread(&mut st, &table, &mut frames, 15, 0, buffers());
    assert!(matches!(d, Disposition::Ignored));
}

#[test]
fn deliver_marks_blocked_signal_pending() {
    let table = SigActionTable::new();
    let mut frames = SigFrameStack::new();
    let mut st = CpuState::new();
    st.blocked_mask = 1 << 9;
    let r = deliver(&mut st, &table, &mut frames, 10, 0, buffers());
    assert!(matches!(r, Delivery::Pending));
    assert_eq!(st.pending_mask, 1 << 9);
    // SIGKILL is never blocked: it is dispatched (default terminate).
    st.blocked_mask = u64::MAX;
    let r = deliver(&mut st, &table, &mut frames, 9, 0, buffers());
    assert!(matches!(r, Delivery::Dispatched(Disposition::Terminate(137))));
}

#[test]
fn mark_pending_ignores_out_of_range() {
    let mut st = CpuState::new();
    mark_pending(&mut st, 0);
    mark_pending(&mut st, 65);
    assert_eq!(st.pending_mask, 0);
    mark_pending(&mut st, 64);
    assert_eq!(st.pending_mask, 1u64 << 63);
}

#[test]
fn sigaction_bytes_round_trip() {
    let a = GuestSigAction { handler: 0xdead_beef, flags: 7, mask: [1, 2, 3, 4, 5, 6, 7, 8] };
    let b = encode_sigaction(&a);
    assert_eq!(b.len(), 32);
    assert_eq!(&b[16..24], &[0u8; 8]);
    let d = decode_sigaction(&b);
    assert_eq!(d.handler, a.handler);
    assert_eq!(d.flags, a.flags);
    assert_eq!(d.mask, a.mask);
}
