//! Guest signal handling for JIT-executed AArch64 code: the Linux sigset
//! arithmetic, the per-thread pending/blocked masks, the process-wide action
//! table and the saved-context frames of in-flight handlers.
//!
//! A sigset is a `u64` in which bit `n - 1` stands for signal `n` (1..=64).

use vstd::prelude::*;
use crate::bytes::{le_u64, from_le_u64, push_le_u64, read_le_u64, lemma_le_u64_roundtrip};

verus! {

broadcast use vstd::std_specs::bits::axiom_u64_trailing_zeros;

/// Magic guest return address (`x30`) a dispatched handler's `ret` jumps to;
/// the dispatcher recognizes it and restores the interrupted context.
pub const SIGRET: u64 = 0x5151_5253_5455_5657;

/// `libc::EINVAL`, the errno for an invalid argument.
///
/// Trusted: reads the constant of the `libc` crate, which is 22 on Linux.
#[verifier::external_body]
fn einval() -> (e: i32)
    ensures
        e == 22,
{
    libc::EINVAL
}

/// The register file of one guest thread, as far as signal delivery and the
/// input marshalling read and write it.
pub struct CpuState {
    pub x: [u64; 32],
    pub v: [u64; 64],
    pub tpidr: u64,
    pub nzcv: u32,
    pub pc: u64,
    pub blocked_mask: u64,
    pub pending_mask: u64,
    pub redirect_request: u64,
}

impl CpuState {
    /// A zeroed register file.
    pub fn new() -> (st: CpuState)
        ensures
            forall|i: int| 0 <= i < 32 ==> st.x@[i] == 0,
            forall|i: int| 0 <= i < 64 ==> st.v@[i] == 0,
            st.tpidr == 0,
            st.nzcv == 0,
            st.pc == 0,
            st.blocked_mask == 0,
            st.pending_mask == 0,
            st.redirect_request == 0,
    {
        CpuState {
            x: [0u64; 32],
            v: [0u64; 64],
            tpidr: 0,
            nzcv: 0,
            pc: 0,
            blocked_mask: 0,
            pending_mask: 0,
            redirect_request: 0,
        }
    }
}

/// Whether bit `n` of `mask` is set.
pub open spec fn bit_set(mask: u64, n: u64) -> bool {
    (mask >> n) & 1u64 == 1u64
}

/// The sigset bit of signal `sig` (bit `sig - 1`).
pub open spec fn sig_bit(sig: u32) -> u64 {
    1u64 << ((sig - 1) as u64)
}

/// Signals are numbered 1..=64.
pub open spec fn valid_sig(sig: u32) -> bool {
    1 <= sig <= 64
}

/// Signal numbers Linux never lets a thread block: SIGKILL (9) and SIGSTOP (19).
pub fn unblockable_mask() -> (m: u64)
    ensures
        m == sig_bit(9) | sig_bit(19),
{
    (1u64 << (9u64 - 1)) | (1u64 << (19u64 - 1))
}

/// Whether `sig` is blocked under `mask`: a valid signal other than
/// SIGKILL/SIGSTOP whose bit is set.
pub open spec fn spec_is_blocked(mask: u64, sig: u32) -> bool {
    valid_sig(sig) && sig != 9 && sig != 19 && bit_set(mask, (sig - 1) as u64)
}

/// Whether `sig` is in this thread's blocked mask. SIGKILL/SIGSTOP and
/// out-of-range numbers are never blocked.
pub fn is_blocked(st: &CpuState, sig: u32) -> (b: bool)
    ensures
        b == spec_is_blocked(st.blocked_mask, sig),
{
    if !(1 <= sig && sig <= 64) {
        return false;
    }
    if sig == 9 || sig == 19 {
        return false;
    }
    (st.blocked_mask >> ((sig - 1) as u64)) & 1 == 1
}

/// OR `sig` into this thread's pending mask (raised but not deliverable yet).
/// Out-of-range signal numbers are ignored.
pub fn mark_pending(st: &mut CpuState, sig: u32)
    ensures
        final(st).pending_mask == (if valid_sig(sig) {
            old(st).pending_mask | sig_bit(sig)
        } else {
            old(st).pending_mask
        }),
        final(st).blocked_mask == old(st).blocked_mask,
        final(st).x == old(st).x,
        final(st).v == old(st).v,
        final(st).pc == old(st).pc,
        final(st).tpidr == old(st).tpidr,
        final(st).nzcv == old(st).nzcv,
        final(st).redirect_request == old(st).redirect_request,
{
    if 1 <= sig && sig <= 64 {
        let bit = 1u64 << ((sig - 1) as u64);
        st.pending_mask = st.pending_mask | bit;
    }
}

/// The lowest-numbered signal set in `m` (a non-empty sigset).
pub open spec fn lowest_sig(m: u64) -> u32 {
    (vstd::std_specs::bits::u64_trailing_zeros(m) + 1) as u32
}

/// Drain one deliverable pending signal: the lowest-numbered signal that is
/// pending and not blocked has its pending bit cleared and is returned;
/// `None` when every pending signal is blocked (or none is pending).
pub fn take_deliverable_pending(st: &mut CpuState) -> (r: Option<u32>)
    ensures
        ({
            let d = old(st).pending_mask & !old(st).blocked_mask;
            &&& r is None <==> d == 0
            &&& r is None ==> final(st).pending_mask == old(st).pending_mask
            &&& r matches Some(s) ==> {
                &&& valid_sig(s)
                &&& s == lowest_sig(d)
                &&& bit_set(d, (s - 1) as u64)
                &&& forall|j: u64| j < (s - 1) as u64 ==> !bit_set(d, j)
                &&& final(st).pending_mask == old(st).pending_mask & !sig_bit(s)
            }
        }),
        final(st).blocked_mask == old(st).blocked_mask,
        final(st).x == old(st).x,
        final(st).v == old(st).v,
        final(st).pc == old(st).pc,
        final(st).tpidr == old(st).tpidr,
        final(st).nzcv == old(st).nzcv,
        final(st).redirect_request == old(st).redirect_request,
{
    let pend = st.pending_mask;
    let blocked = st.blocked_mask;
    let deliverable = pend & !blocked;
    if deliverable == 0 {
        return None;
    }
    let tz = deliverable.trailing_zeros();
    proof {
        assert(tz < 64);
        assert forall|j: u64| j < tz as u64 implies !bit_set(deliverable, j) by {
            assert((deliverable >> j) & 1u64 == 0u64);
        }
    }
    let sig = tz + 1;
    st.pending_mask = pend & !(1u64 << ((sig - 1) as u64));
    Some(sig)
}

/// The outcome of `rt_sigprocmask`: the syscall return (0 or `-EINVAL`)
/// and the previous blocked mask, which the caller copies to `oset` on
/// success when one was supplied.
pub struct MaskOutcome {
    pub ret: i64,
    pub previous: u64,
}

/// The new blocked mask `rt_sigprocmask(how, set)` installs over `old`:
/// SIG_BLOCK (0) adds, SIG_UNBLOCK (1) removes, SIG_SETMASK (2) replaces;
/// SIGKILL/SIGSTOP are always dropped.
pub open spec fn spec_apply_mask(old: u64, how: u64, new: u64) -> u64 {
    let m = if how == 0 {
        old | new
    } else if how == 1 {
        old & !new
    } else {
        new
    };
    m & !(sig_bit(9) | sig_bit(19))
}

/// Apply `rt_sigprocmask` (syscall 135): `how` in {SIG_BLOCK=0,
/// SIG_UNBLOCK=1, SIG_SETMASK=2}, `set` the incoming sigset if the guest
/// passed one, `sigsetsize` the sigset byte size (at least 8). A bad `how`
/// or size, or SIG_SETMASK without a set, is `-EINVAL` and changes nothing;
/// a missing set is a pure query.
pub fn sigprocmask(st: &mut CpuState, how: u64, set: Option<u64>, sigsetsize: u64) -> (r:
    MaskOutcome)
    ensures
        r.previous == old(st).blocked_mask,
        (sigsetsize < 8 || how > 2 || (set is None && how == 2)) ==> r.ret == -22
            && final(st).blocked_mask == old(st).blocked_mask,
        !(sigsetsize < 8 || how > 2 || (set is None && how == 2)) ==> r.ret == 0
            && final(st).blocked_mask == (match set {
            Some(n) => spec_apply_mask(old(st).blocked_mask, how, n),
            None => old(st).blocked_mask,
        }),
        final(st).pending_mask == old(st).pending_mask,
        final(st).x == old(st).x,
        final(st).v == old(st).v,
        final(st).pc == old(st).pc,
        final(st).tpidr == old(st).tpidr,
        final(st).nzcv == old(st).nzcv,
        final(st).redirect_request == old(st).redirect_request,
{
    let old_mask = st.blocked_mask;
    if sigsetsize < 8 || how > 2 {
        return MaskOutcome { ret: -(einval() as i64), previous: old_mask };
    }
    if set.is_none() && how == 2 {
        return MaskOutcome { ret: -(einval() as i64), previous: old_mask };
    }
    if let Some(new) = set {
        let m = if how == 0 {
            old_mask | new
        } else if how == 1 {
            old_mask & !new
        } else {
            new
        };
        st.blocked_mask = m & !unblockable_mask();
    }
    MaskOutcome { ret: 0, previous: old_mask }
}

/// A guest-visible per-signal action: `handler` 0 = SIG_DFL, 1 = SIG_IGN,
/// otherwise a guest function address.
#[derive(Clone, Copy, Debug)]
pub struct GuestSigAction {
    pub handler: u64,
    pub flags: u64,
    pub mask: [u8; 8],
}

/// Whether `a` is the default action.
pub open spec fn is_default_action(a: GuestSigAction) -> bool {
    a.handler == 0 && a.flags == 0 && forall|i: int| 0 <= i < 8 ==> a.mask@[i] == 0
}

fn default_action() -> (a: GuestSigAction)
    ensures
        is_default_action(a),
{
    GuestSigAction { handler: 0, flags: 0, mask: [0u8; 8] }
}

/// The 32 bytes of the guest aarch64 kernel `struct sigaction` for `a`:
/// handler at 0, flags at 8, restorer (always 0) at 16, mask at 24.
pub open spec fn sigaction_bytes(a: GuestSigAction) -> Seq<u8> {
    le_u64(a.handler) + le_u64(a.flags) + le_u64(0) + a.mask@
}

/// Encode an action in the guest `struct sigaction` layout (the `oact`
/// image); no restorer is ever installed.
pub fn encode_sigaction(a: &GuestSigAction) -> (out: Vec<u8>)
    ensures
        out@ == sigaction_bytes(*a),
        out@.len() == 32,
{
    let mut out: Vec<u8> = Vec::new();
    push_le_u64(&mut out, a.handler);
    push_le_u64(&mut out, a.flags);
    push_le_u64(&mut out, 0);
    let mut i: usize = 0;
    while i < 8
        invariant
            i <= 8,
            out@ == le_u64(a.handler) + le_u64(a.flags) + le_u64(0) + a.mask@.subrange(0, i as int),
        decreases 8 - i,
    {
        out.push(a.mask[i]);
        proof {
            assert(a.mask@.subrange(0, i + 1) =~= a.mask@.subrange(0, i as int).push(a.mask@[i as int]));
        }
        i = i + 1;
    }
    assert(a.mask@.subrange(0, 8) =~= a.mask@);
    out
}

/// Decode the handler, flags and mask of a guest `struct sigaction` image
/// (`act`, at least 32 bytes); the restorer word is ignored.
pub fn decode_sigaction(raw: &[u8]) -> (a: GuestSigAction)
    requires
        raw@.len() >= 32,
    ensures
        a.handler == from_le_u64(raw@, 0),
        a.flags == from_le_u64(raw@, 8),
        a.mask@ == raw@.subrange(24, 32),
{
    let handler = read_le_u64(raw, 0);
    let flags = read_le_u64(raw, 8);
    let mut mask = [0u8; 8];
    let mut i: usize = 0;
    while i < 8
        invariant
            i <= 8,
            raw@.len() >= 32,
            forall|k: int| 0 <= k < i ==> mask@[k] == raw@[24 + k],
        decreases 8 - i,
    {
        mask[i] = raw[24 + i];
        i = i + 1;
    }
    assert(mask@ =~= raw@.subrange(24, 32));
    GuestSigAction { handler, flags, mask }
}

/// Decoding the `struct sigaction` image of an action gives the action
/// back: what `decode_sigaction` reads from `encode_sigaction` output is
/// the handler, flags and mask that were encoded.
pub proof fn law_sigaction_encode_decode_round_trip(a: GuestSigAction)
    ensures
        from_le_u64(sigaction_bytes(a), 0) == a.handler,
        from_le_u64(sigaction_bytes(a), 8) == a.flags,
        sigaction_bytes(a).subrange(24, 32) == a.mask@,
{
    let b = sigaction_bytes(a);
    lemma_le_u64_roundtrip(a.handler);
    lemma_le_u64_roundtrip(a.flags);
    assert(b.subrange(0, 8) =~= le_u64(a.handler));
    assert(b.subrange(8, 16) =~= le_u64(a.flags));
    assert(b.subrange(24, 32) =~= a.mask@);
    assert(from_le_u64(b, 0) == from_le_u64(le_u64(a.handler), 0));
    assert(from_le_u64(b, 8) == from_le_u64(le_u64(a.flags), 0));
}

/// The process-wide signal action table, indexed by signal number (0..=64,
/// entry 0 unused).
pub struct SigActionTable {
    actions: Vec<GuestSigAction>,
}

impl View for SigActionTable {
    type V = Seq<GuestSigAction>;

    closed spec fn view(&self) -> Seq<GuestSigAction> {
        self.actions@
    }
}

impl SigActionTable {
    /// The table always has one entry per signal number 0..=64.
    pub open spec fn wf(&self) -> bool {
        self@.len() == 65
    }

    /// A table with every signal at its default disposition.
    pub fn new() -> (t: SigActionTable)
        ensures
            t.wf(),
            t@.len() == 65,
            forall|i: int| 0 <= i < 65 ==> is_default_action(#[trigger] t@[i]),
    {
        let mut actions: Vec<GuestSigAction> = Vec::new();
        let mut i: usize = 0;
        while i < 65
            invariant
                i <= 65,
                actions@.len() == i,
                forall|k: int| 0 <= k < i ==> is_default_action(#[trigger] actions@[k]),
            decreases 65 - i,
        {
            actions.push(default_action());
            i = i + 1;
        }
        SigActionTable { actions }
    }

    /// Return every signal to its default disposition.
    pub fn reset_actions(&mut self)
        ensures
            final(self).wf(),
            final(self)@.len() == 65,
            forall|i: int| 0 <= i < 65 ==> is_default_action(#[trigger] final(self)@[i]),
    {
        *self = SigActionTable::new();
    }

    /// The action installed for `sig`.
    pub fn action(&self, sig: u32) -> (a: GuestSigAction)
        requires
            self.wf(),
            sig <= 64,
        ensures
            a == self@[sig as int],
    {
        self.actions[sig as usize]
    }

    /// Install or query a signal action (`rt_sigaction`, syscall 134).
    /// `act` is the decoded action the guest asked to install, if any.
    /// Returns `-EINVAL` for a signal outside 1..=64 (nothing changes);
    /// otherwise 0 and the action that was installed before the call (the
    /// `oact` value).
    pub fn rt_sigaction(&mut self, sig: u64, act: Option<GuestSigAction>) -> (r: (
        i64,
        Option<GuestSigAction>,
    ))
        requires
            old(self).wf(),
        ensures
            final(self).wf(),
            (sig < 1 || sig > 64) ==> r.0 == -22 && r.1 is None && final(self)@ == old(self)@,
            (1 <= sig <= 64) ==> {
                &&& r.0 == 0
                &&& r.1 == Some(old(self)@[sig as int])
                &&& final(self)@ == match act {
                    Some(a) => old(self)@.update(sig as int, a),
                    None => old(self)@,
                }
            },
    {
        if sig < 1 || sig > 64 {
            return (-(einval() as i64), None);
        }
        let cur = self.actions[sig as usize];
        if let Some(a) = act {
            self.actions.set(sig as usize, a);
        }
        (0, Some(cur))
    }
}

/// POSIX default disposition: whether an un-handled `sig` terminates the
/// process (everything but the ignore/stop/continue group 17..=23 and 28).
pub fn default_terminates(sig: u64) -> (t: bool)
    ensures
        t == !(sig == 17 || sig == 18 || sig == 19 || sig == 20 || sig == 21 || sig == 22
            || sig == 23 || sig == 28),
{
    !(sig == 17 || sig == 18 || sig == 19 || sig == 20 || sig == 21 || sig == 22 || sig == 23
        || sig == 28)
}

/// The saved interrupted context of an in-flight handler, with the guest
/// siginfo (128 bytes) and ucontext (1024 bytes) buffers its `x1`/`x2`
/// point at.
pub struct SigFrame {
    pub x: [u64; 32],
    pub v: [u64; 64],
    pub sp: u64,
    pub tpidr: u64,
    pub nzcv: u32,
    pub pc: u64,
    pub si: Vec<u8>,
    pub uc: Vec<u8>,
}

/// Host buffers for a handler's siginfo (128 bytes) and ucontext (1024
/// zero bytes), with the guest addresses the handler sees for them
/// (guest == host addresses).
pub struct HandlerBuffers {
    pub si: Vec<u8>,
    pub uc: Vec<u8>,
    pub si_addr: u64,
    pub uc_addr: u64,
}

/// The siginfo header of a user signal: si_signo = `sig` at 0, si_errno 0 at
/// 4 and si_code SI_USER (0) at 8, the rest zero.
pub open spec fn siginfo_header_ok(si: Seq<u8>, sig: u32) -> bool {
    &&& si.len() == 128
    &&& si.subrange(0, 4) == crate::bytes::le_u32(sig)
    &&& forall|i: int| 4 <= i < 128 ==> si[i] == 0
}

/// Per-thread stack of saved handler frames (nested signals unwind LIFO).
pub struct SigFrameStack {
    frames: Vec<SigFrame>,
}

/// The register view of a saved frame.
pub struct FrameRegs {
    pub x: Seq<u64>,
    pub v: Seq<u64>,
    pub sp: u64,
    pub tpidr: u64,
    pub nzcv: u32,
    pub pc: u64,
}

/// The registers a frame saved.
pub open spec fn frame_regs(f: SigFrame) -> FrameRegs {
    FrameRegs { x: f.x@, v: f.v@, sp: f.sp, tpidr: f.tpidr, nzcv: f.nzcv, pc: f.pc }
}

/// The registers `begin_handler` saves for `st` resuming at `resume`: the
/// whole context, with x0 forced to the interrupted syscall's return 0.
pub open spec fn saved_regs(st: CpuState, resume: u64) -> FrameRegs {
    FrameRegs {
        x: st.x@.update(0, 0),
        v: st.v@,
        sp: st.x@[31],
        tpidr: st.tpidr,
        nzcv: st.nzcv,
        pc: resume,
    }
}

impl View for SigFrameStack {
    type V = Seq<FrameRegs>;

    closed spec fn view(&self) -> Seq<FrameRegs> {
        self.frames@.map_values(|f: SigFrame| frame_regs(f))
    }
}

impl SigFrameStack {
    /// An empty stack.
    pub fn new() -> (s: SigFrameStack)
        ensures
            s@.len() == 0,
    {
        SigFrameStack { frames: Vec::new() }
    }

    /// Number of in-flight handler frames.
    pub fn depth(&self) -> (n: usize)
        ensures
            n == self@.len(),
    {
        self.frames.len()
    }
}

/// Save `st`'s context and enter the guest handler `handler` with the
/// aarch64 signal ABI: x0 = signo, x1 = siginfo*, x2 = ucontext*,
/// x30 = SIGRET, and `redirect_request` = handler so the dispatcher runs it.
/// The saved frame resumes at `resume` with x0 = 0 (the syscall return).
pub fn begin_handler(
    st: &mut CpuState,
    frames: &mut SigFrameStack,
    sig: u32,
    handler: u64,
    resume: u64,
    bufs: HandlerBuffers,
)
    requires
        bufs.si@.len() == 128,
        bufs.uc@.len() == 1024,
        forall|i: int| 0 <= i < 1024 ==> bufs.uc@[i] == 0,
    ensures
        final(frames)@ == old(frames)@.push(saved_regs(*old(st), resume)),
        final(frames).top_siginfo_ok(sig),
        final(frames).top_ucontext_zeroed(),
        final(st).redirect_request == handler,
        final(st).x@ == old(st).x@.update(0, sig as u64).update(1, bufs.si_addr).update(
            2,
            bufs.uc_addr,
        ).update(30, SIGRET),
        final(st).v == old(st).v,
        final(st).pc == old(st).pc,
        final(st).tpidr == old(st).tpidr,
        final(st).nzcv == old(st).nzcv,
        final(st).blocked_mask == old(st).blocked_mask,
        final(st).pending_mask == old(st).pending_mask,
{
    let HandlerBuffers { si, uc, si_addr, uc_addr } = bufs;
    let mut info = si;
    let mut saved_x = st.x;
    saved_x[0] = 0;
    let mut i: usize = 0;
    while i < 128
        invariant
            i <= 128,
            info@.len() == 128,
            forall|k: int| 0 <= k < i ==> info@[k] == (if k < 4 {
                crate::bytes::le_u32(sig)[k]
            } else {
                0u8
            }),
        decreases 128 - i,
    {
        let b: u8 = if i == 0 {
            sig as u8
        } else if i == 1 {
            (sig >> 8u32) as u8
        } else if i == 2 {
            (sig >> 16u32) as u8
        } else if i == 3 {
            (sig >> 24u32) as u8
        } else {
            0
        };
        info.set(i, b);
        i = i + 1;
    }
    assert(info@.subrange(0, 4) =~= crate::bytes::le_u32(sig));
    assert(uc@ =~= Seq::new(1024, |i: int| 0u8));
    let f = SigFrame {
        x: saved_x,
        v: st.v,
        sp: st.x[31],
        tpidr: st.tpidr,
        nzcv: st.nzcv,
        pc: resume,
        si: info,
        uc: uc,
    };
    proof {
        assert(f.x@ =~= old(st).x@.update(0, 0));
        assert(frame_regs(f) == saved_regs(*old(st), resume));
    }
    frames.frames.push(f);
    proof {
        assert(frames@ =~= old(frames)@.push(saved_regs(*old(st), resume)));
    }
    st.redirect_request = handler;
    st.x[0] = sig as u64;
    st.x[1] = si_addr;
    st.x[2] = uc_addr;
    st.x[30] = SIGRET;
    proof {
        assert(st.x@ =~= old(st).x@.update(0, sig as u64).update(1, si_addr).update(2, uc_addr).update(30, SIGRET));
    }
}

impl SigFrameStack {
    /// The innermost frame's siginfo holds the header of signal `sig`.
    pub closed spec fn top_siginfo_ok(&self, sig: u32) -> bool {
        self.frames@.len() > 0 && siginfo_header_ok(self.frames@.last().si@, sig)
    }

    /// The innermost frame's ucontext is the zeroed 1024-byte buffer the
    /// handler was given.
    pub closed spec fn top_ucontext_zeroed(&self) -> bool {
        self.frames@.len() > 0 && self.frames@.last().uc@ == Seq::new(1024, |i: int| 0u8)
    }

    /// A copy of the innermost frame's ucontext bytes.
    pub fn top_ucontext(&self) -> (r: Option<Vec<u8>>)
        ensures
            self@.len() == 0 <==> r is None,
            self.top_ucontext_zeroed() ==> (r matches Some(b) && b@ == Seq::new(1024, |i: int| 0u8)),
    {
        if self.frames.len() == 0 {
            return None;
        }
        let n = self.frames.len();
        Some(self.frames[n - 1].uc.clone())
    }

    /// A copy of the innermost frame's siginfo bytes.
    pub fn top_siginfo(&self) -> (r: Option<Vec<u8>>)
        ensures
            self@.len() == 0 <==> r is None,
            forall|sig: u32| #[trigger] self.top_siginfo_ok(sig) ==> (r matches Some(b) && siginfo_header_ok(b@, sig)),
    {
        if self.frames.len() == 0 {
            return None;
        }
        let n = self.frames.len();
        Some(self.frames[n - 1].si.clone())
    }
}

/// Restore the interrupted context (`rt_sigreturn`, syscall 139, or the
/// SIGRET handler-`ret` path). Returns false, changing nothing, if this
/// thread has no saved frame (a stray sigreturn).
pub fn sigreturn(st: &mut CpuState, frames: &mut SigFrameStack) -> (ok: bool)
    ensures
        ok == (old(frames)@.len() > 0),
        !ok ==> *final(st) == *old(st) && final(frames)@ == old(frames)@,
        ok ==> {
            let f = old(frames)@.last();
            &&& final(frames)@ == old(frames)@.drop_last()
            &&& final(st).x@ == f.x.update(31, f.sp)
            &&& final(st).v@ == f.v
            &&& final(st).tpidr == f.tpidr
            &&& final(st).nzcv == f.nzcv
            &&& final(st).pc == f.pc
            &&& final(st).blocked_mask == old(st).blocked_mask
            &&& final(st).pending_mask == old(st).pending_mask
            &&& final(st).redirect_request == old(st).redirect_request
        },
{
    match frames.frames.pop() {
        Some(f) => {
            proof {
                assert(frames@ =~= old(frames)@.drop_last());
                assert(frame_regs(f) == old(frames)@.last());
            }
            st.x = f.x;
            st.v = f.v;
            st.x[31] = f.sp;
            st.tpidr = f.tpidr;
            st.nzcv = f.nzcv;
            st.pc = f.pc;
            proof {
                assert(st.x@ =~= f.x@.update(31, f.sp));
            }
            true
        },
        None => false,
    }
}

/// What `dispatch_current_thread` did with a signal.
pub enum Disposition {
    /// SIG_IGN, or a default disposition that ignores: the signal is consumed.
    Ignored,
    /// The default disposition terminates the process with this exit status
    /// (128 + signal number); the caller ends the process.
    Terminate(i32),
    /// A guest handler at this address was entered.
    Handler(u64),
}

/// The disposition the action `a` gives signal `sig`.
pub open spec fn spec_disposition(a: GuestSigAction, sig: u32) -> Disposition {
    if a.handler == 1 {
        Disposition::Ignored
    } else if a.handler == 0 {
        if !(sig == 17 || sig == 18 || sig == 19 || sig == 20 || sig == 21 || sig == 22 || sig
            == 23 || sig == 28) {
            Disposition::Terminate((128 + sig) as i32)
        } else {
            Disposition::Ignored
        }
    } else {
        Disposition::Handler(a.handler)
    }
}

/// Apply the effective action for `sig` to the current guest thread: ignore
/// it, report that the process must terminate, or save the context and enter
/// the installed guest handler (see `begin_handler`), to resume at `resume`.
pub fn dispatch_current_thread(
    st: &mut CpuState,
    table: &SigActionTable,
    frames: &mut SigFrameStack,
    sig: u32,
    resume: u64,
    bufs: HandlerBuffers,
) -> (d: Disposition)
    requires
        table.wf(),
        sig <= 64,
        bufs.si@.len() == 128,
        bufs.uc@.len() == 1024,
        forall|i: int| 0 <= i < 1024 ==> bufs.uc@[i] == 0,
    ensures
        d == spec_disposition(table@[sig as int], sig),
        !(d is Handler) ==> *final(st) == *old(st) && final(frames)@ == old(frames)@,
        d matches Disposition::Handler(h) ==> {
            &&& final(frames)@ == old(frames)@.push(saved_regs(*old(st), resume))
            &&& final(frames).top_siginfo_ok(sig)
            &&& final(frames).top_ucontext_zeroed()
            &&& final(st).redirect_request == h
            &&& final(st).x@ == old(st).x@.update(0, sig as u64).update(1, bufs.si_addr).update(
                2,
                bufs.uc_addr,
            ).update(30, SIGRET)
            &&& final(st).v == old(st).v
            &&& final(st).pc == old(st).pc
            &&& final(st).tpidr == old(st).tpidr
            &&& final(st).nzcv == old(st).nzcv
            &&& final(st).blocked_mask == old(st).blocked_mask
            &&& final(st).pending_mask == old(st).pending_mask
        },
{
    let act = table.action(sig);
    if act.handler == 1 {
        return Disposition::Ignored;
    }
    if act.handler == 0 {
        if default_terminates(sig as u64) {
            return Disposition::Terminate((128 + sig) as i32);
        }
        return Disposition::Ignored;
    }
    begin_handler(st, frames, sig, act.handler, resume, bufs);
    Disposition::Handler(act.handler)
}

/// What `deliver` did with a signal.
pub enum Delivery {
    /// The signal is blocked: it was marked pending and not dispatched.
    Pending,
    /// The signal was dispatched with this outcome.
    Dispatched(Disposition),
}

/// Deliver `sig` to the current guest thread: a blocked signal is only
/// marked pending; any other is dispatched at once (`dispatch_current_thread`).
pub fn deliver(
    st: &mut CpuState,
    table: &SigActionTable,
    frames: &mut SigFrameStack,
    sig: u32,
    resume: u64,
    bufs: HandlerBuffers,
) -> (r: Delivery)
    requires
        table.wf(),
        sig <= 64,
        bufs.si@.len() == 128,
        bufs.uc@.len() == 1024,
        forall|i: int| 0 <= i < 1024 ==> bufs.uc@[i] == 0,
    ensures
        spec_is_blocked(old(st).blocked_mask, sig) <==> r is Pending,
        r is Pending ==> {
            &&& final(st).pending_mask == old(st).pending_mask | sig_bit(sig)
            &&& final(st).blocked_mask == old(st).blocked_mask
            &&& final(st).x == old(st).x
            &&& final(st).v == old(st).v
            &&& final(st).pc == old(st).pc
            &&& final(st).tpidr == old(st).tpidr
            &&& final(st).nzcv == old(st).nzcv
            &&& final(st).redirect_request == old(st).redirect_request
            &&& final(frames)@ == old(frames)@
        },
        r matches Delivery::Dispatched(d) ==> {
            &&& d == spec_disposition(table@[sig as int], sig)
            &&& !(d is Handler) ==> *final(st) == *old(st) && final(frames)@ == old(frames)@
            &&& d matches Disposition::Handler(h) ==> {
                &&& final(frames)@ == old(frames)@.push(saved_regs(*old(st), resume))
                &&& final(frames).top_siginfo_ok(sig)
                &&& final(frames).top_ucontext_zeroed()
                &&& final(st).redirect_request == h
                &&& final(st).x@ == old(st).x@.update(0, sig as u64).update(1, bufs.si_addr).update(
                    2,
                    bufs.uc_addr,
                ).update(30, SIGRET)
                &&& final(st).v == old(st).v
                &&& final(st).pc == old(st).pc
                &&& final(st).tpidr == old(st).tpidr
                &&& final(st).nzcv == old(st).nzcv
                &&& final(st).blocked_mask == old(st).blocked_mask
                &&& final(st).pending_mask == old(st).pending_mask
            }
        },
{
    if is_blocked(st, sig) {
        mark_pending(st, sig);
        Delivery::Pending
    } else {
        Delivery::Dispatched(dispatch_current_thread(st, table, frames, sig, resume, bufs))
    }
}

/// A handler round trip restores the interrupted thread: the registers that
/// `sigreturn` puts back from the frame `begin_handler` saved are the
/// interrupted ones, except that x0 holds the syscall's return 0 and the pc
/// is the resume address; popping that frame leaves the stack as it was.
pub proof fn law_handler_round_trip_restores_context(
    st: CpuState,
    stack: Seq<FrameRegs>,
    resume: u64,
)
    ensures
        ({
            let f = stack.push(saved_regs(st, resume)).last();
            &&& f.x.update(31, f.sp) == st.x@.update(0, 0)
            &&& f.v == st.v@
            &&& f.tpidr == st.tpidr
            &&& f.nzcv == st.nzcv
            &&& f.pc == resume
            &&& stack.push(saved_regs(st, resume)).drop_last() == stack
        }),
{
    let f = saved_regs(st, resume);
    assert(f.x.update(31, f.sp) =~= st.x@.update(0, 0));
    assert(stack.push(f).drop_last() =~= stack);
}

/// SIGKILL and SIGSTOP never end up in a blocked mask, whatever the
/// request; and unblocking a set just blocked removes it again.
pub proof fn law_mask_never_blocks_kill_stop(old_mask: u64, how: u64, set: u64)
    ensures
        !bit_set(spec_apply_mask(old_mask, how, set), 8),
        !bit_set(spec_apply_mask(old_mask, how, set), 18),
        spec_apply_mask(spec_apply_mask(old_mask, 0, set), 1, set) == old_mask & !set & !(
        sig_bit(9) | sig_bit(19)),
{
    let m = if how == 0 {
        old_mask | set
    } else if how == 1 {
        old_mask & !set
    } else {
        set
    };
    assert(sig_bit(9) == 0x100u64) by (bit_vector);
    assert(sig_bit(19) == 0x40000u64) by (bit_vector);
    assert(!bit_set(m & !(0x100u64 | 0x40000u64), 8)) by (bit_vector);
    assert(!bit_set(m & !(0x100u64 | 0x40000u64), 18)) by (bit_vector);
    assert(((old_mask | set) & !(0x100u64 | 0x40000u64)) & !set & !(0x100u64 | 0x40000u64)
        == old_mask & !set & !(0x100u64 | 0x40000u64)) by (bit_vector);
}

/// `rt_sigprocmask` acts on each signal bit independently. For every
/// signal other than SIGKILL (bit 8) and SIGSTOP (bit 18), whatever the old
/// mask: SIG_BLOCK (0) leaves the signal blocked exactly when it was
/// blocked or is in the set; SIG_UNBLOCK (1) leaves it blocked exactly when
/// it was blocked and is not in the set (so it never adds a signal);
/// SIG_SETMASK (2) blocks it exactly when it is in the set. SIGKILL and
/// SIGSTOP end up unblocked in every case.
pub proof fn law_sigprocmask_per_signal(old_mask: u64, set: u64, n: u64)
    requires
        n < 64,
    ensures
        n != 8 && n != 18 ==> (bit_set(spec_apply_mask(old_mask, 0, set), n) <==> (bit_set(
            old_mask,
            n,
        ) || bit_set(set, n))),
        n != 8 && n != 18 ==> (bit_set(spec_apply_mask(old_mask, 1, set), n) <==> (bit_set(
            old_mask,
            n,
        ) && !bit_set(set, n))),
        n != 8 && n != 18 ==> (bit_set(spec_apply_mask(old_mask, 2, set), n) <==> bit_set(set, n)),
        bit_set(spec_apply_mask(old_mask, 1, set), n) ==> bit_set(old_mask, n),
        n == 8 || n == 18 ==> !bit_set(spec_apply_mask(old_mask, 0, set), n) && !bit_set(
            spec_apply_mask(old_mask, 1, set),
            n,
        ) && !bit_set(spec_apply_mask(old_mask, 2, set), n),
{
    let b = spec_apply_mask(old_mask, 0, set);
    let u = spec_apply_mask(old_mask, 1, set);
    let m = spec_apply_mask(old_mask, 2, set);
    assert(sig_bit(9) == 0x100u64) by (bit_vector);
    assert(sig_bit(19) == 0x40000u64) by (bit_vector);
    assert(b == (old_mask | set) & !(0x100u64 | 0x40000u64));
    assert(u == (old_mask & !set) & !(0x100u64 | 0x40000u64));
    assert(m == set & !(0x100u64 | 0x40000u64));
    assert(n < 64 ==> (((((old_mask | set) & !(0x100u64 | 0x40000u64)) >> n) & 1u64 == 1u64)
        <==> ((n != 8 && n != 18) && (((old_mask >> n) & 1u64 == 1u64) || ((set >> n) & 1u64
        == 1u64))))) by (bit_vector);
    assert(n < 64 ==> (((((old_mask & !set) & !(0x100u64 | 0x40000u64)) >> n) & 1u64 == 1u64)
        <==> ((n != 8 && n != 18) && (((old_mask >> n) & 1u64 == 1u64) && !((set >> n) & 1u64
        == 1u64))))) by (bit_vector);
    assert(n < 64 ==> ((((set & !(0x100u64 | 0x40000u64)) >> n) & 1u64 == 1u64) <==> ((n != 8
        && n != 18) && ((set >> n) & 1u64 == 1u64)))) by (bit_vector);
}

/// The default action of a signal: SIGCHLD (17), SIGCONT (18), SIGSTOP
/// (19), SIGTSTP (20), SIGTTIN (21), SIGTTOU (22), SIGURG (23) and SIGWINCH
/// (28) are ignored (there is no job control), every other signal ends the
/// process with status 128 + signal. SIG_IGN (handler 1) always ignores,
/// and an installed handler is entered.
pub proof fn law_default_dispositions(a: GuestSigAction, sig: u32)
    requires
        1 <= sig <= 64,
    ensures
        a.handler == 0 && (sig == 17 || sig == 18 || sig == 19 || sig == 20 || sig == 21 || sig
            == 22 || sig == 23 || sig == 28) ==> spec_disposition(a, sig) == Disposition::Ignored,
        a.handler == 0 && !(sig == 17 || sig == 18 || sig == 19 || sig == 20 || sig == 21 || sig
            == 22 || sig == 23 || sig == 28) ==> spec_disposition(a, sig) == Disposition::Terminate(
            (128 + sig) as i32,
        ),
        a.handler == 1 ==> spec_disposition(a, sig) == Disposition::Ignored,
        a.handler > 1 ==> spec_disposition(a, sig) == Disposition::Handler(a.handler),
{
}

/// A signal taken from the pending set is never one the thread blocks:
/// its bit is pending and not blocked.
pub proof fn law_taken_signal_is_unblocked(pending: u64, blocked: u64, n: u64)
    requires
        n < 64,
        bit_set(pending & !blocked, n),
    ensures
        bit_set(pending, n),
        !bit_set(blocked, n),
{
    assert(((pending & !blocked) >> n) & 1u64 == 1u64 ==> (pending >> n) & 1u64 == 1u64 && (
    blocked >> n) & 1u64 != 1u64) by (bit_vector)
        requires
            n < 64,
    ;
}

/// Installing an action and then querying the same signal reports the
/// installed action; other signals keep theirs.
pub proof fn law_sigaction_install_then_query(
    table: Seq<GuestSigAction>,
    sig: int,
    a: GuestSigAction,
    other: int,
)
    requires
        table.len() == 65,
        1 <= sig <= 64,
        0 <= other < 65,
        other != sig,
    ensures
        table.update(sig, a)[sig] == a,
        table.update(sig, a)[other] == table[other],
{
}

} // verus!
