//! Decisions of the host-side bionic/Android shims: the guarded pointer
//! domain of the libc string shims, Itanium static-init guards, the
//! app-command looper, the native-window handle, pthread_once bookkeeping,
//! the qsort key comparator, the stdio stream check, the asset table and
//! the fallback-stub heuristic.

use vstd::prelude::*;
use std::collections::{HashMap, HashSet, VecDeque};
use crate::bytes::{starts_with, bytes_starts_with, c_str, le_u32, le_u64, push_le_u32, push_le_u64};
use vstd::utf8::encode_utf8;
use crate::resolver::ShimRegistry;

verus! {

broadcast use vstd::std_specs::hash::group_hash_axioms;

/// A pointer the string shims may hand to libc: non-null, at or above
/// 0x1_0000_0000 (no mapped guest string lies below) and not sign-extended
/// garbage (top 16 bits all ones).
pub open spec fn spec_ptr_ok(p: u64) -> bool {
    p != 0 && p >= 0x1_0000_0000 && (p >> 48u64) as u16 != 0xffff
}

/// Whether `p` is a pointer the string shims may dereference.
pub fn ptr_ok(p: u64) -> (r: bool)
    ensures
        r == spec_ptr_ok(p),
{
    p != 0 && p >= 0x1_0000_0000 && (p >> 48u64) as u16 != 0xffff
}

/// The guarded libc string and memory operations.
#[derive(Clone, Copy, Debug, PartialEq, Eq, Structural)]
pub enum StringOp {
    Strcmp,
    Strncmp,
    Strstr,
    Strchr,
    StrchrChk,
    Strcpy,
    StrcpyChk,
    Strspn,
    Strcspn,
    Memchr,
    Memcmp,
    Strcasecmp,
    Strncasecmp,
    StrncpyChk2,
}

/// The value a guarded operation returns without calling libc, if its
/// arguments (`a`, `b` the first two, `n` the length where there is one)
/// are outside the safe domain; `None` means the real libc call runs.
pub open spec fn spec_guard(op: StringOp, a: u64, b: u64, n: u64) -> Option<u64> {
    match op {
        StringOp::Strcmp | StringOp::Strstr | StringOp::Strspn | StringOp::Strcspn
        | StringOp::Strcasecmp => if !spec_ptr_ok(a) || !spec_ptr_ok(b) {
            Some(0)
        } else {
            None
        },
        StringOp::Strncmp | StringOp::Strncasecmp => if n == 0 || !spec_ptr_ok(a) || !spec_ptr_ok(
            b,
        ) {
            Some(0)
        } else {
            None
        },
        StringOp::Strchr | StringOp::StrchrChk => if !spec_ptr_ok(a) {
            Some(0)
        } else {
            None
        },
        StringOp::Strcpy | StringOp::StrcpyChk => if !spec_ptr_ok(a) || !spec_ptr_ok(b) {
            Some(a)
        } else {
            None
        },
        StringOp::Memchr => if !spec_ptr_ok(a) || n == 0 {
            Some(0)
        } else {
            None
        },
        StringOp::Memcmp => if !spec_ptr_ok(a) || !spec_ptr_ok(b) || n == 0 {
            Some(0)
        } else {
            None
        },
        StringOp::StrncpyChk2 => if a == 0 || b == 0 {
            Some(a)
        } else {
            None
        },
    }
}

/// Decide a guarded string shim call: the non-faulting default to return
/// (0, or `dst` for the copies) when an argument is garbage, or `None` to
/// pass the call through to libc.
pub fn guard_string_op(op: StringOp, a: u64, b: u64, n: u64) -> (r: Option<u64>)
    ensures
        r == spec_guard(op, a, b, n),
{
    match op {
        StringOp::Strcmp | StringOp::Strstr | StringOp::Strspn | StringOp::Strcspn
        | StringOp::Strcasecmp => if !ptr_ok(a) || !ptr_ok(b) {
            Some(0)
        } else {
            None
        },
        StringOp::Strncmp | StringOp::Strncasecmp => if n == 0 || !ptr_ok(a) || !ptr_ok(b) {
            Some(0)
        } else {
            None
        },
        StringOp::Strchr | StringOp::StrchrChk => if !ptr_ok(a) {
            Some(0)
        } else {
            None
        },
        StringOp::Strcpy | StringOp::StrcpyChk => if !ptr_ok(a) || !ptr_ok(b) {
            Some(a)
        } else {
            None
        },
        StringOp::Memchr => if !ptr_ok(a) || n == 0 {
            Some(0)
        } else {
            None
        },
        StringOp::Memcmp => if !ptr_ok(a) || !ptr_ok(b) || n == 0 {
            Some(0)
        } else {
            None
        },
        StringOp::StrncpyChk2 => if a == 0 || b == 0 {
            Some(a)
        } else {
            None
        },
    }
}

/// A garbage pointer never reaches libc: whenever an argument pointer of a
/// guarded operation is outside the safe domain, the shim answers itself.
pub proof fn law_garbage_never_reaches_libc(op: StringOp, a: u64, b: u64, n: u64)
    requires
        !spec_ptr_ok(a),
    ensures
        spec_guard(op, a, b, n) is Some || op == StringOp::StrncpyChk2,
{
}

/// Guard byte: initialization not started.
pub const GUARD_FREE: u8 = 0;
/// Guard byte: initialization in progress.
pub const GUARD_BUSY: u8 = 1;
/// Guard byte: initialization complete.
pub const GUARD_DONE: u8 = 2;

/// `__cxa_guard_acquire` on guard byte `g`: (return value, new byte).
pub open spec fn spec_guard_acquire(g: u8) -> (u64, u8) {
    if g == GUARD_FREE {
        (1u64, GUARD_BUSY)
    } else {
        (0u64, g)
    }
}

/// `__cxa_guard_acquire` on guard byte `g`: a free guard becomes busy and
/// the caller must run the initializer (1); any other guard is left alone
/// (0).
pub fn cxa_guard_acquire(g: u8) -> (r: (u64, u8))
    ensures
        r == spec_guard_acquire(g),
{
    if g == 0 {
        (1, GUARD_BUSY)
    } else {
        (0, g)
    }
}

/// `__cxa_guard_release`: the guard byte becomes done.
pub fn cxa_guard_release() -> (g: u8)
    ensures
        g == GUARD_DONE,
{
    GUARD_DONE
}

/// `__cxa_guard_abort`: the guard byte is reset so the next acquire runs
/// the initializer again.
pub fn cxa_guard_abort() -> (g: u8)
    ensures
        g == GUARD_FREE,
{
    GUARD_FREE
}

/// Static-init guard protocol: a fresh guard has its initializer run by
/// the first acquire; while that runs, and once it is released, acquire
/// does not run it again and leaves the guard as it is; after an abort the
/// next acquire runs it again.
pub proof fn law_guard_protocol(g: u8)
    ensures
        spec_guard_acquire(g).0 == 1 <==> g == GUARD_FREE,
        spec_guard_acquire(spec_guard_acquire(g).1).0 == 0,
        spec_guard_acquire(GUARD_DONE) == (0u64, GUARD_DONE),
        spec_guard_acquire(GUARD_FREE) == (1u64, GUARD_BUSY),
{
}

/// `__cxa_atexit` / `__cxa_thread_atexit_impl`: the registration is
/// accepted (0) and nothing is stored, so no guest destructor is ever run
/// natively at exit.
pub fn cxa_atexit() -> (r: u64)
    ensures
        r == 0,
{
    0
}

/// The C++ runtime and pthread entry points the host interposes by name.
#[derive(Clone, Copy, Debug, PartialEq, Eq, Structural)]
pub enum CxxShim {
    GuardAcquire,
    GuardRelease,
    GuardAbort,
    Atexit,
    ThreadAtexitImpl,
    PthreadOnce,
    PthreadCreate,
    PthreadJoin,
    PthreadKeyCreate,
}

/// The bionic libc and Android NDK entry points the host interposes by
/// name.
#[derive(Clone, Copy, Debug, PartialEq, Eq, Structural)]
pub enum LibcShim {
    Errno,
    StrlenChk,
    Strlen,
    Strcmp,
    Strncmp,
    Strstr,
    Strchr,
    StrchrChk,
    Strcpy,
    StrcpyChk,
    Strspn,
    Strcspn,
    Memchr,
    Memcmp,
    Strcasecmp,
    Strncasecmp,
    StrncpyChk2,
    AndroidLogPrint,
    Stat,
    Fstat,
    Lstat,
    DlIteratePhdr,
    Qsort,
    Fwrite,
    Vfprintf,
    Vsnprintf,
    VsnprintfChk,
    VsprintfChk,
    AssetManagerFromJava,
    AssetManagerOpen,
    AssetClose,
    AssetGetBuffer,
    AssetGetLength,
    ConfigScreenWidthDp,
    ConfigScreenHeightDp,
    ConfigScreenSize,
    ConfigNavHidden,
    LooperPollOnce,
    LooperPrepare,
    LooperForThread,
    LooperAddFd,
    LooperRemoveFd,
    LooperAcquire,
    LooperRelease,
    NativeWindowFromSurface,
    NativeWindowRelease,
    NativeWindowGetWidth,
    NativeWindowGetHeight,
    IapPurchase,
}

/// A host entry point an import name can be bound to.
#[derive(Clone, Copy, Debug, PartialEq, Eq, Structural)]
pub enum HostShim {
    Cxx(CxxShim),
    Libc(LibcShim),
    /// The benign fallback stub of an otherwise unresolved import.
    Stub(StubKind),
}

/// The C++ runtime shim table, in registration order: each import name
/// with the shim it binds.
pub open spec fn cxx_shim_table() -> Seq<(Seq<u8>, HostShim)> {
    seq![
        (c_str(encode_utf8("__cxa_guard_acquire"@)), HostShim::Cxx(CxxShim::GuardAcquire)),
        (c_str(encode_utf8("__cxa_guard_release"@)), HostShim::Cxx(CxxShim::GuardRelease)),
        (c_str(encode_utf8("__cxa_guard_abort"@)), HostShim::Cxx(CxxShim::GuardAbort)),
        (c_str(encode_utf8("__cxa_atexit"@)), HostShim::Cxx(CxxShim::Atexit)),
        (c_str(encode_utf8("__cxa_thread_atexit_impl"@)), HostShim::Cxx(CxxShim::ThreadAtexitImpl)),
        (c_str(encode_utf8("pthread_once"@)), HostShim::Cxx(CxxShim::PthreadOnce)),
        (c_str(encode_utf8("pthread_create"@)), HostShim::Cxx(CxxShim::PthreadCreate)),
        (c_str(encode_utf8("pthread_join"@)), HostShim::Cxx(CxxShim::PthreadJoin)),
        (c_str(encode_utf8("pthread_key_create"@)), HostShim::Cxx(CxxShim::PthreadKeyCreate)),
    ]
}

/// Register the C++ runtime shims (`__cxa_guard_*`, `__cxa_atexit`,
/// `__cxa_thread_atexit_impl`, `pthread_once/create/join/key_create`) by
/// name; returns how many were registered.
pub fn register_cxx_shims(reg: &mut ShimRegistry) -> (n: usize)
    ensures
        n == cxx_shim_table().len(),
        final(reg).registrations() == old(reg).registrations() + cxx_shim_table(),
{
    reg.register_named("__cxa_guard_acquire".as_bytes(), HostShim::Cxx(CxxShim::GuardAcquire));
    reg.register_named("__cxa_guard_release".as_bytes(), HostShim::Cxx(CxxShim::GuardRelease));
    reg.register_named("__cxa_guard_abort".as_bytes(), HostShim::Cxx(CxxShim::GuardAbort));
    reg.register_named("__cxa_atexit".as_bytes(), HostShim::Cxx(CxxShim::Atexit));
    reg.register_named("__cxa_thread_atexit_impl".as_bytes(), HostShim::Cxx(CxxShim::ThreadAtexitImpl));
    reg.register_named("pthread_once".as_bytes(), HostShim::Cxx(CxxShim::PthreadOnce));
    reg.register_named("pthread_create".as_bytes(), HostShim::Cxx(CxxShim::PthreadCreate));
    reg.register_named("pthread_join".as_bytes(), HostShim::Cxx(CxxShim::PthreadJoin));
    reg.register_named("pthread_key_create".as_bytes(), HostShim::Cxx(CxxShim::PthreadKeyCreate));
    proof {
        assert(reg.registrations() =~= old(reg).registrations() + cxx_shim_table());
    }
    9
}

/// The bionic/NDK shim table, in registration order: each import name with
/// the shim it binds.
pub open spec fn libc_shim_table() -> Seq<(Seq<u8>, HostShim)> {
    seq![
        (c_str(encode_utf8("__errno"@)), HostShim::Libc(LibcShim::Errno)),
        (c_str(encode_utf8("__strlen_chk"@)), HostShim::Libc(LibcShim::StrlenChk)),
        (c_str(encode_utf8("strlen"@)), HostShim::Libc(LibcShim::Strlen)),
        (c_str(encode_utf8("strcmp"@)), HostShim::Libc(LibcShim::Strcmp)),
        (c_str(encode_utf8("strncmp"@)), HostShim::Libc(LibcShim::Strncmp)),
        (c_str(encode_utf8("strstr"@)), HostShim::Libc(LibcShim::Strstr)),
        (c_str(encode_utf8("strchr"@)), HostShim::Libc(LibcShim::Strchr)),
        (c_str(encode_utf8("__strchr_chk"@)), HostShim::Libc(LibcShim::StrchrChk)),
        (c_str(encode_utf8("strcpy"@)), HostShim::Libc(LibcShim::Strcpy)),
        (c_str(encode_utf8("__strcpy_chk"@)), HostShim::Libc(LibcShim::StrcpyChk)),
        (c_str(encode_utf8("strspn"@)), HostShim::Libc(LibcShim::Strspn)),
        (c_str(encode_utf8("strcspn"@)), HostShim::Libc(LibcShim::Strcspn)),
        (c_str(encode_utf8("memchr"@)), HostShim::Libc(LibcShim::Memchr)),
        (c_str(encode_utf8("memcmp"@)), HostShim::Libc(LibcShim::Memcmp)),
        (c_str(encode_utf8("strcasecmp"@)), HostShim::Libc(LibcShim::Strcasecmp)),
        (c_str(encode_utf8("strncasecmp"@)), HostShim::Libc(LibcShim::Strncasecmp)),
        (c_str(encode_utf8("__strncpy_chk2"@)), HostShim::Libc(LibcShim::StrncpyChk2)),
        (c_str(encode_utf8("__android_log_print"@)), HostShim::Libc(LibcShim::AndroidLogPrint)),
        (c_str(encode_utf8("stat"@)), HostShim::Libc(LibcShim::Stat)),
        (c_str(encode_utf8("fstat"@)), HostShim::Libc(LibcShim::Fstat)),
        (c_str(encode_utf8("lstat"@)), HostShim::Libc(LibcShim::Lstat)),
        (c_str(encode_utf8("dl_iterate_phdr"@)), HostShim::Libc(LibcShim::DlIteratePhdr)),
        (c_str(encode_utf8("qsort"@)), HostShim::Libc(LibcShim::Qsort)),
        (c_str(encode_utf8("fwrite"@)), HostShim::Libc(LibcShim::Fwrite)),
        (c_str(encode_utf8("vfprintf"@)), HostShim::Libc(LibcShim::Vfprintf)),
        (c_str(encode_utf8("vsnprintf"@)), HostShim::Libc(LibcShim::Vsnprintf)),
        (c_str(encode_utf8("__vsnprintf_chk"@)), HostShim::Libc(LibcShim::VsnprintfChk)),
        (c_str(encode_utf8("__vsprintf_chk"@)), HostShim::Libc(LibcShim::VsprintfChk)),
        (c_str(encode_utf8("AAssetManager_fromJava"@)), HostShim::Libc(LibcShim::AssetManagerFromJava)),
        (c_str(encode_utf8("AAssetManager_open"@)), HostShim::Libc(LibcShim::AssetManagerOpen)),
        (c_str(encode_utf8("AAsset_close"@)), HostShim::Libc(LibcShim::AssetClose)),
        (c_str(encode_utf8("AAsset_getBuffer"@)), HostShim::Libc(LibcShim::AssetGetBuffer)),
        (c_str(encode_utf8("AAsset_getLength"@)), HostShim::Libc(LibcShim::AssetGetLength)),
        (c_str(encode_utf8("AConfiguration_getScreenWidthDp"@)), HostShim::Libc(LibcShim::ConfigScreenWidthDp)),
        (c_str(encode_utf8("AConfiguration_getScreenHeightDp"@)), HostShim::Libc(LibcShim::ConfigScreenHeightDp)),
        (c_str(encode_utf8("AConfiguration_getScreenSize"@)), HostShim::Libc(LibcShim::ConfigScreenSize)),
        (c_str(encode_utf8("AConfiguration_getNavHidden"@)), HostShim::Libc(LibcShim::ConfigNavHidden)),
        (c_str(encode_utf8("ALooper_pollOnce"@)), HostShim::Libc(LibcShim::LooperPollOnce)),
        (c_str(encode_utf8("ALooper_prepare"@)), HostShim::Libc(LibcShim::LooperPrepare)),
        (c_str(encode_utf8("ALooper_forThread"@)), HostShim::Libc(LibcShim::LooperForThread)),
        (c_str(encode_utf8("ALooper_addFd"@)), HostShim::Libc(LibcShim::LooperAddFd)),
        (c_str(encode_utf8("ALooper_removeFd"@)), HostShim::Libc(LibcShim::LooperRemoveFd)),
        (c_str(encode_utf8("ALooper_acquire"@)), HostShim::Libc(LibcShim::LooperAcquire)),
        (c_str(encode_utf8("ALooper_release"@)), HostShim::Libc(LibcShim::LooperRelease)),
        (c_str(encode_utf8("ANativeWindow_fromSurface"@)), HostShim::Libc(LibcShim::NativeWindowFromSurface)),
        (c_str(encode_utf8("ANativeWindow_release"@)), HostShim::Libc(LibcShim::NativeWindowRelease)),
        (c_str(encode_utf8("ANativeWindow_getWidth"@)), HostShim::Libc(LibcShim::NativeWindowGetWidth)),
        (c_str(encode_utf8("ANativeWindow_getHeight"@)), HostShim::Libc(LibcShim::NativeWindowGetHeight)),
        (c_str(encode_utf8("Java_com_roblox_client_purchase_IAPPurchaseManager_nativeFinishPaymentsProtocolPurchaseWithReturn"@)), HostShim::Libc(LibcShim::IapPurchase)),
    ]
}

/// Register the host-side bionic libc and Android NDK shims by name (they
/// take precedence over any generic host-library binding of those names);
/// returns how many were registered.
#[verifier::rlimit(40)]
pub fn register_shims(reg: &mut ShimRegistry) -> (n: usize)
    ensures
        n == libc_shim_table().len(),
        final(reg).registrations() == old(reg).registrations() + libc_shim_table(),
{
    reg.register_named("__errno".as_bytes(), HostShim::Libc(LibcShim::Errno));
    reg.register_named("__strlen_chk".as_bytes(), HostShim::Libc(LibcShim::StrlenChk));
    reg.register_named("strlen".as_bytes(), HostShim::Libc(LibcShim::Strlen));
    reg.register_named("strcmp".as_bytes(), HostShim::Libc(LibcShim::Strcmp));
    reg.register_named("strncmp".as_bytes(), HostShim::Libc(LibcShim::Strncmp));
    reg.register_named("strstr".as_bytes(), HostShim::Libc(LibcShim::Strstr));
    reg.register_named("strchr".as_bytes(), HostShim::Libc(LibcShim::Strchr));
    reg.register_named("__strchr_chk".as_bytes(), HostShim::Libc(LibcShim::StrchrChk));
    reg.register_named("strcpy".as_bytes(), HostShim::Libc(LibcShim::Strcpy));
    reg.register_named("__strcpy_chk".as_bytes(), HostShim::Libc(LibcShim::StrcpyChk));
    reg.register_named("strspn".as_bytes(), HostShim::Libc(LibcShim::Strspn));
    reg.register_named("strcspn".as_bytes(), HostShim::Libc(LibcShim::Strcspn));
    reg.register_named("memchr".as_bytes(), HostShim::Libc(LibcShim::Memchr));
    reg.register_named("memcmp".as_bytes(), HostShim::Libc(LibcShim::Memcmp));
    reg.register_named("strcasecmp".as_bytes(), HostShim::Libc(LibcShim::Strcasecmp));
    reg.register_named("strncasecmp".as_bytes(), HostShim::Libc(LibcShim::Strncasecmp));
    reg.register_named("__strncpy_chk2".as_bytes(), HostShim::Libc(LibcShim::StrncpyChk2));
    reg.register_named("__android_log_print".as_bytes(), HostShim::Libc(LibcShim::AndroidLogPrint));
    reg.register_named("stat".as_bytes(), HostShim::Libc(LibcShim::Stat));
    reg.register_named("fstat".as_bytes(), HostShim::Libc(LibcShim::Fstat));
    reg.register_named("lstat".as_bytes(), HostShim::Libc(LibcShim::Lstat));
    reg.register_named("dl_iterate_phdr".as_bytes(), HostShim::Libc(LibcShim::DlIteratePhdr));
    reg.register_named("qsort".as_bytes(), HostShim::Libc(LibcShim::Qsort));
    reg.register_named("fwrite".as_bytes(), HostShim::Libc(LibcShim::Fwrite));
    reg.register_named("vfprintf".as_bytes(), HostShim::Libc(LibcShim::Vfprintf));
    reg.register_named("vsnprintf".as_bytes(), HostShim::Libc(LibcShim::Vsnprintf));
    reg.register_named("__vsnprintf_chk".as_bytes(), HostShim::Libc(LibcShim::VsnprintfChk));
    reg.register_named("__vsprintf_chk".as_bytes(), HostShim::Libc(LibcShim::VsprintfChk));
    reg.register_named("AAssetManager_fromJava".as_bytes(), HostShim::Libc(LibcShim::AssetManagerFromJava));
    reg.register_named("AAssetManager_open".as_bytes(), HostShim::Libc(LibcShim::AssetManagerOpen));
    reg.register_named("AAsset_close".as_bytes(), HostShim::Libc(LibcShim::AssetClose));
    reg.register_named("AAsset_getBuffer".as_bytes(), HostShim::Libc(LibcShim::AssetGetBuffer));
    reg.register_named("AAsset_getLength".as_bytes(), HostShim::Libc(LibcShim::AssetGetLength));
    reg.register_named("AConfiguration_getScreenWidthDp".as_bytes(), HostShim::Libc(LibcShim::ConfigScreenWidthDp));
    reg.register_named("AConfiguration_getScreenHeightDp".as_bytes(), HostShim::Libc(LibcShim::ConfigScreenHeightDp));
    reg.register_named("AConfiguration_getScreenSize".as_bytes(), HostShim::Libc(LibcShim::ConfigScreenSize));
    reg.register_named("AConfiguration_getNavHidden".as_bytes(), HostShim::Libc(LibcShim::ConfigNavHidden));
    reg.register_named("ALooper_pollOnce".as_bytes(), HostShim::Libc(LibcShim::LooperPollOnce));
    reg.register_named("ALooper_prepare".as_bytes(), HostShim::Libc(LibcShim::LooperPrepare));
    reg.register_named("ALooper_forThread".as_bytes(), HostShim::Libc(LibcShim::LooperForThread));
    reg.register_named("ALooper_addFd".as_bytes(), HostShim::Libc(LibcShim::LooperAddFd));
    reg.register_named("ALooper_removeFd".as_bytes(), HostShim::Libc(LibcShim::LooperRemoveFd));
    reg.register_named("ALooper_acquire".as_bytes(), HostShim::Libc(LibcShim::LooperAcquire));
    reg.register_named("ALooper_release".as_bytes(), HostShim::Libc(LibcShim::LooperRelease));
    reg.register_named("ANativeWindow_fromSurface".as_bytes(), HostShim::Libc(LibcShim::NativeWindowFromSurface));
    reg.register_named("ANativeWindow_release".as_bytes(), HostShim::Libc(LibcShim::NativeWindowRelease));
    reg.register_named("ANativeWindow_getWidth".as_bytes(), HostShim::Libc(LibcShim::NativeWindowGetWidth));
    reg.register_named("ANativeWindow_getHeight".as_bytes(), HostShim::Libc(LibcShim::NativeWindowGetHeight));
    reg.register_named("Java_com_roblox_client_purchase_IAPPurchaseManager_nativeFinishPaymentsProtocolPurchaseWithReturn".as_bytes(), HostShim::Libc(LibcShim::IapPurchase));
    proof {
        assert(reg.registrations() =~= old(reg).registrations() + libc_shim_table());
    }
    49
}

/// APP_CMD_START.
pub const APP_CMD_START: i32 = 1;
/// APP_CMD_RESUME.
pub const APP_CMD_RESUME: i32 = 2;
/// APP_CMD_INIT_WINDOW.
pub const APP_CMD_INIT_WINDOW: i32 = 11;
/// A callback was invoked.
pub const ALOOPER_POLL_CALLBACK: i32 = -2;
/// Nothing was ready.
pub const ALOOPER_POLL_TIMEOUT: i32 = -3;
/// The synthetic readable fd of the command pipe.
pub const COMMAND_FD: i32 = 0x23;
/// ALOOPER_EVENT_INPUT.
pub const ALOOPER_EVENT_INPUT: i32 = 1;

/// What one `ALooper_pollOnce` reports: the return value, and the values
/// for the guest's outFd/outEvents/outData slots when a command was
/// dispatched.
pub struct PollOutcome {
    pub ret: u64,
    pub dispatched: bool,
    pub out_fd: i32,
    pub out_events: i32,
    pub out_data: u64,
}

/// The host-fed app-command queue and the poll sources registered with
/// `ALooper_addFd`.
pub struct Looper {
    queue: VecDeque<i32>,
    sources: HashMap<i32, u64>,
}

impl Looper {
    /// The queued commands, oldest first.
    pub closed spec fn queue(&self) -> Seq<i32> {
        self.queue@
    }

    /// The registered poll sources, by fd.
    pub closed spec fn sources(&self) -> Map<i32, u64> {
        self.sources@
    }

    /// No commands queued and no sources registered.
    pub fn new() -> (l: Looper)
        ensures
            l.queue().len() == 0,
            l.sources() == Map::<i32, u64>::empty(),
    {
        Looper { queue: VecDeque::new(), sources: HashMap::new() }
    }

    /// Drop every queued command and registered source.
    pub fn clear(&mut self)
        ensures
            final(self).queue().len() == 0,
            final(self).sources() == Map::<i32, u64>::empty(),
    {
        self.queue = VecDeque::new();
        self.sources = HashMap::new();
    }

    /// Host side: queue an Android app command for a later `pollOnce`.
    pub fn post_app_command(&mut self, cmd: i32)
        ensures
            final(self).queue() == old(self).queue().push(cmd),
            final(self).sources() == old(self).sources(),
    {
        self.queue.push_back(cmd);
    }

    /// `ALooper_addFd(looper, fd, ident, events, callback, data)`: record a
    /// non-null `data` (the guest's `android_poll_source*`) under `fd` (fd 0
    /// counts as the command fd). Always reports success (1).
    pub fn add_fd(&mut self, fd: u64, data: u64) -> (r: u64)
        ensures
            r == 1,
            final(self).queue() == old(self).queue(),
            data == 0 ==> final(self).sources() == old(self).sources(),
            data != 0 ==> final(self).sources() == old(self).sources().insert(
                if fd == 0 {
                    COMMAND_FD
                } else {
                    fd as i32
                },
                data,
            ),
    {
        if data != 0 {
            let key: i32 = if fd == 0 {
                COMMAND_FD
            } else {
                fd as i32
            };
            self.sources.insert(key, data);
        }
        1
    }

    /// `ALooper_pollOnce`: with no queued command, the timeout code and
    /// nothing dispatched. Otherwise the oldest command is removed and
    /// returned as the ident, with the command fd and EVENT_INPUT for the
    /// out slots and, for outData, the poll source registered under the
    /// command fd if there is a non-null one, else the raw command.
    pub fn poll_once(&mut self) -> (r: PollOutcome)
        ensures
            final(self).sources() == old(self).sources(),
            old(self).queue().len() == 0 ==> !r.dispatched && r.ret == 0xFFFF_FFFDu64
                && final(self).queue() == old(self).queue(),
            old(self).queue().len() > 0 ==> {
                let cmd = old(self).queue()[0];
                &&& r.dispatched
                &&& final(self).queue() == old(self).queue().drop_first()
                &&& r.ret == cmd as u64
                &&& r.out_fd == COMMAND_FD
                &&& r.out_events == ALOOPER_EVENT_INPUT
                &&& r.out_data == if old(self).sources().contains_key(COMMAND_FD) && old(
                    self,
                ).sources()[COMMAND_FD] != 0 {
                    old(self).sources()[COMMAND_FD]
                } else {
                    cmd as u64
                }
            },
    {
        let cmd = match self.queue.pop_front() {
            Some(c) => c,
            None => {
                return PollOutcome {
                    ret: 0xFFFF_FFFDu64,
                    dispatched: false,
                    out_fd: 0,
                    out_events: 0,
                    out_data: 0,
                };
            },
        };
        proof {
            assert(self.queue@ =~= old(self).queue@.drop_first());
        }
        let registered = match self.sources.get(&COMMAND_FD) {
            Some(p) => *p,
            None => 0,
        };
        let emit = if registered != 0 {
            registered
        } else {
            cmd as u64
        };
        PollOutcome {
            ret: cmd as u64,
            dispatched: true,
            out_fd: COMMAND_FD,
            out_events: ALOOPER_EVENT_INPUT,
            out_data: emit,
        }
    }
}

/// App commands are dispatched first in, first out, each exactly once:
/// posting `c` behind a non-empty queue `q` leaves the next dispatched
/// command unchanged and queues `c` behind the rest; posting `c` to an
/// empty queue makes it the next dispatched command, after which the queue
/// is empty again.
pub proof fn law_app_commands_fifo(q: Seq<i32>, c: i32)
    ensures
        q.len() > 0 ==> q.push(c)[0] == q[0] && q.push(c).drop_first() == q.drop_first().push(c),
        q.len() == 0 ==> q.push(c)[0] == c && q.push(c).drop_first().len() == 0,
{
    if q.len() > 0 {
        assert(q.push(c).drop_first() =~= q.drop_first().push(c));
    }
}

/// Width, in pixels, that `ANativeWindow_getWidth` reports.
pub const ANATIVEWINDOW_WIDTH: u64 = 1280;
/// Height, in pixels, that `ANativeWindow_getHeight` reports.
pub const ANATIVEWINDOW_HEIGHT: u64 = 720;

/// The real desktop window XID backing the guest's `ANativeWindow`
/// (0 = none wired yet).
pub struct NativeWindow {
    pub xid: u64,
}

impl NativeWindow {
    /// No window wired.
    pub fn new() -> (w: NativeWindow)
        ensures
            w.xid == 0,
    {
        NativeWindow { xid: 0 }
    }

    /// Register the real desktop window XID.
    pub fn set_anativewindow_xid(&mut self, xid: u64)
        ensures
            final(self).xid == xid,
    {
        self.xid = xid;
    }

    /// The registered window XID (0 = none).
    pub fn anativewindow_xid(&self) -> (x: u64)
        ensures
            x == self.xid,
    {
        self.xid
    }

    /// `ANativeWindow_fromSurface`: the registered XID, or the stable
    /// non-null `sentinel` handle when none is wired.
    pub fn from_surface(&self, sentinel: u64) -> (h: u64)
        ensures
            h == if self.xid != 0 {
                self.xid
            } else {
                sentinel
            },
    {
        if self.xid != 0 {
            self.xid
        } else {
            sentinel
        }
    }
}

/// The once-controls whose `pthread_once` routine has been started.
pub struct OnceGuards {
    done: HashSet<u64>,
}

impl View for OnceGuards {
    type V = Set<u64>;

    closed spec fn view(&self) -> Set<u64> {
        self.done@
    }
}

impl OnceGuards {
    /// No routine started yet.
    pub fn new() -> (g: OnceGuards)
        ensures
            g@ == Set::<u64>::empty(),
    {
        OnceGuards { done: HashSet::new() }
    }

    /// `pthread_once(once, routine)`: whether the guest routine must run
    /// now. A null control or routine never runs; a control already seen
    /// (done or in progress, so a re-entrant call does not recurse) does not
    /// run again; otherwise the control is marked and the routine runs.
    pub fn begin_once(&mut self, once: u64, routine: u64) -> (run: bool)
        ensures
            run == (routine != 0 && once != 0 && !old(self)@.contains(once)),
            run ==> final(self)@ == old(self)@.insert(once),
            !run ==> final(self)@ == old(self)@,
    {
        if routine == 0 || once == 0 {
            return false;
        }
        if self.done.contains(&once) {
            return false;
        }
        self.done.insert(once);
        true
    }
}

/// A once-control's routine runs at most once: after a call that runs it,
/// every later call on that control does not.
pub proof fn law_once_runs_at_most_once(seen: Set<u64>, once: u64, r1: u64, r2: u64)
    requires
        r1 != 0 && once != 0 && !seen.contains(once),
    ensures
        !(r2 != 0 && once != 0 && !seen.insert(once).contains(once)),
{
}

/// The one guest comparator the qsort shim sorts host-side: it orders
/// records by the little-endian u32 at offset 24.
pub const KNOWN_U32_KEY_COMPAR: u64 = 0x1028bbfc0;

/// How the qsort shim handles a call.
#[derive(Clone, Copy, Debug, PartialEq, Eq, Structural)]
pub enum QsortRoute {
    /// Nothing to sort (null base/comparator or no elements).
    Skip,
    /// Sort host-side by the u32 key at offset 24, never re-entering the guest.
    HostKeySort,
    /// Re-enter the guest comparator through the JIT for each comparison.
    GuestComparator,
}

/// The route of `qsort(base, nmemb, size, compar)`.
pub fn qsort_route(base: u64, nmemb: u64, compar: u64) -> (r: QsortRoute)
    ensures
        (compar == 0 || base == 0 || nmemb == 0) ==> r == QsortRoute::Skip,
        !(compar == 0 || base == 0 || nmemb == 0) && compar == KNOWN_U32_KEY_COMPAR ==> r
            == QsortRoute::HostKeySort,
        !(compar == 0 || base == 0 || nmemb == 0) && compar != KNOWN_U32_KEY_COMPAR ==> r
            == QsortRoute::GuestComparator,
{
    if compar == 0 || base == 0 || nmemb == 0 {
        QsortRoute::Skip
    } else if compar == KNOWN_U32_KEY_COMPAR {
        QsortRoute::HostKeySort
    } else {
        QsortRoute::GuestComparator
    }
}

/// The sort key of a record: its little-endian u32 at offset 24.
pub fn record_key(rec: &[u8]) -> (k: u32)
    requires
        rec@.len() >= 28,
    ensures
        k == crate::bytes::from_le_u32(rec@, 24),
{
    crate::bytes::read_le_u32(rec, 24)
}

/// The sign of `ka - kb` as -1, 0 or 1.
pub open spec fn key_order(ka: u32, kb: u32) -> i32 {
    if ka < kb {
        -1i32
    } else if ka > kb {
        1i32
    } else {
        0i32
    }
}

/// The host-side comparator: the sign of `ka - kb` as -1, 0 or 1.
pub fn compare_u32_keys(ka: u32, kb: u32) -> (c: i32)
    ensures
        c == key_order(ka, kb),
{
    if ka < kb {
        -1
    } else if ka > kb {
        1
    } else {
        0
    }
}

/// The key comparator is a consistent total order, as qsort requires: it
/// answers 0 exactly for equal keys, swapping the operands flips its sign,
/// and "less than" is transitive.
pub proof fn law_key_compare_is_total_order(a: u32, b: u32, c: u32)
    ensures
        key_order(a, b) == 0 <==> a == b,
        key_order(a, b) == -key_order(b, a),
        key_order(a, b) < 0 && key_order(b, c) < 0 ==> key_order(a, c) < 0,
{
}

/// Whether `stream` looks like a real host glibc `FILE*`: high (at or above
/// 0x3_0000_0000) and 16-aligned. Guest bionic streams and garbage are
/// diverted to host stderr instead.
pub fn is_host_file(stream: u64) -> (r: bool)
    ensures
        r == (stream >= 0x1_0000_0000 && stream >= 0x3_0000_0000 && stream & 0xf == 0),
{
    stream >= 0x1_0000_0000 && stream >= 0x3_0000_0000 && (stream & 0xf) == 0
}

/// `size * nmemb`, saturating at `u64::MAX` (the byte count fwrite moves).
pub fn fwrite_total(size: u64, nmemb: u64) -> (t: u64)
    ensures
        t == (if size * nmemb > u64::MAX {
            u64::MAX
        } else {
            (size * nmemb) as u64
        }),
{
    if nmemb != 0 && size > u64::MAX / nmemb {
        assert(size * nmemb > u64::MAX) by (nonlinear_arith)
            requires
                nmemb != 0,
                size > u64::MAX / nmemb,
        ;
        u64::MAX
    } else {
        assert(size * nmemb <= u64::MAX) by (nonlinear_arith)
            requires
                nmemb == 0 || size <= u64::MAX / nmemb,
        ;
        size * nmemb
    }
}

/// The fields of a host `stat` result that the guest's bionic
/// `struct stat` carries.
#[derive(Clone, Copy, Debug)]
pub struct HostStat {
    pub dev: u64,
    pub ino: u64,
    pub mode: u32,
    pub nlink: u32,
    pub uid: u32,
    pub gid: u32,
    pub rdev: u64,
    pub size: i64,
    pub blksize: i32,
    pub blocks: i64,
    pub atime: i64,
    pub mtime: i64,
    pub ctime: i64,
}

/// Size of the bionic aarch64 `struct stat`.
pub const BIONIC_STAT_SIZE: usize = 128;

/// The first 128 bytes of a guest buffer (previously `old`) after `s` is
/// marshalled into it in the bionic aarch64 layout: st_dev@0, st_ino@8,
/// st_mode@0x10, st_nlink@0x14, st_uid@0x18, st_gid@0x1c, st_rdev@0x20,
/// st_size@0x28, st_blksize@0x30 (0x34..0x38 left as it was),
/// st_blocks@0x38 (negative counts as 0), st_atime@0x40, st_mtime@0x48,
/// st_ctime@0x50, and 0x58..0x80 zeroed.
pub open spec fn bionic_stat_image(old: Seq<u8>, s: HostStat) -> Seq<u8> {
    le_u64(s.dev) + le_u64(s.ino) + le_u32(s.mode) + le_u32(s.nlink) + le_u32(s.uid) + le_u32(
        s.gid,
    ) + le_u64(s.rdev) + le_u64(s.size as u64) + le_u32(s.blksize as u32) + old.subrange(
        0x34,
        0x38,
    ) + le_u64(
        if s.blocks > 0 {
            s.blocks as u64
        } else {
            0u64
        },
    ) + le_u64(s.atime as u64) + le_u64(s.mtime as u64) + le_u64(s.ctime as u64) + Seq::new(
        40,
        |i: int| 0u8,
    )
}

/// Marshal a host `stat` result into a guest buffer in the 128-byte bionic
/// aarch64 `struct stat` layout; nothing past the 128 bytes is touched.
pub fn write_bionic_stat(buf: &mut Vec<u8>, s: &HostStat)
    requires
        old(buf)@.len() >= 128,
    ensures
        final(buf)@ == bionic_stat_image(old(buf)@, *s) + old(buf)@.subrange(
            128,
            old(buf)@.len() as int,
        ),
        final(buf)@.len() == old(buf)@.len(),
{
    let mut out: Vec<u8> = Vec::new();
    push_le_u64(&mut out, s.dev);
    push_le_u64(&mut out, s.ino);
    push_le_u32(&mut out, s.mode);
    push_le_u32(&mut out, s.nlink);
    push_le_u32(&mut out, s.uid);
    push_le_u32(&mut out, s.gid);
    push_le_u64(&mut out, s.rdev);
    push_le_u64(&mut out, s.size as u64);
    push_le_u32(&mut out, s.blksize as u32);
    out.push(buf[0x34]);
    out.push(buf[0x35]);
    out.push(buf[0x36]);
    out.push(buf[0x37]);
    let blocks: u64 = if s.blocks > 0 {
        s.blocks as u64
    } else {
        0
    };
    push_le_u64(&mut out, blocks);
    push_le_u64(&mut out, s.atime as u64);
    push_le_u64(&mut out, s.mtime as u64);
    push_le_u64(&mut out, s.ctime as u64);
    let ghost head = out@;
    let mut z: usize = 0;
    while z < 40
        invariant
            z <= 40,
            out@ == head + Seq::new(z as nat, |i: int| 0u8),
        decreases 40 - z,
    {
        out.push(0u8);
        z = z + 1;
        assert(out@ =~= head + Seq::new(z as nat, |i: int| 0u8));
    }
    proof {
        assert(head =~= le_u64(s.dev) + le_u64(s.ino) + le_u32(s.mode) + le_u32(s.nlink) + le_u32(
            s.uid,
        ) + le_u32(s.gid) + le_u64(s.rdev) + le_u64(s.size as u64) + le_u32(s.blksize as u32)
            + old(buf)@.subrange(0x34, 0x38) + le_u64(blocks) + le_u64(s.atime as u64) + le_u64(
            s.mtime as u64,
        ) + le_u64(s.ctime as u64));
        assert(out@ =~= bionic_stat_image(old(buf)@, *s));
    }
    let ghost image = out@;
    let n = buf.len();
    let mut i: usize = 128;
    while i < n
        invariant
            128 <= i <= n,
            n == buf@.len(),
            buf@ == old(buf)@,
            image.len() == 128,
            out@ == image + old(buf)@.subrange(128, i as int),
        decreases n - i,
    {
        out.push(buf[i]);
        i = i + 1;
        assert(out@ =~= image + old(buf)@.subrange(128, i as int));
    }
    *buf = out;
}

/// First stub handle the asset table hands out.
pub const FIRST_ASSET_HANDLE: u64 = 0x1000;

/// Open assets: each `AAsset*` handle owns the bytes read for it, which
/// stay at a stable heap address while the handle is open.
pub struct AssetTable {
    assets: HashMap<u64, Vec<u8>>,
    next: u64,
}

impl AssetTable {
    /// The open assets' contents, by handle.
    pub closed spec fn contents(&self) -> Map<u64, Seq<u8>> {
        Map::new(|h: u64| self.assets@.contains_key(h), |h: u64| self.assets@[h]@)
    }

    /// The handle the next open asset gets.
    pub closed spec fn next_handle(&self) -> u64 {
        self.next
    }

    /// No asset open; handles start at 0x1000.
    pub fn new() -> (t: AssetTable)
        ensures
            t.contents() == Map::<u64, Seq<u8>>::empty(),
            t.next_handle() == FIRST_ASSET_HANDLE,
    {
        let t = AssetTable { assets: HashMap::new(), next: FIRST_ASSET_HANDLE };
        assert(t.contents() =~= Map::<u64, Seq<u8>>::empty());
        t
    }

    /// The handle the next opened asset will get.
    pub fn peek_next_handle(&self) -> (h: u64)
        ensures
            h == self.next_handle(),
    {
        self.next
    }

    /// Register the bytes of an asset just read and return its handle.
    pub fn open(&mut self, bytes: Vec<u8>) -> (h: u64)
        requires
            old(self).next_handle() < u64::MAX,
        ensures
            h == old(self).next_handle(),
            final(self).next_handle() == h + 1,
            final(self).contents() == old(self).contents().insert(h, bytes@),
    {
        let h = self.next;
        self.next = self.next + 1;
        self.assets.insert(h, bytes);
        assert(self.contents() =~= old(self).contents().insert(h, bytes@));
        h
    }

    /// `AAsset_close`: forget the handle (unknown handles are ignored).
    pub fn close(&mut self, h: u64) -> (r: u64)
        ensures
            r == 0,
            final(self).contents() == old(self).contents().remove(h),
            final(self).next_handle() == old(self).next_handle(),
    {
        self.assets.remove(&h);
        assert(self.contents() =~= old(self).contents().remove(h));
        0
    }

    /// `AAsset_getLength`: the asset's byte length, 0 for an unknown handle.
    pub fn get_length(&self, h: u64) -> (n: u64)
        ensures
            n == if self.contents().contains_key(h) {
                self.contents()[h].len() as u64
            } else {
                0
            },
    {
        match self.assets.get(&h) {
            Some(b) => b.len() as u64,
            None => 0,
        }
    }

    /// The open asset's bytes (whose address `AAsset_getBuffer` hands the
    /// guest), `None` for an unknown handle.
    pub fn get(&self, h: u64) -> (r: Option<&Vec<u8>>)
        ensures
            match r {
                Some(b) => self.contents().contains_key(h) && b@ == self.contents()[h],
                None => !self.contents().contains_key(h),
            },
    {
        self.assets.get(&h)
    }
}

/// The asset name relative to the assets root: a leading `assets/` is
/// dropped, as AAssetManager names are relative to that directory.
pub open spec fn spec_asset_relative(name: Seq<u8>) -> Seq<u8> {
    let p = seq![0x61u8, 0x73u8, 0x73u8, 0x65u8, 0x74u8, 0x73u8, 0x2fu8];
    if starts_with(name, p) {
        name.subrange(7, name.len() as int)
    } else {
        name
    }
}

/// Strip a leading `assets/` from an asset name.
pub fn asset_relative_name(name: &[u8]) -> (r: Vec<u8>)
    ensures
        r@ == spec_asset_relative(name@),
{
    let p = vec![0x61u8, 0x73u8, 0x73u8, 0x65u8, 0x74u8, 0x73u8, 0x2fu8];
    let from: usize = if bytes_starts_with(name, p.as_slice()) {
        7
    } else {
        0
    };
    let mut out: Vec<u8> = Vec::new();
    let mut i: usize = from;
    while i < name.len()
        invariant
            from <= i <= name@.len(),
            from == 0 || from == 7,
            from == 7 ==> name@.len() >= 7,
            out@ == name@.subrange(from as int, i as int),
        decreases name@.len() - i,
    {
        out.push(name[i]);
        proof {
            assert(name@.subrange(from as int, i + 1) =~= name@.subrange(from as int, i as int).push(name@[i as int]));
        }
        i = i + 1;
    }
    assert(name@.subrange(0, name@.len() as int) =~= name@);
    out
}

/// Name fragments that mark an import as handle-returning: prefixes.
pub open spec fn handle_prefix(k: int) -> Seq<char> {
    if k == 0 {
        "eglGetDisplay"@
    } else if k == 1 {
        "eglCreate"@
    } else if k == 2 {
        "eglGetCurrentContext"@
    } else if k == 3 {
        "slCreate"@
    } else {
        "slGetInterface"@
    }
}

/// Name fragments that mark an import as handle-returning: infixes.
pub open spec fn handle_infix(k: int) -> Seq<char> {
    if k == 0 {
        "_open"@
    } else if k == 1 {
        "_fromJava"@
    } else if k == 2 {
        "_new"@
    } else if k == 3 {
        "_prepare"@
    } else if k == 4 {
        "_forThread"@
    } else if k == 5 {
        "_getBuffer"@
    } else if k == 6 {
        "_getOutput"@
    } else if k == 7 {
        "_getInput"@
    } else {
        "_getOutputFormat"@
    }
}

fn handle_prefix_str(k: usize) -> (s: &'static str)
    requires
        k < 5,
    ensures
        s@ == handle_prefix(k as int),
{
    match k {
        0 => "eglGetDisplay",
        1 => "eglCreate",
        2 => "eglGetCurrentContext",
        3 => "slCreate",
        _ => "slGetInterface",
    }
}

fn handle_infix_str(k: usize) -> (s: &'static str)
    requires
        k < 9,
    ensures
        s@ == handle_infix(k as int),
{
    match k {
        0 => "_open",
        1 => "_fromJava",
        2 => "_new",
        3 => "_prepare",
        4 => "_forThread",
        5 => "_getBuffer",
        6 => "_getOutput",
        7 => "_getInput",
        _ => "_getOutputFormat",
    }
}

/// Whether `needle` occurs in `hay` at some position.
pub open spec fn contains_at(hay: Seq<u8>, needle: Seq<u8>, at: int) -> bool {
    0 <= at && at + needle.len() <= hay.len() && hay.subrange(at, at + needle.len()) == needle
}

/// Whether `needle` occurs in `hay`.
pub open spec fn seq_contains(hay: Seq<u8>, needle: Seq<u8>) -> bool {
    exists|at: int| contains_at(hay, needle, at)
}

fn match_at(hay: &[u8], needle: &[u8], at: usize) -> (r: bool)
    requires
        at + needle@.len() <= hay@.len(),
    ensures
        r == contains_at(hay@, needle@, at as int),
{
    let hl = hay.len();
    let mut j: usize = 0;
    while j < needle.len()
        invariant
            hl == hay@.len(),
            at + needle@.len() <= hay@.len(),
            j <= needle@.len(),
            forall|q: int| 0 <= q < j ==> hay@[at + q] == needle@[q],
        decreases needle@.len() - j,
    {
        if hay[at + j] != needle[j] {
            assert(hay@.subrange(at as int, at + needle@.len())[j as int] != needle@[j as int]);
            return false;
        }
        j = j + 1;
    }
    assert(hay@.subrange(at as int, at + needle@.len()) =~= needle@);
    true
}

fn bytes_contains(hay: &[u8], needle: &[u8]) -> (r: bool)
    ensures
        r == seq_contains(hay@, needle@),
{
    if needle.len() > hay.len() {
        return false;
    }
    let last = hay.len() - needle.len();
    let mut at: usize = 0;
    while at <= last
        invariant
            needle@.len() <= hay@.len(),
            last == hay@.len() - needle@.len(),
            at <= last + 1,
            forall|k: int| 0 <= k < at ==> !contains_at(hay@, needle@, k),
        decreases last + 1 - at,
    {
        if match_at(hay, needle, at) {
            return true;
        }
        if at == last {
            assert forall|k: int| !contains_at(hay@, needle@, k) by {
                if 0 <= k <= last {
                }
            }
            return false;
        }
        at = at + 1;
    }
    false
}

/// The fallback heuristic on the lossily decoded name `n`: handle-returning
/// when it starts with an EGL/SL creator prefix or contains one of the
/// handle-ish fragments.
pub open spec fn spec_is_handle_name(n: Seq<u8>) -> bool {
    (exists|k: int| #![trigger handle_prefix(k)] 0 <= k < 5 && starts_with(n, vstd::utf8::encode_utf8(handle_prefix(k))))
        || (exists|k: int| #![trigger handle_infix(k)] 0 <= k < 9 && seq_contains(n, vstd::utf8::encode_utf8(handle_infix(k))))
}

/// Whether an unresolvable import name likely returns a handle (so its
/// fallback stub returns a non-null sentinel rather than 0).
pub fn is_handle_name(n: &[u8]) -> (r: bool)
    ensures
        r == spec_is_handle_name(crate::fsmap::lossy(n@)),
{
    let s = crate::fsmap::lossy_utf8(n);
    assert(s@ == crate::fsmap::lossy(n@));
    let mut k: usize = 0;
    while k < 5
        invariant
            k <= 5,
            s@ == crate::fsmap::lossy(n@),
            forall|q: int| 0 <= q < k ==> !starts_with(s@, vstd::utf8::encode_utf8(handle_prefix(q))),
        decreases 5 - k,
    {
        if bytes_starts_with(s.as_slice(), handle_prefix_str(k).as_bytes()) {
            assert(0 <= k < 5 && starts_with(s@, vstd::utf8::encode_utf8(handle_prefix(k as int))));
            assert(spec_is_handle_name(s@));
            return true;
        }
        k = k + 1;
    }
    let mut m: usize = 0;
    while m < 9
        invariant
            m <= 9,
            s@ == crate::fsmap::lossy(n@),
            forall|q: int| 0 <= q < 5 ==> !starts_with(s@, vstd::utf8::encode_utf8(handle_prefix(q))),
            forall|q: int| 0 <= q < m ==> !seq_contains(s@, vstd::utf8::encode_utf8(handle_infix(q))),
        decreases 9 - m,
    {
        if bytes_contains(s.as_slice(), handle_infix_str(m).as_bytes()) {
            assert(0 <= m < 9 && seq_contains(s@, vstd::utf8::encode_utf8(handle_infix(m as int))));
            assert(spec_is_handle_name(s@));
            return true;
        }
        m = m + 1;
    }
    false
}

/// The fallback stub bound to an otherwise unresolved import.
#[derive(Clone, Copy, Debug, PartialEq, Eq, Structural)]
pub enum StubKind {
    /// Returns a stable non-null sentinel handle.
    Handle,
    /// Returns 0.
    Zero,
}

/// The fallback stub for an import name, by the handle-name heuristic.
pub fn fallback_stub(name: &[u8]) -> (k: StubKind)
    ensures
        k == (if spec_is_handle_name(crate::fsmap::lossy(name@)) {
            StubKind::Handle
        } else {
            StubKind::Zero
        }),
{
    if is_handle_name(name) {
        StubKind::Handle
    } else {
        StubKind::Zero
    }
}

/// The fallback stub an import named `name` gets.
pub open spec fn spec_fallback_stub(name: Seq<u8>) -> StubKind {
    if spec_is_handle_name(crate::fsmap::lossy(name)) {
        StubKind::Handle
    } else {
        StubKind::Zero
    }
}

/// Bind an otherwise unresolved import name to its benign fallback stub
/// (a non-null sentinel for handle-returning names, 0 otherwise); returns
/// the stub bound.
pub fn register_fallback(reg: &mut ShimRegistry, name: &[u8]) -> (k: StubKind)
    ensures
        k == spec_fallback_stub(name@),
        final(reg).registrations() == old(reg).registrations().push(
            (c_str(name@), HostShim::Stub(k)),
        ),
{
    let k = fallback_stub(name);
    reg.register_named(name, HostShim::Stub(k));
    k
}

/// The registrations a catch-all over `names` adds: each name, in order,
/// with its fallback stub.
pub open spec fn fallback_registrations(names: Seq<&[u8]>) -> Seq<(Seq<u8>, HostShim)> {
    Seq::new(names.len(), |i: int| (c_str(names[i]@), HostShim::Stub(spec_fallback_stub(names[i]@))))
}

/// Bind a fallback stub for every name of a set of unresolved imports;
/// returns how many were bound.
pub fn register_graphics_stubs(reg: &mut ShimRegistry, names: &[&[u8]]) -> (n: usize)
    ensures
        n == names@.len(),
        final(reg).registrations() == old(reg).registrations() + fallback_registrations(names@),
{
    let mut i: usize = 0;
    while i < names.len()
        invariant
            i <= names@.len(),
            reg.registrations() == old(reg).registrations() + fallback_registrations(
                names@.subrange(0, i as int),
            ),
        decreases names@.len() - i,
    {
        register_fallback(reg, names[i]);
        proof {
            assert(fallback_registrations(names@.subrange(0, i + 1)) =~= fallback_registrations(
                names@.subrange(0, i as int),
            ).push((c_str(names@[i as int]@), HostShim::Stub(spec_fallback_stub(names@[i as int]@)))));
        }
        i = i + 1;
    }
    assert(names@.subrange(0, names@.len() as int) =~= names@);
    names.len()
}

/// The host file `AAssetManager_open` reads for asset `name` under the
/// assets root: the name without a leading `assets/`, joined onto the root.
pub fn asset_path(root: &[u8], name: &[u8]) -> (p: Vec<u8>)
    ensures
        p@ == crate::fsmap::path_join(root@, spec_asset_relative(name@)),
{
    let rel = asset_relative_name(name);
    crate::fsmap::join_path(root, rel.as_slice())
}

} // verus!
