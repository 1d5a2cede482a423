//! The ordered session substrate: the names of the Android
//! Activity/AppBridge lifecycle atoms in drive order, the per-atom ABI
//! argument templates, and the follow-up steps the drive takes after
//! particular atoms.

use vstd::prelude::*;
use crate::bytes::str_eq;

verus! {

/// Number of atoms in the ordered session substrate.
pub const SUBSTRATE_ATOM_COUNT: usize = 16;

/// Guest address of `nativeGameGlobalInit`, before which the drive seeds the
/// engine's main-thread id cell.
pub const GLOBAL_INIT_GUEST: u64 = 0x102206404;
/// Guest address of `V2UpdateSurfaceAppWithPlatformParams`, after which the
/// drive fires the NativeHelper lifecycle milestones.
pub const SURFACE_GUEST: u64 = 0x1025f5fec;
/// Guest address of `MessageBus.subscribe(experience-launch)`, after which
/// the drive publishes to the data-model binder.
pub const MESSAGE_BUS_GUEST: u64 = 0x102ba5bb8;

/// The name of substrate atom `i`, in drive order.
pub open spec fn substrate_atom(i: int) -> Seq<char> {
    if i == 0 {
        "nativeInitializeNativeFlags"@
    } else if i == 1 {
        "nativeGameGlobalInit"@
    } else if i == 2 {
        "setTaskSchedulerBackgroundMode(false,ASMA.start)"@
    } else if i == 3 {
        "nativeAppBridgeV2InitWithParams"@
    } else if i == 4 {
        "nativeAppBridgeStartLuaAppDM"@
    } else if i == 5 {
        "nativeAppBridgeV2StartAppWithParams"@
    } else if i == 6 {
        "V2UpdateSurfaceAppWithPlatformParams"@
    } else if i == 7 {
        "initAppShellReporter"@
    } else if i == 8 {
        "setActive"@
    } else if i == 9 {
        "nativeSetInitParams"@
    } else if i == 10 {
        "nativeInitClientSettings"@
    } else if i == 11 {
        "nativeInitClientSettingsSigned"@
    } else if i == 12 {
        "nativeActivity_onEngineSettingsReceived"@
    } else if i == 13 {
        "nativeAppBridgeV2SendAppEventOnAppReady(Home in x5)"@
    } else if i == 14 {
        "nativeAppBridgeV2SendAppEventOnGameLoaded"@
    } else if i == 15 {
        "MessageBus.subscribe(experience-launch)"@
    } else {
        Seq::empty()
    }
}

/// The name of substrate atom `i` (`None` past the 16 atoms).
pub fn substrate_atom_name(i: usize) -> (r: Option<&'static str>)
    ensures
        i < 16 ==> (r matches Some(s) && s@ == substrate_atom(i as int)),
        i >= 16 ==> r is None,
{
    match i {
        0 => Some("nativeInitializeNativeFlags"),
        1 => Some("nativeGameGlobalInit"),
        2 => Some("setTaskSchedulerBackgroundMode(false,ASMA.start)"),
        3 => Some("nativeAppBridgeV2InitWithParams"),
        4 => Some("nativeAppBridgeStartLuaAppDM"),
        5 => Some("nativeAppBridgeV2StartAppWithParams"),
        6 => Some("V2UpdateSurfaceAppWithPlatformParams"),
        7 => Some("initAppShellReporter"),
        8 => Some("setActive"),
        9 => Some("nativeSetInitParams"),
        10 => Some("nativeInitClientSettings"),
        11 => Some("nativeInitClientSettingsSigned"),
        12 => Some("nativeActivity_onEngineSettingsReceived"),
        13 => Some("nativeAppBridgeV2SendAppEventOnAppReady(Home in x5)"),
        14 => Some("nativeAppBridgeV2SendAppEventOnGameLoaded"),
        15 => Some("MessageBus.subscribe(experience-launch)"),
        _ => None,
    }
}

/// The fabricated handles every native atom takes: the JNI env, the
/// activity object, the InitParams/StartAppParams objects and the
/// background-mode name string.
pub struct SessionHandles {
    pub env: u64,
    pub thiz: u64,
    pub init_params: u64,
    pub start_params: u64,
    pub bg_name: u64,
}

impl SessionHandles {
    /// Bundle the fabricated session handles.
    pub fn build(env: u64, thiz: u64, init_params: u64, start_params: u64, bg_name: u64) -> (h:
        SessionHandles)
        ensures
            h.env == env,
            h.thiz == thiz,
            h.init_params == init_params,
            h.start_params == start_params,
            h.bg_name == bg_name,
    {
        SessionHandles { env, thiz, init_params, start_params, bg_name }
    }
}

/// Per-atom fabricated values: four empty jstrings, the "Home" jstring, the
/// surface token and platform-params buffers, and the zeroed engine-settings
/// manager object.
pub struct AtomStrings {
    pub s1: u64,
    pub s2: u64,
    pub s3: u64,
    pub s4: u64,
    pub home: u64,
    pub surface_token: u64,
    pub surface_params: u64,
    pub settings_manager: u64,
}

/// The x0..x7 argument vector of the atom named `name`. Unknown names get
/// the generic (env, thiz) ABI.
pub open spec fn spec_substrate_args(name: Seq<char>, h: SessionHandles, s: AtomStrings) -> Seq<u64> {
    if name == "setTaskSchedulerBackgroundMode(false,ASMA.start)"@ {
        seq![h.env, h.thiz, 0u64, h.bg_name, 0u64, 0u64, 0u64, 0u64]
    } else if name == "nativeAppBridgeV2InitWithParams"@ || name == "nativeSetInitParams"@ {
        seq![h.env, h.thiz, h.init_params, 0u64, 0u64, 0u64, 0u64, 0u64]
    } else if name == "nativeAppBridgeV2StartAppWithParams"@ {
        seq![h.env, h.thiz, h.start_params, 0u64, 0u64, 0u64, 0u64, 0u64]
    } else if name == "V2UpdateSurfaceAppWithPlatformParams"@ {
        seq![h.env, h.thiz, s.surface_token, s.surface_params, 0u64, 0u64, 0u64, 0u64]
    } else if name == "nativeInitClientSettings"@ {
        seq![h.env, h.thiz, s.s1, s.s2, s.s3, 0u64, 0u64, 0u64]
    } else if name == "nativeInitClientSettingsSigned"@ {
        seq![h.env, h.thiz, s.s1, s.s2, s.s3, s.s4, 0u64, 0u64]
    } else if name == "nativeActivity_onEngineSettingsReceived"@ {
        seq![s.settings_manager, 0u64, 0u64, 0u64, 0u64, 0u64, 0u64, 0u64]
    } else if name == "nativeAppBridgeV2SendAppEventOnAppReady(Home in x5)"@ {
        seq![h.env, h.thiz, s.s1, s.s2, s.s3, s.home, 0u64, 0u64]
    } else if name == "nativeAppBridgeV2SendAppEventOnGameLoaded"@ {
        seq![h.env, h.thiz, s.s1, s.s2, s.s3, 0u64, 0u64, 0u64]
    } else if name == "MessageBus.subscribe(experience-launch)"@ {
        seq![h.env, h.thiz, s.s1, s.s2, s.s3, s.s4, 0u64, 0u64]
    } else {
        seq![h.env, h.thiz, 0u64, 0u64, 0u64, 0u64, 0u64, 0u64]
    }
}

/// Synthesize the full x0..x7 ABI argument vector for one substrate atom
/// (unknown names default to (env, thiz) so the drive never fails).
pub fn substrate_args(name: &str, h: &SessionHandles, s: &AtomStrings) -> (a: [u64; 8])
    ensures
        a@ == spec_substrate_args(name@, *h, *s),
{
    let mut a = [0u64; 8];
    if str_eq(name, "setTaskSchedulerBackgroundMode(false,ASMA.start)") {
        a[0] = h.env;
        a[1] = h.thiz;
        a[3] = h.bg_name;
    } else if str_eq(name, "nativeAppBridgeV2InitWithParams") || str_eq(name, "nativeSetInitParams") {
        a[0] = h.env;
        a[1] = h.thiz;
        a[2] = h.init_params;
    } else if str_eq(name, "nativeAppBridgeV2StartAppWithParams") {
        a[0] = h.env;
        a[1] = h.thiz;
        a[2] = h.start_params;
    } else if str_eq(name, "V2UpdateSurfaceAppWithPlatformParams") {
        a[0] = h.env;
        a[1] = h.thiz;
        a[2] = s.surface_token;
        a[3] = s.surface_params;
    } else if str_eq(name, "nativeInitClientSettings") {
        a[0] = h.env;
        a[1] = h.thiz;
        a[2] = s.s1;
        a[3] = s.s2;
        a[4] = s.s3;
    } else if str_eq(name, "nativeInitClientSettingsSigned") {
        a[0] = h.env;
        a[1] = h.thiz;
        a[2] = s.s1;
        a[3] = s.s2;
        a[4] = s.s3;
        a[5] = s.s4;
    } else if str_eq(name, "nativeActivity_onEngineSettingsReceived") {
        a[0] = s.settings_manager;
    } else if str_eq(name, "nativeAppBridgeV2SendAppEventOnAppReady(Home in x5)") {
        a[0] = h.env;
        a[1] = h.thiz;
        a[2] = s.s1;
        a[3] = s.s2;
        a[4] = s.s3;
        a[5] = s.home;
    } else if str_eq(name, "nativeAppBridgeV2SendAppEventOnGameLoaded") {
        a[0] = h.env;
        a[1] = h.thiz;
        a[2] = s.s1;
        a[3] = s.s2;
        a[4] = s.s3;
    } else if str_eq(name, "MessageBus.subscribe(experience-launch)") {
        a[0] = h.env;
        a[1] = h.thiz;
        a[2] = s.s1;
        a[3] = s.s2;
        a[4] = s.s3;
        a[5] = s.s4;
    } else {
        a[0] = h.env;
        a[1] = h.thiz;
    }
    assert(a@ =~= spec_substrate_args(name@, *h, *s));
    a
}

/// The extra steps the drive takes around the atom at guest address `guest`.
pub struct AtomFollowups {
    /// Seed the main-thread id cell before running the atom.
    pub seed_main_thread_id: bool,
    /// Fire the NativeHelper lifecycle milestones after the atom.
    pub drive_lifecycle: bool,
    /// Publish to the data-model binder after the atom.
    pub drive_data_model_binder: bool,
}

/// The follow-up steps for the atom at guest address `guest`.
pub fn atom_followups(guest: u64) -> (f: AtomFollowups)
    ensures
        f.seed_main_thread_id == (guest == GLOBAL_INIT_GUEST),
        f.drive_lifecycle == (guest == SURFACE_GUEST),
        f.drive_data_model_binder == (guest == MESSAGE_BUS_GUEST),
{
    AtomFollowups {
        seed_main_thread_id: guest == GLOBAL_INIT_GUEST,
        drive_lifecycle: guest == SURFACE_GUEST,
        drive_data_model_binder: guest == MESSAGE_BUS_GUEST,
    }
}

/// Number of non-zero values in `s`.
pub open spec fn count_nonzero(s: Seq<u64>) -> nat
    decreases s.len(),
{
    if s.len() == 0 {
        0
    } else {
        count_nonzero(s.drop_last()) + if s.last() != 0 {
            1nat
        } else {
            0nat
        }
    }
}

/// The drive's tally: how many atoms returned a non-zero Ok value.
pub fn count_ok_atoms(results: &[u64]) -> (n: usize)
    ensures
        n == count_nonzero(results@),
{
    let mut n: usize = 0;
    let mut i: usize = 0;
    while i < results.len()
        invariant
            i <= results@.len(),
            n == count_nonzero(results@.subrange(0, i as int)),
            n <= i,
        decreases results@.len() - i,
    {
        proof {
            assert(results@.subrange(0, i + 1).drop_last() =~= results@.subrange(0, i as int));
        }
        if results[i] != 0 {
            n = n + 1;
        }
        i = i + 1;
    }
    assert(results@.subrange(0, results@.len() as int) =~= results@);
    n
}

/// Every atom's argument vector puts a fabricated handle in x0: the
/// activity env, or the settings manager for the engine-settings receive.
pub proof fn law_every_atom_has_x0(name: Seq<char>, h: SessionHandles, s: AtomStrings)
    ensures
        spec_substrate_args(name, h, s).len() == 8,
        spec_substrate_args(name, h, s)[0] == h.env || spec_substrate_args(name, h, s)[0]
            == s.settings_manager,
{
}

} // verus!
