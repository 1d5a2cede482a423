use arm64jit::session::{
    atom_followups, count_ok_atoms, substrate_args, substrate_atom_name, AtomStrings,
    SessionHandles, GLOBAL_INIT_GUEST, MESSAGE_BUS_GUEST, SUBSTRATE_ATOM_COUNT, SURFACE_GUEST,
};

fn handles() -> SessionHandles {
    SessionHandles::build(0x7000_1000, 0x7000_2000, 0x7000_3000, 0x7000_4000, 0x7000_5000)
}

fn strings() -> AtomStrings {
    AtomStrings {
        s1: 0x8000_0010,
        s2: 0x8000_0020,
        s3: 0x8000_0030,
        s4: 0x8000_0040,
        home: 0x8000_0050,
        surface_token: 0x8000_0060,
        surface_params: 0x8000_0070,
        settings_manager: 0x8000_0080,
    }
}

#[test]
fn substrate_every_atom_has_arg_template() {
    let h = handles();
    let s = strings();
    for i in 0..SUBSTRATE_ATOM_COUNT {
        let name = substrate_atom_name(i).expect("atom name");
        let a = substrate_args(name, &h, &s);
        assert_ne!(a[0], 0, "atom '{}' produces an empty ABI vector", name);
    }
    assert_eq!(SUBSTRATE_ATOM_COUNT, 16, "substrate must stay at 16 atoms");
    assert!(substrate_atom_name(SUBSTRATE_ATOM_COUNT).is_none());
}

#[test]
fn substrate_atom_names_exact_and_no_fallthrough() {
    let h = handles();
    let s = strings();
    let known: &[&str] = &[
        "nativeInitializeNativeFlags",
        "nativeGameGlobalInit",
        "setTaskSchedulerBackgroundMode(false,ASMA.start)",
        "nativeAppBridgeV2InitWithParams",
        "nativeAppBridgeStartLuaAppDM",
        "nativeAppBridgeV2StartAppWithParams",
        "V2UpdateSurfaceAppWithPlatformParams",
        "initAppShellReporter",
        "setActive",
        "nativeSetInitParams",
        "nativeInitClientSettings",
        "nativeInitClientSettingsSigned",
        "nativeActivity_onEngineSettingsReceived",
        "nativeAppBridgeV2SendAppEventOnAppReady(Home in x5)",
        "nativeAppBridgeV2SendAppEventOnGameLoaded",
        "MessageBus.subscribe(experience-launch)",
    ];
    let names: Vec<&str> = (0..SUBSTRATE_ATOM_COUNT)
        .map(|i| substrate_atom_name(i).unwrap())
        .collect();
    assert_eq!(names, known, "substrate name set drifted from the template table");
    let args = substrate_args("nativeAppBridgeV2SendAppEventOnAppReady(Home in x5)", &h, &s);
    assert_eq!(args[5], s.home);
    assert_ne!(args[0], 0, "SendAppEvent env absent");
    let args_surf = substrate_args("V2UpdateSurfaceAppWithPlatformParams", &h, &s);
    assert_ne!(args_surf[2], 0, "surface token absent");
    assert_eq!(args_surf[3], s.surface_params);
}

#[test]
fn sh411_data_model_binder_is_first_class_substrate_step() {
    let f = atom_followups(MESSAGE_BUS_GUEST);
    assert!(
        f.drive_data_model_binder,
        "MessageBus.subscribe atom present (the binder's trigger site)"
    );
    assert!(!f.drive_lifecycle);
    assert!(!f.seed_main_thread_id);
    let h = handles();
    assert_eq!((h.env, h.thiz), (0x7000_1000, 0x7000_2000));
}

#[test]
fn per_atom_argument_layouts() {
    let h = handles();
    let s = strings();
    assert_eq!(
        substrate_args("setTaskSchedulerBackgroundMode(false,ASMA.start)", &h, &s),
        [h.env, h.thiz, 0, h.bg_name, 0, 0, 0, 0]
    );
    assert_eq!(
        substrate_args("nativeSetInitParams", &h, &s),
        [h.env, h.thiz, h.init_params, 0, 0, 0, 0, 0]
    );
    assert_eq!(
        substrate_args("nativeAppBridgeV2StartAppWithParams", &h, &s),
        [h.env, h.thiz, h.start_params, 0, 0, 0, 0, 0]
    );
    assert_eq!(
        substrate_args("nativeInitClientSettingsSigned", &h, &s),
        [h.env, h.thiz, s.s1, s.s2, s.s3, s.s4, 0, 0]
    );
    assert_eq!(
        substrate_args("nativeActivity_onEngineSettingsReceived", &h, &s),
        [s.settings_manager, 0, 0, 0, 0, 0, 0, 0]
    );
    assert_eq!(
        substrate_args("setActive", &h, &s),
        [h.env, h.thiz, 0, 0, 0, 0, 0, 0]
    );
    assert_eq!(
        substrate_args("no-such-atom", &h, &s),
        [h.env, h.thiz, 0, 0, 0, 0, 0, 0]
    );
}

#[test]
fn followups_fire_only_at_their_atoms() {
    let g = atom_followups(GLOBAL_INIT_GUEST);
    assert!(g.seed_main_thread_id && !g.drive_lifecycle && !g.drive_data_model_binder);
    let s = atom_followups(SURFACE_GUEST);
    assert!(!s.seed_main_thread_id && s.drive_lifecycle && !s.drive_data_model_binder);
    let n = atom_followups(0x1234);
    assert!(!n.seed_main_thread_id && !n.drive_lifecycle && !n.drive_data_model_binder);
}

#[test]
fn ok_atoms_are_the_nonzero_results() {
    assert_eq!(count_ok_atoms(&[]), 0);
    assert_eq!(count_ok_atoms(&[0, 5, 0, 7, 1]), 3);
    assert_eq!(count_ok_atoms(&[0; 16]), 0);
}
