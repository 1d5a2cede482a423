use arm64jit::ainput::{
    marshal_touch, translate_motion, translate_pointer, TouchAction, ACTION_CANCEL, ACTION_DOWN,
    ACTION_MOVE, ACTION_UP, INPUT_CONSUMER_LEAF, NATIVE_PASS_INPUT, NATIVE_PASS_KEY_EVENT,
    NATIVE_PASS_MOUSE_MOVE,
};

#[test]
fn marshal_places_args_and_float_lanes() {
    let st = marshal_touch(
        TouchAction {
            action: 0,
            pointer_id: 2,
            x_bits: 100.5f32.to_bits(),
            y_bits: 200.25f32.to_bits(),
        },
        0xAAA,
        0xBBB,
        0xCCC,
        0xDDD,
    );
    assert_eq!(st.x[31], 0xDDD);
    assert_eq!(st.x[0], 0xAAA);
    assert_eq!(st.x[1], 0xBBB);
    assert_eq!(st.x[2], 0);
    assert_eq!(st.x[3], 2);
    assert_eq!((st.v[0] & 0xffff_ffff) as u32, 100.5f32.to_bits());
    assert_eq!((st.v[2] & 0xffff_ffff) as u32, 200.25f32.to_bits());
    assert_eq!(st.v[0] >> 32, 0);
    assert_eq!(st.v[2] >> 32, 0);
    assert_eq!(st.tpidr, 0xCCC);
}

#[test]
fn action_constants_match_input_wrapper() {
    assert_eq!(ACTION_DOWN, 0);
    assert_eq!(ACTION_UP, 1);
    assert_eq!(ACTION_MOVE, 2);
    assert_eq!(ACTION_CANCEL, 3);
}

#[test]
fn translate_helpers_yield_correct_actions() {
    let d = translate_pointer(true, 10.0f32.to_bits(), 20.0f32.to_bits());
    assert_eq!(d.action, 0);
    assert_eq!(f32::from_bits(d.x_bits), 10.0);
    assert_eq!(f32::from_bits(d.y_bits), 20.0);
    let u = translate_pointer(false, 10.0f32.to_bits(), 20.0f32.to_bits());
    assert_eq!(u.action, 1);
    let m = translate_motion(30.0f32.to_bits(), 40.0f32.to_bits());
    assert_eq!(m.action, 2);
    assert_eq!(m.pointer_id, 0);
}

#[test]
fn marshal_zero_defaults_leave_high_lanes_clean() {
    let st = marshal_touch(
        TouchAction {
            action: 2,
            pointer_id: 0,
            x_bits: (-5.0f32).to_bits(),
            y_bits: 0.5f32.to_bits(),
        },
        0,
        0,
        0,
        0,
    );
    assert_eq!(st.v[0] >> 32, 0);
    assert_eq!(st.v[2] >> 32, 0);
    assert_eq!((st.v[0] & 0xffff_ffff) as u32, (-5.0f32).to_bits());
    assert_eq!((st.v[2] & 0xffff_ffff) as u32, 0.5f32.to_bits());
}

#[test]
fn marshal_sign_extends_negative_action_and_zeroes_the_rest() {
    let st = marshal_touch(
        TouchAction { action: -1, pointer_id: 7, x_bits: 1, y_bits: 2 },
        1,
        2,
        3,
        4,
    );
    assert_eq!(st.x[2], u64::MAX);
    assert_eq!(st.x[3], 7);
    for i in 4..31 {
        assert_eq!(st.x[i], 0);
    }
    assert_eq!(st.v[1], 0);
    assert_eq!(st.pc, 0);
}

#[test]
fn guest_native_addresses_are_distinct() {
    let all = [NATIVE_PASS_INPUT, NATIVE_PASS_MOUSE_MOVE, NATIVE_PASS_KEY_EVENT, INPUT_CONSUMER_LEAF];
    for i in 0..all.len() {
        for j in (i + 1)..all.len() {
            assert_ne!(all[i], all[j]);
        }
    }
    assert_eq!(NATIVE_PASS_INPUT, 0x2bbba88);
}
