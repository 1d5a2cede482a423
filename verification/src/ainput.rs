//! The host input bridge's marshalling: a touch action laid out in the
//! guest `nativePassInput(env, thiz, action, pointerId, x, y)` ABI on a
//! fresh register file (x0..x3 and the low 32 bits of the s0/s1 lanes).

use vstd::prelude::*;
use crate::signals::CpuState;

verus! {

/// `Java_com_roblox_engine_jni_NativeInputInterface_nativePassInput`.
pub const NATIVE_PASS_INPUT: u64 = 0x2bbba88;
/// `Java_com_roblox_engine_jni_NativeInputInterface_nativePassMouseMove`.
pub const NATIVE_PASS_MOUSE_MOVE: u64 = 0x2bbbcf4;
/// `Java_com_roblox_engine_jni_NativeGLInterface_nativePassKeyEvent`.
pub const NATIVE_PASS_KEY_EVENT: u64 = 0x2baebdc;
/// The engine input consumer both JNI exports funnel into.
pub const INPUT_CONSUMER_LEAF: u64 = 0x2e4e68c;

/// Android MotionEvent ACTION_DOWN.
pub const ACTION_DOWN: i32 = 0;
/// Android MotionEvent ACTION_UP.
pub const ACTION_UP: i32 = 1;
/// Android MotionEvent ACTION_MOVE.
pub const ACTION_MOVE: i32 = 2;
/// Android MotionEvent ACTION_CANCEL.
pub const ACTION_CANCEL: i32 = 3;

/// A touch action ready for the guest: the position as the IEEE-754 bit
/// patterns of its `f32` coordinates.
#[derive(Clone, Copy, Debug)]
pub struct TouchAction {
    pub action: i32,
    pub pointer_id: u32,
    pub x_bits: u32,
    pub y_bits: u32,
}

/// A press (DOWN) or release (UP) of the primary pointer at a position.
pub fn translate_pointer(pressed: bool, x_bits: u32, y_bits: u32) -> (t: TouchAction)
    ensures
        t.action == (if pressed {
            ACTION_DOWN
        } else {
            ACTION_UP
        }),
        t.pointer_id == 0,
        t.x_bits == x_bits,
        t.y_bits == y_bits,
{
    TouchAction {
        action: if pressed {
            ACTION_DOWN
        } else {
            ACTION_UP
        },
        pointer_id: 0,
        x_bits,
        y_bits,
    }
}

/// An ongoing motion (MOVE) of the primary pointer.
pub fn translate_motion(x_bits: u32, y_bits: u32) -> (t: TouchAction)
    ensures
        t.action == ACTION_MOVE,
        t.pointer_id == 0,
        t.x_bits == x_bits,
        t.y_bits == y_bits,
{
    TouchAction { action: ACTION_MOVE, pointer_id: 0, x_bits, y_bits }
}

/// Lay a touch action out on a fresh register file in the
/// `nativePassInput` ABI: x0 = env, x1 = thiz, x2 = action (sign-extended),
/// x3 = pointer id, s0 = x (low 32 bits of v[0]), s1 = y (low 32 bits of
/// v[2]), with the given TLS pointer and stack pointer (x31); everything
/// else is zero.
pub fn marshal_touch(action: TouchAction, env: u64, thiz: u64, tpidr: u64, boot_sp: u64) -> (st:
    CpuState)
    ensures
        st.x@[0] == env,
        st.x@[1] == thiz,
        st.x@[2] == action.action as u64,
        st.x@[3] == action.pointer_id as u64,
        st.x@[31] == boot_sp,
        forall|i: int| 4 <= i < 31 ==> st.x@[i] == 0,
        st.v@[0] == action.x_bits as u64,
        st.v@[2] == action.y_bits as u64,
        forall|i: int| 0 <= i < 64 && i != 0 && i != 2 ==> st.v@[i] == 0,
        st.tpidr == tpidr,
        st.pc == 0,
        st.nzcv == 0,
        st.blocked_mask == 0,
        st.pending_mask == 0,
        st.redirect_request == 0,
{
    let mut st = CpuState::new();
    st.tpidr = tpidr;
    st.x[31] = boot_sp;
    st.x[0] = env;
    st.x[1] = thiz;
    st.x[2] = action.action as u64;
    st.x[3] = action.pointer_id as u64;
    let v0 = st.v[0];
    let v2 = st.v[2];
    let xb = action.x_bits as u64;
    let yb = action.y_bits as u64;
    st.v[0] = (v0 & !0xffff_ffffu64) | xb;
    st.v[2] = (v2 & !0xffff_ffffu64) | yb;
    proof {
        assert(v0 == 0 && v2 == 0);
        assert((0u64 & !0xffff_ffffu64) | xb == xb) by (bit_vector);
        assert((0u64 & !0xffff_ffffu64) | yb == yb) by (bit_vector);
    }
    st
}

} // verus!
