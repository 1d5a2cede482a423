//! Verified core of the arm64jit host runtime: guest signal bookkeeping,
//! the fake AAudio bridge registry, guest path remapping, session-substrate
//! argument templates, bionic shim decisions and the guest printf renderer.

pub mod bytes;
pub mod signals;
pub mod aaudio;
pub mod fsmap;
pub mod session;
pub mod printf;
pub mod shims;
pub mod resolver;
pub mod ainput;
pub mod x11;
