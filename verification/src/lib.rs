//! Decision logic of a browser-driven single-sign-on login that ends with
//! the capture of a VPN session cookie.
//!
//! The crate holds everything that such a login decides, and nothing that it
//! displays: where the browser is sent first, how a navigation event is
//! recognised as the arrival at the portal, which cookie of the answer is the
//! credential, and how the run ends. A program around it owns the window, the
//! browser view and the cookie store.

pub mod cookie;
pub mod observer;
pub mod portal;
pub mod session;
pub mod target;
pub mod text;
