//! Windowing logic of the CEF runtime on Linux.
//!
//! The crate decides; the embedding program acts. Every function here works on
//! plain values and says in its contract exactly what it computes, while the
//! calls into X11, Wayland, GTK and CEF are made by the program around it.

pub mod argb_surface;
pub mod blit;
pub mod geometry;
pub mod osr;
pub mod single;
pub mod style;
pub mod window;
pub mod x11_host;
