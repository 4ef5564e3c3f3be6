//! The logic of a terminal multiplexer's attach client: everything between
//! raw terminal bytes and what is sent to the daemon or painted on screen.
//!
//! The crate performs no I/O. An embedding program reads bytes from the
//! terminal ([`input`]), sends the requests that [`app`] asks for, hands the
//! replies and pushed events back, and paints what [`layout`] and [`render`]
//! compute.
//!
//! What holds across functions, whatever their bodies look like, is stated and
//! proved in [`laws`] and in the modules named after what their laws are about:
//! [`key_laws`], [`menu_laws`], [`pointer_laws`], [`report_laws`], [`request_laws`],
//! [`screen_laws`] and [`text_laws`].

pub mod actions;
pub mod app;
pub mod bindings;
pub mod browse;
pub mod bytes;
pub mod edit;
pub mod first_run;
pub mod geometry;
pub mod input;
pub mod key_laws;
pub mod keys;
pub mod laws;
pub mod layout;
pub mod menu;
pub mod menu_laws;
pub mod mouse;
pub mod pointer;
pub mod pointer_laws;
pub mod protocol;
pub mod reconnect;
pub mod render;
pub mod replies;
pub mod report_laws;
pub mod request_laws;
pub mod screen_laws;
pub mod selection;
pub mod text;
pub mod text_laws;
