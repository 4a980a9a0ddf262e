//! The verified core of TrayGuardian, a small Windows companion: a bubble that bobs in
//! the corner of the desktop, a quick panel that slides in when the bubble is clicked or
//! the hot key is pressed, and a watchdog that restarts the shell when its notification
//! area is gone.
//!
//! The core never calls the system. It judges messages and takes procedures step by
//! step ([`guardian`], [`bitmap_load`], [`tray`]); a driver asks the system what the core
//! wants to know and does what it is told ([`protocol`]). What whole procedures come to
//! is proved in [`runs`].
//!
//! The rest is what the steps are made of: the curves of the panel ([`animation`]) and of
//! the bubble ([`bubble`]), the pixels of the bubble ([`image`], [`mask`], on
//! [`precision`]), places on the screen ([`geometry`], [`controls`]), message numbers
//! ([`messages`]), and text for the system and the user ([`text`], [`startup`]).

pub mod animation;
pub mod bitmap_load;
pub mod bubble;
pub mod controls;
pub mod geometry;
pub mod guardian;
pub mod image;
pub mod mask;
pub mod messages;
pub mod precision;
pub mod protocol;
pub mod runs;
pub mod startup;
pub mod text;
pub mod tray;
pub mod world;
