use vstd::prelude::*;

pub mod canvas;
pub mod color;
pub mod components;
pub mod composer;
pub mod config;
pub mod dbus;
pub mod eink;
pub mod framebuffer;
pub mod layout;
pub mod protocol;
pub mod scheduler;
pub mod state;
