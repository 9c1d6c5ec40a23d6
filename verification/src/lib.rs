//! Verified core of a joystick, gamepad and flightstick input library.

pub mod float_bits;
pub mod event;
pub mod digits;
pub mod text;
pub mod float_text;
pub mod remap;
pub mod controller;
pub mod evdev;
pub mod devices;
pub mod native;
pub mod button;
pub mod gamepad;
pub mod gamepads;
pub mod port;
pub mod focus;
pub mod sdb;
pub mod sdb_load;
pub mod raw_linux;
pub mod manager;
pub mod sdl;
pub mod wide;
pub mod pad_db;
pub mod sdl_map;
pub mod pad_map;
pub mod joystick_map;
pub mod descriptor;
pub mod poll_laws;
pub mod input_laws;
