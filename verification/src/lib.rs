//! Verified core of a small UEFI boot chain: a bootloader that first runs a
//! Pong game and boots Linux only when the game was won, the game itself, and
//! the UTF-16 string helper both programs share.

pub mod status;

pub mod screen;
pub mod game;
pub mod utf16;
pub mod boot;
