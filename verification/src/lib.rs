//! Decision logic of a hardware fishing bot: USB HID report plans for the
//! keyboard and mouse gadgets, the choice of the best template match, the
//! offline evaluation's geometry and manifest format, and the bot's main loop.

pub mod pacing;
pub mod keyboard;
pub mod mouse;
pub mod geometry;
pub mod vision;
pub mod manifest;
pub mod evaluation;
pub mod bot;
pub mod capture;
