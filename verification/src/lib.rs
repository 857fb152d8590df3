//! Commands for a JavaScript canvas front end, written as JSON text.
//!
//! The library builds the JSON commands that a browser page draws from
//! (rectangles, lines, text, images, Chart.js charts), decides what the
//! websocket server does with each message a client sends, and turns RGBA
//! pixels into a PNG data URL.

pub mod strings;
pub mod decimal;
pub mod json;
pub mod commands;
pub mod protocol;
pub mod vec_png_base64;

pub use json::{Jsonify, ToJsonText};
