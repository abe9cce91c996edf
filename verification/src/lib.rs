//! A color and its complement, edited through a seven-character hex entry.
//!
//! [`color`] holds the `#rrggbb` codec and channel inversion. [`ui`] holds the
//! entry buffer and the rules by which key presses change it. [`std_specs`]
//! states what is relied on of the standard `String`.

pub mod color;
pub mod std_specs;
pub mod ui;
