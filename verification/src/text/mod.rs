//! Text primitives that the validators are built from: character classes,
//! decimal numbers and splitting on a separator.

pub mod chars;
pub mod decimal;
pub mod split;
