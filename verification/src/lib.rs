//! Flow fields from procedural noise: a canvas is divided into square cells,
//! each cell gets a direction read from a noise source, and the field is
//! turned into drawing commands.
//!
//! The library does the integer side of this work and proves it: which cells
//! and pixels exist, in which order they are visited, where each is sampled,
//! and where each is drawn. Every floating-point quantity crosses it as an
//! IEEE 754 binary32 word that is stored and handed on untouched; the caller
//! supplies the noise source as a function and carries out the commands.

pub mod error;
pub mod grid;
pub mod model;
pub mod noise;
pub mod view;
