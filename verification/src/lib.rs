//! A verified Game of Life engine over a flat, row-major grid.
//!
//! The grid model and its coordinate arithmetic live in [`grid`]; the
//! B3/S23 evolution kernel, sequential and data-parallel, in [`engine`];
//! still-life and oscillator lemmas in [`patterns`]; the per-cell age
//! tracker in [`age`]; and a textual view of a grid in [`text`].

pub mod age;
pub mod engine;
pub mod grid;
pub mod patterns;
pub mod text;
