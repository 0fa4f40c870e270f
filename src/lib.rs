//! Word search over a square character grid: counts a four-letter word read
//! along any of eight directions, and an X formed by two crossing
//! three-letter arms around a shared center.

pub mod grid;
pub mod samples;
pub mod views;
pub mod scan;
