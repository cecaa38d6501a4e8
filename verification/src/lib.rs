//! Pattern statistics, configuration files and column rendering for osu! beatmap analysis.
pub mod patterns;
pub mod text;
pub mod columns;
pub mod options;
pub mod osu_meta;
pub mod digest;
pub mod cells;
pub mod modes;
