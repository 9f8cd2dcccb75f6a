//! Tower-clock chime: turns the time of day and a small configuration into a
//! timed sequence of bell strikes, in plain, full or Westminster style.

pub mod chime;
pub mod clock;
pub mod config;
pub mod plain;
pub mod score;
pub mod westminster;
