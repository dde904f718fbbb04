//! A Karplus-Strong plucked-string synthesis engine.
//!
//! The engine is a bank of strings, each a feedback delay line excited by a
//! fixed noise burst. It is generic in the sample type: the caller hands in the
//! arithmetic on samples, one operation at a time, and what is verified here
//! is everything around it, that is which samples go into which operation,
//! which slots are read and written, how the cursors move, how triggers reach
//! the strings and in what order the strings are added up.

pub mod bank;
pub mod command;
pub mod noise;
pub mod tuning;
pub mod voice;

pub use bank::{IndexOutOfRange, Karplus};
pub use command::{
    drain, pluck_reach, random_pluck, run_period, Command, Drained, COMMAND_CAPACITY, PLUCK_REACH,
};
pub use noise::Rand;
pub use tuning::{delay_line_length, frequency_for_string_index, STRING_COUNT};
pub use voice::{KarplusString, Operation, Vibration};
