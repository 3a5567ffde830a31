//! Decoder for the line-oriented, section-structured beatmap text format:
//! global settings, metadata, difficulty, events, timing points and hit
//! objects, read in one forward pass over a sequence of lines.
pub mod decimal;
pub mod laws;
pub mod model;
pub mod parser;
pub mod records;
pub mod scan;
pub mod text;

pub use decimal::Decimal;
pub use model::{
    parse_bool, Beatmap, BeatmapDifficulty, BeatmapGeneral, BeatmapMetadata, BeatmapMode,
    BeatmapModeError, Event, HitObject, HitObjectBase, ParseError, ReadFailure, TimingPoint,
};
pub use parser::Parser;
