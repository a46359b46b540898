//! Selection engine for a sky-color wallpaper setter.
//!
//! The library turns (current instant, solar moments, optional weather
//! snapshot, a declarative rule table) into a single chosen file path:
//! it classifies the instant into one of five periods of the local day,
//! filters the period's rule entries by the weather snapshot, expands the
//! surviving glob patterns into existing regular files, and picks one
//! candidate at random. It also holds the small pure helpers around that
//! pipeline: `~` expansion in configured paths, weather-provider API key
//! extraction, and credential masking for log lines.

pub mod apikey;
pub mod mask;
pub mod period;
pub mod pipeline;
pub mod rules;
pub mod select;
pub mod text;
pub mod userpath;
pub mod weather;
