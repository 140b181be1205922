//! Core workflow engine for a guild chat bot: per-guild persistent records,
//! the weekly meme-voting contest cycle, the periodic nickname lottery, and
//! the supervisor that starts one background workflow per guild.
//!
//! All platform traffic (sending, fetching, reacting, nickname edits) happens
//! outside this crate; the logic here works on plain values handed in from
//! that edge and states exactly what it decides.

pub mod assoc;
pub mod clock;
pub mod config;
pub mod error;
pub mod events;
pub mod memes;
pub mod nickname_lottery;
pub mod random;
pub mod scoreboard;
pub mod stream_indicator;
