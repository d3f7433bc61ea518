//! Resolution of an input text into a redirect target by a configured tree of
//! matchers, with a trace of the matchers that took part.

pub mod apply;
pub mod cli;
pub mod config;
pub mod daemon;
pub mod matching;
pub mod systemd;
pub mod text;
