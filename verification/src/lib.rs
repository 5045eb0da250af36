//! Episode transcription library: subtitle rendering, key-term parsing,
//! speaker-profile bookkeeping and the decisions the command line makes.

pub mod ass;
pub mod cli;
pub mod gpu;
pub mod help;
pub mod label;
pub mod laws;
pub mod order;
pub mod output;
pub mod paths;
pub mod profiles;
pub mod project;
pub mod review;
pub mod terms;
pub mod text;
pub mod wav;
