//! Verified core logic of the audio tool suite: the asset pipeline and its
//! nodes, WAV header parsing, segmentation, framing and start-detection plans,
//! argument and template parsing, and the configuration rules that the
//! command-line tools share.

pub mod arguments;
pub mod channels;
pub mod config;
pub mod detection;
pub mod features;
pub mod framing;
pub mod info;
pub mod nodes;
pub mod pipeline;
pub mod segment;
pub mod spectrum;
pub mod string_map;
pub mod text;
pub mod wav_header;
