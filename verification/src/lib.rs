//! The serving core of a personal audio-streaming server: overload
//! admission, route resolution over one or more configured collections,
//! HTTP byte-range planning, transcoding-slot arbitration, media-type
//! classification, icon scaling, and the CORS post-processing applied to
//! every response. Every decision is specified and verified; the
//! surrounding I/O shell only reads requests, performs file work, and
//! writes what the library decided.

pub mod bytes_util;
pub mod decode;
pub mod icon;
pub mod range;
pub mod services;
pub mod transcode;
pub mod types;
