//! Verified parsing and analysis logic for an HLS inspection tool: ISO-BMFF box bodies,
//! media-segment scanning, supplemental-view query strings, PlayReady headers, timing
//! planning vocabulary and playlist validation bookkeeping.
pub mod bits;
pub mod bytes;
pub mod text;
pub mod timing;
pub mod live;
pub mod validator;
pub mod mp4_parsing;
pub mod mp4_probe;
pub mod network;
pub mod playready;
pub mod query_codec;
pub mod response;
