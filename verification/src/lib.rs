//! Framing of a lazy sequence of encoded records into the frames of a streamed
//! HTTP response body: a JSON array, a JSON array spliced into an envelope
//! object, newline-delimited JSON, or plain text.
//!
//! The library never sees the source of the records. A [`FrameStream`] is
//! polled for the next frame; when it answers [`Step::Pull`], its owner asks
//! the source for one record and hands over what came: a record to
//! [`FrameStream::item`], the end of the source to [`FrameStream::end`]. So a
//! record is taken only when a frame is due, and nothing is held back or
//! fetched ahead.
//!
//! - [`stream_format`] says what each format makes of one record, and with
//!   what it opens and closes a stream.
//! - [`json_formats`] and [`text_format`] hold the formats and build their
//!   frames.
//! - [`json_string`] writes a member's name as a JSON string.
//! - [`frame_stream`] is the frame sequence of one response.
//! - [`stream_body_as`] pairs a stream with the headers of its response.
//! - [`document`] proves that the frames of each format add up to the
//!   document that the format promises.
//! - [`buffer`] and [`headers`] state what is taken on trust of the `bytes`,
//!   `http-body` and `http` crates.

pub mod buffer;
pub mod document;
pub mod frame_stream;
pub mod headers;
pub mod json_formats;
pub mod json_string;
pub mod stream_body_as;
pub mod stream_format;
pub mod text_format;

pub use frame_stream::{FrameStream, Stage, Step, StreamFormat};
pub use json_formats::{JsonArrayStreamFormat, JsonNewLineStreamFormat};
pub use stream_body_as::StreamBodyAs;
pub use stream_format::{BodyFrame, Encoded, StreamError, StreamFormatEnvelope, StreamingFormat};
pub use text_format::TextStreamFormat;
