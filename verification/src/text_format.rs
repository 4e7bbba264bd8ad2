//! The plain text format: each record's bytes as one frame.

use crate::buffer::{data_frame, vec_chunk};
use crate::frame_stream::{FrameStream, StreamFormat};
use crate::headers::{empty_headers, insert_content_type, static_header_value};
use crate::stream_format::{
    outcome, record_frame, renders, BodyFrame, Encoded, Layout, StreamError, StreamingFormat,
};
use vstd::prelude::*;
use vstd::slice::slice_to_vec;
use vstd::string::is_ascii_spec_bytes;
use vstd::utf8::encode_utf8;

verus! {

/// The format of plain text.
#[derive(Clone, Copy, Debug)]
pub struct TextStreamFormat;

impl TextStreamFormat {
    /// The format: it has nothing to choose.
    pub fn new() -> (format: TextStreamFormat)
        ensures
            format.layout() == Layout::Text,
    {
        TextStreamFormat {}
    }

    /// The bytes of a text record: its UTF-8 encoding.
    pub fn write_text_record(obj: String) -> (bytes: Vec<u8>)
        ensures
            bytes@ == encode_utf8(obj@),
    {
        slice_to_vec(obj.as_str().as_bytes())
    }

    /// The frame for one record: its bytes and nothing else.
    pub fn record_frame(&self, encoded: Encoded) -> (frame: Result<BodyFrame, StreamError>)
        ensures
            renders(frame, record_frame(Layout::Text, true, outcome(encoded))),
    {
        match encoded {
            Ok(bytes) => Ok(data_frame(vec_chunk(bytes))),
            Err(error) => Err(StreamError::Serialization(error)),
        }
    }
}

impl StreamingFormat for TextStreamFormat {
    open spec fn layout(&self) -> Layout {
        Layout::Text
    }

    fn to_bytes_stream(&self) -> (stream: FrameStream) {
        FrameStream::new(StreamFormat::Text(TextStreamFormat::new()))
    }

    fn http_response_trailers(&self) -> (trailers: Option<http::HeaderMap<http::HeaderValue>>) {
        proof {
            reveal_strlit("text/plain; charset=utf-8");
            is_ascii_spec_bytes("text/plain; charset=utf-8");
        }
        let mut header_map = empty_headers();
        insert_content_type(&mut header_map, static_header_value("text/plain; charset=utf-8"));
        Some(header_map)
    }
}

} // verus!
