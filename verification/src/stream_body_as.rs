//! The response body: a stream of frames and the headers that go out with it.

use crate::frame_stream::{initial, FrameStream};
use crate::headers::{empty_headers, header_values, no_headers};
use crate::json_formats::{JsonArrayStreamFormat, JsonNewLineStreamFormat};
use crate::stream_format::{format_headers, Envelope, Layout, StreamingFormat};
use crate::text_format::TextStreamFormat;
use vstd::prelude::*;

verus! {

/// A streamed response body with the headers of the response it belongs to.
///
/// The stream is a `FrameStream` where the body is driven by hand. A host may
/// put its own stream of frames in its place: the body only holds it.
pub struct StreamBodyAs<S> {
    stream: S,
    trailers: Option<http::HeaderMap<http::HeaderValue>>,
}

impl<S> StreamBodyAs<S> {
    /// The stream of the body.
    pub closed spec fn stream(&self) -> S {
        self.stream
    }

    /// The headers set on the body, if any.
    pub closed spec fn trailers(&self) -> Option<http::HeaderMap<http::HeaderValue>> {
        self.trailers
    }

    /// A body of the given stream and headers.
    pub fn from_parts(stream: S, trailers: Option<http::HeaderMap<http::HeaderValue>>) -> (body:
        StreamBodyAs<S>)
        ensures
            body.stream() == stream,
            body.trailers() == trailers,
    {
        StreamBodyAs { stream, trailers }
    }

    /// The same body with `headers` in place of whatever headers it had.
    pub fn headers(self, headers: http::HeaderMap<http::HeaderValue>) -> (body: StreamBodyAs<S>)
        ensures
            body.stream() == self.stream(),
            body.trailers() == Some(headers),
    {
        let mut body = self;
        body.trailers = Some(headers);
        body
    }

    /// The stream of the body, to be polled. The headers stay as they are.
    pub fn stream_mut(&mut self) -> (stream: &mut S)
        ensures
            *stream == old(self).stream(),
            final(self).stream() == *final(stream),
            final(self).trailers() == old(self).trailers(),
    {
        &mut self.stream
    }

    /// The two parts of the response: the headers set on the body, or an empty
    /// map if none were, and the stream.
    pub fn into_response(self) -> (response: (http::HeaderMap<http::HeaderValue>, S))
        ensures
            response.1 == self.stream(),
            match self.trailers() {
                Some(headers) => response.0 == headers,
                None => header_values(response.0) == no_headers(),
            },
    {
        let headers = match self.trailers {
            Some(trailers) => trailers,
            None => empty_headers(),
        };
        (headers, self.stream)
    }
}

impl StreamBodyAs<FrameStream> {
    /// A body in the given format: a stream that has yielded nothing, and the
    /// format's own headers.
    pub fn new<FMT: StreamingFormat>(stream_format: FMT) -> (body: StreamBodyAs<FrameStream>)
        ensures
            body.stream()@ == initial(stream_format.layout()),
            body.trailers() matches Some(headers) && header_values(headers) == format_headers(
                stream_format.layout(),
            ),
    {
        StreamBodyAs {
            stream: stream_format.to_bytes_stream(),
            trailers: stream_format.http_response_trailers(),
        }
    }

    /// A body that is a JSON array of the records.
    pub fn json_array() -> (body: StreamBodyAs<FrameStream>)
        ensures
            body.stream()@ == initial(Layout::JsonArray(None)),
            body.trailers() matches Some(headers) && header_values(headers) == format_headers(
                Layout::JsonArray(None),
            ),
    {
        StreamBodyAs::new(JsonArrayStreamFormat::new())
    }

    /// A body that is the object serialized in `envelope`, with a JSON array of
    /// the records as its member `array_field`.
    pub fn json_array_with_envelope(envelope: Vec<u8>, array_field: &str) -> (body: StreamBodyAs<
        FrameStream,
    >)
        ensures
            body.stream()@ == initial(
                Layout::JsonArray(Some(Envelope { object: envelope@, array_field: array_field@ })),
            ),
            body.trailers() matches Some(headers) && header_values(headers) == format_headers(
                Layout::JsonArray(Some(Envelope { object: envelope@, array_field: array_field@ })),
            ),
    {
        StreamBodyAs::new(JsonArrayStreamFormat::with_envelope(envelope, array_field))
    }

    /// A body of newline-delimited JSON.
    pub fn json_nl() -> (body: StreamBodyAs<FrameStream>)
        ensures
            body.stream()@ == initial(Layout::JsonNewLine),
            body.trailers() matches Some(headers) && header_values(headers) == format_headers(
                Layout::JsonNewLine,
            ),
    {
        StreamBodyAs::new(JsonNewLineStreamFormat::new())
    }

    /// A body of plain text.
    pub fn text() -> (body: StreamBodyAs<FrameStream>)
        ensures
            body.stream()@ == initial(Layout::Text),
            body.trailers() matches Some(headers) && header_values(headers) == format_headers(
                Layout::Text,
            ),
    {
        StreamBodyAs::new(TextStreamFormat::new())
    }
}

} // verus!
