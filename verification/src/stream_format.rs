//! The wire formats as mathematics: the frame with which each format opens a
//! stream, the frame it makes of one record, and the frame with which it
//! closes.
//!
//! A record reaches this library already encoded: as the bytes a serializer
//! made of it, or as the error with which the serializer gave up. A format
//! decides only how those encodings are stitched together.

use crate::buffer::{fits_buffer, frame_data};
use crate::frame_stream::FrameStream;
use crate::headers::{content_type_name, header_values, no_headers};
use crate::json_string::json_string;
use vstd::prelude::*;
use vstd::utf8::encode_utf8;

verus! {

/// `serde_json::Error`, the reason a serializer gave no bytes.
#[verifier::external_type_specification]
#[verifier::external_body]
pub struct ExJsonError(serde_json::Error);

/// What a serializer made of one record: its bytes, or the reason it gave none.
pub type Encoded = Result<Vec<u8>, serde_json::Error>;

/// One frame of a response body, as the host takes it.
pub type BodyFrame = http_body::Frame<bytes::Bytes>;

/// `[`, which opens a JSON array.
pub const JSON_ARRAY_BEGIN: u8 = 0x5b;

/// `]`, which closes a JSON array.
pub const JSON_ARRAY_END: u8 = 0x5d;

/// `{`, which opens a JSON object.
pub const JSON_OBJECT_BEGIN: u8 = 0x7b;

/// `}`, which closes a JSON object.
pub const JSON_OBJECT_END: u8 = 0x7d;

/// `,`, which separates the elements of an array and the members of an object.
pub const JSON_SEP: u8 = 0x2c;

/// `:`, which separates a member's name from its value.
pub const JSON_COLON: u8 = 0x3a;

/// The line feed that ends each record of newline-delimited JSON.
pub const JSON_NL_SEP: u8 = 0x0a;

/// Why a stream failed. A failure is always the last thing a stream yields.
#[derive(Debug)]
pub enum StreamError {
    /// A record could not be serialized.
    Serialization(serde_json::Error),
    /// The serialized envelope, given here, has fewer than two bytes.
    EnvelopeTooShort(Vec<u8>),
    /// The serialized envelope, given here, is not enclosed in `{` and `}`.
    EnvelopeNotObject(Vec<u8>),
    /// A frame was too long for the buffer it is written to.
    Write,
}

/// A `StreamError` as plain data.
pub enum Failure {
    Serialization(serde_json::Error),
    EnvelopeTooShort(Seq<u8>),
    EnvelopeNotObject(Seq<u8>),
    Write,
}

impl View for StreamError {
    type V = Failure;

    open spec fn view(&self) -> Failure {
        match *self {
            StreamError::Serialization(error) => Failure::Serialization(error),
            StreamError::EnvelopeTooShort(bytes) => Failure::EnvelopeTooShort(bytes@),
            StreamError::EnvelopeNotObject(bytes) => Failure::EnvelopeNotObject(bytes@),
            StreamError::Write => Failure::Write,
        }
    }
}

/// An encoded record as plain data.
pub type Outcome = Result<Seq<u8>, serde_json::Error>;

/// A frame, or the failure in its place, as plain data.
pub type FrameModel = Result<Seq<u8>, Failure>;

/// The plain data of an encoded record.
pub open spec fn outcome(encoded: Encoded) -> Outcome {
    match encoded {
        Ok(bytes) => Ok(bytes@),
        Err(error) => Err(error),
    }
}

/// Whether what a stream handed out is the frame, or the failure, that `model`
/// describes.
pub open spec fn renders(frame: Result<BodyFrame, StreamError>, model: FrameModel) -> bool {
    match (frame, model) {
        (Ok(data), Ok(bytes)) => frame_data(data) == Some(bytes),
        (Err(error), Err(failure)) => error@ == failure,
        _ => false,
    }
}

/// A wrapper object, already serialized, and the name of the member under which
/// the streamed array is to appear in it.
#[derive(Debug)]
pub struct StreamFormatEnvelope {
    pub object: Vec<u8>,
    pub array_field: String,
}

/// A `StreamFormatEnvelope` as plain data.
pub struct Envelope {
    pub object: Seq<u8>,
    pub array_field: Seq<char>,
}

impl View for StreamFormatEnvelope {
    type V = Envelope;

    open spec fn view(&self) -> Envelope {
        Envelope { object: self.object@, array_field: self.array_field@ }
    }
}

/// A wire format with all that it was constructed with.
pub enum Layout {
    /// A JSON array of the records, inside the envelope if there is one.
    JsonArray(Option<Envelope>),
    /// Each record followed by a line feed.
    JsonNewLine,
    /// The records' bytes as they are.
    Text,
}

/// Whether the bytes are at least the two braces of a JSON object.
pub open spec fn is_object(object: Seq<u8>) -> bool {
    &&& object.len() >= 2
    &&& object.first() == JSON_OBJECT_BEGIN
    &&& object.last() == JSON_OBJECT_END
}

/// A member's name as a JSON string and the colon after it.
pub open spec fn member_name(array_field: Seq<char>) -> Seq<u8> {
    json_string(array_field) + seq![JSON_COLON]
}

/// A serialized object up to the place where one more member can be appended:
/// all but its closing brace, and a separator if it has a member already.
pub open spec fn object_head(object: Seq<u8>) -> Seq<u8> {
    if object.len() > 2 {
        object.drop_last() + seq![JSON_SEP]
    } else {
        object.drop_last()
    }
}

/// The bytes that open an enveloped array: the envelope without its closing
/// brace, the array's member name, and the bracket that opens the array.
pub open spec fn envelope_prefix(envelope: Envelope) -> Seq<u8> {
    object_head(envelope.object) + member_name(envelope.array_field) + seq![JSON_ARRAY_BEGIN]
}

/// The bytes as a frame, if one buffer can hold them.
pub open spec fn written(bytes: Seq<u8>) -> FrameModel {
    if fits_buffer(bytes.len()) {
        Ok(bytes)
    } else {
        Err(Failure::Write)
    }
}

/// The frame with which a stream opens, before any record is asked for;
/// `None` where the format has no such frame.
pub open spec fn opening(layout: Layout) -> Option<FrameModel> {
    match layout {
        Layout::JsonArray(None) => Some(Ok(seq![JSON_ARRAY_BEGIN])),
        Layout::JsonArray(Some(envelope)) => Some(
            if envelope.object.len() < 2 {
                Err(Failure::EnvelopeTooShort(envelope.object))
            } else if !is_object(envelope.object) {
                Err(Failure::EnvelopeNotObject(envelope.object))
            } else {
                written(envelope_prefix(envelope))
            },
        ),
        Layout::JsonNewLine => None,
        Layout::Text => None,
    }
}

/// The bytes of the frame that carries one record. `first` tells whether no
/// record has gone before it.
pub open spec fn record_bytes(layout: Layout, first: bool, record: Seq<u8>) -> Seq<u8> {
    match layout {
        Layout::JsonArray(_) => if first {
            record
        } else {
            seq![JSON_SEP] + record
        },
        Layout::JsonNewLine => record + seq![JSON_NL_SEP],
        Layout::Text => record,
    }
}

/// The frame that answers one record: its bytes stitched in, or the failure of
/// its serializer. A text record is handed on in the vector it came in, so its
/// length is no matter; the JSON formats write theirs to a buffer.
pub open spec fn record_frame(layout: Layout, first: bool, record: Outcome) -> FrameModel {
    match record {
        Ok(bytes) => match layout {
            Layout::Text => Ok(bytes),
            _ => written(record_bytes(layout, first, bytes)),
        },
        Err(error) => Err(Failure::Serialization(error)),
    }
}

/// The frame with which a stream closes once its records are exhausted; `None`
/// where the format has no such frame.
pub open spec fn closing(layout: Layout) -> Option<Seq<u8>> {
    match layout {
        Layout::JsonArray(None) => Some(seq![JSON_ARRAY_END]),
        Layout::JsonArray(Some(_)) => Some(seq![JSON_ARRAY_END, JSON_OBJECT_END]),
        Layout::JsonNewLine => None,
        Layout::Text => None,
    }
}

/// The media type that a response in this format declares.
pub open spec fn content_type(layout: Layout) -> Seq<char> {
    match layout {
        Layout::JsonArray(_) => "application/json"@,
        Layout::JsonNewLine => "application/jsonstream"@,
        Layout::Text => "text/plain; charset=utf-8"@,
    }
}

/// The headers that a format gives a response: its content type and no other.
pub open spec fn format_headers(layout: Layout) -> Map<Seq<char>, Seq<u8>> {
    no_headers().insert(content_type_name(), encode_utf8(content_type(layout)))
}

/// A wire format for a stream of records.
///
/// A format is fixed once constructed and holds nothing of the streams made
/// with it: `to_bytes_stream` may be called any number of times.
pub trait StreamingFormat {
    /// The format as plain data.
    spec fn layout(&self) -> Layout;

    /// A new stream in this format, which has yielded nothing yet.
    fn to_bytes_stream(&self) -> (stream: FrameStream)
        ensures
            stream@ == crate::frame_stream::initial(self.layout()),
    ;

    /// The headers for a response in this format: its content type alone.
    fn http_response_trailers(&self) -> (trailers: Option<http::HeaderMap<http::HeaderValue>>)
        ensures
            trailers matches Some(headers) && header_values(headers) == format_headers(
                self.layout(),
            ),
    ;
}

} // verus!
