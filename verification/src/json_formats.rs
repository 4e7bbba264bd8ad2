//! The JSON formats: an array of the records, optionally spliced into an
//! envelope object, and newline-delimited records.

use crate::buffer::{data_frame, frame_data, freeze, new_buffer, static_chunk, write_all};
use crate::frame_stream::{FrameStream, StreamFormat};
use crate::headers::{empty_headers, insert_content_type, static_header_value};
use crate::json_string::json_string_bytes;
use crate::stream_format::{
    closing, envelope_prefix, object_head, opening, outcome, record_frame, renders, BodyFrame,
    Encoded, Envelope, Layout, StreamError, StreamFormatEnvelope, StreamingFormat,
    JSON_ARRAY_BEGIN, JSON_ARRAY_END, JSON_COLON, JSON_NL_SEP, JSON_OBJECT_BEGIN,
    JSON_OBJECT_END, JSON_SEP,
};
use vstd::prelude::*;
use vstd::slice::{slice_subrange, slice_to_vec};
use vstd::string::is_ascii_spec_bytes;

verus! {

/// `[` as a slice.
fn json_array_begin_bytes() -> (bytes: &'static [u8])
    ensures
        bytes@ == seq![JSON_ARRAY_BEGIN],
{
    proof {
        reveal_strlit("[");
        is_ascii_spec_bytes("[");
    }
    "[".as_bytes()
}

/// `]` as a slice.
fn json_array_end_bytes() -> (bytes: &'static [u8])
    ensures
        bytes@ == seq![JSON_ARRAY_END],
{
    proof {
        reveal_strlit("]");
        is_ascii_spec_bytes("]");
    }
    "]".as_bytes()
}

/// `]}` as a slice: the end of the array and of the envelope around it.
fn json_array_envelope_end_bytes() -> (bytes: &'static [u8])
    ensures
        bytes@ == seq![JSON_ARRAY_END, JSON_OBJECT_END],
{
    proof {
        reveal_strlit("]}");
        is_ascii_spec_bytes("]}");
    }
    "]}".as_bytes()
}

/// `,` as a slice.
fn json_sep_bytes() -> (bytes: &'static [u8])
    ensures
        bytes@ == seq![JSON_SEP],
{
    proof {
        reveal_strlit(",");
        is_ascii_spec_bytes(",");
    }
    ",".as_bytes()
}

/// The line feed as a slice.
fn json_nl_sep_bytes() -> (bytes: &'static [u8])
    ensures
        bytes@ == seq![JSON_NL_SEP],
{
    proof {
        reveal_strlit("\n");
        is_ascii_spec_bytes("\n");
    }
    "\n".as_bytes()
}

/// `:` as a slice.
fn json_colon_bytes() -> (bytes: &'static [u8])
    ensures
        bytes@ == seq![JSON_COLON],
{
    proof {
        reveal_strlit(":");
        is_ascii_spec_bytes(":");
    }
    ":".as_bytes()
}

impl StreamFormatEnvelope {
    /// The frame that opens the enveloped array: the serialized object without
    /// its closing brace, a separator if the object has a member already, the
    /// array's name as a JSON string with its colon, and the opening bracket.
    /// An envelope of fewer than two bytes, or one that is not enclosed in
    /// braces, is refused, and so is one too long to be written.
    pub fn splice(&self) -> (frame: Result<BodyFrame, StreamError>)
        ensures
            opening(Layout::JsonArray(Some(self@))) matches Some(model) && renders(frame, model),
    {
        let len = self.object.len();
        if len < 2 {
            return Err(StreamError::EnvelopeTooShort(slice_to_vec(self.object.as_slice())));
        }
        if self.object[0] != JSON_OBJECT_BEGIN || self.object[len - 1] != JSON_OBJECT_END {
            return Err(StreamError::EnvelopeNotObject(slice_to_vec(self.object.as_slice())));
        }
        let mut buffer = new_buffer();
        let head = slice_subrange(self.object.as_slice(), 0, len - 1);
        let name = json_string_bytes(self.array_field.as_str());
        proof {
            assert(envelope_prefix(self@) =~= object_head(self.object@) + name@ + seq![JSON_COLON]
                + seq![JSON_ARRAY_BEGIN]);
        }
        if !write_all(&mut buffer, head) {
            return Err(StreamError::Write);
        }
        if len > 2 {
            if !write_all(&mut buffer, json_sep_bytes()) {
                return Err(StreamError::Write);
            }
        }
        if !write_all(&mut buffer, name.as_slice()) {
            return Err(StreamError::Write);
        }
        if !write_all(&mut buffer, json_colon_bytes()) {
            return Err(StreamError::Write);
        }
        if !write_all(&mut buffer, json_array_begin_bytes()) {
            return Err(StreamError::Write);
        }
        Ok(data_frame(freeze(buffer)))
    }
}

/// The format of a JSON array, bare or as a member of an envelope object.
#[derive(Debug)]
pub struct JsonArrayStreamFormat {
    envelope: Option<StreamFormatEnvelope>,
}

impl View for JsonArrayStreamFormat {
    type V = Layout;

    closed spec fn view(&self) -> Layout {
        match self.envelope {
            Some(envelope) => Layout::JsonArray(Some(envelope@)),
            None => Layout::JsonArray(None),
        }
    }
}

impl JsonArrayStreamFormat {
    /// The format of a bare array.
    pub fn new() -> (format: JsonArrayStreamFormat)
        ensures
            format@ == Layout::JsonArray(None),
    {
        JsonArrayStreamFormat { envelope: None }
    }

    /// The format of an array that is the member `array_field` of the object
    /// whose serialization is `envelope`.
    pub fn with_envelope(envelope: Vec<u8>, array_field: &str) -> (format: JsonArrayStreamFormat)
        ensures
            format@ == Layout::JsonArray(
                Some(Envelope { object: envelope@, array_field: array_field@ }),
            ),
    {
        JsonArrayStreamFormat {
            envelope: Some(
                StreamFormatEnvelope { object: envelope, array_field: array_field.to_owned() },
            ),
        }
    }

    /// The frame that opens the array.
    pub fn opening_frame(&self) -> (frame: Result<BodyFrame, StreamError>)
        ensures
            opening(self@) matches Some(model) && renders(frame, model),
    {
        match &self.envelope {
            Some(envelope) => envelope.splice(),
            None => Ok(data_frame(static_chunk(json_array_begin_bytes()))),
        }
    }

    /// The frame for one record: a separator, unless the record is the first,
    /// and the record's bytes.
    pub fn record_frame(&self, first: bool, encoded: Encoded) -> (frame: Result<
        BodyFrame,
        StreamError,
    >)
        ensures
            renders(frame, record_frame(self@, first, outcome(encoded))),
    {
        match encoded {
            Ok(bytes) => {
                let mut buffer = new_buffer();
                if !first {
                    if !write_all(&mut buffer, json_sep_bytes()) {
                        return Err(StreamError::Write);
                    }
                }
                if !write_all(&mut buffer, bytes.as_slice()) {
                    return Err(StreamError::Write);
                }
                Ok(data_frame(freeze(buffer)))
            },
            Err(error) => Err(StreamError::Serialization(error)),
        }
    }

    /// The frame that closes the array, and the envelope around it.
    pub fn closing_frame(&self) -> (frame: BodyFrame)
        ensures
            frame_data(frame) is Some,
            frame_data(frame) == closing(self@),
    {
        if self.envelope.is_some() {
            data_frame(static_chunk(json_array_envelope_end_bytes()))
        } else {
            data_frame(static_chunk(json_array_end_bytes()))
        }
    }

    /// A copy of the format.
    pub fn duplicate(&self) -> (copy: JsonArrayStreamFormat)
        ensures
            copy@ == self@,
    {
        match &self.envelope {
            Some(envelope) => JsonArrayStreamFormat {
                envelope: Some(
                    StreamFormatEnvelope {
                        object: slice_to_vec(envelope.object.as_slice()),
                        array_field: envelope.array_field.clone(),
                    },
                ),
            },
            None => JsonArrayStreamFormat { envelope: None },
        }
    }
}

impl StreamingFormat for JsonArrayStreamFormat {
    open spec fn layout(&self) -> Layout {
        self@
    }

    fn to_bytes_stream(&self) -> (stream: FrameStream) {
        FrameStream::new(StreamFormat::JsonArray(self.duplicate()))
    }

    fn http_response_trailers(&self) -> (trailers: Option<http::HeaderMap<http::HeaderValue>>) {
        proof {
            reveal_strlit("application/json");
            is_ascii_spec_bytes("application/json");
        }
        let mut header_map = empty_headers();
        insert_content_type(&mut header_map, static_header_value("application/json"));
        Some(header_map)
    }
}

/// The format of newline-delimited JSON.
#[derive(Clone, Copy, Debug)]
pub struct JsonNewLineStreamFormat;

impl JsonNewLineStreamFormat {
    /// The format: it has nothing to choose.
    pub fn new() -> (format: JsonNewLineStreamFormat)
        ensures
            format.layout() == Layout::JsonNewLine,
    {
        JsonNewLineStreamFormat {}
    }

    /// The frame for one record: its bytes and a line feed.
    pub fn record_frame(&self, encoded: Encoded) -> (frame: Result<BodyFrame, StreamError>)
        ensures
            renders(frame, record_frame(Layout::JsonNewLine, true, outcome(encoded))),
    {
        match encoded {
            Ok(bytes) => {
                let mut buffer = new_buffer();
                if !write_all(&mut buffer, bytes.as_slice()) {
                    return Err(StreamError::Write);
                }
                if !write_all(&mut buffer, json_nl_sep_bytes()) {
                    return Err(StreamError::Write);
                }
                Ok(data_frame(freeze(buffer)))
            },
            Err(error) => Err(StreamError::Serialization(error)),
        }
    }
}

impl StreamingFormat for JsonNewLineStreamFormat {
    open spec fn layout(&self) -> Layout {
        Layout::JsonNewLine
    }

    fn to_bytes_stream(&self) -> (stream: FrameStream) {
        FrameStream::new(StreamFormat::JsonNewLine(JsonNewLineStreamFormat::new()))
    }

    fn http_response_trailers(&self) -> (trailers: Option<http::HeaderMap<http::HeaderValue>>) {
        proof {
            reveal_strlit("application/jsonstream");
            is_ascii_spec_bytes("application/jsonstream");
        }
        let mut header_map = empty_headers();
        insert_content_type(&mut header_map, static_header_value("application/jsonstream"));
        Some(header_map)
    }
}

} // verus!
