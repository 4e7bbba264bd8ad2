use axum_streams::{
    Encoded, FrameStream, JsonArrayStreamFormat, JsonNewLineStreamFormat, Stage, Step,
    StreamBodyAs, StreamError, StreamFormatEnvelope, StreamingFormat,
};
use std::collections::BTreeMap;

fn data(frame: axum_streams::BodyFrame) -> Vec<u8> {
    frame.into_data().unwrap().to_vec()
}

/// Polls the stream to its end against the records, as a host would.
fn drain(stream: &mut FrameStream, records: Vec<Encoded>) -> Vec<Result<Vec<u8>, StreamError>> {
    let mut source = records.into_iter();
    let mut frames = Vec::new();
    loop {
        match stream.poll_frame() {
            Step::Frame(frame) => frames.push(frame.map(data)),
            Step::End => break,
            Step::Pull => match source.next() {
                Some(record) => {
                    if let Some(frame) = stream.item(record) {
                        frames.push(frame.map(data));
                    }
                }
                None => {
                    if let Some(frame) = stream.end() {
                        frames.push(Ok(data(frame)));
                    }
                }
            },
        }
    }
    frames
}

fn body(frames: &[Result<Vec<u8>, StreamError>]) -> Vec<u8> {
    let mut bytes = Vec::new();
    for frame in frames {
        bytes.extend_from_slice(frame.as_ref().unwrap());
    }
    bytes
}

fn foo_bar() -> BTreeMap<String, String> {
    let mut record = BTreeMap::new();
    record.insert("foo".to_string(), "bar".to_string());
    record
}

fn encode_all<T: serde::Serialize>(records: &[T]) -> Vec<Encoded> {
    records.iter().map(|record| serde_json::to_vec(record)).collect()
}

/// A serialization that fails: JSON has no map keys but strings.
fn failed() -> Encoded {
    let mut record = BTreeMap::new();
    record.insert((1, 2), 3);
    serde_json::to_vec(&record)
}

fn content_type(headers: &http::HeaderMap) -> Option<&str> {
    headers.get("content-type").and_then(|h| h.to_str().ok())
}

#[test]
fn serialize_json_array_stream_format() {
    let test_stream_vec = vec![foo_bar(); 7];

    let body_as = StreamBodyAs::new(JsonArrayStreamFormat::new());
    let (headers, mut stream) = body_as.into_response();

    let expected_json = serde_json::to_string(&test_stream_vec).unwrap();
    assert_eq!(content_type(&headers), Some("application/json"));

    let frames = drain(&mut stream, encode_all(&test_stream_vec));
    assert_eq!(String::from_utf8(body(&frames)).unwrap(), expected_json);
}

#[test]
fn serialize_json_nl_stream_format() {
    let test_stream_vec = vec![foo_bar(); 7];

    let body_as = StreamBodyAs::new(JsonNewLineStreamFormat::new());
    let (headers, mut stream) = body_as.into_response();

    let expected_json = test_stream_vec
        .iter()
        .map(|item| serde_json::to_string(item).unwrap())
        .collect::<Vec<String>>()
        .join("\n")
        + "\n";
    assert_eq!(content_type(&headers), Some("application/jsonstream"));

    let frames = drain(&mut stream, encode_all(&test_stream_vec));
    assert_eq!(String::from_utf8(body(&frames)).unwrap(), expected_json);
}

#[test]
fn serialize_json_array_stream_with_envelope_format() {
    let item = serde_json::to_value(foo_bar()).unwrap();
    let test_stream_vec = vec![item; 7];

    // The envelope leaves its array out while the array is empty.
    let mut test_envelope = serde_json::Map::new();
    test_envelope.insert(
        "envelope_field".to_string(),
        serde_json::Value::String("test_envelope".to_string()),
    );

    let body_as = StreamBodyAs::new(JsonArrayStreamFormat::with_envelope(
        serde_json::to_vec(&test_envelope).unwrap(),
        "my_array",
    ));
    let (headers, mut stream) = body_as.into_response();

    let mut expected_envelope = test_envelope.clone();
    expected_envelope.insert(
        "my_array".to_string(),
        serde_json::Value::Array(test_stream_vec.clone()),
    );

    let expected_json = serde_json::to_string(&expected_envelope).unwrap();
    assert_eq!(content_type(&headers), Some("application/json"));

    let frames = drain(&mut stream, encode_all(&test_stream_vec));
    assert_eq!(String::from_utf8(body(&frames)).unwrap(), expected_json);
}

#[test]
fn array_of_seven_is_comma_joined() {
    let mut stream = JsonArrayStreamFormat::new().to_bytes_stream();
    let frames = drain(&mut stream, encode_all(&vec![foo_bar(); 7]));
    assert_eq!(frames.len(), 9);
    assert_eq!(
        String::from_utf8(body(&frames)).unwrap(),
        "[{\"foo\":\"bar\"},{\"foo\":\"bar\"},{\"foo\":\"bar\"},{\"foo\":\"bar\"},\
         {\"foo\":\"bar\"},{\"foo\":\"bar\"},{\"foo\":\"bar\"}]"
    );
}

#[test]
fn array_frames_carry_the_separator_before_the_record() {
    let mut stream = JsonArrayStreamFormat::new().to_bytes_stream();
    let records = vec![Ok(b"1".to_vec()), Ok(b"22".to_vec()), Ok(b"333".to_vec())];
    let frames = drain(&mut stream, records);
    let frames: Vec<Vec<u8>> = frames.into_iter().map(|f| f.unwrap()).collect();
    assert_eq!(
        frames,
        vec![
            b"[".to_vec(),
            b"1".to_vec(),
            b",22".to_vec(),
            b",333".to_vec(),
            b"]".to_vec()
        ]
    );
}

#[test]
fn newline_frames_are_one_per_record() {
    let mut stream = JsonNewLineStreamFormat::new().to_bytes_stream();
    let frames = drain(&mut stream, encode_all(&vec![foo_bar(); 7]));
    assert_eq!(frames.len(), 7);
    for frame in &frames {
        assert_eq!(frame.as_ref().unwrap(), b"{\"foo\":\"bar\"}\n");
    }
    assert_eq!(
        String::from_utf8(body(&frames)).unwrap(),
        "{\"foo\":\"bar\"}\n".repeat(7)
    );
}

#[test]
fn envelope_of_seven_is_the_object_with_the_array() {
    let envelope = b"{\"envelope_field\":\"test_envelope\"}".to_vec();
    let mut stream = JsonArrayStreamFormat::with_envelope(envelope, "my_array").to_bytes_stream();
    let frames = drain(&mut stream, encode_all(&vec![foo_bar(); 7]));
    assert_eq!(frames.len(), 9);
    assert_eq!(
        frames[0].as_ref().unwrap(),
        b"{\"envelope_field\":\"test_envelope\",\"my_array\":["
    );
    assert_eq!(frames[8].as_ref().unwrap(), b"]}");
    assert_eq!(
        String::from_utf8(body(&frames)).unwrap(),
        "{\"envelope_field\":\"test_envelope\",\"my_array\":[{\"foo\":\"bar\"},\
         {\"foo\":\"bar\"},{\"foo\":\"bar\"},{\"foo\":\"bar\"},{\"foo\":\"bar\"},\
         {\"foo\":\"bar\"},{\"foo\":\"bar\"}]}"
    );
}

#[test]
fn empty_array_is_two_frames() {
    let mut stream = JsonArrayStreamFormat::new().to_bytes_stream();
    let frames = drain(&mut stream, Vec::new());
    assert_eq!(frames.len(), 2);
    assert_eq!(frames[0].as_ref().unwrap(), b"[");
    assert_eq!(frames[1].as_ref().unwrap(), b"]");
    assert_eq!(body(&frames), b"[]");
    let none: Vec<u32> = Vec::new();
    assert_eq!(body(&frames), serde_json::to_vec(&none).unwrap());
}

#[test]
fn empty_newline_stream_is_empty() {
    let mut stream = JsonNewLineStreamFormat::new().to_bytes_stream();
    let frames = drain(&mut stream, Vec::new());
    assert!(frames.is_empty());
    assert_eq!(stream.stage(), Stage::Done);
}

#[test]
fn empty_envelope_stream_is_the_envelope_with_an_empty_array() {
    let envelope = b"{\"other\":\"x\"}".to_vec();
    let mut stream = JsonArrayStreamFormat::with_envelope(envelope, "items").to_bytes_stream();
    let frames = drain(&mut stream, Vec::new());
    assert_eq!(frames.len(), 2);
    assert_eq!(body(&frames), b"{\"other\":\"x\",\"items\":[]}");
}

#[test]
fn envelope_without_members_gets_no_separator() {
    let mut stream =
        JsonArrayStreamFormat::with_envelope(b"{}".to_vec(), "array_field").to_bytes_stream();
    let frames = drain(&mut stream, vec![Ok(b"1".to_vec()), Ok(b"2".to_vec())]);
    assert_eq!(frames[0].as_ref().unwrap(), b"{\"array_field\":[");
    assert_eq!(body(&frames), b"{\"array_field\":[1,2]}");
}

#[test]
fn envelope_with_members_gets_a_separator() {
    let envelope = StreamFormatEnvelope {
        object: b"{\"other\":\"x\"}".to_vec(),
        array_field: "array_field".to_string(),
    };
    let frame = envelope.splice().unwrap();
    assert_eq!(data(frame), b"{\"other\":\"x\",\"array_field\":[");
}

#[test]
fn envelope_field_name_is_written_as_utf8() {
    let envelope = StreamFormatEnvelope {
        object: b"{}".to_vec(),
        array_field: "données".to_string(),
    };
    let frame = envelope.splice().unwrap();
    assert_eq!(data(frame), "{\"données\":[".as_bytes());
}

#[test]
fn envelope_field_name_is_written_as_a_json_string() {
    let envelope = StreamFormatEnvelope {
        object: b"{}".to_vec(),
        array_field: "a\"b\\c".to_string(),
    };
    let frame = envelope.splice().unwrap();
    assert_eq!(data(frame), b"{\"a\\\"b\\\\c\":[");

    let envelope = StreamFormatEnvelope {
        object: b"{\"other\":\"x\"}".to_vec(),
        array_field: "tab\there".to_string(),
    };
    let frame = envelope.splice().unwrap();
    assert_eq!(data(frame), b"{\"other\":\"x\",\"tab\\there\":[");
}

#[test]
fn envelope_with_a_quote_in_the_field_name_is_an_object_with_that_member() {
    let name = "a\"b";
    let mut stream = JsonArrayStreamFormat::with_envelope(b"{}".to_vec(), name).to_bytes_stream();
    let frames = drain(&mut stream, Vec::new());
    let bytes = body(&frames);
    assert_eq!(bytes.len(), 11);
    assert_eq!(bytes, b"{\"a\\\"b\":[]}");

    let mut expected = serde_json::Map::new();
    expected.insert(name.to_string(), serde_json::Value::Array(Vec::new()));
    assert_eq!(bytes, serde_json::to_vec(&expected).unwrap());
    let parsed: serde_json::Value = serde_json::from_slice(&bytes).unwrap();
    assert_eq!(parsed, serde_json::Value::Object(expected));
}

#[test]
fn envelope_with_an_escaped_field_name_is_serialized_with_its_records() {
    let name = "line\nfeed \\ \u{1} \"q\" é";
    let mut envelope = serde_json::Map::new();
    envelope.insert(
        "envelope_field".to_string(),
        serde_json::Value::String("test_envelope".to_string()),
    );
    let records = vec![serde_json::to_value(foo_bar()).unwrap(); 3];
    let mut stream = JsonArrayStreamFormat::with_envelope(
        serde_json::to_vec(&envelope).unwrap(),
        name,
    )
    .to_bytes_stream();
    let frames = drain(&mut stream, encode_all(&records));

    // The name sorts after `envelope_field`, so it is the last member.
    envelope.insert(name.to_string(), serde_json::Value::Array(records));
    assert_eq!(body(&frames), serde_json::to_vec(&envelope).unwrap());
}

#[test]
fn envelope_too_short_fails_the_stream() {
    for short in [b"".to_vec(), b"{".to_vec(), b"1".to_vec()] {
        let mut stream =
            JsonArrayStreamFormat::with_envelope(short.clone(), "items").to_bytes_stream();
        let frames = drain(&mut stream, vec![Ok(b"1".to_vec())]);
        assert_eq!(frames.len(), 1);
        match &frames[0] {
            Err(StreamError::EnvelopeTooShort(bytes)) => assert_eq!(bytes, &short),
            other => panic!("unexpected frame: {:?}", other),
        }
        assert_eq!(stream.stage(), Stage::Failed);
    }
}

#[test]
fn envelope_that_is_no_object_fails_the_stream() {
    for wrong in [
        b"[1,2]".to_vec(),
        b"12".to_vec(),
        b"\"text\"".to_vec(),
        b"{\"a\":1".to_vec(),
        b"\"a\":1}".to_vec(),
        b"null".to_vec(),
    ] {
        let mut stream =
            JsonArrayStreamFormat::with_envelope(wrong.clone(), "items").to_bytes_stream();
        let frames = drain(&mut stream, vec![Ok(b"1".to_vec())]);
        assert_eq!(frames.len(), 1);
        match &frames[0] {
            Err(StreamError::EnvelopeNotObject(bytes)) => assert_eq!(bytes, &wrong),
            other => panic!("unexpected frame: {:?}", other),
        }
        assert_eq!(stream.stage(), Stage::Failed);
    }
}

#[test]
fn array_stream_ends_with_the_failed_record() {
    for k in 0..4 {
        let mut records: Vec<Encoded> = Vec::new();
        for i in 0..5 {
            if i == k {
                records.push(failed());
            } else {
                records.push(Ok(b"7".to_vec()));
            }
        }
        let mut stream = JsonArrayStreamFormat::new().to_bytes_stream();
        let frames = drain(&mut stream, records);
        assert_eq!(frames.len(), 1 + k + 1);
        assert_eq!(frames[0].as_ref().unwrap(), b"[");
        for i in 0..k {
            let expected: &[u8] = if i == 0 { b"7" } else { b",7" };
            assert_eq!(frames[1 + i].as_ref().unwrap(), expected);
        }
        assert!(matches!(
            frames[1 + k],
            Err(StreamError::Serialization(_))
        ));
        assert_eq!(stream.stage(), Stage::Failed);
    }
}

#[test]
fn newline_stream_ends_with_the_failed_record() {
    let records = vec![Ok(b"1".to_vec()), Ok(b"2".to_vec()), failed(), Ok(b"4".to_vec())];
    let mut stream = JsonNewLineStreamFormat::new().to_bytes_stream();
    let frames = drain(&mut stream, records);
    assert_eq!(frames.len(), 3);
    assert_eq!(frames[0].as_ref().unwrap(), b"1\n");
    assert_eq!(frames[1].as_ref().unwrap(), b"2\n");
    match &frames[2] {
        Err(StreamError::Serialization(error)) => {
            assert_eq!(error.to_string(), "key must be a string")
        }
        other => panic!("unexpected frame: {:?}", other),
    }
}

#[test]
fn record_frames_of_the_two_json_formats() {
    let array = JsonArrayStreamFormat::new();
    assert_eq!(data(array.record_frame(true, Ok(b"{}".to_vec())).unwrap()), b"{}");
    assert_eq!(data(array.record_frame(false, Ok(b"{}".to_vec())).unwrap()), b",{}");
    assert_eq!(data(array.record_frame(false, Ok(Vec::new())).unwrap()), b",");
    assert!(matches!(
        array.record_frame(false, failed()),
        Err(StreamError::Serialization(_))
    ));
    let lines = JsonNewLineStreamFormat::new();
    assert_eq!(data(lines.record_frame(Ok(b"{}".to_vec())).unwrap()), b"{}\n");
    assert_eq!(data(lines.record_frame(Ok(Vec::new())).unwrap()), b"\n");
    assert!(matches!(
        lines.record_frame(failed()),
        Err(StreamError::Serialization(_))
    ));
}

#[test]
fn opening_and_closing_frames_of_the_array_format() {
    let bare = JsonArrayStreamFormat::new();
    assert_eq!(data(bare.opening_frame().unwrap()), b"[");
    assert_eq!(data(bare.closing_frame()), b"]");
    let enveloped = JsonArrayStreamFormat::with_envelope(b"{\"a\":1}".to_vec(), "b");
    assert_eq!(data(enveloped.opening_frame().unwrap()), b"{\"a\":1,\"b\":[");
    assert_eq!(data(enveloped.closing_frame()), b"]}");
}

#[test]
fn a_format_serves_many_streams() {
    let format = JsonArrayStreamFormat::with_envelope(b"{\"a\":1}".to_vec(), "b");
    let copy = format.duplicate();
    for _ in 0..3 {
        let mut stream = format.to_bytes_stream();
        let frames = drain(&mut stream, vec![Ok(b"1".to_vec()), Ok(b"2".to_vec())]);
        assert_eq!(body(&frames), b"{\"a\":1,\"b\":[1,2]}");
    }
    let mut stream = copy.to_bytes_stream();
    let frames = drain(&mut stream, Vec::new());
    assert_eq!(body(&frames), b"{\"a\":1,\"b\":[]}");
}

#[test]
fn json_formats_declare_their_content_types() {
    let array = JsonArrayStreamFormat::new().http_response_trailers().unwrap();
    assert_eq!(array.len(), 1);
    assert_eq!(content_type(&array), Some("application/json"));
    let enveloped = JsonArrayStreamFormat::with_envelope(b"{}".to_vec(), "a")
        .http_response_trailers()
        .unwrap();
    assert_eq!(enveloped.len(), 1);
    assert_eq!(content_type(&enveloped), Some("application/json"));
    let lines = JsonNewLineStreamFormat::new().http_response_trailers().unwrap();
    assert_eq!(lines.len(), 1);
    assert_eq!(content_type(&lines), Some("application/jsonstream"));
}
