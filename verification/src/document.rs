//! What the frames of a stream add up to.
//!
//! `frames` gives, for a format and a finite source, every frame of the stream
//! in order; `body` gives the bytes that reach the client. The theorems below
//! say that for each format the body is the document that the format promises,
//! byte for byte, and where a stream ends when a record fails.

use crate::stream_format::{
    closing, envelope_prefix, is_object, member_name, object_head, opening, record_bytes,
    record_frame, written, Envelope, Failure, FrameModel, Layout, Outcome, JSON_ARRAY_BEGIN,
    JSON_ARRAY_END, JSON_NL_SEP, JSON_OBJECT_END, JSON_SEP,
};
use vstd::prelude::*;

verus! {

/// The frames from the records onwards: one frame per record up to and
/// including the first failure, and the closing frame if none failed.
pub open spec fn record_frames(layout: Layout, first: bool, source: Seq<Outcome>) -> Seq<
    FrameModel,
>
    decreases source.len(),
{
    if source.len() == 0 {
        match closing(layout) {
            Some(bytes) => seq![Ok(bytes)],
            None => Seq::empty(),
        }
    } else {
        let frame = record_frame(layout, first, source.first());
        if frame is Err {
            seq![frame]
        } else {
            seq![frame] + record_frames(layout, false, source.drop_first())
        }
    }
}

/// Everything a stream yields for a finite source, in order: the opening
/// frame, the record frames, the closing frame. A failure is the last entry.
pub open spec fn frames(layout: Layout, source: Seq<Outcome>) -> Seq<FrameModel> {
    match opening(layout) {
        None => record_frames(layout, true, source),
        Some(Ok(bytes)) => seq![Ok(bytes)] + record_frames(layout, true, source),
        Some(Err(failure)) => seq![Err(failure)],
    }
}

/// The number of frames before the first record's: one if the format opens
/// with a frame, else none.
pub open spec fn opening_count(layout: Layout) -> nat {
    if opening(layout) is Some {
        1
    } else {
        0
    }
}

/// The number of frames after the last record's: one if the format closes with
/// a frame, else none.
pub open spec fn closing_count(layout: Layout) -> nat {
    if closing(layout) is Some {
        1
    } else {
        0
    }
}

/// The response body that the frames add up to: the bytes of the data frames,
/// one after another.
pub open spec fn body(frames: Seq<FrameModel>) -> Seq<u8>
    decreases frames.len(),
{
    if frames.len() == 0 {
        Seq::empty()
    } else {
        match frames.first() {
            Ok(bytes) => bytes + body(frames.drop_first()),
            Err(_) => body(frames.drop_first()),
        }
    }
}

/// Records that all serialized, as a source.
pub open spec fn encoded_all(records: Seq<Seq<u8>>) -> Seq<Outcome> {
    records.map_values(|record: Seq<u8>| Ok::<Seq<u8>, serde_json::Error>(record))
}

/// Whether each of the records can be written to its frame; `first` tells
/// whether no record has gone before them.
pub open spec fn written_from(layout: Layout, first: bool, records: Seq<Seq<u8>>) -> bool {
    forall|i: int|
        0 <= i < records.len() ==> record_frame(
            layout,
            first && i == 0,
            Ok(#[trigger] records[i]),
        ) is Ok
}

/// Whether each record of a whole source can be written to its frame. Only a
/// record that, with its separator, is longer than a buffer can not.
pub open spec fn all_written(layout: Layout, records: Seq<Seq<u8>>) -> bool {
    written_from(layout, true, records)
}

/// Each record after a separator.
pub open spec fn separated(records: Seq<Seq<u8>>, separator: Seq<u8>) -> Seq<u8>
    decreases records.len(),
{
    if records.len() == 0 {
        Seq::empty()
    } else {
        separator + records.first() + separated(records.drop_first(), separator)
    }
}

/// The records one after another with a separator between each two.
pub open spec fn joined(records: Seq<Seq<u8>>, separator: Seq<u8>) -> Seq<u8> {
    if records.len() == 0 {
        Seq::empty()
    } else {
        records.first() + separated(records.drop_first(), separator)
    }
}

/// The compact JSON text of the array whose elements have these texts.
pub open spec fn json_array_text(elements: Seq<Seq<u8>>) -> Seq<u8> {
    seq![JSON_ARRAY_BEGIN] + joined(elements, seq![JSON_SEP]) + seq![JSON_ARRAY_END]
}

/// The compact JSON text of a serialized object with one more member, of the
/// given name and value text, after those it has.
pub open spec fn json_object_with_member(
    object: Seq<u8>,
    array_field: Seq<char>,
    value: Seq<u8>,
) -> Seq<u8> {
    object_head(object) + member_name(array_field) + value + seq![JSON_OBJECT_END]
}

/// Each record followed by a line feed.
pub open spec fn json_lines_text(records: Seq<Seq<u8>>) -> Seq<u8>
    decreases records.len(),
{
    if records.len() == 0 {
        Seq::empty()
    } else {
        records.first() + seq![JSON_NL_SEP] + json_lines_text(records.drop_first())
    }
}

/// The records' bytes one after another.
pub open spec fn plain_text(records: Seq<Seq<u8>>) -> Seq<u8>
    decreases records.len(),
{
    if records.len() == 0 {
        Seq::empty()
    } else {
        records.first() + plain_text(records.drop_first())
    }
}

/// What the record frames of a format add up to, without the closing frame.
pub open spec fn records_text(layout: Layout, first: bool, records: Seq<Seq<u8>>) -> Seq<u8> {
    match layout {
        Layout::JsonArray(_) => if first {
            joined(records, seq![JSON_SEP])
        } else {
            separated(records, seq![JSON_SEP])
        },
        Layout::JsonNewLine => json_lines_text(records),
        Layout::Text => plain_text(records),
    }
}

/// The bytes of the closing frame, or none.
pub open spec fn closing_text(layout: Layout) -> Seq<u8> {
    match closing(layout) {
        Some(bytes) => bytes,
        None => Seq::empty(),
    }
}

proof fn lemma_body_of_data_frame(bytes: Seq<u8>, rest: Seq<FrameModel>)
    ensures
        body(seq![Ok::<Seq<u8>, Failure>(bytes)] + rest) == bytes + body(rest),
{
    let all = seq![Ok::<Seq<u8>, Failure>(bytes)] + rest;
    assert(all.drop_first() =~= rest);
}

/// The record frames of records that can all be written: one data frame for
/// each record, then the closing frame, adding up to the records stitched
/// together and the closing bytes.
proof fn lemma_record_frames_written(layout: Layout, first: bool, records: Seq<Seq<u8>>)
    requires
        written_from(layout, first, records),
    ensures
        record_frames(layout, first, encoded_all(records)).len() == records.len() + closing_count(
            layout,
        ),
        forall|i: int|
            0 <= i < records.len() ==> (#[trigger] record_frames(
                layout,
                first,
                encoded_all(records),
            )[i]) == Ok::<Seq<u8>, Failure>(record_bytes(layout, first && i == 0, records[i])),
        closing(layout) matches Some(bytes) ==> record_frames(
            layout,
            first,
            encoded_all(records),
        ).last() == Ok::<Seq<u8>, Failure>(bytes),
        body(record_frames(layout, first, encoded_all(records))) == records_text(
            layout,
            first,
            records,
        ) + closing_text(layout),
    decreases records.len(),
{
    if records.len() == 0 {
        if let Some(bytes) = closing(layout) {
            lemma_body_of_data_frame(bytes, Seq::empty());
        }
    } else {
        let rest = records.drop_first();
        assert(encoded_all(records).drop_first() =~= encoded_all(rest));
        lemma_record_frames_written(layout, false, rest);
        lemma_body_of_data_frame(
            record_bytes(layout, first, records[0]),
            record_frames(layout, false, encoded_all(rest)),
        );
    }
}

/// The frames of a stream whose opening frame and records can all be written:
/// the opening frame, one data frame for each record, then the closing frame.
pub proof fn frames_of_written_records(layout: Layout, records: Seq<Seq<u8>>)
    requires
        !(opening(layout) matches Some(Err(_))),
        all_written(layout, records),
    ensures
        frames(layout, encoded_all(records)).len() == opening_count(layout) + records.len()
            + closing_count(layout),
        forall|i: int|
            0 <= i < frames(layout, encoded_all(records)).len() ==> (#[trigger] frames(
                layout,
                encoded_all(records),
            )[i]) is Ok,
        opening(layout) matches Some(frame) ==> frames(layout, encoded_all(records)).first()
            == frame,
        forall|i: int|
            0 <= i < records.len() ==> (#[trigger] frames(layout, encoded_all(records))[
                opening_count(layout) + i
            ]) == Ok::<Seq<u8>, Failure>(record_bytes(layout, i == 0, records[i])),
        closing(layout) matches Some(bytes) ==> frames(layout, encoded_all(records)).last() == Ok::<
            Seq<u8>,
            Failure,
        >(bytes),
{
    lemma_record_frames_written(layout, true, records);
}

/// A JSON array stream is the array, written at once.
///
/// For all records that can be written to their frames, the body of the stream
/// in the bare array format is the compact JSON text of the array of the
/// records, and the stream is a frame for the opening bracket, one for each
/// record and one for the closing bracket.
pub proof fn array_stream_is_array_text(records: Seq<Seq<u8>>)
    requires
        all_written(Layout::JsonArray(None), records),
    ensures
        frames(Layout::JsonArray(None), encoded_all(records)).len() == records.len() + 2,
        body(frames(Layout::JsonArray(None), encoded_all(records))) == json_array_text(records),
{
    let layout = Layout::JsonArray(None);
    lemma_record_frames_written(layout, true, records);
    lemma_body_of_data_frame(
        seq![JSON_ARRAY_BEGIN],
        record_frames(layout, true, encoded_all(records)),
    );
}

/// An enveloped array stream is the envelope with the array as its member.
///
/// For every envelope that is an object, with members or without, whose
/// opening frame can be written, and all records that can be written to their
/// frames, the body of the stream is the compact JSON text of the envelope
/// with one more member, named by `array_field`, whose value is the array of
/// the records.
pub proof fn envelope_stream_is_object_text(envelope: Envelope, records: Seq<Seq<u8>>)
    requires
        is_object(envelope.object),
        written(envelope_prefix(envelope)) is Ok,
        all_written(Layout::JsonArray(Some(envelope)), records),
    ensures
        frames(Layout::JsonArray(Some(envelope)), encoded_all(records)).len() == records.len() + 2,
        body(frames(Layout::JsonArray(Some(envelope)), encoded_all(records)))
            == json_object_with_member(
            envelope.object,
            envelope.array_field,
            json_array_text(records),
        ),
{
    let layout = Layout::JsonArray(Some(envelope));
    lemma_record_frames_written(layout, true, records);
    lemma_body_of_data_frame(
        envelope_prefix(envelope),
        record_frames(layout, true, encoded_all(records)),
    );
}

/// A newline-delimited stream is its records, each with a line feed.
///
/// For all records that can be written to their frames, the stream has exactly
/// one frame for each record, none for no records, and its body is each
/// record's bytes followed by one line feed, in order.
pub proof fn newline_stream_is_lines_text(records: Seq<Seq<u8>>)
    requires
        all_written(Layout::JsonNewLine, records),
    ensures
        frames(Layout::JsonNewLine, encoded_all(records)).len() == records.len(),
        body(frames(Layout::JsonNewLine, encoded_all(records))) == json_lines_text(records),
{
    lemma_record_frames_written(Layout::JsonNewLine, true, records);
}

/// A text stream is its records, verbatim.
///
/// For all records, the stream has exactly one frame for each record, which
/// holds the record's bytes and nothing else.
pub proof fn text_stream_is_records(records: Seq<Seq<u8>>)
    ensures
        frames(Layout::Text, encoded_all(records)) == records.map_values(
            |record: Seq<u8>| Ok::<Seq<u8>, Failure>(record),
        ),
        body(frames(Layout::Text, encoded_all(records))) == plain_text(records),
{
    lemma_record_frames_written(Layout::Text, true, records);
}

/// The streams of an empty source.
///
/// Without records, the bare array format yields `[` and `]`, which is the
/// empty array; an envelope that is an object and can be written yields
/// itself with an empty array as the named member; the newline-delimited and
/// text formats yield no frame at all.
pub proof fn empty_source(envelope: Envelope)
    requires
        is_object(envelope.object),
        written(envelope_prefix(envelope)) is Ok,
    ensures
        frames(Layout::JsonArray(None), Seq::empty()) == seq![
            Ok::<Seq<u8>, Failure>(seq![JSON_ARRAY_BEGIN]),
            Ok::<Seq<u8>, Failure>(seq![JSON_ARRAY_END]),
        ],
        body(frames(Layout::JsonArray(None), Seq::empty())) == seq![
            JSON_ARRAY_BEGIN,
            JSON_ARRAY_END,
        ],
        body(frames(Layout::JsonArray(Some(envelope)), Seq::empty())) == json_object_with_member(
            envelope.object,
            envelope.array_field,
            seq![JSON_ARRAY_BEGIN, JSON_ARRAY_END],
        ),
        frames(Layout::JsonNewLine, Seq::empty()) == Seq::<FrameModel>::empty(),
        frames(Layout::Text, Seq::empty()) == Seq::<FrameModel>::empty(),
{
    array_stream_is_array_text(Seq::empty());
    envelope_stream_is_object_text(envelope, Seq::empty());
}

/// The record frames of a source whose record `k` is the first to fail: a data
/// frame for each record before it, then the failure, then nothing.
proof fn lemma_record_frames_failed(layout: Layout, first: bool, source: Seq<Outcome>, k: int)
    requires
        0 <= k < source.len(),
        forall|i: int|
            0 <= i < k ==> record_frame(layout, first && i == 0, #[trigger] source[i]) is Ok,
        record_frame(layout, first && k == 0, source[k]) is Err,
    ensures
        record_frames(layout, first, source).len() == k + 1,
        forall|i: int|
            0 <= i < k ==> (#[trigger] record_frames(layout, first, source)[i]) == record_frame(
                layout,
                first && i == 0,
                source[i],
            ),
        record_frames(layout, first, source)[k] == record_frame(layout, first && k == 0, source[k]),
    decreases k,
{
    if k > 0 {
        lemma_record_frames_failed(layout, false, source.drop_first(), k - 1);
    }
}

/// A stream ends with the first record that fails.
///
/// If record `k` of the source is the first whose frame is a failure, be it
/// that its serializer failed or that it cannot be written, and the stream
/// opened without a failure, then the stream is the opening frame, if the
/// format has one, the data frames of the `k` records before, and the failure:
/// nothing follows it.
pub proof fn stream_ends_with_first_failure(layout: Layout, source: Seq<Outcome>, k: int)
    requires
        !(opening(layout) matches Some(Err(_))),
        0 <= k < source.len(),
        forall|i: int| 0 <= i < k ==> record_frame(layout, i == 0, #[trigger] source[i]) is Ok,
        record_frame(layout, k == 0, source[k]) is Err,
    ensures
        frames(layout, source).len() == opening_count(layout) + k + 1,
        forall|i: int|
            0 <= i < opening_count(layout) + k ==> (#[trigger] frames(layout, source)[i]) is Ok,
        forall|i: int|
            0 <= i < k ==> (#[trigger] frames(layout, source)[opening_count(layout) + i])
                == record_frame(layout, i == 0, source[i]),
        frames(layout, source).last() == record_frame(layout, k == 0, source[k]),
        source[k] matches Err(error) ==> frames(layout, source).last() == Err::<Seq<u8>, Failure>(
            Failure::Serialization(error),
        ),
{
    lemma_record_frames_failed(layout, true, source, k);
}

/// A failure is the last frame of its stream.
///
/// Whatever the format and the source, no frame follows a failure: every
/// frame but the last is a data frame.
pub proof fn failure_is_last(layout: Layout, source: Seq<Outcome>)
    ensures
        forall|i: int|
            0 <= i < frames(layout, source).len() - 1 ==> (#[trigger] frames(layout, source)[i])
                is Ok,
{
    lemma_record_failure_is_last(layout, true, source);
}

proof fn lemma_record_failure_is_last(layout: Layout, first: bool, source: Seq<Outcome>)
    ensures
        forall|i: int|
            0 <= i < record_frames(layout, first, source).len() - 1 ==> (#[trigger] record_frames(
                layout,
                first,
                source,
            )[i]) is Ok,
    decreases source.len(),
{
    if source.len() > 0 && record_frame(layout, first, source.first()) is Ok {
        lemma_record_failure_is_last(layout, false, source.drop_first());
    }
}

} // verus!
