//! The frame sequence of one response, as a machine that the host drives.
//!
//! The records come from a source that this library does not see. So the
//! stream is a state and three transitions: the host asks for a frame; the
//! source hands over a record; the source is exhausted. Whoever owns the source
//! asks it for a record only when a poll answers `Pull`, and hands the answer
//! to `item` or `end`. A record is thus asked for only when a frame is due,
//! and each record is answered by exactly one frame.

use crate::buffer::frame_data;
use crate::document::{frames, opening_count, record_frames};
use crate::json_formats::{JsonArrayStreamFormat, JsonNewLineStreamFormat};
use crate::stream_format::{
    closing, opening, outcome, record_frame, renders, BodyFrame, Encoded, FrameModel, Layout,
    Outcome, StreamError,
};
use crate::text_format::TextStreamFormat;
use vstd::prelude::*;

verus! {

/// How far a stream has come.
#[derive(Clone, Copy, Debug, PartialEq, Eq, Structural)]
pub enum Stage {
    /// Nothing was yielded yet: the opening frame, if any, is due.
    Prefix,
    /// Records are being framed; `first` tells whether none was framed yet.
    Items { first: bool },
    /// The source was exhausted and the closing frame, if any, was yielded.
    Done,
    /// A failure was yielded.
    Failed,
}

/// A stream as plain data: its format and its stage.
pub struct StreamState {
    pub layout: Layout,
    pub stage: Stage,
}

/// The state of a stream that has yielded nothing.
pub open spec fn initial(layout: Layout) -> StreamState {
    StreamState { layout, stage: Stage::Prefix }
}

/// The answer to a poll.
#[derive(Debug)]
pub enum Step {
    /// The next frame, or the failure that ends the stream.
    Frame(Result<BodyFrame, StreamError>),
    /// A record is needed: ask the source, then call `item` or `end`.
    Pull,
    /// The stream is over.
    End,
}

/// A `Step` as plain data.
pub enum StepModel {
    Frame(FrameModel),
    Pull,
    End,
}

/// Whether the answer to a poll is the one that `model` describes.
pub open spec fn answers(step: Step, model: StepModel) -> bool {
    match (step, model) {
        (Step::Frame(frame), StepModel::Frame(expected)) => renders(frame, expected),
        (Step::Pull, StepModel::Pull) => true,
        (Step::End, StepModel::End) => true,
        _ => false,
    }
}

/// The stage after a frame or failure was yielded in place of `frame`.
pub open spec fn after(frame: FrameModel) -> Stage {
    if frame is Ok {
        Stage::Items { first: false }
    } else {
        Stage::Failed
    }
}

/// A poll: the next state and the answer. The opening frame is yielded without
/// a record; after it the source is asked; after the end nothing is.
pub open spec fn on_poll(state: StreamState) -> (StreamState, StepModel) {
    match state.stage {
        Stage::Prefix => match opening(state.layout) {
            Some(Ok(bytes)) => (
                StreamState { layout: state.layout, stage: Stage::Items { first: true } },
                StepModel::Frame(Ok(bytes)),
            ),
            Some(Err(failure)) => (
                StreamState { layout: state.layout, stage: Stage::Failed },
                StepModel::Frame(Err(failure)),
            ),
            None => (
                StreamState { layout: state.layout, stage: Stage::Items { first: true } },
                StepModel::Pull,
            ),
        },
        Stage::Items { first } => (state, StepModel::Pull),
        Stage::Done => (state, StepModel::End),
        Stage::Failed => (state, StepModel::End),
    }
}

/// A record from the source: the next state and the frame that answers it.
/// A stream that is not framing records takes none and stays as it is.
pub open spec fn on_item(state: StreamState, record: Outcome) -> (StreamState, Option<FrameModel>) {
    match state.stage {
        Stage::Items { first } => {
            let frame = record_frame(state.layout, first, record);
            (StreamState { layout: state.layout, stage: after(frame) }, Some(frame))
        },
        _ => (state, None),
    }
}

/// The end of the source: the next state and the closing frame, if the format
/// has one. A stream that is not framing records stays as it is.
pub open spec fn on_end(state: StreamState) -> (StreamState, Option<Seq<u8>>) {
    match state.stage {
        Stage::Items { first } => (
            StreamState { layout: state.layout, stage: Stage::Done },
            closing(state.layout),
        ),
        _ => (state, None),
    }
}

/// A format of any of the three kinds.
#[derive(Debug)]
pub enum StreamFormat {
    JsonArray(JsonArrayStreamFormat),
    JsonNewLine(JsonNewLineStreamFormat),
    Text(TextStreamFormat),
}

impl View for StreamFormat {
    type V = Layout;

    open spec fn view(&self) -> Layout {
        match self {
            StreamFormat::JsonArray(format) => format@,
            StreamFormat::JsonNewLine(_) => Layout::JsonNewLine,
            StreamFormat::Text(_) => Layout::Text,
        }
    }
}

/// The frame sequence of one response.
#[derive(Debug)]
pub struct FrameStream {
    format: StreamFormat,
    stage: Stage,
}

impl View for FrameStream {
    type V = StreamState;

    closed spec fn view(&self) -> StreamState {
        StreamState { layout: self.format@, stage: self.stage }
    }
}

impl FrameStream {
    /// A stream in the given format that has yielded nothing.
    pub fn new(format: StreamFormat) -> (stream: FrameStream)
        ensures
            stream@ == initial(format@),
    {
        FrameStream { format, stage: Stage::Prefix }
    }

    /// How far the stream has come.
    pub fn stage(&self) -> (stage: Stage)
        ensures
            stage == self@.stage,
    {
        self.stage
    }

    /// The host asks for the next frame.
    pub fn poll_frame(&mut self) -> (step: Step)
        ensures
            final(self)@ == on_poll(old(self)@).0,
            answers(step, on_poll(old(self)@).1),
    {
        match self.stage {
            Stage::Prefix => match &self.format {
                StreamFormat::JsonArray(format) => {
                    let frame = format.opening_frame();
                    if frame.is_ok() {
                        self.stage = Stage::Items { first: true };
                    } else {
                        self.stage = Stage::Failed;
                    }
                    Step::Frame(frame)
                },
                _ => {
                    self.stage = Stage::Items { first: true };
                    Step::Pull
                },
            },
            Stage::Items { first } => Step::Pull,
            Stage::Done => Step::End,
            Stage::Failed => Step::End,
        }
    }

    /// The source hands over a record. `None` means that the stream was not
    /// framing records and did not take it.
    pub fn item(&mut self, encoded: Encoded) -> (frame: Option<Result<BodyFrame, StreamError>>)
        ensures
            final(self)@ == on_item(old(self)@, outcome(encoded)).0,
            match (frame, on_item(old(self)@, outcome(encoded)).1) {
                (Some(frame), Some(model)) => renders(frame, model),
                (None, None) => true,
                _ => false,
            },
    {
        match self.stage {
            Stage::Items { first } => {
                let frame = match &self.format {
                    StreamFormat::JsonArray(format) => format.record_frame(first, encoded),
                    StreamFormat::JsonNewLine(format) => format.record_frame(encoded),
                    StreamFormat::Text(format) => format.record_frame(encoded),
                };
                if frame.is_ok() {
                    self.stage = Stage::Items { first: false };
                } else {
                    self.stage = Stage::Failed;
                }
                Some(frame)
            },
            _ => None,
        }
    }

    /// The source is exhausted. The result is the closing frame, if the stream
    /// was framing records and its format has one.
    pub fn end(&mut self) -> (frame: Option<BodyFrame>)
        ensures
            final(self)@ == on_end(old(self)@).0,
            match (frame, on_end(old(self)@).1) {
                (Some(frame), Some(bytes)) => frame_data(frame) == Some(bytes),
                (None, None) => true,
                _ => false,
            },
    {
        match self.stage {
            Stage::Items { first } => {
                self.stage = Stage::Done;
                match &self.format {
                    StreamFormat::JsonArray(format) => Some(format.closing_frame()),
                    _ => None,
                }
            },
            _ => None,
        }
    }
}

/// What one poll of the host does: the stream's next state, the frame that
/// the host receives, if any, and whether a record was taken from the source.
pub struct Polled {
    pub state: StreamState,
    pub frame: Option<FrameModel>,
    pub took: bool,
}

/// One poll of the host, with `source` holding the records not yet taken. The
/// stream is polled; only if it answers `Pull` is the source touched: its first
/// record is handed over, or its end is.
pub open spec fn polled(state: StreamState, source: Seq<Outcome>) -> Polled {
    let (asked, step) = on_poll(state);
    match step {
        StepModel::Frame(frame) => Polled { state: asked, frame: Some(frame), took: false },
        StepModel::End => Polled { state: asked, frame: None, took: false },
        StepModel::Pull => if source.len() > 0 {
            let (next, frame) = on_item(asked, source.first());
            Polled { state: next, frame, took: true }
        } else {
            let (next, bytes) = on_end(asked);
            match bytes {
                Some(bytes) => Polled { state: next, frame: Some(Ok(bytes)), took: false },
                None => Polled { state: next, frame: None, took: false },
            }
        },
    }
}

/// What a number of polls yield: the frames that the host received, in order,
/// and the number of records taken from the source.
pub struct Run {
    pub frames: Seq<FrameModel>,
    pub taken: nat,
}

/// The stream polled `polls` times against a source.
pub open spec fn run(state: StreamState, source: Seq<Outcome>, polls: nat) -> Run
    decreases polls,
{
    if polls == 0 {
        Run { frames: Seq::empty(), taken: 0 }
    } else {
        let now = polled(state, source);
        let rest = run(
            now.state,
            if now.took {
                source.drop_first()
            } else {
                source
            },
            (polls - 1) as nat,
        );
        Run {
            frames: match now.frame {
                Some(frame) => seq![frame] + rest.frames,
                None => rest.frames,
            },
            taken: if now.took {
                rest.taken + 1
            } else {
                rest.taken
            },
        }
    }
}

/// The first `count` of the frames, or all of them if there are fewer.
pub open spec fn first_frames(frames: Seq<FrameModel>, count: nat) -> Seq<FrameModel> {
    if count <= frames.len() {
        frames.take(count as int)
    } else {
        frames
    }
}

proof fn lemma_run_finished(state: StreamState, source: Seq<Outcome>, polls: nat)
    requires
        state.stage is Done || state.stage is Failed,
    ensures
        run(state, source, polls).frames == Seq::<FrameModel>::empty(),
        run(state, source, polls).taken == 0,
    decreases polls,
{
    if polls > 0 {
        lemma_run_finished(state, source, (polls - 1) as nat);
    }
}

proof fn lemma_run_records(layout: Layout, first: bool, source: Seq<Outcome>, polls: nat)
    ensures
        run(StreamState { layout, stage: Stage::Items { first } }, source, polls).frames
            == first_frames(record_frames(layout, first, source), polls),
        run(StreamState { layout, stage: Stage::Items { first } }, source, polls).taken <= run(
            StreamState { layout, stage: Stage::Items { first } },
            source,
            polls,
        ).frames.len(),
    decreases polls,
{
    if polls > 0 {
        let state = StreamState { layout, stage: Stage::Items { first } };
        let less = (polls - 1) as nat;
        if source.len() == 0 {
            lemma_run_finished(polled(state, source).state, source, less);
        } else if record_frame(layout, first, source.first()) is Ok {
            lemma_run_records(layout, false, source.drop_first(), less);
        } else {
            lemma_run_finished(polled(state, source).state, source.drop_first(), less);
        }
    }
}

proof fn lemma_run(layout: Layout, source: Seq<Outcome>, polls: nat)
    ensures
        run(initial(layout), source, polls).frames == first_frames(frames(layout, source), polls),
        run(initial(layout), source, polls).taken <= run(
            initial(layout),
            source,
            polls,
        ).frames.len(),
        polls > 0 ==> run(initial(layout), source, polls).taken + opening_count(layout) <= run(
            initial(layout),
            source,
            polls,
        ).frames.len(),
{
    if polls > 0 {
        let less = (polls - 1) as nat;
        match opening(layout) {
            Some(Ok(_)) => lemma_run_records(layout, true, source, less),
            Some(Err(_)) => lemma_run_finished(
                polled(initial(layout), source).state,
                source,
                less,
            ),
            None => lemma_run_records(layout, true, source, polls),
        }
    }
}

/// A polled stream yields its frames one by one.
///
/// For every format, source and number of polls, the frames that the host has
/// received after that many polls are the first that many of `frames`, or all
/// of them: each poll yields the next frame until none is left.
pub proof fn polls_yield_frames(layout: Layout, source: Seq<Outcome>, polls: nat)
    ensures
        run(initial(layout), source, polls).frames == first_frames(frames(layout, source), polls),
{
    lemma_run(layout, source, polls);
}

/// A stream takes no record ahead of its frame.
///
/// For every format, source and number of polls, the records taken from the
/// source are no more than the frames that the host has received, and where
/// the format opens with a frame, fewer: a record is taken only in the poll
/// that yields its frame, so a host that stops polling leaves every later
/// record in the source.
pub proof fn no_record_taken_ahead(layout: Layout, source: Seq<Outcome>, polls: nat)
    ensures
        run(initial(layout), source, polls).taken <= run(
            initial(layout),
            source,
            polls,
        ).frames.len(),
        run(initial(layout), source, polls).frames.len() <= polls,
        polls > 0 ==> run(initial(layout), source, polls).taken + opening_count(layout) <= run(
            initial(layout),
            source,
            polls,
        ).frames.len(),
{
    lemma_run(layout, source, polls);
}

} // verus!
