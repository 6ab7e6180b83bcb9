use vstd::prelude::*;
use crate::audio::{
    create_wav_header_placeholder, pcm_bytes, samples_to_pcm_bytes, wav_header,
    DEFAULT_SAMPLE_RATE, UNKNOWN_SIZE,
};
use crate::segment::strings_view;

verus! {

// The decisions of one speech stream. A driver outside asks for the next
// action, performs it (a synthesis call or the delivery of a frame), and
// reports what happened; chunks are synthesized strictly in order, the first
// failure ends the stream with one error frame, and a consumer that went away
// ends it without one.

/// How the audio of a stream is framed on the wire.
#[derive(Clone, Copy, Debug, PartialEq, Eq, Structural)]
pub enum Framing {
    /// Raw 16-bit little-endian PCM only.
    Pcm,
    /// A 44-byte WAVE header with unknown sizes first, then raw PCM.
    Wav,
}

/// One unit of bytes handed to the consumer.
#[derive(Debug)]
pub enum AudioFrame {
    Audio(Vec<u8>),
    Error(String),
}

pub enum FrameModel {
    Audio(Seq<u8>),
    Error(Seq<char>),
}

impl View for AudioFrame {
    type V = FrameModel;

    open spec fn view(&self) -> FrameModel {
        match self {
            AudioFrame::Audio(b) => FrameModel::Audio(b@),
            AudioFrame::Error(m) => FrameModel::Error(m@),
        }
    }
}

/// What the driver does next.
#[derive(Debug)]
pub enum StreamAction {
    /// Synthesize chunk `index`; only the first chunk carries the leading silence.
    Synthesize { index: usize, text: String, leading_silence: Option<usize> },
    /// Hand this frame to the consumer and report whether it was taken.
    Deliver(AudioFrame),
    /// The stream is over: close it.
    Finish,
}

pub enum ActionModel {
    Synthesize { index: nat, text: Seq<char>, leading_silence: Option<usize> },
    Deliver(FrameModel),
    Finish,
}

impl View for StreamAction {
    type V = ActionModel;

    open spec fn view(&self) -> ActionModel {
        match self {
            StreamAction::Synthesize { index, text, leading_silence } => ActionModel::Synthesize {
                index: *index as nat,
                text: text@,
                leading_silence: *leading_silence,
            },
            StreamAction::Deliver(f) => ActionModel::Deliver(f@),
            StreamAction::Finish => ActionModel::Finish,
        }
    }
}

/// The state of a stream, as its contracts see it.
pub struct SessionModel {
    pub chunks: Seq<Seq<char>>,
    pub leading_silence: Option<usize>,
    /// Index of the next chunk to synthesize.
    pub cursor: nat,
    /// A frame produced and not yet delivered.
    pub pending: Option<FrameModel>,
    /// A synthesis call failed; its error frame is the last one.
    pub failed: bool,
    /// Nothing more is produced.
    pub closed: bool,
}

/// The engine's answer for one chunk: samples, or an error message.
pub open spec fn outcome_view(o: &Result<Vec<i16>, String>) -> Result<Seq<i16>, Seq<char>> {
    match o {
        Ok(samples) => Ok(samples@),
        Err(m) => Err(m@),
    }
}

/// The header that opens a WAVE stream: engine rate, 16 bits, mono, sizes unknown.
pub open spec fn stream_header() -> Seq<u8> {
    wav_header(DEFAULT_SAMPLE_RATE, 16, 1, UNKNOWN_SIZE, UNKNOWN_SIZE)
}

pub open spec fn initial_session(
    chunks: Seq<Seq<char>>,
    framing: Framing,
    leading_silence: Option<usize>,
) -> SessionModel {
    SessionModel {
        chunks,
        leading_silence,
        cursor: 0,
        pending: if framing == Framing::Wav {
            Some(FrameModel::Audio(stream_header()))
        } else {
            None
        },
        failed: false,
        closed: false,
    }
}

pub open spec fn next_action_of(s: SessionModel) -> ActionModel {
    if s.closed {
        ActionModel::Finish
    } else {
        match s.pending {
            Some(f) => ActionModel::Deliver(f),
            None => if s.cursor < s.chunks.len() {
                ActionModel::Synthesize {
                    index: s.cursor,
                    text: s.chunks[s.cursor as int],
                    leading_silence: if s.cursor == 0 {
                        s.leading_silence
                    } else {
                        None
                    },
                }
            } else {
                ActionModel::Finish
            },
        }
    }
}

pub open spec fn after_synthesis(s: SessionModel, outcome: Result<Seq<i16>, Seq<char>>) -> SessionModel {
    match outcome {
        Ok(samples) => SessionModel {
            cursor: s.cursor + 1,
            pending: Some(FrameModel::Audio(pcm_bytes(samples))),
            ..s
        },
        Err(message) => SessionModel {
            cursor: s.cursor + 1,
            pending: Some(FrameModel::Error(message)),
            failed: true,
            ..s
        },
    }
}

pub open spec fn after_delivery(s: SessionModel, delivered: bool) -> SessionModel {
    SessionModel { pending: None, closed: !delivered || s.failed, ..s }
}

/// The state of one stream.
pub struct StreamSession {
    chunks: Vec<String>,
    leading_silence: Option<usize>,
    cursor: usize,
    pending: Option<AudioFrame>,
    failed: bool,
    closed: bool,
}

impl View for StreamSession {
    type V = SessionModel;

    closed spec fn view(&self) -> SessionModel {
        SessionModel {
            chunks: strings_view(self.chunks@),
            leading_silence: self.leading_silence,
            cursor: self.cursor as nat,
            pending: match self.pending {
                Some(f) => Some(f@),
                None => None,
            },
            failed: self.failed,
            closed: self.closed,
        }
    }
}

fn copy_frame(f: &AudioFrame) -> (r: AudioFrame)
    ensures
        r@ == f@,
{
    match f {
        AudioFrame::Audio(b) => AudioFrame::Audio(vstd::slice::slice_to_vec(b.as_slice())),
        AudioFrame::Error(m) => AudioFrame::Error(m.clone()),
    }
}

impl StreamSession {
    /// A stream over `chunks`; in WAVE framing the header is the first frame.
    pub fn new(chunks: Vec<String>, framing: Framing, leading_silence: Option<usize>) -> (r: Self)
        ensures
            r@ == initial_session(strings_view(chunks@), framing, leading_silence),
    {
        let pending = match framing {
            Framing::Wav => Some(
                AudioFrame::Audio(create_wav_header_placeholder(DEFAULT_SAMPLE_RATE, 16, 1)),
            ),
            Framing::Pcm => None,
        };
        StreamSession { chunks, leading_silence, cursor: 0, pending, failed: false, closed: false }
    }

    pub fn next_action(&self) -> (r: StreamAction)
        ensures
            r@ == next_action_of(self@),
    {
        if self.closed {
            return StreamAction::Finish;
        }
        match &self.pending {
            Some(f) => StreamAction::Deliver(copy_frame(f)),
            None => {
                if self.cursor < self.chunks.len() {
                    let leading_silence = if self.cursor == 0 {
                        self.leading_silence
                    } else {
                        None
                    };
                    StreamAction::Synthesize {
                        index: self.cursor,
                        text: self.chunks[self.cursor].clone(),
                        leading_silence,
                    }
                } else {
                    StreamAction::Finish
                }
            },
        }
    }

    /// Records the engine's answer for the chunk that was last asked for.
    pub fn on_synthesized(&mut self, outcome: Result<Vec<i16>, String>)
        requires
            next_action_of(old(self)@) is Synthesize,
        ensures
            final(self)@ == after_synthesis(old(self)@, outcome_view(&outcome)),
    {
        let count = self.chunks.len();
        assert(self.cursor < count);
        match outcome {
            Ok(samples) => {
                self.pending = Some(AudioFrame::Audio(samples_to_pcm_bytes(samples.as_slice())));
            },
            Err(message) => {
                self.pending = Some(AudioFrame::Error(message));
                self.failed = true;
            },
        }
        self.cursor = self.cursor + 1;
    }

    /// Records whether the consumer took the frame that was last handed out.
    pub fn on_delivered(&mut self, delivered: bool)
        requires
            next_action_of(old(self)@) is Deliver,
        ensures
            final(self)@ == after_delivery(old(self)@, delivered),
    {
        self.pending = None;
        self.closed = !delivered || self.failed;
    }
}

/// The frames a consumer that takes every frame receives, in order, when the
/// engine answers `outcomes[i]` for chunk `i`; `fuel` bounds the steps taken.
pub open spec fn delivered_frames(
    s: SessionModel,
    outcomes: Seq<Result<Seq<i16>, Seq<char>>>,
    fuel: nat,
) -> Seq<FrameModel>
    decreases fuel,
{
    if fuel == 0 {
        seq![]
    } else {
        match next_action_of(s) {
            ActionModel::Finish => seq![],
            ActionModel::Deliver(f) => seq![f] + delivered_frames(
                after_delivery(s, true),
                outcomes,
                (fuel - 1) as nat,
            ),
            ActionModel::Synthesize { index, .. } => delivered_frames(
                after_synthesis(s, outcomes[index as int]),
                outcomes,
                (fuel - 1) as nat,
            ),
        }
    }
}

/// One audio frame per chunk from `i` on, up to and including the first
/// failure, which gives an error frame and nothing after it.
pub open spec fn chunk_frames(outcomes: Seq<Result<Seq<i16>, Seq<char>>>, i: nat) -> Seq<
    FrameModel,
>
    decreases outcomes.len() - i,
{
    if i >= outcomes.len() {
        seq![]
    } else {
        match outcomes[i as int] {
            Ok(samples) => seq![FrameModel::Audio(pcm_bytes(samples))] + chunk_frames(
                outcomes,
                i + 1,
            ),
            Err(message) => seq![FrameModel::Error(message)],
        }
    }
}

pub open spec fn header_frames(framing: Framing) -> Seq<FrameModel> {
    if framing == Framing::Wav {
        seq![FrameModel::Audio(stream_header())]
    } else {
        seq![]
    }
}

proof fn lemma_frames_from_cursor(
    s: SessionModel,
    outcomes: Seq<Result<Seq<i16>, Seq<char>>>,
    fuel: nat,
)
    requires
        outcomes.len() == s.chunks.len(),
        s.cursor <= s.chunks.len(),
        s.pending is None,
        !s.failed,
        !s.closed,
        fuel >= 2 * (s.chunks.len() - s.cursor) + 1,
    ensures
        delivered_frames(s, outcomes, fuel) == chunk_frames(outcomes, s.cursor),
    decreases s.chunks.len() - s.cursor,
{
    if s.cursor < s.chunks.len() {
        let s1 = after_synthesis(s, outcomes[s.cursor as int]);
        let s2 = after_delivery(s1, true);
        let f1 = (fuel - 1) as nat;
        let f2 = (fuel - 2) as nat;
        assert(delivered_frames(s, outcomes, fuel) == delivered_frames(s1, outcomes, f1));
        match outcomes[s.cursor as int] {
            Ok(samples) => {
                lemma_frames_from_cursor(s2, outcomes, f2);
                assert(delivered_frames(s1, outcomes, f1) == seq![
                    FrameModel::Audio(pcm_bytes(samples)),
                ] + delivered_frames(s2, outcomes, f2));
            },
            Err(message) => {
                assert(s2.closed);
                assert(delivered_frames(s2, outcomes, f2) =~= Seq::<FrameModel>::empty());
                assert(delivered_frames(s1, outcomes, f1) =~= seq![FrameModel::Error(message)]);
            },
        }
    }
}

/// A stream delivers its header (in WAVE framing), then the audio of each
/// chunk in order up to the first chunk the engine fails on, then one error
/// frame for that chunk and nothing more: no later chunk is synthesized.
pub proof fn lemma_stream_fails_fast(
    chunks: Seq<Seq<char>>,
    framing: Framing,
    leading_silence: Option<usize>,
    outcomes: Seq<Result<Seq<i16>, Seq<char>>>,
)
    requires
        outcomes.len() == chunks.len(),
    ensures
        delivered_frames(
            initial_session(chunks, framing, leading_silence),
            outcomes,
            2 * chunks.len() + 2,
        ) == header_frames(framing) + chunk_frames(outcomes, 0),
{
    let s = initial_session(chunks, framing, leading_silence);
    let fuel = 2 * chunks.len() + 2;
    if framing == Framing::Wav {
        let s1 = after_delivery(s, true);
        lemma_frames_from_cursor(s1, outcomes, (fuel - 1) as nat);
    } else {
        lemma_frames_from_cursor(s, outcomes, fuel);
        assert(header_frames(framing) + chunk_frames(outcomes, 0) =~= chunk_frames(outcomes, 0));
    }
}

} // verus!
