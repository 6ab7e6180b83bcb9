use kokoro_openai_server::audio::create_wav_header_placeholder;
use kokoro_openai_server::stream::{AudioFrame, Framing, StreamAction, StreamSession};

/// Runs a session to its end. `outcome(i)` is the engine's answer for chunk
/// `i`; `accepts(n)` says whether the consumer takes the `n`-th frame.
fn run(
    session: &mut StreamSession,
    outcome: impl Fn(usize) -> Result<Vec<i16>, String>,
    accepts: impl Fn(usize) -> bool,
) -> (Vec<(usize, String, Option<usize>)>, Vec<AudioFrame>) {
    let mut calls = Vec::new();
    let mut frames = Vec::new();
    loop {
        match session.next_action() {
            StreamAction::Synthesize { index, text, leading_silence } => {
                calls.push((index, text, leading_silence));
                session.on_synthesized(outcome(index));
            }
            StreamAction::Deliver(frame) => {
                let taken = accepts(frames.len());
                frames.push(frame);
                session.on_delivered(taken);
            }
            StreamAction::Finish => break,
        }
    }
    (calls, frames)
}

fn chunks() -> Vec<String> {
    vec!["zero".to_string(), "one".to_string(), "two".to_string(), "three".to_string()]
}

fn engine_failing_at_two(i: usize) -> Result<Vec<i16>, String> {
    match i {
        0 => Ok(vec![1, 2]),
        1 => Ok(vec![-1]),
        2 => Err("boom".to_string()),
        _ => Ok(vec![7]),
    }
}

fn audio(frame: &AudioFrame) -> &[u8] {
    match frame {
        AudioFrame::Audio(b) => b,
        AudioFrame::Error(m) => panic!("unexpected error frame {m}"),
    }
}

#[test]
fn wav_stream_stops_after_first_failure() {
    let mut session = StreamSession::new(chunks(), Framing::Wav, Some(100));
    let (calls, frames) = run(&mut session, engine_failing_at_two, |_| true);
    assert_eq!(
        calls,
        vec![
            (0, "zero".to_string(), Some(100)),
            (1, "one".to_string(), None),
            (2, "two".to_string(), None),
        ]
    );
    assert_eq!(frames.len(), 4);
    assert_eq!(audio(&frames[0]), create_wav_header_placeholder(24000, 16, 1).as_slice());
    assert_eq!(audio(&frames[1]), &[1, 0, 2, 0]);
    assert_eq!(audio(&frames[2]), &[0xFF, 0xFF]);
    assert!(matches!(&frames[3], AudioFrame::Error(m) if m == "boom"));
}

#[test]
fn pcm_stream_stops_after_first_failure() {
    let mut session = StreamSession::new(chunks(), Framing::Pcm, None);
    let (calls, frames) = run(&mut session, engine_failing_at_two, |_| true);
    assert_eq!(calls.len(), 3);
    assert_eq!(frames.len(), 3);
    assert_eq!(audio(&frames[0]), &[1, 0, 2, 0]);
    assert_eq!(audio(&frames[1]), &[0xFF, 0xFF]);
    assert!(matches!(&frames[2], AudioFrame::Error(m) if m == "boom"));
}

#[test]
fn stream_without_failure_delivers_every_chunk() {
    let mut session = StreamSession::new(chunks(), Framing::Pcm, Some(5));
    let (calls, frames) = run(&mut session, |i| Ok(vec![i as i16]), |_| true);
    assert_eq!(calls.len(), 4);
    assert_eq!(calls[0].2, Some(5));
    assert!(calls[1..].iter().all(|c| c.2.is_none()));
    let bytes: Vec<u8> = frames.iter().flat_map(|f| audio(f).to_vec()).collect();
    assert_eq!(bytes, vec![0, 0, 1, 0, 2, 0, 3, 0]);
}

#[test]
fn consumer_gone_stops_synthesis_without_error() {
    let mut session = StreamSession::new(chunks(), Framing::Pcm, None);
    let (calls, frames) = run(&mut session, |_| Ok(vec![1]), |n| n < 1);
    assert_eq!(calls.len(), 2);
    assert_eq!(frames.len(), 2);
    assert!(frames.iter().all(|f| matches!(f, AudioFrame::Audio(_))));
}

#[test]
fn consumer_gone_before_header_stops_everything() {
    let mut session = StreamSession::new(chunks(), Framing::Wav, None);
    let (calls, frames) = run(&mut session, |_| Ok(vec![1]), |_| false);
    assert!(calls.is_empty());
    assert_eq!(frames.len(), 1);
}

#[test]
fn empty_stream_finishes_at_once() {
    let mut session = StreamSession::new(Vec::new(), Framing::Pcm, None);
    assert!(matches!(session.next_action(), StreamAction::Finish));
    let mut wav = StreamSession::new(Vec::new(), Framing::Wav, None);
    let (calls, frames) = run(&mut wav, |_| Ok(vec![]), |_| true);
    assert!(calls.is_empty());
    assert_eq!(frames.len(), 1);
}
