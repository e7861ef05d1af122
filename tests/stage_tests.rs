use bytes::Bytes;
use noxious::stage::{noop_step, SlowClose, StageAction, StageEvent};

fn chunk(data: &[u8]) -> Bytes {
    Bytes::copy_from_slice(data)
}

fn forwarded(action: StageAction) -> Bytes {
    match action {
        StageAction::Forward(c) => c,
        other => panic!("expected a forwarded chunk, got {:?}", other),
    }
}

fn completion(action: StageAction) -> (u64, bool) {
    match action {
        StageAction::Complete { delay_ms, failed } => (delay_ms, failed),
        other => panic!("expected completion, got {:?}", other),
    }
}

#[test]
fn noop_forwards_chunks_unchanged() {
    let chunks: Vec<Bytes> = vec![chunk(&[1, 2, 3]), Bytes::new(), chunk(&[255; 32])];
    let mut out = Vec::new();
    for c in chunks.clone() {
        out.push(forwarded(noop_step(StageEvent::Chunk(c))));
    }
    assert_eq!(out, chunks);
    assert_eq!(completion(noop_step(StageEvent::InputEnded)), (0, false));
}

#[test]
fn noop_ends_quietly_when_output_closes() {
    assert_eq!(completion(noop_step(StageEvent::WriteFailed)), (0, false));
}

#[test]
fn noop_ends_at_once_when_stopped() {
    assert_eq!(completion(noop_step(StageEvent::Stopped)), (0, false));
}

#[test]
fn passthrough_once() {
    let mut stage = SlowClose::new(0);
    let data = chunk(&[7; 32]);
    assert_eq!(forwarded(stage.step(StageEvent::Chunk(data.clone()))), data);
    assert_eq!(completion(stage.step(StageEvent::InputEnded)), (0, false));
}

#[test]
fn slow_close_delays_after_input_ends() {
    let mut stage = SlowClose::new(250);
    for i in 0..4u8 {
        assert_eq!(forwarded(stage.step(StageEvent::Chunk(chunk(&[i; 3])))), chunk(&[i; 3]));
    }
    assert_eq!(completion(stage.step(StageEvent::InputEnded)), (250, false));
}

#[test]
fn slow_close_delays_after_stop() {
    let mut stage = SlowClose::new(40);
    assert_eq!(forwarded(stage.step(StageEvent::Chunk(chunk(&[9])))), chunk(&[9]));
    assert_eq!(completion(stage.step(StageEvent::Stopped)), (40, false));
}

#[test]
fn slow_close_failed_write_ends_forwarding_and_still_waits() {
    let mut stage = SlowClose::new(15);
    assert_eq!(forwarded(stage.step(StageEvent::Chunk(chunk(&[1, 2])))), chunk(&[1, 2]));
    assert_eq!(completion(stage.step(StageEvent::WriteFailed)), (15, true));
    assert!(stage.write_failed);
}

#[test]
fn drop_out_channel_first_with_latency() {
    let mut stage = SlowClose::new(0);
    let data = chunk(&[3; 32]);
    assert_eq!(forwarded(stage.step(StageEvent::Chunk(data.clone()))), data);
    assert_eq!(completion(stage.step(StageEvent::Stopped)), (0, false));
}
