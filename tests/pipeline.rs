use live_transcribe::bridge::SampleBridge;
use live_transcribe::chunking::ChunkAccumulator;
use live_transcribe::downmix::{
    downmix_i16, downmix_i32, downmix_u8, full_scale, mono_divisor, SampleEncoding,
};
use live_transcribe::worker::{needs_resample, should_emit, InferenceWorker, WorkerAction};
use rubato::{FftFixedIn, Resampler};

const CHUNK: usize = 8960;
const TARGET_RATE: u32 = 16000;

fn to_mono(sums: &[i64], divisor: u64) -> Vec<f32> {
    sums.iter().map(|&s| s as f32 / divisor as f32).collect()
}

#[test]
fn accumulator_emits_whole_chunks_and_keeps_remainder() {
    let mut acc: ChunkAccumulator<u32> = ChunkAccumulator::new(4);
    let first = acc.append(&vec![1, 2, 3]);
    assert!(first.is_empty());
    assert_eq!(acc.pending_len(), 3);
    let second = acc.append(&vec![4, 5, 6, 7, 8, 9, 10]);
    assert_eq!(second, vec![vec![1, 2, 3, 4], vec![5, 6, 7, 8]]);
    assert_eq!(acc.pending(), &vec![9, 10]);
    assert_eq!(acc.chunk_len(), 4);
}

#[test]
fn accumulator_reconstructs_stream() {
    let mut acc: ChunkAccumulator<u32> = ChunkAccumulator::new(5);
    let stream: Vec<u32> = (0..37).collect();
    let mut emitted: Vec<Vec<u32>> = Vec::new();
    for batch in stream.chunks(3) {
        emitted.extend(acc.append(&batch.to_vec()));
    }
    assert!(emitted.iter().all(|c| c.len() == 5));
    let mut joined: Vec<u32> = emitted.concat();
    joined.extend_from_slice(acc.pending());
    assert_eq!(joined, stream);
    assert_eq!(emitted.len(), 7);
    assert_eq!(acc.pending_len(), 2);
}

#[test]
fn accumulator_batching_does_not_change_chunks() {
    let stream: Vec<u32> = (0..1000).map(|i| i * 7 % 13).collect();
    let mut one: ChunkAccumulator<u32> = ChunkAccumulator::new(64);
    let whole = one.append(&stream);
    let mut many: ChunkAccumulator<u32> = ChunkAccumulator::new(64);
    let mut pieces: Vec<Vec<u32>> = Vec::new();
    for size in [1usize, 2, 63, 64, 65, 100].iter().cycle().scan(0usize, |at, &s| {
        if *at >= stream.len() {
            None
        } else {
            let end = (*at + s).min(stream.len());
            let r = (*at, end);
            *at = end;
            Some(r)
        }
    }) {
        pieces.extend(many.append(&stream[size.0..size.1].to_vec()));
    }
    assert_eq!(pieces, whole);
    assert_eq!(many.pending(), one.pending());
    assert_eq!(whole.len(), 1000 / 64);
}

#[test]
fn accumulator_exact_multiple_leaves_nothing() {
    let mut acc: ChunkAccumulator<u8> = ChunkAccumulator::new(3);
    let out = acc.append(&vec![9; 9]);
    assert_eq!(out.len(), 3);
    assert_eq!(acc.pending_len(), 0);
    assert!(acc.append(&Vec::new()).is_empty());
}

#[test]
fn bridge_keeps_order_across_interleaved_drains() {
    let mut bridge: SampleBridge<i32> = SampleBridge::new();
    let mut drained: Vec<i32> = Vec::new();
    bridge.push(&vec![1, 2]);
    bridge.push(&vec![3]);
    drained.extend(bridge.drain_all());
    assert!(bridge.is_empty());
    drained.extend(bridge.drain_all());
    bridge.push(&vec![4, 5, 6]);
    assert_eq!(bridge.len(), 3);
    drained.extend(bridge.drain_all());
    bridge.push(&vec![7]);
    drained.extend(bridge.drain_all());
    assert_eq!(drained, vec![1, 2, 3, 4, 5, 6, 7]);
    assert_eq!(bridge.len(), 0);
}

#[test]
fn u8_stereo_midscale_frame_gives_fifty_zeros() {
    let frame = vec![128u8; 100];
    let sums = downmix_u8(&frame, 2);
    let mut bridge: SampleBridge<f32> = SampleBridge::new();
    bridge.push(&to_mono(&sums, mono_divisor(SampleEncoding::U8, 2)));
    let got = bridge.drain_all();
    assert_eq!(got.len(), 50);
    assert!(got.iter().all(|&v| v == 0.0));
}

#[test]
fn downmix_u8_extremes_stay_in_range() {
    let sums = downmix_u8(&vec![0, 0, 255, 255, 0, 255], 2);
    assert_eq!(sums, vec![-256, 254, -1]);
    let mono = to_mono(&sums, mono_divisor(SampleEncoding::U8, 2));
    assert_eq!(mono[0], -1.0);
    assert!(mono.iter().all(|v| (-1.0..=1.0).contains(v)));
}

#[test]
fn downmix_i16_single_channel_is_identity() {
    let data: Vec<i16> = vec![i16::MIN, -1, 0, 1, i16::MAX];
    let sums = downmix_i16(&data, 1);
    assert_eq!(sums, vec![-32768, -1, 0, 1, 32767]);
    assert_eq!(mono_divisor(SampleEncoding::I16, 1), 32768);
    let mono = to_mono(&sums, 32768);
    assert_eq!(mono[0], -1.0);
    assert_eq!(mono[2], 0.0);
}

#[test]
fn downmix_i32_averages_channels_and_drops_partial_frame() {
    let data: Vec<i32> = vec![i32::MIN, i32::MIN, i32::MIN, i32::MAX, 10, 20, 30, 5];
    let sums = downmix_i32(&data, 3);
    assert_eq!(sums, vec![3 * (i32::MIN as i64), i32::MAX as i64 + 30]);
    let divisor = mono_divisor(SampleEncoding::I32, 3);
    assert_eq!(divisor, 3 * 2147483648);
    let mono = to_mono(&sums, divisor);
    assert_eq!(mono[0], -1.0);
    assert!(mono.iter().all(|v| (-1.0..=1.0).contains(v)));
}

#[test]
fn full_scales_of_encodings() {
    assert_eq!(full_scale(SampleEncoding::U8), 128);
    assert_eq!(full_scale(SampleEncoding::I16), 32768);
    assert_eq!(full_scale(SampleEncoding::I32), 2147483648);
    assert_eq!(full_scale(SampleEncoding::F32), 1);
    assert_eq!(mono_divisor(SampleEncoding::F32, 4), 4);
}

#[test]
fn three_seconds_of_silence_at_target_rate() {
    assert!(!needs_resample(TARGET_RATE, TARGET_RATE));
    let mut worker: InferenceWorker<f32> = InferenceWorker::new(CHUNK, None);
    let mut bridge: SampleBridge<f32> = SampleBridge::new();
    bridge.push(&vec![0.0f32; 3 * TARGET_RATE as usize]);
    assert!(worker.poll(false));
    let mut inference_calls = 0;
    let mut output = String::new();
    match worker.on_drained(&bridge.drain_all()) {
        WorkerAction::Transcribe(chunks) => {
            for chunk in chunks {
                assert_eq!(chunk.len(), CHUNK);
                inference_calls += 1;
                let text = String::new();
                if should_emit(&text) {
                    output.push_str(&text);
                }
            }
        }
        _ => panic!("expected chunks for inference"),
    }
    assert_eq!(inference_calls, 5);
    assert_eq!(worker.chunk_pending_len(), 48000 - 5 * CHUNK);
    assert!(worker.chunk_pending_len() > 0);
    assert!(output.is_empty());
}

#[test]
fn empty_drain_means_sleep() {
    let mut worker: InferenceWorker<f32> = InferenceWorker::new(CHUNK, None);
    assert!(worker.poll(false));
    assert!(matches!(worker.on_drained(&Vec::new()), WorkerAction::Sleep));
    assert_eq!(worker.chunk_pending_len(), 0);
}

#[test]
fn no_inference_after_stop_is_seen() {
    let mut worker: InferenceWorker<f32> = InferenceWorker::new(4, None);
    let mut calls = 0;
    if let WorkerAction::Transcribe(chunks) = worker.on_drained(&vec![0.5; 6]) {
        calls += chunks.len();
    }
    assert_eq!(calls, 1);
    assert!(!worker.poll(true));
    assert!(worker.is_exiting());
    assert!(!worker.poll(false));
    match worker.on_drained(&vec![0.5; 40]) {
        WorkerAction::Exit => {}
        _ => panic!("worker must exit"),
    }
    calls += worker.on_converted(&vec![0.5; 40]).len();
    assert_eq!(calls, 1);
    assert_eq!(worker.chunk_pending_len(), 2);
}

#[test]
fn shown_text_is_non_empty() {
    assert!(should_emit("hello"));
    assert!(!should_emit(""));
}

#[test]
fn resampling_windows_carry_leftover() {
    assert!(needs_resample(48000, TARGET_RATE));
    let mut worker: InferenceWorker<f32> = InferenceWorker::new(6, Some(4));
    match worker.on_drained(&vec![1.0, 2.0, 3.0, 4.0, 5.0, 6.0]) {
        WorkerAction::Resample(windows) => assert_eq!(windows, vec![vec![1.0, 2.0, 3.0, 4.0]]),
        _ => panic!("expected windows"),
    }
    assert_eq!(worker.window_pending_len(), 2);
    match worker.on_drained(&vec![7.0, 8.0]) {
        WorkerAction::Resample(windows) => assert_eq!(windows, vec![vec![5.0, 6.0, 7.0, 8.0]]),
        _ => panic!("expected windows"),
    }
    assert_eq!(worker.window_pending_len(), 0);
    assert!(worker.on_converted(&vec![0.0; 5]).is_empty());
    let chunks = worker.on_converted(&vec![1.0; 3]);
    assert_eq!(chunks, vec![vec![0.0, 0.0, 0.0, 0.0, 0.0, 1.0]]);
    assert_eq!(worker.chunk_pending_len(), 2);
}

fn converted_length(batches: &[Vec<f32>], rate_in: usize, rate_out: usize) -> usize {
    let mut resampler = FftFixedIn::<f32>::new(rate_in, rate_out, 1024, 1, 1).unwrap();
    let window = resampler.input_frames_next();
    let mut worker: InferenceWorker<f32> = InferenceWorker::new(CHUNK, Some(window));
    let mut total = 0;
    for batch in batches {
        if let WorkerAction::Resample(windows) = worker.on_drained(batch) {
            for w in windows {
                total += resampler.process(&[w], None).unwrap()[0].len();
            }
        }
    }
    total
}

#[test]
fn rate_conversion_length_follows_rate_ratio() {
    let rate_in = 48000usize;
    let input: Vec<f32> = (0..rate_in)
        .map(|i| (i as f32 * 440.0 * 2.0 * std::f32::consts::PI / rate_in as f32).sin())
        .collect();
    let one = converted_length(&[input.clone()], rate_in, 16000);
    let expected = input.len() * 16000 / rate_in;
    assert!(one <= expected && expected - one <= 1024);
    let small: Vec<Vec<f32>> = input.chunks(333).map(|c| c.to_vec()).collect();
    let many = converted_length(&small, rate_in, 16000);
    assert_eq!(one, many);
}
