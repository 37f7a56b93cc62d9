use phantom_core::error::PipelineError;
use phantom_core::normalize::NativeBlock;
use phantom_core::recorder::{
    complete_processing, complete_start, is_recording, process_audio, start_audio_recording,
    stop_audio_recording, AudioRecorder, StartAction,
};
use phantom_core::sample::Sample;

fn samples(values: &[f32]) -> Vec<Sample> {
    values.iter().map(|v| Sample::from_bits(v.to_bits()).unwrap()).collect()
}

fn float_block(values: &[f32]) -> NativeBlock {
    NativeBlock::Float(values.iter().map(|v| v.to_bits()).collect())
}

fn buffer(recorder: &AudioRecorder) -> Vec<f32> {
    recorder.get_audio_buffer().iter().map(|s| f32::from_bits(s.to_bits())).collect()
}

fn started() -> AudioRecorder {
    let mut recorder = AudioRecorder::new();
    assert_eq!(start_audio_recording(&mut recorder), StartAction::OpenDevice);
    assert_eq!(complete_start(&mut recorder, Ok(())), Ok(()));
    recorder
}

#[test]
fn new_recorder_is_idle_and_empty() {
    let recorder = AudioRecorder::new();
    assert!(!recorder.is_recording());
    assert!(!recorder.is_stream_started());
    assert!(recorder.get_audio_buffer().is_empty());
    assert!(!is_recording(&recorder));
}

#[test]
fn first_start_opens_the_device_and_records() {
    let mut recorder = AudioRecorder::new();
    recorder.append_audio(samples(&[0.5]));
    assert_eq!(start_audio_recording(&mut recorder), StartAction::OpenDevice);
    assert!(recorder.get_audio_buffer().is_empty());
    assert!(!recorder.is_recording());
    assert_eq!(complete_start(&mut recorder, Ok(())), Ok(()));
    assert!(recorder.is_recording());
    assert!(recorder.is_stream_started());
}

#[test]
fn failed_start_leaves_the_recorder_idle() {
    for error in [
        PipelineError::DeviceUnavailable,
        PipelineError::StreamConstructionFailed,
        PipelineError::UnsupportedSampleFormat,
    ] {
        let mut recorder = AudioRecorder::new();
        assert_eq!(start_audio_recording(&mut recorder), StartAction::OpenDevice);
        let reported = complete_start(&mut recorder, Err(error));
        assert!(reported.is_err());
        assert!(!recorder.is_recording());
        assert!(!recorder.is_stream_started());
        assert_eq!(start_audio_recording(&mut recorder), StartAction::OpenDevice);
    }
    let mut recorder = AudioRecorder::new();
    start_audio_recording(&mut recorder);
    assert_eq!(
        complete_start(&mut recorder, Err(PipelineError::DeviceUnavailable)),
        Err(PipelineError::DeviceUnavailable)
    );
}

#[test]
fn start_twice_is_idempotent() {
    let mut recorder = started();
    recorder.on_block(&float_block(&[0.1, -0.2]));
    assert_eq!(start_audio_recording(&mut recorder), StartAction::Resume);
    assert_eq!(buffer(&recorder), vec![0.1, -0.2]);
    assert!(recorder.is_recording());
    assert!(recorder.is_stream_started());
    assert_eq!(start_audio_recording(&mut recorder), StartAction::Resume);
    assert_eq!(buffer(&recorder), vec![0.1, -0.2]);
}

#[test]
fn stop_pauses_and_keeps_the_buffer() {
    let mut recorder = started();
    recorder.on_block(&float_block(&[0.1]));
    stop_audio_recording(&mut recorder);
    assert!(!recorder.is_recording());
    assert!(recorder.is_stream_started());
    assert_eq!(buffer(&recorder), vec![0.1]);
}

#[test]
fn blocks_are_dropped_while_paused_and_kept_after_resume() {
    let mut recorder = started();
    recorder.on_block(&float_block(&[0.1]));
    stop_audio_recording(&mut recorder);
    recorder.on_block(&float_block(&[0.9, 0.8]));
    assert_eq!(buffer(&recorder), vec![0.1]);
    assert_eq!(start_audio_recording(&mut recorder), StartAction::Resume);
    recorder.on_block(&NativeBlock::Signed(vec![32767, 0]));
    recorder.on_block(&NativeBlock::Unsigned(vec![0]));
    assert_eq!(buffer(&recorder), vec![0.1, 1.0, 0.0, -1.0]);
}

#[test]
fn blocks_are_dropped_before_any_start() {
    let mut recorder = AudioRecorder::new();
    recorder.on_block(&float_block(&[0.1, 0.2]));
    assert!(recorder.get_audio_buffer().is_empty());
}

#[test]
fn process_on_a_new_recorder_fails_with_empty_buffer() {
    let recorder = AudioRecorder::new();
    assert_eq!(process_audio(&recorder), Err(PipelineError::EmptyBuffer));
}

#[test]
fn process_after_start_and_stop_without_samples_fails_with_empty_buffer() {
    let mut recorder = started();
    stop_audio_recording(&mut recorder);
    assert_eq!(process_audio(&recorder), Err(PipelineError::EmptyBuffer));
}

#[test]
fn successful_process_empties_the_buffer_and_pauses() {
    let mut recorder = started();
    recorder.on_block(&float_block(&[0.1, -0.2, 0.3]));
    assert!(process_audio(&recorder).is_ok());
    assert_eq!(buffer(&recorder), vec![0.1, -0.2, 0.3]);
    let text = complete_processing(&mut recorder, Ok(String::from("hello")));
    assert_eq!(text, Ok(String::from("hello")));
    assert!(recorder.get_audio_buffer().is_empty());
    assert!(!recorder.is_recording());
    assert!(recorder.is_stream_started());
    assert_eq!(process_audio(&recorder), Err(PipelineError::EmptyBuffer));
    stop_audio_recording(&mut recorder);
    assert_eq!(process_audio(&recorder), Err(PipelineError::EmptyBuffer));
    assert_eq!(start_audio_recording(&mut recorder), StartAction::Resume);
    assert_eq!(process_audio(&recorder), Err(PipelineError::EmptyBuffer));
    recorder.on_block(&float_block(&[0.4]));
    assert!(process_audio(&recorder).is_ok());
}

#[test]
fn failed_process_changes_nothing() {
    let mut recorder = started();
    recorder.on_block(&float_block(&[0.1, -0.2]));
    let failure = PipelineError::ServiceError { status: 500, body: String::from("down") };
    let reported = complete_processing(&mut recorder, Err(failure));
    assert_eq!(
        reported,
        Err(PipelineError::ServiceError { status: 500, body: String::from("down") })
    );
    assert_eq!(buffer(&recorder), vec![0.1, -0.2]);
    assert!(recorder.is_recording());
    let reported = complete_processing(&mut recorder, Err(PipelineError::NetworkError));
    assert_eq!(reported, Err(PipelineError::NetworkError));
    assert_eq!(buffer(&recorder), vec![0.1, -0.2]);
}

#[test]
fn recorded_samples_reach_the_encoder_and_the_container_declares_its_format() {
    let mut recorder = started();
    recorder.on_block(&float_block(&[0.1, -0.2, 0.3]));
    stop_audio_recording(&mut recorder);
    assert_eq!(buffer(&recorder), vec![0.1, -0.2, 0.3]);
    let container = process_audio(&recorder).unwrap();
    let mut reader = hound::WavReader::new(std::io::Cursor::new(container)).unwrap();
    assert_eq!(reader.spec().sample_rate, 44100);
    assert_eq!(reader.spec().channels, 1);
    assert_eq!(reader.spec().bits_per_sample, 32);
    assert_eq!(reader.spec().sample_format, hound::SampleFormat::Float);
    let decoded: Vec<f32> = reader.samples::<f32>().map(|s| s.unwrap()).collect();
    assert_eq!(decoded, vec![0.1, -0.2, 0.3]);
    let text = complete_processing(&mut recorder, Ok(String::from("one two three")));
    assert_eq!(text, Ok(String::from("one two three")));
    assert!(recorder.get_audio_buffer().is_empty());
}

#[test]
fn appends_and_snapshots_keep_every_sample_once_and_in_order() {
    let mut recorder = AudioRecorder::new();
    recorder.append_audio(samples(&[0.1, 0.2]));
    let first = buffer(&recorder);
    recorder.append_audio(samples(&[]));
    recorder.append_audio(samples(&[0.3]));
    let second = buffer(&recorder);
    recorder.append_audio(samples(&[0.4, 0.5]));
    assert_eq!(first, vec![0.1, 0.2]);
    assert_eq!(second, vec![0.1, 0.2, 0.3]);
    assert_eq!(buffer(&recorder), vec![0.1, 0.2, 0.3, 0.4, 0.5]);
}

#[test]
fn snapshots_between_device_blocks_are_prefixes_of_the_whole() {
    let mut recorder = started();
    let mut snapshots: Vec<Vec<u32>> = Vec::new();
    for block in 0..200u16 {
        let values: Vec<i16> = (0..50).map(|i| (block * 50 + i) as i16).collect();
        recorder.on_block(&NativeBlock::Signed(values));
        if block % 4 == 0 {
            snapshots.push(recorder.get_audio_buffer().iter().map(|s| s.to_bits()).collect());
        }
    }
    let whole: Vec<u32> = recorder.get_audio_buffer().iter().map(|s| s.to_bits()).collect();
    let expected: Vec<u32> =
        (0..10000i16).map(|n| (n as f32 / i16::MAX as f32).to_bits()).collect();
    assert_eq!(whole, expected);
    assert_eq!(snapshots.len(), 50);
    for snapshot in snapshots {
        assert_eq!(snapshot.len() % 50, 0);
        assert_eq!(snapshot[..], expected[..snapshot.len()]);
    }
}

#[test]
fn setters_and_clear_change_one_thing_each() {
    let mut recorder = AudioRecorder::new();
    recorder.set_stream_started(true);
    assert!(recorder.is_stream_started());
    assert!(!recorder.is_recording());
    recorder.set_recording(true);
    assert!(recorder.is_recording());
    recorder.append_audio(samples(&[0.1]));
    recorder.clear_buffer();
    assert!(recorder.get_audio_buffer().is_empty());
    assert!(recorder.is_recording());
    recorder.set_recording(false);
    recorder.set_stream_started(false);
    assert!(!recorder.is_stream_started());
}
