//! The recorder: two flags and the sample buffer, and the operations that a
//! host issues on them.
//!
//! The recorder is one owned value. What touches the outside world happens
//! between two of its operations: `start_audio_recording` says whether a
//! device has to be opened and `complete_start` takes the outcome;
//! `process_audio` hands out the container to transcribe and
//! `complete_processing` takes the outcome.

use crate::error::PipelineError;
use crate::normalize::{normalize_block, NativeBlock};
use crate::sample::{lemma_patterns_concat, patterns, Sample};
use crate::wav::{container, encodable, samples_to_wav, CHANNELS, SAMPLE_RATE};
use vstd::prelude::*;

verus! {

/// What a recorder holds: whether samples are being kept, whether the
/// device's stream is alive, and the patterns of the samples kept so far.
pub struct RecorderState {
    pub recording: bool,
    pub stream_open: bool,
    pub buffer: Seq<u32>,
}

/// The three states of a recorder.
#[derive(Clone, Copy, Debug, PartialEq, Eq, Structural)]
pub enum Phase {
    /// No stream is open.
    Idle,
    /// The stream is open and its samples are kept.
    Recording,
    /// The stream is open and its samples are dropped.
    Paused,
}

/// What a start asks of the host.
#[derive(Clone, Copy, Debug, PartialEq, Eq, Structural)]
pub enum StartAction {
    /// The stream is open already: nothing is to be done.
    Resume,
    /// The default input device is to be opened, and the outcome reported
    /// with `complete_start`.
    OpenDevice,
}

impl RecorderState {
    /// A recording recorder has an open stream.
    pub open spec fn wf(self) -> bool {
        self.recording ==> self.stream_open
    }

    /// The state of a new recorder.
    pub open spec fn initial() -> RecorderState {
        RecorderState { recording: false, stream_open: false, buffer: Seq::empty() }
    }

    /// Which of the three states this is.
    pub open spec fn phase(self) -> Phase {
        if !self.stream_open {
            Phase::Idle
        } else if self.recording {
            Phase::Recording
        } else {
            Phase::Paused
        }
    }

    /// The state with samples added at the end of the buffer.
    pub open spec fn appended(self, samples: Seq<u32>) -> RecorderState {
        RecorderState { buffer: self.buffer + samples, ..self }
    }

    /// The state with the buffer emptied.
    pub open spec fn cleared(self) -> RecorderState {
        RecorderState { buffer: Seq::empty(), ..self }
    }

    /// The state after a block has arrived from the device: its samples are
    /// kept while recording and dropped otherwise.
    pub open spec fn received(self, samples: Seq<u32>) -> RecorderState {
        if self.recording {
            self.appended(samples)
        } else {
            self
        }
    }

    /// The state after a start. With an open stream only the flag is set and
    /// the buffer stays; without one the buffer is emptied, and the flag is
    /// set once the stream is known to be open.
    pub open spec fn started(self) -> RecorderState {
        if self.stream_open {
            RecorderState { recording: true, ..self }
        } else {
            self.cleared()
        }
    }

    /// What a start asks of the host.
    pub open spec fn start_action(self) -> StartAction {
        if self.stream_open {
            StartAction::Resume
        } else {
            StartAction::OpenDevice
        }
    }

    /// The state after the host has reported how opening the device went.
    pub open spec fn opened(self, success: bool) -> RecorderState {
        if success {
            RecorderState { recording: true, stream_open: true, ..self }
        } else {
            self
        }
    }

    /// The state after a stop: the flag is cleared, the rest stays.
    pub open spec fn stopped(self) -> RecorderState {
        RecorderState { recording: false, ..self }
    }

    /// What a process operation hands to the transcription: nothing from an
    /// empty buffer, else the container of the whole buffer.
    pub open spec fn processed(self) -> Result<Seq<u8>, PipelineError> {
        if self.buffer.len() == 0 {
            Err(PipelineError::EmptyBuffer)
        } else if !encodable(self.buffer.len(), SAMPLE_RATE, CHANNELS) {
            Err(PipelineError::EncodingFailed)
        } else {
            Ok(container(self.buffer, SAMPLE_RATE, CHANNELS))
        }
    }

    /// The state after the transcription has ended: after a success the
    /// buffer is empty and recording is off, after a failure nothing changed.
    pub open spec fn concluded(self, success: bool) -> RecorderState {
        if success {
            RecorderState { recording: false, buffer: Seq::empty(), ..self }
        } else {
            self
        }
    }
}

/// The recorder.
pub struct AudioRecorder {
    is_recording: bool,
    audio_buffer: Vec<Sample>,
    stream_started: bool,
}

impl View for AudioRecorder {
    type V = RecorderState;

    closed spec fn view(&self) -> RecorderState {
        RecorderState {
            recording: self.is_recording,
            stream_open: self.stream_started,
            buffer: patterns(self.audio_buffer@),
        }
    }
}

impl AudioRecorder {
    /// A recorder that is idle and holds no samples.
    pub fn new() -> (r: Self)
        ensures
            r@ == RecorderState::initial(),
    {
        let r = Self { is_recording: false, audio_buffer: Vec::new(), stream_started: false };
        assert(r@.buffer =~= Seq::<u32>::empty());
        r
    }

    /// Whether samples are being kept.
    pub fn is_recording(&self) -> (b: bool)
        ensures
            b == self@.recording,
    {
        self.is_recording
    }

    /// A copy of the whole buffer, in order.
    pub fn get_audio_buffer(&self) -> (samples: Vec<Sample>)
        ensures
            patterns(samples@) == self@.buffer,
    {
        let mut samples: Vec<Sample> = Vec::new();
        let mut i: usize = 0;
        while i < self.audio_buffer.len()
            invariant
                i <= self.audio_buffer@.len(),
                samples@ == self.audio_buffer@.take(i as int),
            decreases self.audio_buffer@.len() - i,
        {
            samples.push(self.audio_buffer[i]);
            assert(samples@ =~= self.audio_buffer@.take(i + 1));
            i = i + 1;
        }
        assert(samples@ =~= self.audio_buffer@);
        samples
    }

    /// Empties the buffer.
    pub fn clear_buffer(&mut self)
        ensures
            final(self)@ == old(self)@.cleared(),
    {
        self.audio_buffer.clear();
        assert(self@.buffer =~= Seq::<u32>::empty());
    }

    /// Adds samples at the end of the buffer, whatever the flags say.
    pub fn append_audio(&mut self, samples: Vec<Sample>)
        ensures
            final(self)@ == old(self)@.appended(patterns(samples@)),
    {
        let mut i: usize = 0;
        while i < samples.len()
            invariant
                i <= samples@.len(),
                self.is_recording == old(self).is_recording,
                self.stream_started == old(self).stream_started,
                self.audio_buffer@ == old(self).audio_buffer@ + samples@.take(i as int),
            decreases samples@.len() - i,
        {
            self.audio_buffer.push(samples[i]);
            assert(self.audio_buffer@ =~= old(self).audio_buffer@ + samples@.take(i + 1));
            i = i + 1;
        }
        proof {
            assert(samples@.take(samples@.len() as int) =~= samples@);
            lemma_patterns_concat(old(self).audio_buffer@, samples@);
        }
    }

    /// Sets or clears the recording flag. Recording needs an open stream.
    pub fn set_recording(&mut self, recording: bool)
        requires
            recording ==> old(self)@.stream_open,
        ensures
            final(self)@ == (RecorderState { recording, ..old(self)@ }),
            old(self)@.wf() ==> final(self)@.wf(),
    {
        self.is_recording = recording;
    }

    /// Whether the device's stream is alive.
    pub fn is_stream_started(&self) -> (b: bool)
        ensures
            b == self@.stream_open,
    {
        self.stream_started
    }

    /// Records that the stream is alive, or that it is gone. A stream that is
    /// being recorded from cannot be gone.
    pub fn set_stream_started(&mut self, started: bool)
        requires
            !started ==> !old(self)@.recording,
        ensures
            final(self)@ == (RecorderState { stream_open: started, ..old(self)@ }),
            old(self)@.wf() ==> final(self)@.wf(),
    {
        self.stream_started = started;
    }

    /// Takes one block from the device: while recording its samples are
    /// normalised and added to the buffer, otherwise they are dropped.
    pub fn on_block(&mut self, block: &NativeBlock)
        ensures
            final(self)@ == old(self)@.received(block.normalized()),
    {
        if self.is_recording {
            let samples: Vec<Sample> = normalize_block(block);
            self.append_audio(samples);
        }
    }
}

/// Starts or resumes recording. With an open stream this only sets the flag
/// and keeps the buffer. Without one it empties the buffer and asks for the
/// device to be opened.
pub fn start_audio_recording(recorder: &mut AudioRecorder) -> (action: StartAction)
    ensures
        final(recorder)@ == old(recorder)@.started(),
        action == old(recorder)@.start_action(),
{
    if recorder.is_stream_started() {
        recorder.set_recording(true);
        StartAction::Resume
    } else {
        recorder.clear_buffer();
        StartAction::OpenDevice
    }
}

/// Takes the outcome of opening the device. After a success the stream
/// counts as open and recording is on; after a failure nothing has changed
/// and the failure is handed on.
pub fn complete_start(recorder: &mut AudioRecorder, outcome: Result<(), PipelineError>) -> (r: Result<
    (),
    PipelineError,
>)
    ensures
        final(recorder)@ == old(recorder)@.opened(outcome.is_ok()),
        match outcome {
            Ok(_) => r.is_ok(),
            Err(e) => r == Err::<(), PipelineError>(e),
        },
{
    match outcome {
        Ok(()) => {
            recorder.set_stream_started(true);
            recorder.set_recording(true);
            Ok(())
        },
        Err(e) => Err(e),
    }
}

/// Stops keeping samples. The stream stays open and the buffer stays.
pub fn stop_audio_recording(recorder: &mut AudioRecorder)
    ensures
        final(recorder)@ == old(recorder)@.stopped(),
{
    recorder.set_recording(false);
}

/// Whether samples are being kept.
pub fn is_recording(recorder: &AudioRecorder) -> (b: bool)
    ensures
        b == recorder@.recording,
{
    recorder.is_recording()
}

/// Encodes the whole buffer for transcription. An empty buffer is refused
/// before anything is encoded.
pub fn process_audio(recorder: &AudioRecorder) -> (r: Result<Vec<u8>, PipelineError>)
    ensures
        match recorder@.processed() {
            Ok(bytes) => r.is_ok() && r.unwrap()@ == bytes,
            Err(e) => r == Err::<Vec<u8>, PipelineError>(e),
        },
{
    let samples: Vec<Sample> = recorder.get_audio_buffer();
    if samples.len() == 0 {
        return Err(PipelineError::EmptyBuffer);
    }
    samples_to_wav(samples.as_slice(), SAMPLE_RATE, CHANNELS)
}

/// Takes the outcome of the transcription. After a success the buffer is
/// emptied, recording is off and the text is returned; after a failure
/// nothing has changed and the failure is handed on.
pub fn complete_processing(recorder: &mut AudioRecorder, outcome: Result<String, PipelineError>) -> (r:
    Result<String, PipelineError>)
    ensures
        final(recorder)@ == old(recorder)@.concluded(outcome.is_ok()),
        r == outcome,
{
    match outcome {
        Ok(text) => {
            recorder.clear_buffer();
            recorder.set_recording(false);
            Ok(text)
        },
        Err(e) => Err(e),
    }
}

/// The samples of a sequence of blocks, block after block.
pub open spec fn joined(blocks: Seq<Seq<u32>>) -> Seq<u32>
    decreases blocks.len(),
{
    if blocks.len() == 0 {
        Seq::empty()
    } else {
        joined(blocks.drop_last()) + blocks.last()
    }
}

impl RecorderState {
    /// The state after the blocks have been appended one after another.
    pub open spec fn after_appends(self, blocks: Seq<Seq<u32>>) -> RecorderState
        decreases blocks.len(),
    {
        if blocks.len() == 0 {
            self
        } else {
            self.after_appends(blocks.drop_last()).appended(blocks.last())
        }
    }

    /// The state after a whole start: the request and, where a device had to
    /// be opened, the report of how that went.
    pub open spec fn start_completed(self, device_opened: bool) -> RecorderState {
        if self.stream_open {
            self.started()
        } else {
            self.started().opened(device_opened)
        }
    }

    /// A recording recorder has an open stream: a new recorder meets this and
    /// every operation keeps it.
    pub proof fn lemma_operations_keep_flags_consistent(
        self,
        samples: Seq<u32>,
        success: bool,
    )
        requires
            self.wf(),
        ensures
            RecorderState::initial().wf(),
            self.appended(samples).wf(),
            self.cleared().wf(),
            self.received(samples).wf(),
            self.started().wf(),
            self.opened(success).wf(),
            self.start_completed(success).wf(),
            self.stopped().wf(),
            self.concluded(success).wf(),
    {
    }

    /// The three states and what moves between them: a completed start leads
    /// to recording from every state, unless the device could not be opened;
    /// a stop leads from recording to paused and changes no other state; a
    /// successful process operation leaves an open stream paused.
    pub proof fn lemma_phase_transitions(self, device_opened: bool)
        requires
            self.wf(),
        ensures
            RecorderState::initial().phase() == Phase::Idle,
            self.phase() != Phase::Idle ==> self.start_completed(device_opened).phase()
                == Phase::Recording,
            self.phase() == Phase::Idle && device_opened ==> self.start_completed(
                device_opened,
            ).phase() == Phase::Recording,
            self.phase() == Phase::Idle && !device_opened ==> self.start_completed(
                device_opened,
            ).phase() == Phase::Idle,
            self.phase() == Phase::Recording ==> self.stopped().phase() == Phase::Paused,
            self.phase() != Phase::Recording ==> self.stopped() == self,
            self.phase() != Phase::Idle ==> self.concluded(true).phase() == Phase::Paused,
            self.phase() == Phase::Idle ==> self.concluded(true).phase() == Phase::Idle,
    {
    }

    /// A second start right after a first changes nothing: the buffer holds
    /// what it held, and with the stream open no device is opened again.
    pub proof fn lemma_start_is_idempotent(self, first_opened: bool, second_opened: bool)
        ensures
            self.start_completed(first_opened).started() == self.start_completed(first_opened),
            self.start_completed(first_opened).stream_open ==> self.start_completed(
                first_opened,
            ).start_action() == StartAction::Resume && self.start_completed(
                first_opened,
            ).start_completed(second_opened) == self.start_completed(first_opened),
            self.stream_open ==> self.start_completed(first_opened).buffer == self.buffer,
    {
        let once = self.start_completed(first_opened);
        if !once.stream_open {
            assert(once.started().buffer =~= once.buffer);
        }
    }

    /// An empty buffer is refused: a process operation on a recorder that
    /// was never started, or that was started and stopped without a block in
    /// between, fails before anything is encoded.
    pub proof fn lemma_empty_buffer_is_refused(self, device_opened: bool)
        ensures
            self.buffer.len() == 0 ==> self.processed() == Err::<Seq<u8>, PipelineError>(
                PipelineError::EmptyBuffer,
            ),
            RecorderState::initial().processed() == Err::<Seq<u8>, PipelineError>(
                PipelineError::EmptyBuffer,
            ),
            RecorderState::initial().start_completed(device_opened).stopped().processed()
                == Err::<Seq<u8>, PipelineError>(PipelineError::EmptyBuffer),
    {
    }

    /// After a successful process operation the buffer is empty, and the
    /// next one is refused for an empty buffer, also after a stop or a
    /// resumed start, until samples are appended again.
    pub proof fn lemma_process_empties_buffer(self, samples: Seq<u32>)
        requires
            self.processed().is_ok(),
        ensures
            self.concluded(true).buffer.len() == 0,
            !self.concluded(true).recording,
            self.concluded(true).processed() == Err::<Seq<u8>, PipelineError>(
                PipelineError::EmptyBuffer,
            ),
            self.concluded(true).stopped().processed() == Err::<Seq<u8>, PipelineError>(
                PipelineError::EmptyBuffer,
            ),
            self.concluded(true).started().processed() == Err::<Seq<u8>, PipelineError>(
                PipelineError::EmptyBuffer,
            ),
            samples.len() > 0 ==> self.concluded(true).appended(samples).processed()
                != Err::<Seq<u8>, PipelineError>(PipelineError::EmptyBuffer),
            self.concluded(false) == self,
    {
        let after = self.concluded(true);
        assert(after.started().buffer.len() == 0);
        if samples.len() > 0 {
            assert(after.appended(samples).buffer.len() > 0);
        }
    }

    /// Appends that are serialised in some order leave the samples of each
    /// block once, whole and in that order, behind what the buffer held.
    pub proof fn lemma_appends_in_order(self, blocks: Seq<Seq<u32>>)
        ensures
            self.after_appends(blocks).buffer == self.buffer + joined(blocks),
            self.after_appends(blocks).recording == self.recording,
            self.after_appends(blocks).stream_open == self.stream_open,
        decreases blocks.len(),
    {
        if blocks.len() == 0 {
            assert(self.buffer + joined(blocks) =~= self.buffer);
        } else {
            self.lemma_appends_in_order(blocks.drop_last());
            assert(self.after_appends(blocks).buffer =~= self.buffer + joined(blocks));
        }
    }

    /// A snapshot that is taken between serialised appends holds exactly the
    /// samples of the appends before it, and the buffer as it is in the end
    /// starts with that snapshot: nothing is doubled, missing or out of order.
    pub proof fn lemma_snapshot_between_appends(self, blocks: Seq<Seq<u32>>, taken_after: int)
        requires
            0 <= taken_after <= blocks.len(),
        ensures
            self.after_appends(blocks.take(taken_after)).buffer == self.buffer + joined(
                blocks.take(taken_after),
            ),
            self.after_appends(blocks.take(taken_after)).buffer.is_prefix_of(
                self.after_appends(blocks).buffer,
            ),
        decreases blocks.len() - taken_after,
    {
        self.lemma_appends_in_order(blocks.take(taken_after));
        self.lemma_appends_in_order(blocks);
        if taken_after == blocks.len() {
            assert(blocks.take(taken_after) =~= blocks);
        } else {
            self.lemma_snapshot_between_appends(blocks, taken_after + 1);
            let shorter = blocks.take(taken_after);
            let longer = blocks.take(taken_after + 1);
            assert(longer.drop_last() =~= shorter);
            assert(joined(longer) == joined(shorter) + longer.last());
            assert((self.buffer + joined(shorter)).is_prefix_of(self.buffer + joined(longer)));
        }
    }
}

} // verus!
