//! The recording session state machine.
//!
//! A session owns a chained capture/encode process pair and the two artifact
//! paths reserved for it.  Stopping runs a fixed sequence: drain the pipeline,
//! trim silence, probe the duration, capture and save a screenshot, then hand
//! the result over.  All decisions of that sequence — what to run next, which
//! failures abort and which are merely logged — are made here and verified;
//! the subprocess and file work itself is done by an unverified driver that
//! performs each returned [`Action`] and reports the outcome back as an
//! [`Event`].  `stop` is therefore blocking from the caller's point of view
//! and belongs off any latency-sensitive thread.

use vstd::prelude::*;

use crate::MIN_AUDIO_BYTES;
use crate::duration::AudioDuration;
use crate::naming::{
    audio_file_name, join_path, screenshot_file_name, session_audio_path_spec,
    session_screenshot_path_spec, session_trim_temp_path_spec, trim_temp_name,
};
use crate::probe::parse_duration;
use crate::process::Process;

verus! {

/// The immutable description a session is started from.
#[derive(Clone)]
pub struct RecordConfig {
    pub process: Process,
    pub output_dir: String,
}

/// What a completed session hands back to the caller.
#[derive(Debug, Clone)]
pub struct RecordedData {
    pub audio_path: String,
    pub screenshot_path: String,
    pub duration: AudioDuration,
}

/// The errors a session can end with.  Trim failures are deliberately not
/// here: they are soft degradations, recorded as [`Anomaly`] and logged, with
/// the untrimmed file retained.
#[derive(Debug, Clone, Copy, PartialEq, Eq, Structural)]
pub enum RecordError {
    /// The pipeline could not be spawned; the session never becomes active.
    PipelineStartFailed,
    /// The pipeline could not be drained on stop.
    PipelineStopFailed,
    /// The duration probe failed or printed something unparsable; there is no
    /// sensible fallback duration for a non-trivial file.
    ProbeFailed,
    /// The target window could not be captured; the audio artifact remains.
    ScreenshotCaptureFailed,
    /// The captured image could not be written; the audio artifact remains.
    ScreenshotSaveFailed,
}

/// Non-fatal irregularities observed while stopping, logged rather than
/// returned.
#[derive(Debug, Clone, Copy, PartialEq, Eq, Structural)]
pub enum Anomaly {
    /// The capture process had already exited before the stop signal.
    PipelineAlreadyExited,
    /// The trim invocation failed; the untrimmed file is retained.
    TrimFailed,
}

/// Where a session stands in its life cycle.
#[derive(Debug, Clone, Copy, PartialEq, Eq, Structural)]
pub enum Phase {
    /// The pipeline spawn was requested and its outcome is awaited.
    Spawning,
    /// Both pipeline processes are recording.
    Active,
    /// The stop signal was requested; waiting for both processes to exit.
    Draining,
    /// Draining failed; an unconditional kill was requested.
    Killing,
    /// Waiting for the audio file size that decides whether to trim.
    SizingForTrim,
    /// The trim invocation is running.
    Trimming,
    /// Waiting for the audio file size that decides whether to probe.
    SizingForProbe,
    /// The duration probe is running.
    Probing,
    /// The still image of the target window is being captured.
    CapturingScreenshot,
    /// The captured image is being written to the screenshot path.
    SavingScreenshot,
    /// The session ended with a [`RecordedData`].
    Completed,
    /// The session ended with a [`RecordError`].
    Aborted,
}

/// Outside work the driver must perform next.
#[derive(Debug)]
pub enum Action {
    /// Run the given shell line: the capture stage piped into the encoder.
    SpawnPipeline { shell_command: String },
    /// Signal the capture process to stop and wait until both processes have
    /// exited, so buffered audio is flushed; report whether the capture
    /// process had already exited on its own.
    StopPipeline,
    /// Kill whatever of the pipeline is still running; unconditional and
    /// idempotent.
    ForceKillPipeline,
    /// Report the current size of the audio file in bytes.
    QueryAudioSize,
    /// Run the external trim tool from `input` to `output` (see
    /// [`crate::trim::trim_tool_args`]) and, on success, rename `output` over
    /// `input`.
    RunTrim { input: String, output: String },
    /// Run the duration probe on the audio file and report its raw output.
    RunProbe { path: String },
    /// Capture a still image of the target window.
    CaptureScreenshot { target_id: u32 },
    /// Write the captured image to the screenshot path.
    SaveScreenshot { path: String },
}

/// The outcome of one performed [`Action`], reported back by the driver.
#[derive(Debug)]
pub enum Event {
    /// Whether the pipeline spawn succeeded.
    Spawned { ok: bool },
    /// Whether draining succeeded, and whether the capture process turned out
    /// to have exited before it was signalled.
    PipelineStopped { already_exited: bool, ok: bool },
    /// The force-kill was issued.
    PipelineKilled,
    /// The current size of the audio file in bytes.
    AudioSize { bytes: u64 },
    /// Whether the trim invocation (including the rename) succeeded.
    TrimFinished { ok: bool },
    /// What the probe printed, or `None` if it could not be run.
    ProbeOutput { output: Option<Vec<u8>> },
    /// Whether the window image could be captured.
    ScreenshotCaptured { ok: bool },
    /// Whether the image could be written.
    ScreenshotSaved { ok: bool },
}

/// What one step of the machine asks of the driver.
#[derive(Debug)]
pub enum StepResult {
    /// Perform this and report back.
    Continue(Action),
    /// Nothing to do until the caller decides to stop the session.
    Recording,
    /// The session is over.
    Finished(Result<RecordedData, RecordError>),
}

/// One recording session.  Created by [`Recorder::start`]; every terminal
/// phase leaves both pipeline processes stopped.
pub struct Recorder {
    pub config: RecordConfig,
    /// Unix time, in whole seconds, the session was started at; both artifact
    /// names are derived from it.
    pub started_at: u64,
    pub audio_path: String,
    pub trim_temp_path: String,
    pub screenshot_path: String,
    pub phase: Phase,
    /// Whether the session may still own a running capture process.
    pub capture_running: bool,
    /// Whether the session may still own a running encode process.
    pub encode_running: bool,
    /// The duration determined for the audio artifact, once known.
    pub duration: Option<AudioDuration>,
    /// Soft failures observed so far, in order.
    pub anomalies: Vec<Anomaly>,
}

/// The shell line that runs the capture stage against `sink` piped into the
/// encode stage writing `audio_path`.
pub open spec fn pipeline_command_spec(sink: Seq<char>, audio_path: Seq<char>) -> Seq<char> {
    "pw-record --target \""@ + sink
        + "\" -P '{ stream.capture.sink=true }' - | lame -r -s 48 -m s -V7 - \""@ + audio_path
        + "\""@
}

/// Builds the pipeline shell line; an unspecified device selector falls back
/// to the platform's default monitor sink.
pub fn pipeline_shell_command(target_sink: Option<&str>, audio_path: &str) -> (r: String)
    ensures
        ({
            let sink = match target_sink {
                Some(s) => s@,
                None => "auto"@,
            };
            r@ == pipeline_command_spec(sink, audio_path@)
        }),
{
    let sink = match target_sink {
        Some(s) => s,
        None => "auto",
    };
    let mut r = String::from_str("pw-record --target \"");
    r.append(sink);
    r.append("\" -P '{ stream.capture.sink=true }' - | lame -r -s 48 -m s -V7 - \"");
    r.append(audio_path);
    r.append("\"");
    r
}

impl Recorder {
    /// The three reserved paths are the ones derived from the start time.
    pub open spec fn paths_wf(self) -> bool {
        &&& self.audio_path@ == session_audio_path_spec(self.config.output_dir@, self.started_at)
        &&& self.trim_temp_path@ == session_trim_temp_path_spec(
            self.config.output_dir@,
            self.started_at,
        )
        &&& self.screenshot_path@ == session_screenshot_path_spec(
            self.config.output_dir@,
            self.started_at,
        )
    }

    /// Neither pipeline process can still be running.
    pub open spec fn pipeline_stopped(self) -> bool {
        !self.capture_running && !self.encode_running
    }

    pub open spec fn is_terminal(self) -> bool {
        self.phase is Completed || self.phase is Aborted
    }

    /// The session invariant: paths are the derived ones, a recorded duration
    /// is well-formed, post-drain phases own no running process, and the
    /// screenshot only ever happens once the duration is known.
    pub open spec fn wf(self) -> bool {
        &&& self.paths_wf()
        &&& (self.duration matches Some(d) ==> d.wf())
        &&& match self.phase {
            Phase::Spawning => self.pipeline_stopped(),
            Phase::Active => self.capture_running && self.encode_running,
            Phase::Draining => self.capture_running && self.encode_running,
            Phase::Killing => true,
            Phase::SizingForTrim => self.pipeline_stopped(),
            Phase::Trimming => self.pipeline_stopped(),
            Phase::SizingForProbe => self.pipeline_stopped(),
            Phase::Probing => self.pipeline_stopped(),
            Phase::CapturingScreenshot => self.pipeline_stopped() && self.duration is Some,
            Phase::SavingScreenshot => self.pipeline_stopped() && self.duration is Some,
            Phase::Completed => self.pipeline_stopped() && self.duration is Some,
            Phase::Aborted => self.pipeline_stopped(),
        }
    }

    /// What never changes over a session's lifetime.
    pub open spec fn same_session(pre: Recorder, post: Recorder) -> bool {
        &&& post.config == pre.config
        &&& post.started_at == pre.started_at
        &&& post.audio_path == pre.audio_path
        &&& post.trim_temp_path == pre.trim_temp_path
        &&& post.screenshot_path == pre.screenshot_path
    }

    /// Whether `event` is the outcome the current phase is waiting for.
    pub open spec fn event_fits(self, event: Event) -> bool {
        match (self.phase, event) {
            (Phase::Spawning, Event::Spawned { .. }) => true,
            (Phase::Draining, Event::PipelineStopped { .. }) => true,
            (Phase::Killing, Event::PipelineKilled) => true,
            (Phase::SizingForTrim, Event::AudioSize { .. }) => true,
            (Phase::Trimming, Event::TrimFinished { .. }) => true,
            (Phase::SizingForProbe, Event::AudioSize { .. }) => true,
            (Phase::Probing, Event::ProbeOutput { .. }) => true,
            (Phase::CapturingScreenshot, Event::ScreenshotCaptured { .. }) => true,
            (Phase::SavingScreenshot, Event::ScreenshotSaved { .. }) => true,
            _ => false,
        }
    }

    /// Runtime form of [`Self::event_fits`], for an unverified driver that
    /// must check before it calls [`Self::step`].
    pub fn accepts(&self, event: &Event) -> (r: bool)
        ensures
            r == self.event_fits(*event),
    {
        match (self.phase, event) {
            (Phase::Spawning, Event::Spawned { .. }) => true,
            (Phase::Draining, Event::PipelineStopped { .. }) => true,
            (Phase::Killing, Event::PipelineKilled) => true,
            (Phase::SizingForTrim, Event::AudioSize { .. }) => true,
            (Phase::Trimming, Event::TrimFinished { .. }) => true,
            (Phase::SizingForProbe, Event::AudioSize { .. }) => true,
            (Phase::Probing, Event::ProbeOutput { .. }) => true,
            (Phase::CapturingScreenshot, Event::ScreenshotCaptured { .. }) => true,
            (Phase::SavingScreenshot, Event::ScreenshotSaved { .. }) => true,
            _ => false,
        }
    }

    /// The machine's full step relation: given the phase and the reported
    /// outcome, exactly one next state and demand on the driver.
    pub open spec fn transition(pre: Recorder, event: Event, post: Recorder, r: StepResult) -> bool {
        &&& Self::same_session(pre, post)
        &&& match (pre.phase, event) {
            (Phase::Spawning, Event::Spawned { ok }) => {
                if ok {
                    &&& post.phase is Active
                    &&& post.capture_running && post.encode_running
                    &&& post.duration == pre.duration
                    &&& post.anomalies == pre.anomalies
                    &&& r is Recording
                } else {
                    &&& post.phase is Aborted
                    &&& post.pipeline_stopped()
                    &&& post.duration == pre.duration
                    &&& post.anomalies == pre.anomalies
                    &&& r == StepResult::Finished(
                        Result::<RecordedData, RecordError>::Err(RecordError::PipelineStartFailed),
                    )
                }
            },
            (Phase::Draining, Event::PipelineStopped { already_exited, ok }) => {
                if ok {
                    &&& post.phase is SizingForTrim
                    &&& post.pipeline_stopped()
                    &&& post.duration == pre.duration
                    &&& (if already_exited {
                        post.anomalies@ == pre.anomalies@.push(Anomaly::PipelineAlreadyExited)
                    } else {
                        post.anomalies == pre.anomalies
                    })
                    &&& r == StepResult::Continue(Action::QueryAudioSize)
                } else {
                    &&& post.phase is Killing
                    &&& post.capture_running == pre.capture_running
                    &&& post.encode_running == pre.encode_running
                    &&& post.duration == pre.duration
                    &&& post.anomalies == pre.anomalies
                    &&& r == StepResult::Continue(Action::ForceKillPipeline)
                }
            },
            (Phase::Killing, Event::PipelineKilled) => {
                &&& post.phase is Aborted
                &&& post.pipeline_stopped()
                &&& post.duration == pre.duration
                &&& post.anomalies == pre.anomalies
                &&& r == StepResult::Finished(
                    Result::<RecordedData, RecordError>::Err(RecordError::PipelineStopFailed),
                )
            },
            (Phase::SizingForTrim, Event::AudioSize { bytes }) => {
                if bytes < MIN_AUDIO_BYTES {
                    &&& post.phase is CapturingScreenshot
                    &&& post.pipeline_stopped()
                    &&& post.duration == Some(AudioDuration { secs: 0u64, nanos: 0u32 })
                    &&& post.anomalies == pre.anomalies
                    &&& r == StepResult::Continue(
                        Action::CaptureScreenshot { target_id: pre.config.process.id },
                    )
                } else {
                    &&& post.phase is Trimming
                    &&& post.pipeline_stopped()
                    &&& post.duration == pre.duration
                    &&& post.anomalies == pre.anomalies
                    &&& r == StepResult::Continue(
                        Action::RunTrim {
                            input: pre.audio_path,
                            output: pre.trim_temp_path,
                        },
                    )
                }
            },
            (Phase::Trimming, Event::TrimFinished { ok }) => {
                &&& post.phase is SizingForProbe
                &&& post.pipeline_stopped()
                &&& post.duration == pre.duration
                &&& (if ok {
                    post.anomalies == pre.anomalies
                } else {
                    post.anomalies@ == pre.anomalies@.push(Anomaly::TrimFailed)
                })
                &&& r == StepResult::Continue(Action::QueryAudioSize)
            },
            (Phase::SizingForProbe, Event::AudioSize { bytes }) => {
                if bytes < MIN_AUDIO_BYTES {
                    &&& post.phase is CapturingScreenshot
                    &&& post.pipeline_stopped()
                    &&& post.duration == Some(AudioDuration { secs: 0u64, nanos: 0u32 })
                    &&& post.anomalies == pre.anomalies
                    &&& r == StepResult::Continue(
                        Action::CaptureScreenshot { target_id: pre.config.process.id },
                    )
                } else {
                    &&& post.phase is Probing
                    &&& post.pipeline_stopped()
                    &&& post.duration == pre.duration
                    &&& post.anomalies == pre.anomalies
                    &&& r == StepResult::Continue(Action::RunProbe { path: pre.audio_path })
                }
            },
            (Phase::Probing, Event::ProbeOutput { output }) => {
                match output {
                    Some(bytes) => {
                        match crate::probe::parse_duration_spec(bytes@) {
                            Some(d) => {
                                &&& post.phase is CapturingScreenshot
                                &&& post.pipeline_stopped()
                                &&& post.duration == Some(d)
                                &&& post.anomalies == pre.anomalies
                                &&& r == StepResult::Continue(
                                    Action::CaptureScreenshot { target_id: pre.config.process.id },
                                )
                            },
                            None => {
                                &&& post.phase is Aborted
                                &&& post.pipeline_stopped()
                                &&& post.duration == pre.duration
                                &&& post.anomalies == pre.anomalies
                                &&& r == StepResult::Finished(
                                    Result::<RecordedData, RecordError>::Err(
                                        RecordError::ProbeFailed,
                                    ),
                                )
                            },
                        }
                    },
                    None => {
                        &&& post.phase is Aborted
                        &&& post.pipeline_stopped()
                        &&& post.duration == pre.duration
                        &&& post.anomalies == pre.anomalies
                        &&& r == StepResult::Finished(
                            Result::<RecordedData, RecordError>::Err(RecordError::ProbeFailed),
                        )
                    },
                }
            },
            (Phase::CapturingScreenshot, Event::ScreenshotCaptured { ok }) => {
                if ok {
                    &&& post.phase is SavingScreenshot
                    &&& post.pipeline_stopped()
                    &&& post.duration == pre.duration
                    &&& post.anomalies == pre.anomalies
                    &&& r == StepResult::Continue(
                        Action::SaveScreenshot { path: pre.screenshot_path },
                    )
                } else {
                    &&& post.phase is Aborted
                    &&& post.pipeline_stopped()
                    &&& post.duration == pre.duration
                    &&& post.anomalies == pre.anomalies
                    &&& r == StepResult::Finished(
                        Result::<RecordedData, RecordError>::Err(
                            RecordError::ScreenshotCaptureFailed,
                        ),
                    )
                }
            },
            (Phase::SavingScreenshot, Event::ScreenshotSaved { ok }) => {
                if ok {
                    &&& post.phase is Completed
                    &&& post.pipeline_stopped()
                    &&& post.duration == pre.duration
                    &&& post.anomalies == pre.anomalies
                    &&& r == StepResult::Finished(
                        Result::<RecordedData, RecordError>::Ok(
                            RecordedData {
                                audio_path: pre.audio_path,
                                screenshot_path: pre.screenshot_path,
                                duration: pre.duration->Some_0,
                            },
                        ),
                    )
                } else {
                    &&& post.phase is Aborted
                    &&& post.pipeline_stopped()
                    &&& post.duration == pre.duration
                    &&& post.anomalies == pre.anomalies
                    &&& r == StepResult::Finished(
                        Result::<RecordedData, RecordError>::Err(RecordError::ScreenshotSaveFailed),
                    )
                }
            },
            _ => false,
        }
    }

    /// Reserves the artifact paths derived from `now_unix` and asks the driver
    /// to spawn the capture pipeline against the audio path, with the default
    /// device selector.  The session only becomes active once the driver
    /// reports the spawn outcome; a failed spawn ends it with
    /// [`RecordError::PipelineStartFailed`] before anything ran.
    pub fn start(config: RecordConfig, now_unix: u64) -> (r: (Recorder, Action))
        ensures
            r.0.wf(),
            r.0.phase is Spawning,
            r.0.config == config,
            r.0.started_at == now_unix,
            r.0.duration is None,
            r.0.anomalies@.len() == 0,
            r.1 matches Action::SpawnPipeline { shell_command } && shell_command@
                == pipeline_command_spec(
                "auto"@,
                session_audio_path_spec(config.output_dir@, now_unix),
            ),
    {
        let audio_name = audio_file_name(now_unix);
        let audio_path = join_path(config.output_dir.as_str(), audio_name.as_str());
        let tmp_name = trim_temp_name(now_unix);
        let trim_temp_path = join_path(config.output_dir.as_str(), tmp_name.as_str());
        let shot_name = screenshot_file_name(now_unix);
        let screenshot_path = join_path(config.output_dir.as_str(), shot_name.as_str());
        let shell_command = pipeline_shell_command(None, audio_path.as_str());
        let session = Recorder {
            config,
            started_at: now_unix,
            audio_path,
            trim_temp_path,
            screenshot_path,
            phase: Phase::Spawning,
            capture_running: false,
            encode_running: false,
            duration: None,
            anomalies: Vec::new(),
        };
        (session, Action::SpawnPipeline { shell_command })
    }

    /// Begins the stop sequence of an active session.  The driver performs the
    /// returned action and reports back through [`Self::step`] until it gets
    /// [`StepResult::Finished`].
    pub fn stop(&mut self) -> (r: Action)
        requires
            old(self).wf(),
            old(self).phase is Active,
        ensures
            final(self).wf(),
            final(self).phase is Draining,
            Self::same_session(*old(self), *final(self)),
            final(self).duration == old(self).duration,
            final(self).anomalies == old(self).anomalies,
            r is StopPipeline,
    {
        self.phase = Phase::Draining;
        Action::StopPipeline
    }

    /// Safety net for a session dropped without `stop`: the owned pipeline is
    /// unconditionally force-killed, and whatever artifacts exist are left as
    /// they are — no trimming or probing happens.
    pub fn abandon(&mut self) -> (r: Action)
        requires
            old(self).wf(),
        ensures
            final(self).wf(),
            final(self).phase is Aborted,
            final(self).pipeline_stopped(),
            Self::same_session(*old(self), *final(self)),
            r is ForceKillPipeline,
    {
        self.phase = Phase::Aborted;
        self.capture_running = false;
        self.encode_running = false;
        Action::ForceKillPipeline
    }

    /// Feeds the outcome of the last action back into the machine and returns
    /// what to do next.  Whenever the result is `Finished` the session is
    /// terminal and owns no running process, however it ended.
    pub fn step(&mut self, event: Event) -> (r: StepResult)
        requires
            old(self).wf(),
            old(self).event_fits(event),
        ensures
            final(self).wf(),
            Self::transition(*old(self), event, *final(self), r),
            r matches StepResult::Finished(_) ==> final(self).is_terminal()
                && final(self).pipeline_stopped(),
    {
        match (self.phase, &event) {
            (Phase::Spawning, Event::Spawned { ok }) => {
                if *ok {
                    self.phase = Phase::Active;
                    self.capture_running = true;
                    self.encode_running = true;
                    StepResult::Recording
                } else {
                    self.phase = Phase::Aborted;
                    StepResult::Finished(Err(RecordError::PipelineStartFailed))
                }
            },
            (Phase::Draining, Event::PipelineStopped { already_exited, ok }) => {
                if *ok {
                    self.phase = Phase::SizingForTrim;
                    self.capture_running = false;
                    self.encode_running = false;
                    if *already_exited {
                        self.anomalies.push(Anomaly::PipelineAlreadyExited);
                    }
                    StepResult::Continue(Action::QueryAudioSize)
                } else {
                    self.phase = Phase::Killing;
                    StepResult::Continue(Action::ForceKillPipeline)
                }
            },
            (Phase::Killing, Event::PipelineKilled) => {
                self.phase = Phase::Aborted;
                self.capture_running = false;
                self.encode_running = false;
                StepResult::Finished(Err(RecordError::PipelineStopFailed))
            },
            (Phase::SizingForTrim, Event::AudioSize { bytes }) => {
                if *bytes < MIN_AUDIO_BYTES {
                    self.phase = Phase::CapturingScreenshot;
                    self.duration = Some(AudioDuration::zero());
                    StepResult::Continue(
                        Action::CaptureScreenshot { target_id: self.config.process.id },
                    )
                } else {
                    self.phase = Phase::Trimming;
                    StepResult::Continue(
                        Action::RunTrim {
                            input: self.audio_path.clone(),
                            output: self.trim_temp_path.clone(),
                        },
                    )
                }
            },
            (Phase::Trimming, Event::TrimFinished { ok }) => {
                self.phase = Phase::SizingForProbe;
                if !*ok {
                    self.anomalies.push(Anomaly::TrimFailed);
                }
                StepResult::Continue(Action::QueryAudioSize)
            },
            (Phase::SizingForProbe, Event::AudioSize { bytes }) => {
                if *bytes < MIN_AUDIO_BYTES {
                    self.phase = Phase::CapturingScreenshot;
                    self.duration = Some(AudioDuration::zero());
                    StepResult::Continue(
                        Action::CaptureScreenshot { target_id: self.config.process.id },
                    )
                } else {
                    self.phase = Phase::Probing;
                    StepResult::Continue(Action::RunProbe { path: self.audio_path.clone() })
                }
            },
            (Phase::Probing, Event::ProbeOutput { output }) => {
                match output {
                    Some(bytes) => {
                        match parse_duration(bytes.as_slice()) {
                            Some(d) => {
                                self.phase = Phase::CapturingScreenshot;
                                self.duration = Some(d);
                                StepResult::Continue(
                                    Action::CaptureScreenshot { target_id: self.config.process.id },
                                )
                            },
                            None => {
                                self.phase = Phase::Aborted;
                                StepResult::Finished(Err(RecordError::ProbeFailed))
                            },
                        }
                    },
                    None => {
                        self.phase = Phase::Aborted;
                        StepResult::Finished(Err(RecordError::ProbeFailed))
                    },
                }
            },
            (Phase::CapturingScreenshot, Event::ScreenshotCaptured { ok }) => {
                if *ok {
                    self.phase = Phase::SavingScreenshot;
                    StepResult::Continue(
                        Action::SaveScreenshot { path: self.screenshot_path.clone() },
                    )
                } else {
                    self.phase = Phase::Aborted;
                    StepResult::Finished(Err(RecordError::ScreenshotCaptureFailed))
                }
            },
            (Phase::SavingScreenshot, Event::ScreenshotSaved { ok }) => {
                if *ok {
                    self.phase = Phase::Completed;
                    match &self.duration {
                        Some(d) => StepResult::Finished(
                            Ok(
                                RecordedData {
                                    audio_path: self.audio_path.clone(),
                                    screenshot_path: self.screenshot_path.clone(),
                                    duration: *d,
                                },
                            ),
                        ),
                        None => vstd::pervasive::unreached(),
                    }
                } else {
                    self.phase = Phase::Aborted;
                    StepResult::Finished(Err(RecordError::ScreenshotSaveFailed))
                }
            },
            _ => vstd::pervasive::unreached(),
        }
    }
}

/// Once a session is terminal — completed, aborted, or abandoned — no process
/// of its pipeline is left running.
pub proof fn lemma_terminal_session_has_no_processes(session: Recorder)
    requires
        session.wf(),
        session.is_terminal(),
    ensures
        session.pipeline_stopped(),
{
}

/// Post-processing never overlaps the pipeline: from the first sizing step on
/// — trimming, probing, capturing and saving the screenshot — both pipeline
/// processes have already exited, so the audio file is never read while the
/// encode stage could still be writing it.
pub proof fn lemma_post_processing_starts_after_drain(session: Recorder)
    requires
        session.wf(),
        session.phase is SizingForTrim || session.phase is Trimming || session.phase
            is SizingForProbe || session.phase is Probing || session.phase is CapturingScreenshot
            || session.phase is SavingScreenshot,
    ensures
        session.pipeline_stopped(),
{
}

/// A sizing step never lets a file below the minimal size threshold reach the
/// probe: its duration is fixed at zero on the spot, while a file at or above
/// the threshold leaves the recorded duration untouched for the trim or probe
/// that follows.
pub proof fn lemma_small_files_are_never_probed(
    pre: Recorder,
    post: Recorder,
    bytes: u64,
    r: StepResult,
)
    requires
        pre.phase is SizingForTrim || pre.phase is SizingForProbe,
        Recorder::transition(pre, Event::AudioSize { bytes }, post, r),
    ensures
        bytes < MIN_AUDIO_BYTES ==> post.duration == Some(AudioDuration { secs: 0u64, nanos: 0u32 })
            && r == StepResult::Continue(
            Action::CaptureScreenshot { target_id: pre.config.process.id },
        ),
        bytes >= MIN_AUDIO_BYTES ==> post.duration == pre.duration,
{
}

/// For a file large enough to be probed, the recorded duration is exactly the
/// value parsed from what the probe printed; output that does not parse ends
/// the session with the probe error.
pub proof fn lemma_probed_duration_is_the_parsed_value(
    pre: Recorder,
    post: Recorder,
    out: Vec<u8>,
    r: StepResult,
)
    requires
        pre.phase is Probing,
        Recorder::transition(pre, Event::ProbeOutput { output: Some(out) }, post, r),
    ensures
        crate::probe::parse_duration_spec(out@) matches Some(d) ==> post.duration == Some(d),
        crate::probe::parse_duration_spec(out@) is None ==> r == StepResult::Finished(
            Result::<RecordedData, RecordError>::Err(RecordError::ProbeFailed),
        ),
{
}

/// Two sessions over one output directory share an artifact path exactly when
/// they were started within the same whole second: different seconds give
/// distinct paths, the same second gives colliding ones (a documented
/// limitation of the time-derived naming, not silently repaired).
pub proof fn lemma_session_artifacts_unique(a: Recorder, b: Recorder)
    requires
        a.wf(),
        b.wf(),
        a.config.output_dir@ == b.config.output_dir@,
    ensures
        a.started_at != b.started_at ==> a.audio_path@ != b.audio_path@ && a.screenshot_path@
            != b.screenshot_path@,
        a.started_at == b.started_at ==> a.audio_path@ == b.audio_path@ && a.screenshot_path@
            == b.screenshot_path@,
        a.audio_path@ != b.screenshot_path@,
{
    crate::naming::lemma_session_paths_unique(a.config.output_dir@, a.started_at, b.started_at);
}

} // verus!
