use vn_record::duration::AudioDuration;
use vn_record::process::Process;
use vn_record::record::{
    Action, Anomaly, Event, Phase, RecordConfig, RecordError, Recorder, StepResult,
};

fn config() -> RecordConfig {
    RecordConfig {
        process: Process::new(7, String::from("player - Some Window")),
        output_dir: String::from("/out"),
    }
}

fn start_active(now: u64) -> Recorder {
    let (mut rec, action) = Recorder::start(config(), now);
    assert!(matches!(action, Action::SpawnPipeline { .. }));
    let r = rec.step(Event::Spawned { ok: true });
    assert!(matches!(r, StepResult::Recording));
    assert_eq!(rec.phase, Phase::Active);
    rec
}

/// Drives a stopped session through drain, trim and probe with the given
/// file sizes and probe output, up to the screenshot capture request.
fn drain_trim_probe(rec: &mut Recorder, size_before: u64, size_after: u64, probe: &[u8]) {
    let action = rec.stop();
    assert!(matches!(action, Action::StopPipeline));
    let r = rec.step(Event::PipelineStopped { already_exited: false, ok: true });
    assert!(matches!(r, StepResult::Continue(Action::QueryAudioSize)));
    match rec.step(Event::AudioSize { bytes: size_before }) {
        StepResult::Continue(Action::RunTrim { input, output }) => {
            assert_eq!(input, rec.audio_path);
            assert_eq!(output, rec.trim_temp_path);
        },
        _ => panic!("expected a trim request"),
    }
    let r = rec.step(Event::TrimFinished { ok: true });
    assert!(matches!(r, StepResult::Continue(Action::QueryAudioSize)));
    match rec.step(Event::AudioSize { bytes: size_after }) {
        StepResult::Continue(Action::RunProbe { path }) => {
            assert_eq!(path, rec.audio_path);
        },
        _ => panic!("expected a probe request"),
    }
    let r = rec.step(Event::ProbeOutput { output: Some(probe.to_vec()) });
    assert!(matches!(
        r,
        StepResult::Continue(Action::CaptureScreenshot { target_id: 7 })
    ));
}

#[test]
fn start_derives_paths_and_command() {
    let (rec, action) = Recorder::start(config(), 100);
    assert_eq!(rec.audio_path, "/out/100_audio.mp3");
    assert_eq!(rec.trim_temp_path, "/out/100_audio.tmp.mp3");
    assert_eq!(rec.screenshot_path, "/out/100_screenshot.png");
    match action {
        Action::SpawnPipeline { shell_command } => {
            assert_eq!(
                shell_command,
                "pw-record --target \"auto\" -P '{ stream.capture.sink=true }' - \
                 | lame -r -s 48 -m s -V7 - \"/out/100_audio.mp3\""
            );
        },
        _ => panic!("expected a spawn request"),
    }
}

#[test]
fn paths_of_different_seconds_differ() {
    let (a, _) = Recorder::start(config(), 100);
    let (b, _) = Recorder::start(config(), 101);
    assert_ne!(a.audio_path, b.audio_path);
    assert_ne!(a.screenshot_path, b.screenshot_path);
}

#[test]
fn paths_of_same_second_collide() {
    let (a, _) = Recorder::start(config(), 100);
    let (b, _) = Recorder::start(config(), 100);
    assert_eq!(a.audio_path, b.audio_path);
    assert_eq!(b.screenshot_path, b.screenshot_path);
}

#[test]
fn spawn_failure_aborts_before_recording() {
    let (mut rec, _) = Recorder::start(config(), 100);
    match rec.step(Event::Spawned { ok: false }) {
        StepResult::Finished(Err(e)) => assert_eq!(e, RecordError::PipelineStartFailed),
        _ => panic!("expected the session to end"),
    }
    assert_eq!(rec.phase, Phase::Aborted);
    assert!(!rec.capture_running && !rec.encode_running);
}

#[test]
fn tiny_file_skips_trim_and_probe() {
    // a pipeline that wrote 10 bytes in total: no trim, duration zero
    let mut rec = start_active(100);
    let action = rec.stop();
    assert!(matches!(action, Action::StopPipeline));
    let r = rec.step(Event::PipelineStopped { already_exited: false, ok: true });
    assert!(matches!(r, StepResult::Continue(Action::QueryAudioSize)));
    let r = rec.step(Event::AudioSize { bytes: 10 });
    assert!(matches!(
        r,
        StepResult::Continue(Action::CaptureScreenshot { target_id: 7 })
    ));
    assert!(rec.anomalies.is_empty());
    let r = rec.step(Event::ScreenshotCaptured { ok: true });
    match r {
        StepResult::Continue(Action::SaveScreenshot { path }) => {
            assert_eq!(path, "/out/100_screenshot.png");
        },
        _ => panic!("expected a save request"),
    }
    match rec.step(Event::ScreenshotSaved { ok: true }) {
        StepResult::Finished(Ok(data)) => {
            assert!(data.duration.is_zero());
            assert_eq!(data.audio_path, "/out/100_audio.mp3");
            assert_eq!(data.screenshot_path, "/out/100_screenshot.png");
        },
        _ => panic!("expected a recorded result"),
    }
    assert_eq!(rec.phase, Phase::Completed);
    assert!(!rec.capture_running && !rec.encode_running);
}

#[test]
fn trimmed_file_gets_probed_duration() {
    // a file just above the threshold, probed at 12.5 seconds
    let mut rec = start_active(100);
    drain_trim_probe(&mut rec, 600, 510, b"12.5");
    let r = rec.step(Event::ScreenshotCaptured { ok: true });
    assert!(matches!(r, StepResult::Continue(Action::SaveScreenshot { .. })));
    match rec.step(Event::ScreenshotSaved { ok: true }) {
        StepResult::Finished(Ok(data)) => {
            assert_eq!(data.duration, AudioDuration::new(12, 500_000_000));
        },
        _ => panic!("expected a recorded result"),
    }
}

#[test]
fn early_pipeline_exit_is_an_anomaly_not_an_error() {
    let mut rec = start_active(100);
    let action = rec.stop();
    assert!(matches!(action, Action::StopPipeline));
    let r = rec.step(Event::PipelineStopped { already_exited: true, ok: true });
    assert!(matches!(r, StepResult::Continue(Action::QueryAudioSize)));
    assert_eq!(rec.anomalies, vec![Anomaly::PipelineAlreadyExited]);
    // trimming, probing and the screenshot still run
    match rec.step(Event::AudioSize { bytes: 800 }) {
        StepResult::Continue(Action::RunTrim { .. }) => {},
        _ => panic!("expected a trim request"),
    }
    let r = rec.step(Event::TrimFinished { ok: true });
    assert!(matches!(r, StepResult::Continue(Action::QueryAudioSize)));
    match rec.step(Event::AudioSize { bytes: 700 }) {
        StepResult::Continue(Action::RunProbe { .. }) => {},
        _ => panic!("expected a probe request"),
    }
    let r = rec.step(Event::ProbeOutput { output: Some(b"1.0".to_vec()) });
    assert!(matches!(r, StepResult::Continue(Action::CaptureScreenshot { .. })));
    let r = rec.step(Event::ScreenshotCaptured { ok: true });
    assert!(matches!(r, StepResult::Continue(Action::SaveScreenshot { .. })));
    match rec.step(Event::ScreenshotSaved { ok: true }) {
        StepResult::Finished(Ok(data)) => {
            assert_eq!(data.duration, AudioDuration::new(1, 0));
        },
        _ => panic!("expected a recorded result"),
    }
}

#[test]
fn screenshot_capture_failure_surfaces_after_post_processing() {
    let mut rec = start_active(100);
    drain_trim_probe(&mut rec, 600, 510, b"2.25");
    // the audio was trimmed and probed as normal ...
    assert_eq!(rec.duration, Some(AudioDuration::new(2, 250_000_000)));
    // ... and only the screenshot fails
    match rec.step(Event::ScreenshotCaptured { ok: false }) {
        StepResult::Finished(Err(e)) => assert_eq!(e, RecordError::ScreenshotCaptureFailed),
        _ => panic!("expected the session to end"),
    }
    assert_eq!(rec.phase, Phase::Aborted);
    assert!(!rec.capture_running && !rec.encode_running);
}

#[test]
fn screenshot_save_failure_is_its_own_error() {
    let mut rec = start_active(100);
    drain_trim_probe(&mut rec, 600, 510, b"2.25");
    let r = rec.step(Event::ScreenshotCaptured { ok: true });
    assert!(matches!(r, StepResult::Continue(Action::SaveScreenshot { .. })));
    match rec.step(Event::ScreenshotSaved { ok: false }) {
        StepResult::Finished(Err(e)) => assert_eq!(e, RecordError::ScreenshotSaveFailed),
        _ => panic!("expected the session to end"),
    }
}

#[test]
fn drain_failure_kills_the_pipeline_and_aborts() {
    let mut rec = start_active(100);
    let action = rec.stop();
    assert!(matches!(action, Action::StopPipeline));
    let r = rec.step(Event::PipelineStopped { already_exited: false, ok: false });
    assert!(matches!(r, StepResult::Continue(Action::ForceKillPipeline)));
    match rec.step(Event::PipelineKilled) {
        StepResult::Finished(Err(e)) => assert_eq!(e, RecordError::PipelineStopFailed),
        _ => panic!("expected the session to end"),
    }
    // no process is left running even though the stop failed
    assert!(!rec.capture_running && !rec.encode_running);
}

#[test]
fn probe_invocation_failure_is_fatal() {
    let mut rec = start_active(100);
    rec.stop();
    rec.step(Event::PipelineStopped { already_exited: false, ok: true });
    rec.step(Event::AudioSize { bytes: 600 });
    rec.step(Event::TrimFinished { ok: true });
    rec.step(Event::AudioSize { bytes: 510 });
    match rec.step(Event::ProbeOutput { output: None }) {
        StepResult::Finished(Err(e)) => assert_eq!(e, RecordError::ProbeFailed),
        _ => panic!("expected the session to end"),
    }
}

#[test]
fn unparsable_probe_output_is_fatal() {
    let mut rec = start_active(100);
    rec.stop();
    rec.step(Event::PipelineStopped { already_exited: false, ok: true });
    rec.step(Event::AudioSize { bytes: 600 });
    rec.step(Event::TrimFinished { ok: true });
    rec.step(Event::AudioSize { bytes: 510 });
    match rec.step(Event::ProbeOutput { output: Some(b"n/a".to_vec()) }) {
        StepResult::Finished(Err(e)) => assert_eq!(e, RecordError::ProbeFailed),
        _ => panic!("expected the session to end"),
    }
}

#[test]
fn trim_failure_is_logged_and_stop_continues() {
    let mut rec = start_active(100);
    rec.stop();
    rec.step(Event::PipelineStopped { already_exited: false, ok: true });
    rec.step(Event::AudioSize { bytes: 600 });
    let r = rec.step(Event::TrimFinished { ok: false });
    assert!(matches!(r, StepResult::Continue(Action::QueryAudioSize)));
    assert_eq!(rec.anomalies, vec![Anomaly::TrimFailed]);
    match rec.step(Event::AudioSize { bytes: 600 }) {
        StepResult::Continue(Action::RunProbe { .. }) => {},
        _ => panic!("expected a probe request"),
    }
}

#[test]
fn file_emptied_by_trim_gets_zero_duration() {
    let mut rec = start_active(100);
    rec.stop();
    rec.step(Event::PipelineStopped { already_exited: false, ok: true });
    rec.step(Event::AudioSize { bytes: 600 });
    rec.step(Event::TrimFinished { ok: true });
    let r = rec.step(Event::AudioSize { bytes: 0 });
    assert!(matches!(r, StepResult::Continue(Action::CaptureScreenshot { .. })));
    assert_eq!(rec.duration, Some(AudioDuration::new(0, 0)));
}

#[test]
fn abandoned_session_force_kills_its_pipeline() {
    let mut rec = start_active(100);
    let action = rec.abandon();
    assert!(matches!(action, Action::ForceKillPipeline));
    assert_eq!(rec.phase, Phase::Aborted);
    assert!(!rec.capture_running && !rec.encode_running);
}

#[test]
fn accepts_only_the_awaited_event() {
    let mut rec = start_active(100);
    rec.stop();
    assert!(rec.accepts(&Event::PipelineStopped { already_exited: false, ok: true }));
    assert!(!rec.accepts(&Event::AudioSize { bytes: 1 }));
    assert!(!rec.accepts(&Event::Spawned { ok: true }));
}
