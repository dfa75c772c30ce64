use synth::{write_data, CompletionSignal, Parameters, Project, SampleSource, Waveform};

#[test]
fn frames_share_one_sample_across_channels() {
    let mut out = vec![9i32; 6];
    let mut done = CompletionSignal::new();
    let mut src = SampleSource::new(vec![1, 2, 3, 4]);
    let delivered = write_data(&mut out, 2, &mut done, &mut src, 0);
    assert_eq!(out, vec![1, 1, 2, 2, 3, 3]);
    assert!(!delivered);
    assert!(!done.has_fired());
    assert_eq!(src.remaining(), 1);
}

#[test]
fn exhausted_source_fills_trailing_frames_with_silence() {
    let mut out = vec![9u16; 8];
    let mut done = CompletionSignal::new();
    let mut src = SampleSource::new(vec![1u16, 2, 3]);
    let delivered = write_data(&mut out, 2, &mut done, &mut src, 32768);
    assert_eq!(out, vec![1, 1, 2, 2, 3, 3, 32768, 32768]);
    assert!(delivered);
    assert!(done.has_fired());
    assert_eq!(src.remaining(), 0);
}

#[test]
fn completion_is_delivered_only_once() {
    let mut done = CompletionSignal::new();
    let mut src = SampleSource::new(vec![5i16]);
    let mut out = vec![7i16; 4];
    assert!(write_data(&mut out, 1, &mut done, &mut src, 0));
    assert_eq!(out, vec![5, 0, 0, 0]);
    let mut out2 = vec![7i16; 4];
    assert!(!write_data(&mut out2, 1, &mut done, &mut src, 0));
    assert_eq!(out2, vec![0, 0, 0, 0]);
    let mut out3 = vec![7i16; 2];
    assert!(!write_data(&mut out3, 2, &mut done, &mut src, 0));
    assert!(done.has_fired());
}

#[test]
fn exact_exhaustion_signals_on_the_next_callback() {
    let mut done = CompletionSignal::new();
    let mut src = SampleSource::new(vec![1u8, 2]);
    let mut out = vec![0u8; 4];
    assert!(!write_data(&mut out, 2, &mut done, &mut src, 128));
    assert_eq!(out, vec![1, 1, 2, 2]);
    let mut out2 = vec![0u8; 2];
    assert!(write_data(&mut out2, 2, &mut done, &mut src, 128));
    assert_eq!(out2, vec![128, 128]);
}

#[test]
fn short_last_frame_is_filled() {
    let mut done = CompletionSignal::new();
    let mut src = SampleSource::new(vec![1i32, 2, 3]);
    let mut out = vec![0i32; 5];
    assert!(!write_data(&mut out, 2, &mut done, &mut src, -1));
    assert_eq!(out, vec![1, 1, 2, 2, 3]);
}

#[test]
fn empty_output_buffer_changes_nothing() {
    let mut done = CompletionSignal::new();
    let mut src: SampleSource<i32> = SampleSource::new(vec![]);
    let mut out: Vec<i32> = vec![];
    assert!(!write_data(&mut out, 2, &mut done, &mut src, 0));
    assert!(!done.has_fired());
}

#[test]
fn signal_fires_once() {
    let mut done = CompletionSignal::new();
    assert!(done.fire());
    assert!(!done.fire());
    assert!(done.has_fired());
}

#[test]
fn sample_source_reads_in_order() {
    let mut src = SampleSource::new(vec![3u8, 4]);
    assert_eq!(src.next(), Some(3));
    assert_eq!(src.next(), Some(4));
    assert_eq!(src.next(), None);
    assert_eq!(src.next(), None);
}

#[test]
fn empty_project_completes_on_first_callback() {
    let p = Project::new(5, vec![]);
    let n = p.sample_count(44100).unwrap();
    assert_eq!(n, 0);
    let mut src = SampleSource::new(vec![0.0f32; n]);
    let mut done = CompletionSignal::new();
    let mut out = vec![1.0f32; 512];
    assert!(write_data(&mut out, 2, &mut done, &mut src, 0.0));
    assert!(out.iter().all(|s| *s == 0.0));
}

#[test]
fn two_seconds_at_44100_is_88200_samples_per_waveform() {
    let p = Project::new(
        2,
        vec![
            Waveform::Sine(Parameters::default()),
            Waveform::Saw(Parameters::default()),
            Waveform::Noise(Parameters::new(30)),
        ],
    );
    assert_eq!(p.segment_len(44100), Some(88200));
    assert_eq!(p.sample_count(44100), Some(3 * 88200));
}

#[test]
fn per_waveform_time_does_not_change_segment_length() {
    let a = Project::new(2, vec![Waveform::Square(Parameters::new(1))]);
    let b = Project::new(2, vec![Waveform::Square(Parameters::new(50))]);
    assert_eq!(a.sample_count(48000), b.sample_count(48000));
    assert_eq!(a.sample_count(48000), Some(96000));
}

#[test]
fn overflowing_sample_counts_are_refused() {
    let p = Project::new(usize::MAX, vec![Waveform::Sine(Parameters::default())]);
    assert_eq!(p.segment_len(44100), None);
    assert_eq!(p.sample_count(44100), None);
    let empty = Project::new(usize::MAX, vec![]);
    assert_eq!(empty.sample_count(44100), Some(0));
    let zero_time = Project::new(0, vec![Waveform::Saw(Parameters::default())]);
    assert_eq!(zero_time.sample_count(44100), Some(0));
}
