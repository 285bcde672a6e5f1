use audiohit::audio::{AudioSpec, SampleData, SampleFormat};
use audiohit::regions::{absolute_level, find_regions, find_span, DetectionSettings, SampleRegion};

fn data(samples: Vec<i16>, channels: u16) -> SampleData {
    SampleData {
        file_path: "in/a.wav".to_string(),
        file_name: "a".to_string(),
        destination_folder: "in/output/".to_string(),
        duration: samples.len() as u32,
        samples,
        regions: vec![],
        spec: AudioSpec { channels, sample_rate: 44100, bits_per_sample: 16, sample_format: SampleFormat::Int },
    }
}

#[test]
fn absolute_level_clamps_minimum() {
    assert_eq!(absolute_level(-5), 5);
    assert_eq!(absolute_level(7), 7);
    assert_eq!(absolute_level(0), 0);
    assert_eq!(absolute_level(i16::MIN), 32767);
}

#[test]
fn whole_mode_finds_first_and_last_loud_sample() {
    let s = vec![0, 0, 50, 1, 60, 2, 70, 0, 0];
    let settings = DetectionSettings { threshold: 10, min_length: 0, min_silence: 0, split: false };
    let out = find_regions(data(s, 1), &settings);
    assert_eq!(out.regions, vec![SampleRegion { start_point: 2, end_point: 6 }]);
}

#[test]
fn whole_mode_examines_first_and_last_sample() {
    let s = vec![90, 0, 0, 90];
    let settings = DetectionSettings { threshold: 10, min_length: 0, min_silence: 0, split: false };
    let out = find_regions(data(s, 1), &settings);
    assert_eq!(out.regions, vec![SampleRegion { start_point: 0, end_point: 3 }]);
}

#[test]
fn whole_mode_single_loud_sample_is_start_and_end() {
    let s = vec![0, 10000, 0, 0, 0];
    let settings = DetectionSettings { threshold: 6553, min_length: 0, min_silence: 0, split: false };
    let out = find_regions(data(s, 1), &settings);
    assert_eq!(out.regions, vec![SampleRegion { start_point: 1, end_point: 1 }]);
}

#[test]
fn whole_mode_silence_gives_empty_span() {
    let s = vec![0, 3, -3, 0];
    let settings = DetectionSettings { threshold: 10, min_length: 0, min_silence: 0, split: false };
    let out = find_regions(data(s, 1), &settings);
    assert_eq!(out.regions, vec![SampleRegion { start_point: 0, end_point: 0 }]);
}

#[test]
fn split_mode_closes_regions_after_silence() {
    // loud 1..=3, quiet 4..=6, loud 7..=9, quiet 10..=13
    let s = vec![0, 50, 50, 50, 0, 0, 0, 50, 50, 50, 0, 0, 0, 0, 0];
    let settings = DetectionSettings { threshold: 10, min_length: 3, min_silence: 1, split: true };
    // quiet samples are only counted while a region is open
    let out = find_regions(data(s, 1), &settings);
    // first closes at 5 (5 - 1 > 3, silence 2 > 1); second at 11 (11 - 7 > 3, silence 2 > 1)
    assert_eq!(
        out.regions,
        vec![SampleRegion { start_point: 7, end_point: 11 }, SampleRegion { start_point: 1, end_point: 5 }]
    );
}

#[test]
fn split_mode_drops_open_region() {
    let s = vec![0, 50, 50, 50, 50, 50];
    let settings = DetectionSettings { threshold: 10, min_length: 1, min_silence: 0, split: true };
    let out = find_regions(data(s, 1), &settings);
    assert_eq!(out.regions, vec![]);
}

#[test]
fn stereo_file_is_left_unchanged() {
    let s = vec![0, 50, 50, 0];
    let settings = DetectionSettings { threshold: 10, min_length: 0, min_silence: 0, split: false };
    let out = find_regions(data(s.clone(), 2), &settings);
    assert_eq!(out.regions, vec![]);
    assert_eq!(out.samples, s);
    assert_eq!(out.file_name, "a");
}

#[test]
fn negative_threshold_makes_silence_loud() {
    let s = vec![0, 0, 0, 0];
    let settings = DetectionSettings { threshold: -1, min_length: 0, min_silence: 0, split: false };
    let out = find_regions(data(s, 1), &settings);
    assert_eq!(out.regions, vec![SampleRegion { start_point: 0, end_point: 3 }]);
}

#[test]
fn span_runs_from_first_to_last_loud_sample() {
    let s = vec![90, 0, 40, 0, 50, 0, 0];
    assert_eq!(find_span(&s, 7, 1, 10), SampleRegion { start_point: 0, end_point: 4 });
    assert_eq!(find_span(&s, 7, 2, 10), SampleRegion { start_point: 0, end_point: 0 });
    let loud_ends = vec![90, 0, 0, 0, 90];
    assert_eq!(find_span(&loud_ends, 5, 1, 10), SampleRegion { start_point: 0, end_point: 4 });
    let one = vec![0, 90, 0];
    assert_eq!(find_span(&one, 3, 1, 10), SampleRegion { start_point: 1, end_point: 1 });
    let none = vec![0, 1, 0];
    assert_eq!(find_span(&none, 3, 1, 10), SampleRegion { start_point: 0, end_point: 0 });
}

#[test]
fn split_mode_region_may_start_at_first_sample() {
    let s = vec![50, 50, 50, 0, 0, 0];
    let settings = DetectionSettings { threshold: 10, min_length: 2, min_silence: 1, split: true };
    let out = find_regions(data(s, 1), &settings);
    assert_eq!(out.regions, vec![SampleRegion { start_point: 0, end_point: 4 }]);
}
