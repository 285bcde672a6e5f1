use audiohit::audio::{check_format, compatible_spec, frame_count, full_scale, needs_conversion, AudioSpec, FormatError, SampleFormat};
use audiohit::chain::{chain_capacity, chain_count, chain_positions, draw_unselected, select_candidate, OCTATRACK_MAX_FILES};
use audiohit::folder::{is_sub_folder, is_wav_entry, selected_positions};
use audiohit::plan::{parse_chain_request, parse_mode, plan_file, plan_folder_file, scale_pitch, scale_pitches, ChainRequest, Mode};
use audiohit::preset::{getpreset, presets};
use audiohit::sox::{conversion_args, merge_args, pitch_args};

#[test]
fn presets_hold_drums_and_bass() {
    assert_eq!(getpreset(0), ("3".to_string(), "10".to_string(), "-48".to_string()));
    assert_eq!(getpreset(1), ("2".to_string(), "2".to_string(), "-18".to_string()));
    assert_eq!(presets().len(), 2);
}

#[test]
fn audio_format_checks() {
    let stereo24 = AudioSpec { channels: 2, sample_rate: 48000, bits_per_sample: 24, sample_format: SampleFormat::Int };
    let mono16 = AudioSpec { channels: 1, sample_rate: 48000, bits_per_sample: 16, sample_format: SampleFormat::Int };
    let mono8 = AudioSpec { channels: 1, sample_rate: 48000, bits_per_sample: 8, sample_format: SampleFormat::Int };
    assert!(needs_conversion(&stereo24));
    assert!(!needs_conversion(&mono16));
    assert!(needs_conversion(&mono8));
    assert_eq!(compatible_spec(&stereo24), mono16);
    assert_eq!(check_format(&stereo24), Err(FormatError::NotMono));
    assert_eq!(check_format(&mono8), Err(FormatError::Not16Bit));
    assert_eq!(check_format(&mono16), Ok(()));
    assert_eq!(frame_count(1000, 2), 500);
    assert_eq!(frame_count(1001, 2), 500);
    assert_eq!(full_scale(16), 65535);
    assert_eq!(full_scale(24), 0);
}

#[test]
fn chain_counts_and_capacities() {
    assert_eq!(chain_count(0, false), 0);
    assert_eq!(chain_count(1, false), 1);
    assert_eq!(chain_count(64, false), 1);
    assert_eq!(chain_count(65, false), 2);
    assert_eq!(chain_count(200, true), 1);
    assert_eq!(chain_capacity(10, 1, false), 10);
    assert_eq!(chain_capacity(65, 2, false), OCTATRACK_MAX_FILES);
    assert_eq!(chain_capacity(100, 1, true), 64);
    assert_eq!(chain_capacity(30, 1, true), 24);
    assert_eq!(chain_capacity(7, 1, true), 3);
    assert_eq!(chain_capacity(64, 1, true), 64);
}

#[test]
fn chains_cover_every_file_once() {
    let n = 150usize;
    let count = chain_count(n, false);
    let cap = chain_capacity(n, count, false);
    let mut all: Vec<usize> = vec![];
    for i in 0..count {
        let p = chain_positions(i, cap, n);
        assert!(p.len() <= 64);
        all.extend(p);
    }
    assert_eq!(all, (0..n).collect::<Vec<usize>>());
    assert_eq!(chain_positions(2, 64, 150), (128..150).collect::<Vec<usize>>());
    assert_eq!(chain_positions(3, 64, 150), Vec::<usize>::new());
}

#[test]
fn random_picks_never_repeat() {
    let mut selected = vec![];
    assert!(select_candidate(&mut selected, 3));
    assert!(!select_candidate(&mut selected, 3));
    assert_eq!(selected, vec![3]);
    let n = 10;
    let mut picked = vec![];
    while picked.len() < n {
        if let Some(p) = draw_unselected(&mut picked, n) {
            assert!(p < n);
        }
    }
    let mut sorted = picked.clone();
    sorted.sort();
    assert_eq!(sorted, (0..n).collect::<Vec<usize>>());
}

#[test]
fn random_draw_stays_in_range() {
    let mut selected = vec![];
    for _ in 0..50 {
        let before = selected.clone();
        match draw_unselected(&mut selected, 1000) {
            Some(p) => {
                assert!(p < 1000);
                assert!(!before.contains(&p));
            }
            None => assert_eq!(selected, before),
        }
    }
}

#[test]
fn folder_entries() {
    assert!(is_wav_entry(&Some("wav".to_string()), true));
    assert!(!is_wav_entry(&Some("WAV".to_string()), true));
    assert!(!is_wav_entry(&Some("wav".to_string()), false));
    assert!(!is_wav_entry(&None, true));
    assert!(is_sub_folder(true, "kicks"));
    assert!(!is_sub_folder(true, "output"));
    assert!(!is_sub_folder(false, "kicks"));
    assert_eq!(selected_positions(&vec![false, true, true, false, true]), vec![1, 2, 4]);
}

#[test]
fn modes_and_plans() {
    assert_eq!(parse_mode("trim"), Mode::Trim);
    assert_eq!(parse_mode("scale"), Mode::Scale);
    assert_eq!(parse_mode("ref"), Mode::Reference);
    assert_eq!(parse_mode("Trim"), Mode::Unknown);
    let p = plan_file("scale", true, false);
    assert_eq!(p.mode, Mode::Scale);
    assert!(p.chain_outputs && p.scale_suffix && !p.start_own_chain && !p.write_chain);
    let p = plan_file("trim", true, true);
    assert!(p.chain_outputs && !p.scale_suffix && p.start_own_chain && p.write_chain);
    let p = plan_file("ref", true, true);
    assert!(!p.chain_outputs && p.start_own_chain && p.write_chain);
    let p = plan_file("trim", false, true);
    assert!(!p.chain_outputs && !p.start_own_chain && !p.write_chain);
    assert_eq!(parse_chain_request("true"), ChainRequest::ProcessAndChain);
    assert_eq!(parse_chain_request("only"), ChainRequest::ChainUnprocessed);
    assert_eq!(parse_chain_request(""), ChainRequest::ProcessOnly);
}

#[test]
fn scale_pitches_in_cents() {
    assert_eq!(scale_pitch(0, 2), -200);
    assert_eq!(scale_pitches(4, 1), vec![-100, 0, 100, 200]);
    assert_eq!(scale_pitches(0, 1), Vec::<isize>::new());
    assert_eq!(scale_pitches(-3, 0), Vec::<isize>::new());
}

#[test]
fn sox_argument_lists() {
    let spec = AudioSpec { channels: 1, sample_rate: 44100, bits_per_sample: 16, sample_format: SampleFormat::Int };
    assert_eq!(
        conversion_args("a.wav", "out/a.wav", &spec),
        vec!["-v", "0.8", "a.wav", "-b", "16", "-c", "1", "out/a.wav", "rate", "-v", "-I", "-b", "90", "-a", "44100"]
    );
    assert_eq!(
        pitch_args("a.wav", "s/a_01.wav", -300),
        vec!["a.wav", "-b", "16", "-c", "1", "s/a_01.wav", "pitch", "-300", "rate", "-v", "-I", "-b", "90", "-a", "44100"]
    );
    assert_eq!(merge_args("a.wav", "t.wav", "r.wav"), vec!["a.wav", "t.wav", "r.wav", "-MS"]);
}

#[test]
fn random_chain_never_exceeds_files_or_slots() {
    for n in 0..200usize {
        assert_eq!(chain_count(n, true), 1);
        let cap = chain_capacity(n, 1, true);
        assert!(cap <= 64);
        assert!(cap <= n);
    }
}

#[test]
fn folder_file_plans() {
    let p = plan_folder_file(parse_chain_request("only"));
    assert!(!p.process && p.chain_original && !p.chain_outputs && p.write_chain);
    let p = plan_folder_file(parse_chain_request("true"));
    assert!(p.process && !p.chain_original && p.chain_outputs && p.write_chain);
    let p = plan_folder_file(parse_chain_request("false"));
    assert!(p.process && !p.chain_original && !p.chain_outputs && !p.write_chain);
}
