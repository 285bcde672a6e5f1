use audiohit::resample::{reduce_sr_buffer, slow_buffer, speed_buffer};
use audiohit::trim::{apply_rate_effects, peak_amplitude, trim_samples, trimmed_length, fade_stage, FadeStage};
use audiohit::regions::SampleRegion;

#[test]
fn speed_buffer_keeps_every_nth_sample() {
    assert_eq!(speed_buffer(vec![1, 2, 3, 4, 5, 6, 7], 3), vec![1, 4, 7]);
    assert_eq!(speed_buffer(vec![1, 2, 3, 4, 5, 6], 2), vec![1, 3, 5]);
    assert_eq!(speed_buffer(vec![9, 8], 1), vec![9, 8]);
    assert_eq!(speed_buffer(vec![9, 8], 5), vec![9]);
    assert_eq!(speed_buffer(vec![], 0), Vec::<i16>::new());
}

#[test]
fn reduce_sr_buffer_holds_samples() {
    assert_eq!(reduce_sr_buffer(vec![1, 2, 3, 4, 5, 6, 7], 3), vec![1, 1, 1, 4, 4, 4, 7]);
    assert_eq!(reduce_sr_buffer(vec![5, -5, 6], 1), vec![5, -5, 6]);
    assert_eq!(reduce_sr_buffer(vec![], 0), Vec::<i16>::new());
}

#[test]
fn slow_buffer_repeats_samples() {
    assert_eq!(slow_buffer(vec![1, 2, 3], 2), vec![1, 1, 2, 2, 3, 3]);
    assert_eq!(slow_buffer(vec![1, 2, 3], 0), Vec::<i16>::new());
    assert_eq!(slow_buffer(vec![-7], 3), vec![-7, -7, -7]);
}

#[test]
fn speed_undoes_slow_on_values() {
    let buf = vec![3, -1, 4, 1, -5, 9];
    for k in 1..5u32 {
        assert_eq!(speed_buffer(slow_buffer(buf.clone(), k), k), buf);
    }
}

#[test]
fn reduce_sr_twice_is_once() {
    let buf = vec![3, -1, 4, 1, -5, 9, 2, 6];
    let once = reduce_sr_buffer(buf.clone(), 3);
    assert_eq!(reduce_sr_buffer(once.clone(), 3), once);
}

#[test]
fn rate_effects_apply_in_order() {
    // reduce by 2: [1,1,3,3,5,5]; speed 2: [1,3,5]; slow 2: [1,1,3,3,5,5]
    assert_eq!(apply_rate_effects(vec![1, 2, 3, 4, 5, 6], 2, 2, 2), vec![1, 1, 3, 3, 5, 5]);
    // a divider of 1 does not reduce, factors of 0 do nothing
    assert_eq!(apply_rate_effects(vec![1, 2, 3], 1, 0, 0), vec![1, 2, 3]);
    assert_eq!(apply_rate_effects(vec![1, 2, 3, 4], 0, 3, 0), vec![1, 4]);
}

#[test]
fn peak_amplitude_is_largest_absolute_value() {
    assert_eq!(peak_amplitude(&vec![1, -300, 200]), 300);
    assert_eq!(peak_amplitude(&vec![i16::MIN, 5]), 32768);
    assert_eq!(peak_amplitude(&vec![]), 0);
    assert_eq!(peak_amplitude(&vec![0, 0]), 0);
}

#[test]
fn trimmed_length_is_region_length() {
    let r = SampleRegion { start_point: 10, end_point: 25 };
    assert_eq!(trimmed_length(100, r), 15);
    assert_eq!(trimmed_length(25, r), 15);
}

#[test]
fn trim_samples_cuts_region_and_skips_missing() {
    let s: Vec<i16> = vec![0, 1, 2, 3, 4, 5, 6];
    assert_eq!(trim_samples(&s, 2, 3), vec![2, 3, 4]);
    assert_eq!(trim_samples(&s, 5, 4), vec![5, 6]);
    assert_eq!(trim_samples(&s, 9, 4), Vec::<i16>::new());
    assert_eq!(trim_samples(&s, 0, 0), Vec::<i16>::new());
}

#[test]
fn fade_stage_envelope() {
    // 10 samples, 3 in, 4 out: 0..3 in, 3..=6 full, 7..10 out
    let stages: Vec<FadeStage> = (0..10).map(|i| fade_stage(i, 10, 3, 4)).collect();
    assert_eq!(stages[0], FadeStage::FadeIn);
    assert_eq!(stages[2], FadeStage::FadeIn);
    assert_eq!(stages[3], FadeStage::Full);
    assert_eq!(stages[6], FadeStage::Full);
    assert_eq!(stages[7], FadeStage::FadeOut);
    assert_eq!(stages[9], FadeStage::FadeOut);
    // no fades
    assert_eq!(fade_stage(0, 10, 0, 0), FadeStage::Full);
    assert_eq!(fade_stage(9, 10, 0, 0), FadeStage::Full);
    // a negative fade-in length wraps as a usize bound, so every sample fades in
    assert_eq!(fade_stage(9, 10, -1, 0), FadeStage::FadeIn);
    assert_eq!(fade_stage(0, 10, -5, 0), FadeStage::FadeIn);
    // a fade-out longer than the buffer covers all of it
    assert_eq!(fade_stage(5, 10, 0, 20), FadeStage::FadeOut);
    assert_eq!(fade_stage(0, 2, 0, 5), FadeStage::FadeOut);
    assert_eq!(fade_stage(1, 2, 0, 5), FadeStage::FadeOut);
    // the fade-in is checked first
    assert_eq!(fade_stage(0, 2, 1, 5), FadeStage::FadeIn);
}

#[test]
fn unit_factors_leave_buffer_unchanged() {
    let buf = vec![4, -2, 7, 0];
    assert_eq!(speed_buffer(buf.clone(), 1), buf);
    assert_eq!(reduce_sr_buffer(buf.clone(), 1), buf);
    assert_eq!(slow_buffer(buf.clone(), 1), buf);
}

#[test]
fn reduce_sr_is_speed_then_slow_cut_to_length() {
    let buf = vec![3, -1, 4, 1, -5, 9, 2];
    for d in 1..5u32 {
        let via = slow_buffer(speed_buffer(buf.clone(), d), d);
        assert_eq!(reduce_sr_buffer(buf.clone(), d), via[..buf.len()].to_vec());
    }
}

#[test]
fn slow_buffer_distributes_over_concatenation() {
    let a = vec![1, 2];
    let b = vec![-3, 4, 5];
    for d in 0..4u32 {
        let whole = slow_buffer([a.clone(), b.clone()].concat(), d);
        assert_eq!(whole, [slow_buffer(a.clone(), d), slow_buffer(b.clone(), d)].concat());
    }
}
