//! The argument lists of the SoX calls that convert files and make pitch
//! shifted copies.

use vstd::prelude::*;
use crate::audio::AudioSpec;
use crate::naming::{decimal_string, signed_decimal_string, spec_decimal, spec_signed_decimal};

verus! {

/// The texts of a list of strings.
pub open spec fn texts(v: Seq<String>) -> Seq<Seq<char>> {
    v.map_values(|s: String| s@)
}

/// Appends a copy of `s` to `v`.
fn push_text(v: &mut Vec<String>, s: &str)
    ensures
        texts(final(v)@) == texts(old(v)@).push(s@),
{
    let ghost before = v@;
    v.push(String::from_str(s));
    proof {
        assert(texts(v@) =~= texts(before).push(s@));
    }
}

/// Appends `s` to `v`.
fn push_owned(v: &mut Vec<String>, s: String)
    ensures
        texts(final(v)@) == texts(old(v)@).push(s@),
{
    let ghost before = v@;
    v.push(s);
    proof {
        assert(texts(v@) =~= texts(before).push(s@));
    }
}

/// The arguments that make SoX convert `input` to `output` in the format
/// `spec`: the input volume scaled by 0.8, the bit depth and channel count
/// of `spec`, and a very-high-quality resampling to its sample rate.
pub open spec fn spec_conversion_args(input: Seq<char>, output: Seq<char>, spec: AudioSpec) -> Seq<
    Seq<char>,
> {
    seq![
        "-v"@,
        "0.8"@,
        input,
        "-b"@,
        spec_decimal(spec.bits_per_sample as nat),
        "-c"@,
        spec_decimal(spec.channels as nat),
        output,
        "rate"@,
        "-v"@,
        "-I"@,
        "-b"@,
        "90"@,
        "-a"@,
        spec_decimal(spec.sample_rate as nat),
    ]
}

/// The SoX arguments that convert `input` to `output` in the format `spec`.
pub fn conversion_args(input: &str, output: &str, spec: &AudioSpec) -> (r: Vec<String>)
    ensures
        texts(r@) == spec_conversion_args(input@, output@, *spec),
{
    let mut r: Vec<String> = Vec::new();
    push_text(&mut r, "-v");
    push_text(&mut r, "0.8");
    push_text(&mut r, input);
    push_text(&mut r, "-b");
    push_owned(&mut r, decimal_string(spec.bits_per_sample as u64));
    push_text(&mut r, "-c");
    push_owned(&mut r, decimal_string(spec.channels as u64));
    push_text(&mut r, output);
    push_text(&mut r, "rate");
    push_text(&mut r, "-v");
    push_text(&mut r, "-I");
    push_text(&mut r, "-b");
    push_text(&mut r, "90");
    push_text(&mut r, "-a");
    push_owned(&mut r, decimal_string(spec.sample_rate as u64));
    proof {
        assert(texts(r@) =~= spec_conversion_args(input@, output@, *spec));
    }
    r
}

/// The arguments that make SoX write `output`, a mono 16-bit copy of
/// `input` shifted by `cents` and resampled to 44100 Hz.
pub open spec fn spec_pitch_args(input: Seq<char>, output: Seq<char>, cents: int) -> Seq<
    Seq<char>,
> {
    seq![
        input,
        "-b"@,
        "16"@,
        "-c"@,
        "1"@,
        output,
        "pitch"@,
        spec_signed_decimal(cents),
        "rate"@,
        "-v"@,
        "-I"@,
        "-b"@,
        "90"@,
        "-a"@,
        "44100"@,
    ]
}

/// The SoX arguments that write a pitch-shifted step of a scale.
pub fn pitch_args(input: &str, output: &str, cents: isize) -> (r: Vec<String>)
    ensures
        texts(r@) == spec_pitch_args(input@, output@, cents as int),
{
    let mut r: Vec<String> = Vec::new();
    push_text(&mut r, input);
    push_text(&mut r, "-b");
    push_text(&mut r, "16");
    push_text(&mut r, "-c");
    push_text(&mut r, "1");
    push_text(&mut r, output);
    push_text(&mut r, "pitch");
    push_owned(&mut r, signed_decimal_string(cents as i64));
    push_text(&mut r, "rate");
    push_text(&mut r, "-v");
    push_text(&mut r, "-I");
    push_text(&mut r, "-b");
    push_text(&mut r, "90");
    push_text(&mut r, "-a");
    push_text(&mut r, "44100");
    proof {
        assert(texts(r@) =~= spec_pitch_args(input@, output@, cents as int));
    }
    r
}

/// The arguments that make SoX merge `input` and the reference tone
/// `tone` into the two channels of `output`.
pub fn merge_args(input: &str, tone: &str, output: &str) -> (r: Vec<String>)
    ensures
        texts(r@) == seq![input@, tone@, output@, "-MS"@],
{
    let mut r: Vec<String> = Vec::new();
    push_text(&mut r, input);
    push_text(&mut r, tone);
    push_text(&mut r, output);
    push_text(&mut r, "-MS");
    proof {
        assert(texts(r@) =~= seq![input@, tone@, output@, "-MS"@]);
    }
    r
}

} // verus!
