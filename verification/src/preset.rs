//! The built-in presets for fade-in, fade-out and threshold.

use vstd::prelude::*;

verus! {

/// Fade-in and fade-out time (ms) and threshold (dB), as given on the
/// command line.
pub struct Preset {
    pub fade_in: String,
    pub fade_out: String,
    pub thresh_db: String,
}

/// Number of built-in presets.
pub const PRESET_COUNT: usize = 2;

/// The fields of built-in preset `pnum`: 0 is the drums preset (3 ms,
/// 10 ms, -48 dB) and 1 the bass preset (2 ms, 2 ms, -18 dB).
pub open spec fn preset_fields(pnum: int) -> (Seq<char>, Seq<char>, Seq<char>) {
    if pnum == 0 {
        ("3"@, "10"@, "-48"@)
    } else {
        ("2"@, "2"@, "-18"@)
    }
}

/// The built-in presets, in order.
pub fn presets() -> (r: Vec<Preset>)
    ensures
        r@.len() == PRESET_COUNT,
        forall|i: int|
            0 <= i < PRESET_COUNT ==> (#[trigger] r@[i].fade_in@, r@[i].fade_out@, r@[i].thresh_db@)
                == preset_fields(i),
{
    let drums = Preset {
        fade_in: String::from_str("3"),
        fade_out: String::from_str("10"),
        thresh_db: String::from_str("-48"),
    };
    let bass = Preset {
        fade_in: String::from_str("2"),
        fade_out: String::from_str("2"),
        thresh_db: String::from_str("-18"),
    };
    let mut presetvec = Vec::new();
    presetvec.push(drums);
    presetvec.push(bass);
    presetvec
}

/// The fade-in, fade-out and threshold strings of built-in preset `pnum`.
pub fn getpreset(pnum: usize) -> (r: (String, String, String))
    requires
        pnum < PRESET_COUNT,
    ensures
        (r.0@, r.1@, r.2@) == preset_fields(pnum as int),
{
    let presetvec = presets();
    let fadein = presetvec[pnum].fade_in.clone();
    let fadeout = presetvec[pnum].fade_out.clone();
    let thresh = presetvec[pnum].thresh_db.clone();
    (fadein, fadeout, thresh)
}

} // verus!
