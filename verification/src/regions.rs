//! Detection of the regions of a sample whose amplitude rises above a
//! threshold.
//!
//! The samples are scanned once, front to back.  A sample is loud when its
//! level (its absolute value, with `i16::MIN` counted as `32767`) exceeds
//! the threshold.  The first loud sample opens a region.  In whole mode a
//! single region runs from the first loud sample to the last one (both at
//! the same position for a single hit).  In split mode an open region is
//! closed at a quiet sample once it is longer than the minimum length and
//! enough quiet samples have been seen since the last region was closed.

use vstd::prelude::*;
use crate::audio::SampleData;

verus! {

/// Start and end sample index of a region.
#[derive(Clone, Copy, Debug, PartialEq, Eq, Structural)]
pub struct SampleRegion {
    pub start_point: u32,
    pub end_point: u32,
}

/// The integer parameters of region detection.
#[derive(Clone, Copy, Debug, PartialEq, Eq, Structural)]
pub struct DetectionSettings {
    /// A sample is loud when its level is greater than this value.
    pub threshold: i32,
    /// A region in split mode must be longer than this many samples.
    pub min_length: u32,
    /// A region in split mode closes only after more than this many quiet
    /// samples.
    pub min_silence: u32,
    /// Whether the sample is split into several regions.
    pub split: bool,
}

/// Absolute value of a sample, with `i16::MIN` counted as `32767`.
pub open spec fn sample_level(s: i16) -> int {
    if s > 0 {
        s as int
    } else if s < 0 {
        if s < -32767 {
            32767
        } else {
            -s
        }
    } else {
        0
    }
}

/// The level of a sample as the detection sees it.
pub fn absolute_level(sample: i16) -> (level: i16)
    ensures
        level == sample_level(sample),
        0 <= level <= 32767,
{
    if sample > 0 {
        sample
    } else if sample < 0 {
        let mut value = sample;
        if value < -32767 {
            value = -32767;
        }
        assert(-32767 <= value < 0);
        -value
    } else {
        0
    }
}

/// Whether position `pos` holds a sample and that sample is loud.
pub open spec fn loud_at(samples: Seq<i16>, threshold: i32, pos: int) -> bool {
    0 <= pos < samples.len() && sample_level(samples[pos]) > threshold
}

/// Whether position `pos` holds a sample and that sample is quiet.
pub open spec fn quiet_at(samples: Seq<i16>, threshold: i32, pos: int) -> bool {
    0 <= pos < samples.len() && sample_level(samples[pos]) <= threshold
}

/// The state of the scan between two positions.
pub struct ScanState {
    /// Whether a region is open.
    pub open: bool,
    /// Start of the open region (of the last one opened, once closed).
    pub start: int,
    /// Last loud position seen since the open region started.
    pub last_loud: int,
    /// Quiet samples counted since the last region was closed.
    pub silence: int,
    /// Regions closed so far, in scan order.
    pub regions: Seq<SampleRegion>,
}

/// The scan's state before any position.
pub open spec fn initial_scan() -> ScanState {
    ScanState { open: false, start: 0, last_loud: 0, silence: 0, regions: Seq::empty() }
}

/// One step of the scan, at position `pos`.
pub open spec fn scan_step(
    st: ScanState,
    samples: Seq<i16>,
    settings: DetectionSettings,
    pos: int,
) -> ScanState {
    if loud_at(samples, settings.threshold, pos) {
        if !st.open {
            ScanState { open: true, start: pos, last_loud: pos, ..st }
        } else {
            ScanState { last_loud: pos, ..st }
        }
    } else if quiet_at(samples, settings.threshold, pos) && st.open {
        let silence = st.silence + 1;
        if settings.split && pos - st.start > settings.min_length && silence
            > settings.min_silence {
            ScanState {
                open: false,
                silence: 0,
                regions: st.regions.push(
                    SampleRegion { start_point: st.start as u32, end_point: pos as u32 },
                ),
                ..st
            }
        } else {
            ScanState { silence, ..st }
        }
    } else {
        st
    }
}

/// The scan's state after positions `0 .. count`.
pub open spec fn scan(samples: Seq<i16>, settings: DetectionSettings, count: nat) -> ScanState
    decreases count,
{
    if count == 0 {
        initial_scan()
    } else {
        scan_step(scan(samples, settings, (count - 1) as nat), samples, settings, count - 1)
    }
}

/// The regions found in the first `duration` positions, in scan order: the
/// closed regions in split mode; otherwise the single span from the first
/// to the last loud sample, or the empty span at 0 when no sample is loud.
pub open spec fn detected_regions(
    samples: Seq<i16>,
    settings: DetectionSettings,
    duration: nat,
) -> Seq<SampleRegion> {
    let st = scan(samples, settings, duration);
    if settings.split {
        st.regions
    } else if st.open {
        st.regions.push(
            SampleRegion { start_point: st.start as u32, end_point: st.last_loud as u32 },
        )
    } else {
        st.regions.push(SampleRegion { start_point: 0, end_point: 0 })
    }
}

/// What `find_regions` leaves in the regions of a mono file: the regions it
/// held, followed by the detected ones, all in reverse order.
pub open spec fn regions_after_detection(
    old_regions: Seq<SampleRegion>,
    samples: Seq<i16>,
    settings: DetectionSettings,
    duration: nat,
) -> Seq<SampleRegion> {
    (old_regions + detected_regions(samples, settings, duration)).reverse()
}

/// Reverses a list of regions.
fn reverse_regions(regions: Vec<SampleRegion>) -> (r: Vec<SampleRegion>)
    ensures
        r@ == regions@.reverse(),
{
    let mut r: Vec<SampleRegion> = Vec::new();
    let mut k = regions.len();
    while k > 0
        invariant
            k <= regions@.len(),
            r@.len() == regions@.len() - k,
            forall|j: int| 0 <= j < r@.len() ==> #[trigger] r@[j] == regions@[regions@.len() - 1 - j],
        decreases k,
    {
        k = k - 1;
        r.push(regions[k]);
    }
    proof {
        assert(r@ =~= regions@.reverse());
    }
    r
}

/// Finds the regions of a mono file and stores them, with the regions it
/// already held, in reverse order; a file with another channel count is
/// returned unchanged.
pub fn find_regions(sample_data: SampleData, settings: &DetectionSettings) -> (result: SampleData)
    ensures
        result.file_path == sample_data.file_path,
        result.file_name == sample_data.file_name,
        result.destination_folder == sample_data.destination_folder,
        result.duration == sample_data.duration,
        result.samples == sample_data.samples,
        result.spec == sample_data.spec,
        sample_data.spec.channels == 1 ==> result.regions@ == regions_after_detection(
            sample_data.regions@,
            sample_data.samples@,
            *settings,
            sample_data.duration as nat,
        ),
        sample_data.spec.channels != 1 ==> result.regions@ == sample_data.regions@,
{
    if sample_data.spec.channels != 1 {
        return sample_data;
    }
    let SampleData { file_path, file_name, destination_folder, duration, samples, regions, spec } =
        sample_data;
    let ghost old_regions = regions@;
    let mut regions = regions;
    let mut open = false;
    let mut start: u32 = 0;
    let mut last_loud: u32 = 0;
    let mut silence: u32 = 0;
    let n = samples.len();
    let total = duration as usize;
    for i in 0..total
        invariant
            n == samples@.len(),
            total == duration,
            start <= i,
            last_loud <= i,
            open ==> start < i,
            silence <= i,
            open == scan(samples@, *settings, i as nat).open,
            start == scan(samples@, *settings, i as nat).start,
            last_loud == scan(samples@, *settings, i as nat).last_loud,
            silence == scan(samples@, *settings, i as nat).silence,
            regions@ == old_regions + scan(samples@, *settings, i as nat).regions,
    {
        if i < n {
            let level = absolute_level(samples[i]) as i32;
            if level > settings.threshold {
                if !open {
                    open = true;
                    start = i as u32;
                    last_loud = i as u32;
                } else {
                    last_loud = i as u32;
                }
            } else if open {
                let end_point = i as u32;
                silence = silence + 1;
                if settings.split && end_point - start > settings.min_length && silence
                    > settings.min_silence {
                    let new_region = SampleRegion { start_point: start, end_point };
                    open = false;
                    regions.push(new_region);
                    silence = 0;
                }
            }
        }
        proof {
            assert(old_regions + scan(samples@, *settings, (i + 1) as nat).regions =~= regions@);
        }
    }
    if !settings.split {
        if open {
            regions.push(SampleRegion { start_point: start, end_point: last_loud });
        } else {
            regions.push(SampleRegion { start_point: 0, end_point: 0 });
        }
    }
    proof {
        assert(old_regions + detected_regions(samples@, *settings, duration as nat) =~= regions@);
    }
    let regions = reverse_regions(regions);
    SampleData { file_path, file_name, destination_folder, duration, samples, regions, spec }
}

/// No position in `from .. to` holds a loud sample.
pub open spec fn no_loud_in(samples: Seq<i16>, threshold: i32, from: int, to: int) -> bool {
    forall|p: int| from <= p < to ==> !#[trigger] loud_at(samples, threshold, p)
}

/// Number of positions in `from .. to` that hold a quiet sample.
pub open spec fn quiet_count(samples: Seq<i16>, threshold: i32, from: int, to: int) -> nat
    decreases to - from,
{
    if to <= from {
        0
    } else {
        quiet_count(samples, threshold, from, to - 1) + if quiet_at(samples, threshold, to - 1) {
            1nat
        } else {
            0nat
        }
    }
}

/// The shape of the scan in split mode after `count` positions: each closed
/// region opens at a loud sample, closes at a later quiet sample more than
/// `min_length` samples after its start, and each region ends before the
/// next one (or the open one) starts.
pub open spec fn split_regions_well_formed(
    st: ScanState,
    samples: Seq<i16>,
    settings: DetectionSettings,
    count: int,
) -> bool {
    let t = settings.threshold;
    &&& forall|k: int|
        0 <= k < st.regions.len() ==> {
            let r = #[trigger] st.regions[k];
            &&& r.start_point + settings.min_length < r.end_point
            &&& r.end_point < count
            &&& loud_at(samples, t, r.start_point as int)
            &&& quiet_at(samples, t, r.end_point as int)
            &&& quiet_count(samples, t, r.start_point + 1, r.end_point + 1) > settings.min_silence
        }
    &&& forall|k: int|
        0 <= k < st.regions.len() - 1 ==> (#[trigger] st.regions[k]).end_point
            < st.regions[k + 1].start_point
    &&& st.open ==> 0 <= st.start < count && loud_at(samples, t, st.start)
    &&& st.open ==> st.silence == quiet_count(samples, t, st.start + 1, count)
    &&& !st.open ==> st.silence == 0
    &&& st.open && st.regions.len() > 0 ==> st.regions.last().end_point < st.start
    &&& st.regions.len() > 0 ==> st.regions.last().end_point < count
}

/// In split mode every closed region starts at a loud sample, ends at a
/// quiet sample more than `min_length` samples later and inside the scanned
/// range, and the regions follow each other without overlapping.
pub proof fn lemma_split_regions_well_formed(
    samples: Seq<i16>,
    settings: DetectionSettings,
    count: nat,
)
    requires
        settings.split,
        count <= u32::MAX,
    ensures
        split_regions_well_formed(scan(samples, settings, count), samples, settings, count as int),
    decreases count,
{
    if count > 0 {
        lemma_split_regions_well_formed(samples, settings, (count - 1) as nat);
        let prev = scan(samples, settings, (count - 1) as nat);
        let st = scan(samples, settings, count);
        let t = settings.threshold;
        let pos = count - 1;
        assert(st == scan_step(prev, samples, settings, pos));
        if prev.open {
            assert(quiet_count(samples, t, prev.start + 1, count as int) == quiet_count(
                samples,
                t,
                prev.start + 1,
                pos,
            ) + if quiet_at(samples, t, pos) {
                1nat
            } else {
                0nat
            });
        }
        if st.regions.len() > prev.regions.len() {
            assert forall|k: int| 0 <= k < st.regions.len() - 1 implies (#[trigger] st.regions[k]).end_point
                < st.regions[k + 1].start_point by {
                if k < prev.regions.len() - 1 {
                    assert(st.regions[k] == prev.regions[k]);
                    assert(st.regions[k + 1] == prev.regions[k + 1]);
                } else {
                    assert(st.regions[k] == prev.regions.last());
                }
            }
        } else {
            assert(st.regions == prev.regions);
        }
    }
}

/// A position without a loud sample extends a range without loud samples.
proof fn lemma_no_loud_extend(samples: Seq<i16>, t: i32, a: int, b: int)
    requires
        !loud_at(samples, t, b),
    ensures
        no_loud_in(samples, t, a, b) ==> no_loud_in(samples, t, a, b + 1),
{
}

/// In whole mode the scan closes no region; once a loud sample is seen the
/// region is open from the first loud position to the last one, and before
/// that no position is loud.
pub proof fn lemma_whole_scan_bounds(samples: Seq<i16>, settings: DetectionSettings, count: nat)
    requires
        !settings.split,
    ensures
        ({
            let st = scan(samples, settings, count);
            let t = settings.threshold;
            &&& st.regions.len() == 0
            &&& !st.open ==> no_loud_in(samples, t, 0, count as int)
            &&& st.open ==> 0 <= st.start <= st.last_loud < count
                && loud_at(samples, t, st.start) && loud_at(samples, t, st.last_loud)
                && no_loud_in(samples, t, 0, st.start)
                && no_loud_in(samples, t, st.last_loud + 1, count as int)
        }),
    decreases count,
{
    if count > 0 {
        lemma_whole_scan_bounds(samples, settings, (count - 1) as nat);
        let prev = scan(samples, settings, (count - 1) as nat);
        let t = settings.threshold;
        let pos = count - 1;
        assert(scan(samples, settings, count) == scan_step(prev, samples, settings, pos));
        if !loud_at(samples, t, pos) {
            lemma_no_loud_extend(samples, t, 0, pos);
            lemma_no_loud_extend(samples, t, prev.last_loud + 1, pos);
        }
    }
}

/// In whole mode exactly one region is detected.  When some sample of the
/// first `duration` positions is loud, it runs from the first loud position
/// to the last one, so it never ends before it starts and a single loud
/// sample is both its start and its end; when none is loud it is the empty
/// span at 0.
pub proof fn lemma_whole_mode_single_region(
    samples: Seq<i16>,
    settings: DetectionSettings,
    duration: u32,
)
    requires
        !settings.split,
    ensures
        ({
            let regions = detected_regions(samples, settings, duration as nat);
            let r = regions[0];
            let t = settings.threshold;
            &&& regions.len() == 1
            &&& r.start_point <= r.end_point
            &&& no_loud_in(samples, t, 0, duration as int) ==> r.start_point == 0 && r.end_point
                == 0
            &&& !no_loud_in(samples, t, 0, duration as int) ==> r.end_point < duration && loud_at(
                samples,
                t,
                r.start_point as int,
            ) && loud_at(samples, t, r.end_point as int) && no_loud_in(
                samples,
                t,
                0,
                r.start_point as int,
            ) && no_loud_in(samples, t, r.end_point + 1, duration as int)
        }),
{
    lemma_whole_scan_bounds(samples, settings, duration as nat);
    let st = scan(samples, settings, duration as nat);
    if st.open {
        assert(!no_loud_in(samples, settings.threshold, 0, duration as int)) by {
            assert(loud_at(samples, settings.threshold, st.start));
        }
    }
}

/// In split mode the detected regions are the closed ones, and each of
/// them is well formed: it starts at a loud sample, ends at a quiet sample
/// more than `min_length` samples later, holds more than `min_silence`
/// quiet samples after its start (the quiet count starts afresh for every
/// region), and ends before the next region starts.
pub proof fn lemma_split_mode_regions(samples: Seq<i16>, settings: DetectionSettings, duration: u32)
    requires
        settings.split,
    ensures
        ({
            let regions = detected_regions(samples, settings, duration as nat);
            let t = settings.threshold;
            &&& forall|k: int|
                0 <= k < regions.len() ==> {
                    let r = #[trigger] regions[k];
                    &&& r.start_point + settings.min_length < r.end_point
                    &&& r.end_point < duration
                    &&& loud_at(samples, t, r.start_point as int)
                    &&& quiet_at(samples, t, r.end_point as int)
                    &&& quiet_count(samples, t, r.start_point + 1, r.end_point + 1)
                        > settings.min_silence
                }
            &&& forall|k: int|
                0 <= k < regions.len() - 1 ==> (#[trigger] regions[k]).end_point
                    < regions[k + 1].start_point
        }),
{
    lemma_split_regions_well_formed(samples, settings, duration as nat);
}

/// In split mode a freshly loaded file ends up with its regions latest
/// first: each stored region starts after the next one ends.
pub proof fn lemma_split_output_latest_first(
    samples: Seq<i16>,
    settings: DetectionSettings,
    duration: u32,
)
    requires
        settings.split,
    ensures
        ({
            let out = regions_after_detection(Seq::empty(), samples, settings, duration as nat);
            forall|k: int|
                0 <= k < out.len() - 1 ==> (#[trigger] out[k]).start_point > out[k + 1].end_point
        }),
{
    lemma_split_mode_regions(samples, settings, duration);
    let found = detected_regions(samples, settings, duration as nat);
    let out = regions_after_detection(Seq::empty(), samples, settings, duration as nat);
    assert(Seq::<SampleRegion>::empty() + found =~= found);
    assert forall|k: int| 0 <= k < out.len() - 1 implies (#[trigger] out[k]).start_point > out[k
        + 1].end_point by {
        let j = found.len() - 2 - k;
        assert(out[k] == found[j + 1]);
        assert(out[k + 1] == found[j]);
        assert(found[j].end_point < found[j + 1].start_point);
    }
}

/// The single-span scan after positions `0 .. count`: whether a loud
/// sample was seen, the first loud position and the last one.
pub open spec fn span_scan(samples: Seq<i16>, threshold: i32, count: nat) -> (bool, int, int)
    decreases count,
{
    if count == 0 {
        (false, 0, 0)
    } else {
        let (found, start, end) = span_scan(samples, threshold, (count - 1) as nat);
        let pos = count - 1;
        if loud_at(samples, threshold, pos) {
            (true, if found {
                start
            } else {
                pos
            }, pos)
        } else {
            (found, start, end)
        }
    }
}

/// Finds the span from the first to the last loud sample of a mono file in
/// one scan (the empty span at 0 when no sample is loud); a file with
/// another channel count gets the empty span at 0.
pub fn find_span(samples: &Vec<i16>, duration: u32, channels: u16, threshold: i32) -> (r:
    SampleRegion)
    ensures
        channels == 1 ==> r.start_point == span_scan(samples@, threshold, duration as nat).1
            && r.end_point == span_scan(samples@, threshold, duration as nat).2,
        channels != 1 ==> r == (SampleRegion { start_point: 0, end_point: 0 }),
{
    let mut start_point: u32 = 0;
    let mut end_point: u32 = 0;
    if channels == 1 {
        let mut found = false;
        let n = samples.len();
        for i in 0..duration as usize
            invariant
                n == samples@.len(),
                found == span_scan(samples@, threshold, i as nat).0,
                start_point == span_scan(samples@, threshold, i as nat).1,
                end_point == span_scan(samples@, threshold, i as nat).2,
                start_point <= i,
                end_point <= i,
        {
            if i < n {
                let level = absolute_level(samples[i]) as i32;
                if level > threshold {
                    if !found {
                        start_point = i as u32;
                        found = true;
                    }
                    end_point = i as u32;
                }
            }
        }
    }
    SampleRegion { start_point, end_point }
}

/// The single span starts at the first loud position and ends at the last
/// one (both 0 when no position is loud), so it never ends before it
/// starts.
pub proof fn lemma_span_bounds(samples: Seq<i16>, threshold: i32, count: nat)
    ensures
        ({
            let (found, start, end) = span_scan(samples, threshold, count);
            &&& 0 <= start <= end
            &&& !found ==> start == 0 && end == 0 && no_loud_in(samples, threshold, 0, count as int)
            &&& found ==> end < count && loud_at(samples, threshold, start) && loud_at(
                samples,
                threshold,
                end,
            ) && no_loud_in(samples, threshold, 0, start) && no_loud_in(
                samples,
                threshold,
                end + 1,
                count as int,
            )
        }),
    decreases count,
{
    if count > 0 {
        lemma_span_bounds(samples, threshold, (count - 1) as nat);
        let pos = count - 1;
        let (found, start, end) = span_scan(samples, threshold, (count - 1) as nat);
        if !loud_at(samples, threshold, pos) {
            lemma_no_loud_extend(samples, threshold, 0, pos);
            lemma_no_loud_extend(samples, threshold, end + 1, pos);
        }
    }
}

} // verus!
