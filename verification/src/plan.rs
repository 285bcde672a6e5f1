//! What is done with one input file: the operation mode, whether the file
//! gets its own sample chain, and the pitch steps of a chromatic scale.

use vstd::prelude::*;

verus! {

/// Whether two strings hold the same text.
pub fn same_text(a: &str, b: &str) -> (r: bool)
    ensures
        r == (a@ == b@),
{
    let x = String::from_str(a);
    let y = String::from_str(b);
    x == y
}

/// The operation applied to each file.
#[derive(Clone, Copy, Debug, PartialEq, Eq, Structural)]
pub enum Mode {
    /// Detect regions, trim them and fade them.
    Trim,
    /// Make a chromatic scale of pitch-shifted copies.
    Scale,
    /// Mix the file with a reference tone.
    Reference,
    /// Any other mode name: the file is loaded and nothing else is done.
    Unknown,
}

/// The mode named by `name`: `trim`, `scale` or `ref`.
pub open spec fn spec_parse_mode(name: Seq<char>) -> Mode {
    if name == "trim"@ {
        Mode::Trim
    } else if name == "scale"@ {
        Mode::Scale
    } else if name == "ref"@ {
        Mode::Reference
    } else {
        Mode::Unknown
    }
}

/// Reads the operation mode given on the command line.
pub fn parse_mode(name: &str) -> (r: Mode)
    ensures
        r == spec_parse_mode(name@),
{
    if same_text(name, "trim") {
        Mode::Trim
    } else if same_text(name, "scale") {
        Mode::Scale
    } else if same_text(name, "ref") {
        Mode::Reference
    } else {
        Mode::Unknown
    }
}

/// The steps taken for one loaded file.
#[derive(Clone, Copy, Debug, PartialEq, Eq, Structural)]
pub struct FilePlan {
    pub mode: Mode,
    /// Clear the chain and name it after this file before processing.
    pub start_own_chain: bool,
    /// Add the files made from this file to the chain.
    pub chain_outputs: bool,
    /// Append `_scale` to the chain's file name.
    pub scale_suffix: bool,
    /// Write the chain's .wav and .ot files after processing.
    pub write_chain: bool,
}

/// Plans the processing of one file: a file processed on its own
/// (`generate_ot_file`) gets a chain of its own when chains are wanted
/// (`ot_file`); the files made in trim and scale mode go into the chain when
/// chains are wanted; scale mode always marks the chain's name.
pub fn plan_file(mode: &str, ot_file: bool, generate_ot_file: bool) -> (r: FilePlan)
    ensures
        r.mode == spec_parse_mode(mode@),
        r.start_own_chain == (ot_file && generate_ot_file),
        r.chain_outputs == (ot_file && (r.mode == Mode::Trim || r.mode == Mode::Scale)),
        r.scale_suffix == (r.mode == Mode::Scale),
        r.write_chain == (ot_file && generate_ot_file),
{
    let m = parse_mode(mode);
    let chain_outputs = match m {
        Mode::Trim => ot_file,
        Mode::Scale => ot_file,
        _ => false,
    };
    let scale_suffix = match m {
        Mode::Scale => true,
        _ => false,
    };
    FilePlan {
        mode: m,
        start_own_chain: ot_file && generate_ot_file,
        chain_outputs,
        scale_suffix,
        write_chain: generate_ot_file && ot_file,
    }
}

/// Pitch shift, in cents, of scale step `step` when the root note is
/// `pitch_offset` semitones up: `(step - pitch_offset) * 100`.
pub fn scale_pitch(step: isize, pitch_offset: isize) -> (r: isize)
    requires
        isize::MIN <= (step - pitch_offset) * 100 <= isize::MAX,
    ensures
        r == (step - pitch_offset) * 100,
{
    (step - pitch_offset) * 100
}

/// Whether every step of a scale of `pitch_range` steps has a pitch shift
/// that fits an `isize`.
pub open spec fn scale_fits(pitch_range: isize, pitch_offset: isize) -> bool {
    pitch_range <= 0 || (isize::MIN <= (0 - pitch_offset) * 100 && (pitch_range - 1 - pitch_offset)
        * 100 <= isize::MAX)
}

/// The pitch shifts of the steps `0 .. pitch_range` of a scale.
pub open spec fn spec_scale_pitches(pitch_range: isize, pitch_offset: isize) -> Seq<int> {
    Seq::new(
        if pitch_range > 0 {
            pitch_range as nat
        } else {
            0
        },
        |i: int| (i - pitch_offset) * 100,
    )
}

/// The pitch shifts, in cents, of the `pitch_range` steps of a chromatic
/// scale rooted `pitch_offset` semitones up (none when the range is not
/// positive).
pub fn scale_pitches(pitch_range: isize, pitch_offset: isize) -> (r: Vec<isize>)
    requires
        scale_fits(pitch_range, pitch_offset),
    ensures
        r@.len() == spec_scale_pitches(pitch_range, pitch_offset).len(),
        forall|i: int|
            0 <= i < r@.len() ==> #[trigger] r@[i] == spec_scale_pitches(
                pitch_range,
                pitch_offset,
            )[i],
{
    let mut r: Vec<isize> = Vec::new();
    let mut i: isize = 0;
    while i < pitch_range
        invariant
            scale_fits(pitch_range, pitch_offset),
            0 <= i,
            pitch_range > 0 ==> i <= pitch_range,
            pitch_range <= 0 ==> i == 0,
            r@.len() == i,
            forall|k: int| 0 <= k < i ==> #[trigger] r@[k] == (k - pitch_offset) * 100,
        decreases pitch_range - i,
    {
        assert(isize::MIN <= (i - pitch_offset) * 100 <= isize::MAX) by (nonlinear_arith)
            requires
                0 <= i < pitch_range,
                isize::MIN <= (0 - pitch_offset) * 100,
                (pitch_range - 1 - pitch_offset) * 100 <= isize::MAX,
        ;
        r.push(scale_pitch(i, pitch_offset));
        i = i + 1;
    }
    r
}

/// What a folder run does with the wav files it finds when chains are
/// requested by name: `true` trims each file and chains the result, `only`
/// chains the files as they are, anything else only trims them.
#[derive(Clone, Copy, Debug, PartialEq, Eq, Structural)]
pub enum ChainRequest {
    ProcessAndChain,
    ChainUnprocessed,
    ProcessOnly,
}

/// The chain request named by `name`.
pub fn parse_chain_request(name: &str) -> (r: ChainRequest)
    ensures
        name@ == "true"@ ==> r == ChainRequest::ProcessAndChain,
        name@ == "only"@ ==> r == ChainRequest::ChainUnprocessed,
        name@ != "true"@ && name@ != "only"@ ==> r == ChainRequest::ProcessOnly,
{
    proof {
        reveal_strlit("true");
        reveal_strlit("only");
        assert("true"@[0] != "only"@[0]);
    }
    if same_text(name, "true") {
        ChainRequest::ProcessAndChain
    } else if same_text(name, "only") {
        ChainRequest::ChainUnprocessed
    } else {
        ChainRequest::ProcessOnly
    }
}

/// The steps taken for one wav file of a folder run.
#[derive(Clone, Copy, Debug, PartialEq, Eq, Structural)]
pub struct FolderFilePlan {
    /// Process the file in the operation mode.
    pub process: bool,
    /// Add the file itself, unprocessed, to the chain.
    pub chain_original: bool,
    /// Add the files made from it to the chain.
    pub chain_outputs: bool,
    /// Write the chain's .wav and .ot files once the folder's files are in.
    pub write_chain: bool,
}

/// Plans one file of a folder run: `only` chains the files as they are
/// without processing them, `true` processes them and chains the results,
/// anything else only processes them.
pub fn plan_folder_file(request: ChainRequest) -> (r: FolderFilePlan)
    ensures
        r.process == (request != ChainRequest::ChainUnprocessed),
        r.chain_original == (request == ChainRequest::ChainUnprocessed),
        r.chain_outputs == (request == ChainRequest::ProcessAndChain),
        r.write_chain == (request != ChainRequest::ProcessOnly),
{
    match request {
        ChainRequest::ProcessAndChain => FolderFilePlan {
            process: true,
            chain_original: false,
            chain_outputs: true,
            write_chain: true,
        },
        ChainRequest::ChainUnprocessed => FolderFilePlan {
            process: false,
            chain_original: true,
            chain_outputs: false,
            write_chain: true,
        },
        ChainRequest::ProcessOnly => FolderFilePlan {
            process: true,
            chain_original: false,
            chain_outputs: false,
            write_chain: false,
        },
    }
}

} // verus!
