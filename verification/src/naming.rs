//! Decimal formatting and the names of the files and folders the tool
//! writes.

use vstd::prelude::*;

verus! {

/// The character of decimal digit `d`.
pub open spec fn digit_char(d: nat) -> char {
    (48 + d) as char
}

/// Decimal digits of `n`, most significant first, without leading zeros.
pub open spec fn spec_decimal(n: nat) -> Seq<char>
    decreases n,
{
    if n < 10 {
        seq![digit_char(n)]
    } else {
        spec_decimal(n / 10).push(digit_char(n % 10))
    }
}

/// Decimal form of `n`, with a leading minus sign when it is negative.
pub open spec fn spec_signed_decimal(n: int) -> Seq<char> {
    if n < 0 {
        seq!['-'] + spec_decimal((-n) as nat)
    } else {
        spec_decimal(n as nat)
    }
}

/// Decimal form of `n`, padded on the left with zeros to two characters.
pub open spec fn spec_two_digits(n: nat) -> Seq<char> {
    if n < 10 {
        seq!['0'] + spec_decimal(n)
    } else {
        spec_decimal(n)
    }
}

/// The one-character string of decimal digit `d`.
fn digit_str(d: u64) -> (r: &'static str)
    requires
        d < 10,
    ensures
        r@ == seq![digit_char(d as nat)],
{
    proof {
        reveal_strlit("0");
        reveal_strlit("1");
        reveal_strlit("2");
        reveal_strlit("3");
        reveal_strlit("4");
        reveal_strlit("5");
        reveal_strlit("6");
        reveal_strlit("7");
        reveal_strlit("8");
        reveal_strlit("9");
    }
    match d {
        0 => "0",
        1 => "1",
        2 => "2",
        3 => "3",
        4 => "4",
        5 => "5",
        6 => "6",
        7 => "7",
        8 => "8",
        _ => "9",
    }
}

/// Decimal form of `n`.
pub fn decimal_string(n: u64) -> (s: String)
    ensures
        s@ == spec_decimal(n as nat),
    decreases n,
{
    if n < 10 {
        String::from_str(digit_str(n))
    } else {
        let mut s = decimal_string(n / 10);
        s.append(digit_str(n % 10));
        s
    }
}

/// Decimal form of `n`, with a minus sign when it is negative.
pub fn signed_decimal_string(n: i64) -> (s: String)
    ensures
        s@ == spec_signed_decimal(n as int),
{
    if n < 0 {
        let magnitude: u64 = if n == i64::MIN {
            0x8000_0000_0000_0000
        } else {
            (-n) as u64
        };
        let mut s = String::from_str("-");
        let digits = decimal_string(magnitude);
        s.append(digits.as_str());
        proof {
            reveal_strlit("-");
        }
        s
    } else {
        decimal_string(n as u64)
    }
}

/// Decimal form of `n`, zero-padded to two characters.
pub fn two_digit_string(n: u64) -> (s: String)
    ensures
        s@ == spec_two_digits(n as nat),
{
    if n < 10 {
        let mut s = String::from_str("0");
        let digits = decimal_string(n);
        s.append(digits.as_str());
        proof {
            reveal_strlit("0");
        }
        s
    } else {
        decimal_string(n)
    }
}

/// Concatenation of three strings.
fn join3(a: &str, b: &str, c: &str) -> (s: String)
    ensures
        s@ == a@ + b@ + c@,
{
    let mut s = String::from_str(a);
    s.append(b);
    s.append(c);
    s
}

/// The name of the trimmed file made from region `file_num` of a sample
/// whose file stem is `stem`: `<stem>_<file_num + 1>.wav` in split mode,
/// `<stem>.wav` otherwise.
pub fn trimmed_file_name(stem: &str, split: bool, file_num: u8) -> (s: String)
    requires
        split ==> file_num < u8::MAX,
    ensures
        split ==> s@ == stem@ + "_"@ + spec_decimal((file_num + 1) as nat) + ".wav"@,
        !split ==> s@ == stem@ + ".wav"@,
{
    if split {
        let number = decimal_string((file_num + 1) as u64);
        let mut s = join3(stem, "_", number.as_str());
        s.append(".wav");
        s
    } else {
        let mut s = String::from_str(stem);
        s.append(".wav");
        s
    }
}

/// The folder that holds the chromatic scale made from a sample:
/// `<destination><name>_scale`.
pub fn scale_folder(destination_folder: &str, file_name: &str) -> (s: String)
    ensures
        s@ == destination_folder@ + file_name@ + "_scale"@,
{
    join3(destination_folder, file_name, "_scale")
}

/// The file of scale step `step` (counted from 1):
/// `<folder>/<name>_<step, two digits>.wav`.
pub fn scale_file_name(folder: &str, file_name: &str, step: u64) -> (s: String)
    ensures
        s@ == folder@ + "/"@ + file_name@ + "_"@ + spec_two_digits(step as nat) + ".wav"@,
{
    let mut s = join3(folder, "/", file_name);
    s.append("_");
    let digits = two_digit_string(step);
    s.append(digits.as_str());
    s.append(".wav");
    s
}

/// The file that holds a sample mixed with its reference tone:
/// `<destination><name>_ref.wav`.
pub fn reference_file_name(destination_folder: &str, file_name: &str) -> (s: String)
    ensures
        s@ == destination_folder@ + file_name@ + "_ref.wav"@,
{
    join3(destination_folder, file_name, "_ref.wav")
}

/// The temporary file that holds the reference tone:
/// `<destination><name>_sine.wav`.
pub fn sine_file_name(destination_folder: &str, file_name: &str) -> (s: String)
    ensures
        s@ == destination_folder@ + file_name@ + "_sine.wav"@,
{
    join3(destination_folder, file_name, "_sine.wav")
}

/// The output folder inside a batch folder: `<folder>/output/`.
pub fn folder_output_path(folder_path: &str) -> (s: String)
    ensures
        s@ == folder_path@ + "/output/"@,
{
    let mut s = String::from_str(folder_path);
    s.append("/output/");
    s
}

/// The path a converted copy of a file is written to:
/// `<output folder><file name>`.
pub fn converted_file_path(output_folder: &str, file_name: &str) -> (s: String)
    ensures
        s@ == output_folder@ + file_name@,
{
    let mut s = String::from_str(output_folder);
    s.append(file_name);
    s
}

/// The name of sample chain `index` (counted from 0) of a folder: the
/// folder's name, followed by `_<index + 1>` when the folder needs more
/// than one chain.
pub fn chain_file_name(folder_name: &str, index: u64, chain_count: u64) -> (s: String)
    requires
        index < chain_count,
    ensures
        chain_count > 1 ==> s@ == folder_name@ + "_"@ + spec_decimal((index + 1) as nat),
        chain_count <= 1 ==> s@ == folder_name@,
{
    if chain_count > 1 {
        let number = decimal_string(index + 1);
        join3(folder_name, "_", number.as_str())
    } else {
        String::from_str(folder_name)
    }
}

} // verus!
