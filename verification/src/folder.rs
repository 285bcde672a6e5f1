//! Which directory entries a folder run works on, and where output files
//! go.

use vstd::prelude::*;
use crate::plan::same_text;

verus! {

/// A directory entry is taken as an input file when its extension is
/// exactly `wav` and it has a file name.
pub open spec fn spec_is_wav_entry(extension: Option<Seq<char>>, has_file_name: bool) -> bool {
    extension == Some("wav"@) && has_file_name
}

/// Whether a directory entry is a wav file to process.
pub fn is_wav_entry(extension: &Option<String>, has_file_name: bool) -> (r: bool)
    ensures
        r == spec_is_wav_entry(
            match extension {
                Some(e) => Some(e@),
                None => None,
            },
            has_file_name,
        ),
{
    match extension {
        Some(e) => same_text(e.as_str(), "wav") && has_file_name,
        None => false,
    }
}

/// Whether a directory entry is a sub-folder to process first: any folder
/// except the `output` folder the tool writes into.
pub fn is_sub_folder(is_dir: bool, name: &str) -> (r: bool)
    ensures
        r == (is_dir && name@ != "output"@),
{
    is_dir && !same_text(name, "output")
}

/// The positions of the set flags, in increasing order.
pub fn selected_positions(flags: &Vec<bool>) -> (r: Vec<usize>)
    ensures
        forall|k: int| 0 <= k < r@.len() ==> #[trigger] r@[k] < flags@.len() && flags@[r@[k] as int],
        forall|k: int, l: int| 0 <= k < l < r@.len() ==> #[trigger] r@[k] < #[trigger] r@[l],
        forall|i: int| 0 <= i < flags@.len() && #[trigger] flags@[i] ==> r@.contains(i as usize),
{
    let mut r: Vec<usize> = Vec::new();
    for i in 0..flags.len()
        invariant
            forall|k: int| 0 <= k < r@.len() ==> #[trigger] r@[k] < i && flags@[r@[k] as int],
            forall|k: int, l: int| 0 <= k < l < r@.len() ==> #[trigger] r@[k] < #[trigger] r@[l],
            forall|j: int| 0 <= j < i && #[trigger] flags@[j] ==> r@.contains(j as usize),
    {
        if flags[i] {
            let ghost before = r@;
            r.push(i);
            proof {
                assert forall|j: int| 0 <= j < i + 1 && #[trigger] flags@[j] implies r@.contains(
                    j as usize,
                ) by {
                    if j < i {
                        let w = choose|w: int| 0 <= w < before.len() && before[w] == j as usize;
                        assert(r@[w] == j as usize);
                    } else {
                        assert(r@[r@.len() - 1] == j as usize);
                    }
                }
            }
        } else {
            proof {
                assert forall|j: int| 0 <= j < i + 1 && #[trigger] flags@[j] implies r@.contains(
                    j as usize,
                ) by {
                    if j < i {
                    }
                }
            }
        }
    }
    r
}

/// The parent of `path` as `std::path::Path::parent` computes it (`None`
/// for a path that ends in a root or a prefix, and for the empty path; the
/// empty path for a relative path of one component).
pub uninterp spec fn path_parent(path: Seq<char>) -> Option<Seq<char>>;

/// A path of a single relative component: not empty, and holding no
/// separator (`/`, or `\\` where that separates too) and no drive prefix
/// marker (`:`).
pub open spec fn is_bare_name(path: Seq<char>) -> bool {
    path.len() > 0 && !path.contains('/') && !path.contains('\\') && !path.contains(':')
}

/// Calls `std::path::Path::parent` on `path` and returns the parent as a
/// `String` (a parent of a path given as a string is valid UTF-8).  The
/// result is named by `path_parent`; the documentation shows that the empty
/// path has none and that a relative path of one component has the empty
/// path as its parent.
#[verifier::external_body]
fn parent_of(path: &str) -> (r: Option<String>)
    ensures
        match r {
            Some(p) => path_parent(path@) == Some(p@),
            None => path_parent(path@) == None::<Seq<char>>,
        },
        path@.len() == 0 ==> r is None,
        is_bare_name(path@) ==> r is Some && r.unwrap()@.len() == 0,
{
    match std::path::Path::new(path).parent() {
        Some(p) => Some(p.to_string_lossy().into_owned()),
        None => None,
    }
}

/// The output folder inside the folder `parent`: `<parent>/output/`, or
/// `output/` (in the working folder) when `parent` is the empty path.
pub fn output_folder_from_parent(parent: &str) -> (s: String)
    ensures
        s@ == (if parent@.len() == 0 {
            "output/"@
        } else {
            parent@ + "/output/"@
        }),
{
    if parent.unicode_len() == 0 {
        String::from_str("output/")
    } else {
        let mut new_filename = String::from_str(parent);
        new_filename.append("/output/");
        new_filename
    }
}

/// The output folder for an input file: `<parent folder>/output/`, or
/// `output/` (in the working folder) when the parent is the empty path, as
/// for a bare file name; `None` when the path has no parent.
pub fn create_output_folder(filepath: &str) -> (r: Option<String>)
    ensures
        match path_parent(filepath@) {
            Some(p) => (r matches Some(s) && s@ == (if p.len() == 0 {
                "output/"@
            } else {
                p + "/output/"@
            })),
            None => r is None,
        },
        is_bare_name(filepath@) ==> (r matches Some(s) && s@ == "output/"@),
{
    match parent_of(filepath) {
        Some(parent) => Some(output_folder_from_parent(parent.as_str())),
        None => None,
    }
}

} // verus!
