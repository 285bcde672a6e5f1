//! Splitting the wav files of a folder into Octatrack sample chains and
//! picking files at random without repetition.

use vstd::prelude::*;
use rand::Rng;
use crate::arith::{ceil_div, lemma_ceil_div_step, lemma_block_index};
use vstd::arithmetic::div_mod::lemma_fundamental_div_mod;

verus! {

/// Slices an Octatrack sample chain can hold.
pub const OCTATRACK_MAX_FILES: usize = 64;

/// Above this count of files a float division would no longer count the
/// chains exactly; a list of files held in memory never comes near it.
pub open spec fn max_exact_file_count() -> int {
    0x20_0000_0000_0000
}

/// Number of sample chains made from `num_files` files: one in random
/// mode, otherwise enough chains of 64 files to hold them all.
pub open spec fn spec_chain_count(num_files: nat, random: bool) -> int {
    if random {
        1
    } else {
        ceil_div(num_files as int, OCTATRACK_MAX_FILES as int)
    }
}

/// Number of sample chains made from `num_files` files.
pub fn chain_count(num_files: usize, random: bool) -> (r: usize)
    requires
        num_files <= max_exact_file_count(),
    ensures
        r == spec_chain_count(num_files as nat, random),
{
    if random {
        1
    } else {
        proof {
            lemma_fundamental_div_mod(num_files as int, 64);
            let q = num_files as int / 64;
            let rem = num_files as int % 64;
            if rem == 0 {
                lemma_block_index(q, 64, 63);
                assert(num_files + 63 == q * 64 + 63);
            } else {
                lemma_block_index(q + 1, 64, rem - 1);
                assert(num_files + 63 == (q + 1) * 64 + (rem - 1));
            }
        }
        num_files / 64 + if num_files % 64 != 0 {
            1
        } else {
            0
        }
    }
}

/// Number of files placed in each chain.
pub open spec fn spec_chain_capacity(num_files: nat, chain_count: nat, random: bool) -> int {
    if random {
        if num_files > OCTATRACK_MAX_FILES {
            OCTATRACK_MAX_FILES as int
        } else if num_files / 8 > 0 {
            ((num_files / 8) * 8) as int
        } else {
            (num_files / 2) as int
        }
    } else if chain_count > 1 {
        OCTATRACK_MAX_FILES as int
    } else {
        num_files as int
    }
}

/// Number of files placed in each chain: all of them when one chain holds
/// them, 64 when there are several chains; in random mode 64 when there are
/// more than 64 files, else the largest multiple of 8 that fits, else half
/// of the files.
pub fn chain_capacity(num_files: usize, chain_count: usize, random: bool) -> (r: usize)
    ensures
        r == spec_chain_capacity(num_files as nat, chain_count as nat, random),
        r <= num_files || (!random && chain_count > 1 && r == OCTATRACK_MAX_FILES),
        random && 8 <= num_files <= 64 ==> r % 8 == 0 && r + 8 > num_files && r >= 8,
        random && num_files < 8 ==> r * 2 <= num_files && num_files < r * 2 + 2,
        random && num_files > 64 ==> r == 64,
{
    let mut max_files: usize = num_files;
    if chain_count > 1 {
        max_files = OCTATRACK_MAX_FILES;
    }
    if random {
        if num_files > OCTATRACK_MAX_FILES {
            max_files = OCTATRACK_MAX_FILES;
        } else if num_files / 8 > 0 {
            let num_of_groups: usize = num_files / 8;
            max_files = num_of_groups * 8;
        } else {
            max_files = num_files / 2;
        }
    }
    max_files
}

/// In random mode a single chain is made, and it takes at most 64 files and
/// never more files than the folder holds, so a pick without repetition
/// always finds a file left.
pub proof fn lemma_random_chain_bounds(num_files: nat)
    ensures
        spec_chain_count(num_files, true) == 1,
        spec_chain_capacity(num_files, 1, true) <= OCTATRACK_MAX_FILES,
        spec_chain_capacity(num_files, 1, true) <= num_files,
{
    assert((num_files / 8) * 8 <= num_files) by (nonlinear_arith);
}

/// The file positions of chain `index` when each chain takes `capacity`
/// consecutive files: those of `index * capacity .. (index + 1) * capacity`
/// that are below `num_files`.
pub open spec fn chain_slots(index: int, capacity: int, num_files: int) -> Seq<int> {
    let first = index * capacity;
    let end = if first + capacity < num_files {
        first + capacity
    } else {
        num_files
    };
    Seq::new(
        if end > first {
            (end - first) as nat
        } else {
            0
        },
        |k: int| first + k,
    )
}

/// The positions of the files that go into chain `index`, in order.
pub fn chain_positions(index: usize, capacity: usize, num_files: usize) -> (r: Vec<usize>)
    requires
        index * capacity + capacity <= isize::MAX,
    ensures
        r@.len() == chain_slots(index as int, capacity as int, num_files as int).len(),
        forall|k: int|
            0 <= k < r@.len() ==> #[trigger] r@[k] == chain_slots(
                index as int,
                capacity as int,
                num_files as int,
            )[k],
{
    let mut r: Vec<usize> = Vec::new();
    let base = index * capacity;
    for file in 0..capacity
        invariant
            base == index * capacity,
            base + capacity <= isize::MAX,
            r@.len() == (if base + file <= num_files {
                file as int
            } else if base < num_files {
                num_files - base
            } else {
                0
            }),
            forall|k: int| 0 <= k < r@.len() ==> #[trigger] r@[k] == base + k,
    {
        let file_pos: usize = file + base;
        if file_pos < num_files {
            r.push(file_pos);
        }
    }
    r
}

/// The chain that file position `p` falls in when each chain takes
/// `capacity` consecutive files.
pub open spec fn chain_index(p: int, capacity: int) -> int {
    p / capacity
}

/// Chain count of a folder of `num_files` files outside random mode.
pub open spec fn folder_chain_count(num_files: nat) -> int {
    spec_chain_count(num_files, false)
}

/// Chain capacity of a folder of `num_files` files outside random mode.
pub open spec fn folder_chain_capacity(num_files: nat) -> int {
    spec_chain_capacity(num_files, folder_chain_count(num_files) as nat, false)
}

/// Outside random mode every file of a folder goes into a chain: file `p`
/// is a slot of chain `chain_index(p, capacity)`, which is one of the
/// chains made; when there are several chains each takes 64 files.
pub proof fn lemma_file_has_chain(num_files: nat, p: int)
    requires
        num_files <= max_exact_file_count(),
        0 <= p < num_files,
    ensures
        folder_chain_count(num_files) > 1 ==> folder_chain_capacity(num_files)
            == OCTATRACK_MAX_FILES,
        0 <= chain_index(p, folder_chain_capacity(num_files)) < folder_chain_count(num_files),
        chain_slots(
            chain_index(p, folder_chain_capacity(num_files)),
            folder_chain_capacity(num_files),
            num_files as int,
        ).contains(p),
{
    let count = folder_chain_count(num_files);
    let capacity = folder_chain_capacity(num_files);
    assert(capacity > 0);
    lemma_fundamental_div_mod(p, capacity);
    let i = p / capacity;
    let j = p % capacity;
    assert(p == i * capacity + j) by (nonlinear_arith)
        requires
            p == capacity * i + j,
    ;
    assert(0 <= i) by (nonlinear_arith)
        requires
            p == i * capacity + j,
            0 <= j < capacity,
            0 <= p,
    ;
    lemma_fundamental_div_mod(num_files + 63int, 64);
    if count > 1 {
        assert(capacity == 64);
        assert(i < count) by (nonlinear_arith)
            requires
                p == i * 64 + j,
                0 <= j < 64,
                p < num_files,
                num_files + 63 == 64 * count + (num_files + 63) % 64,
                0 <= (num_files + 63) % 64 < 64,
        ;
    } else {
        assert(capacity == num_files);
        lemma_block_index(0, capacity, p);
        assert(count >= 1) by (nonlinear_arith)
            requires
                num_files >= 1,
                num_files + 63 == 64 * count + (num_files + 63) % 64,
                0 <= (num_files + 63) % 64 < 64,
        ;
    }
    let slots = chain_slots(i, capacity, num_files as int);
    assert(slots[j] == p);
}

/// The slots of chain `i` lie in `i * capacity .. (i + 1) * capacity` and
/// below the number of files, so two chains never share a file.
pub proof fn lemma_chain_slot_bounds(num_files: nat, i: int, k: int)
    requires
        0 <= i,
        0 <= k < chain_slots(i, folder_chain_capacity(num_files), num_files as int).len(),
    ensures
        ({
            let capacity = folder_chain_capacity(num_files);
            let s = chain_slots(i, capacity, num_files as int)[k];
            &&& i * capacity <= s < (i + 1) * capacity
            &&& s < num_files
        }),
{
    let capacity = folder_chain_capacity(num_files);
    assert((i + 1) * capacity == i * capacity + capacity) by (nonlinear_arith);
}

/// Adds `candidate` to the files picked so far unless it was picked
/// before; tells whether it was added.  A list without repetitions stays
/// without repetitions.
pub fn select_candidate(selected: &mut Vec<usize>, candidate: usize) -> (picked: bool)
    ensures
        picked == !old(selected)@.contains(candidate),
        picked ==> final(selected)@ == old(selected)@.push(candidate),
        !picked ==> final(selected)@ == old(selected)@,
        old(selected)@.no_duplicates() ==> final(selected)@.no_duplicates(),
{
    let mut found = false;
    for k in 0..selected.len()
        invariant
            found == exists|j: int| 0 <= j < k && selected@[j] == candidate,
    {
        if selected[k] == candidate {
            found = true;
        }
    }
    if found {
        false
    } else {
        proof {
            assert forall|j: int| 0 <= j < selected@.len() implies selected@[j] != candidate by {}
        }
        selected.push(candidate);
        true
    }
}

/// Calls `rand::Rng::gen_range(0, bound)` on the thread-local generator
/// (`rand::thread_rng`).  The result lies in `0 .. bound`; which value comes
/// back is left open.  The call panics when `bound` is 0.
#[verifier::external_body]
fn random_index(bound: usize) -> (r: usize)
    requires
        bound > 0,
    ensures
        r < bound,
{
    rand::thread_rng().gen_range(0, bound)
}

/// Draws one file position at random among `num_files` and picks it when
/// it was not picked before; `None` when the draw hit a file already
/// picked, which can only happen when some position below `num_files` was
/// picked before (so the first draw always succeeds).
pub fn draw_unselected(selected: &mut Vec<usize>, num_files: usize) -> (r: Option<usize>)
    requires
        num_files > 0,
    ensures
        r matches Some(p) ==> p < num_files && !old(selected)@.contains(p) && final(selected)@
            == old(selected)@.push(p),
        r is None ==> final(selected)@ == old(selected)@,
        r is None ==> exists|p: usize| p < num_files && #[trigger] old(selected)@.contains(p),
        old(selected)@.no_duplicates() ==> final(selected)@.no_duplicates(),
{
    let ghost before = selected@;
    let random_file = random_index(num_files);
    if select_candidate(selected, random_file) {
        Some(random_file)
    } else {
        assert(random_file < num_files && before.contains(random_file));
        None
    }
}

} // verus!
