//! The Codex program: its name, and which `PATH` entry holds it.

use vstd::prelude::*;

verus! {

/// The file name of the Codex program.
pub fn binary_name() -> (r: &'static str)
    ensures
        r@ == "codex"@,
{
    "codex"
}


/// Which candidate is the program: given, for each `PATH` entry in order,
/// whether the entry joined with the program's name is a file, the first
/// one that is; none when no entry holds it.
pub fn first_file(is_file: &[bool]) -> (r: Option<usize>)
    ensures
        match r {
            Some(i) => i < is_file@.len() && is_file@[i as int] && forall|j: int|
                0 <= j < i ==> !#[trigger] is_file@[j],
            None => forall|j: int| 0 <= j < is_file@.len() ==> !#[trigger] is_file@[j],
        },
{
    let mut i: usize = 0;
    while i < is_file.len()
        invariant
            i <= is_file@.len(),
            forall|j: int| 0 <= j < i ==> !#[trigger] is_file@[j],
        decreases is_file@.len() - i,
    {
        if is_file[i] {
            return Some(i);
        }
        i = i + 1;
    }
    None
}

}
