//! Identifiers: numbers given out one after the other.

use vstd::prelude::*;

verus! {

/// The identifier after `last`, if there is one.
pub open spec fn next_uid(last: usize) -> Option<usize> {
    if last < usize::MAX {
        Some((last + 1) as usize)
    } else {
        None
    }
}

/// Gives out the identifier after `*counter`, which holds the last one
/// given out, and counts it. Starting from zero, zero is never given out,
/// and no identifier comes twice: each is greater than the one before.
/// When the greatest number was given out, nothing is left.
pub fn generate_uid(counter: &mut usize) -> (r: Option<usize>)
    ensures
        r == next_uid(*old(counter)),
        match r {
            Some(id) => *final(counter) == id && id > *old(counter) && id != 0,
            None => *final(counter) == *old(counter),
        },
{
    if *counter == usize::MAX {
        None
    } else {
        *counter = *counter + 1;
        Some(*counter)
    }
}

} // verus!
