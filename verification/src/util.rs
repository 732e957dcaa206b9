//! Small helpers shared by the write paths.

use vstd::prelude::*;

verus! {

/// Tells whether some value occurs at two different positions of `values`.
///
/// Values are compared as exact, case-sensitive strings.
pub fn contains_duplicates(values: &Vec<String>) -> (found: bool)
    ensures
        found == !values.deep_view().no_duplicates(),
{
    let ghost names = values.deep_view();
    let mut i: usize = 0;
    while i < values.len()
        invariant
            i <= values.len(),
            names == values.deep_view(),
            forall|a: int, b: int|
                0 <= a < i && 0 <= b < names.len() && a != b ==> names[a] != names[b],
        decreases values.len() - i,
    {
        let mut j: usize = i + 1;
        while j < values.len()
            invariant
                i < values.len(),
                i < j <= values.len(),
                names == values.deep_view(),
                forall|b: int| i < b < j ==> names[i as int] != names[b],
            decreases values.len() - j,
        {
            if values[i] == values[j] {
                assert(names[i as int] == names[j as int]);
                return true;
            }
            j += 1;
        }
        i += 1;
    }
    false
}

} // verus!
