//! Display helpers shared by the text front end.

use vstd::prelude::*;
use vstd::string::StringExecFns;

verus! {

/// Naive English pluralization: the word gains an `s` exactly when the count
/// calls for a plural.
pub fn pluralize(word: &str, count: usize) -> (r: String)
    ensures
        count > 1 ==> r@ == word@ + "s"@,
        count <= 1 ==> r@ == word@,
{
    if count > 1 {
        let owned = String::from_str(word);
        owned.concat("s")
    } else {
        String::from_str(word)
    }
}

} // verus!
