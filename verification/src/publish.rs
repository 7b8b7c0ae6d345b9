//! Publication, which is answered here and done elsewhere.

use vstd::prelude::*;

verus! {

/// The acknowledgement of a request to publish.
pub fn post_publish() -> (body: &'static str)
    ensures
        body@ == "Publish"@,
{
    "Publish"
}

} // verus!
