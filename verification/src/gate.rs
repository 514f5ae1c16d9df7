//! The politeness side of the fetch gate: tracks the origins contacted
//! since the last enforced pause and decides when a burst of same-origin
//! requests must wait. The caller performs the actual delay and fetch.

use vstd::prelude::*;
use crate::text::str_eq;

verus! {

/// Whether an HTTP status code is in the success class. A non-success
/// status is never retried: the calling scraper treats it as "no more
/// items available this cycle".
pub fn status_is_success(status: u16) -> (r: bool)
    ensures
        r == (200 <= status < 300),
{
    200 <= status && status < 300
}

/// The character sequences of the tracked origin strings.
pub open spec fn origin_views(origins: Seq<String>) -> Seq<Seq<char>> {
    origins.map_values(|s: String| s@)
}

/// Tracks the origins contacted since the last enforced politeness pause.
pub struct FetchGate {
    pub origins: Vec<String>,
}

impl FetchGate {
    /// Creates a gate with no origin tracked.
    pub fn new() -> (r: Self)
        ensures
            r.origins@.len() == 0,
    {
        FetchGate { origins: Vec::new() }
    }

    /// Notes a request to `origin` and decides whether the politeness
    /// delay is owed first. A recurring origin clears the tracked set and
    /// demands the delay; a newly seen origin is tracked and proceeds at
    /// once.
    pub fn note_origin(&mut self, origin: &str) -> (delay: bool)
        ensures
            delay == origin_views(old(self).origins@).contains(origin@),
            delay ==> final(self).origins@.len() == 0,
            !delay ==> origin_views(final(self).origins@) == origin_views(
                old(self).origins@,
            ).push(origin@),
    {
        let mut i: usize = 0;
        let mut found = false;
        while i < self.origins.len() && !found
            invariant
                0 <= i <= self.origins@.len(),
                self.origins@ == old(self).origins@,
                found ==> origin_views(self.origins@).contains(origin@),
                !found ==> forall|j: int| 0 <= j < i ==> origin_views(self.origins@)[j] != origin@,
            decreases self.origins@.len() - i, (if found { 0int } else { 1int }),
        {
            if str_eq(self.origins[i].as_str(), origin) {
                found = true;
                proof {
                    assert(origin_views(self.origins@)[i as int] == origin@);
                    assert(origin_views(self.origins@).contains(origin@));
                }
            } else {
                i = i + 1;
            }
        }
        if found {
            self.origins = Vec::new();
            true
        } else {
            proof {
                assert(!origin_views(self.origins@).contains(origin@)) by {
                    if origin_views(self.origins@).contains(origin@) {
                        let j = choose|j: int|
                            0 <= j < origin_views(self.origins@).len() && origin_views(
                                self.origins@,
                            )[j] == origin@;
                        assert(origin_views(self.origins@)[j] != origin@);
                    }
                }
            }
            let ghost origins0 = self.origins@;
            self.origins.push(origin.to_owned());
            proof {
                assert(origin_views(self.origins@) =~= origin_views(origins0).push(origin@));
            }
            false
        }
    }
}

} // verus!
