//! The allow-set of labels worth tracking.

use vstd::prelude::*;

verus! {

/// Which decoded labels are worth caching and reporting.
///
/// An empty allow-set means "track every discovered label", so emptiness is
/// made explicit as its own variant rather than left as a sentinel.
#[derive(Debug)]
pub enum LabelFilter {
    /// Track every discovered label.
    MatchAll,
    /// Track only the labels in this set.
    MatchSet(Vec<String>),
}

impl LabelFilter {
    /// Whether a decoded label passes this filter.
    pub open spec fn allows(self, label: Seq<char>) -> bool {
        match self {
            LabelFilter::MatchAll => true,
            LabelFilter::MatchSet(labels) => exists|i: int|
                0 <= i < labels@.len() && labels@[i]@ == label,
        }
    }

    /// Builds the filter from the configured labels; an empty list means
    /// every label is tracked.
    pub fn from_labels(labels: Vec<String>) -> (r: Self)
        ensures
            labels@.len() == 0 ==> r == LabelFilter::MatchAll,
            labels@.len() > 0 ==> r == LabelFilter::MatchSet(labels),
    {
        if labels.len() == 0 {
            LabelFilter::MatchAll
        } else {
            LabelFilter::MatchSet(labels)
        }
    }

    /// Decides whether the given label passes this filter.
    pub fn allows_label(&self, label: &String) -> (r: bool)
        ensures
            r == self.allows(label@),
    {
        match self {
            LabelFilter::MatchAll => true,
            LabelFilter::MatchSet(labels) => contains_string(labels, label),
        }
    }
}

/// Linear search for a string among the configured labels.
fn contains_string(v: &Vec<String>, s: &String) -> (r: bool)
    ensures
        r == exists|i: int| 0 <= i < v@.len() && v@[i]@ == s@,
{
    let mut k: usize = 0;
    while k < v.len()
        invariant
            k <= v@.len(),
            forall|i: int| 0 <= i < k ==> v@[i]@ != s@,
        decreases v@.len() - k,
    {
        let candidate: &String = &v[k];
        if candidate.eq(s) {
            return true;
        }
        k += 1;
    }
    false
}

} // verus!
