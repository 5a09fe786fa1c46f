//! Grapheme-cluster segmentation, supplied by the `unicode-segmentation`
//! crate. Everything else in the crate indexes text by grapheme clusters,
//! never by code points or bytes.

use unicode_segmentation::UnicodeSegmentation;
use vstd::prelude::*;

verus! {

/// The sequence of extended grapheme clusters of a string of characters, in
/// order, as the `unicode-segmentation` crate computes it. The segmentation
/// depends on the characters alone.
pub uninterp spec fn grapheme_clusters(s: Seq<char>) -> Seq<Seq<char>>;

/// Relies on `UnicodeSegmentation::graphemes` of the `unicode-segmentation`
/// crate: iterates over the extended grapheme clusters of a string. The
/// clusters are non-empty substrings of the input and their concatenation,
/// in order, is the input.
#[verifier::external_body]
pub fn segment_clusters(s: &str) -> (r: Vec<String>)
    ensures
        r.deep_view() == grapheme_clusters(s@),
        r.deep_view().flatten() == s@,
        forall|i: int| 0 <= i < r.deep_view().len() ==> r.deep_view()[i].len() > 0,
{
    let mut clusters = Vec::new();
    for g in UnicodeSegmentation::graphemes(s, true) {
        clusters.push(g.to_string());
    }
    clusters
}

/// Relies on `String::from(char)`: allocates a string holding exactly the
/// one character.
#[verifier::external_body]
pub fn cluster_of_char(c: char) -> (s: String)
    ensures
        s@ == seq![c],
{
    String::from(c)
}

} // verus!
