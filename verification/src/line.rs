//! One row of the text buffer: an ordered sequence of grapheme clusters.

use crate::segment::grapheme_clusters;
use crate::segment::segment_clusters;
use vstd::prelude::*;
use vstd::string::StringExecFns;

verus! {

/// One row of text. The unit of indexing is the grapheme cluster, so that
/// editing multi-byte and combining characters stays consistent with the
/// caret column. Viewed as the sequence of its clusters' character
/// sequences.
pub struct Line {
    clusters: Vec<String>,
}

impl View for Line {
    type V = Seq<Seq<char>>;

    closed spec fn view(&self) -> Seq<Seq<char>> {
        self.clusters.deep_view()
    }
}

impl DeepView for Line {
    type V = Seq<Seq<char>>;

    open spec fn deep_view(&self) -> Seq<Seq<char>> {
        self.view()
    }
}

impl Line {
    /// An empty line.
    pub fn new() -> (l: Line)
        ensures
            l@ == Seq::<Seq<char>>::empty(),
    {
        let l = Line { clusters: Vec::new() };
        proof {
            assert(l@ =~= Seq::<Seq<char>>::empty());
        }
        l
    }

    /// A line holding the grapheme clusters of `s`.
    pub fn from_str(s: &str) -> (l: Line)
        ensures
            l@ == grapheme_clusters(s@),
            l@.flatten() == s@,
    {
        Line { clusters: segment_clusters(s) }
    }

    /// The number of grapheme clusters in the line.
    pub fn len(&self) -> (n: usize)
        ensures
            n == self@.len(),
    {
        self.clusters.len()
    }

    /// The grapheme cluster at index `i`.
    pub fn cluster(&self, i: usize) -> (c: &String)
        requires
            i < self@.len(),
        ensures
            c@ == self@[i as int],
    {
        &self.clusters[i]
    }

    /// Inserts the grapheme cluster `g` at cluster index `i`.
    pub fn insert(&mut self, i: usize, g: String)
        requires
            i <= old(self)@.len(),
        ensures
            final(self)@ == old(self)@.insert(i as int, g@),
    {
        let ghost prev = self.clusters.deep_view();
        let ghost gv = g@;
        self.clusters.insert(i, g);
        proof {
            assert(self.clusters.deep_view() =~= prev.insert(i as int, gv));
        }
    }

    /// Removes and returns the grapheme cluster at index `i`.
    pub fn remove(&mut self, i: usize) -> (g: String)
        requires
            i < old(self)@.len(),
        ensures
            g@ == old(self)@[i as int],
            final(self)@ == old(self)@.remove(i as int),
    {
        let ghost prev = self.clusters.deep_view();
        let g = self.clusters.remove(i);
        proof {
            assert(self.clusters.deep_view() =~= prev.remove(i as int));
        }
        g
    }

    /// Splits the line at cluster index `i`: the prefix stays, the suffix is
    /// returned.
    pub fn split_off(&mut self, i: usize) -> (suffix: Line)
        requires
            i <= old(self)@.len(),
        ensures
            final(self)@ == old(self)@.take(i as int),
            suffix@ == old(self)@.skip(i as int),
    {
        let ghost prev = self.clusters.deep_view();
        let rest = self.clusters.split_off(i);
        let suffix = Line { clusters: rest };
        proof {
            assert(self.clusters.deep_view() =~= prev.take(i as int));
            assert(suffix@ =~= prev.skip(i as int));
        }
        suffix
    }

    /// Appends the clusters of `other` onto the end of this line.
    pub fn append(&mut self, other: Line)
        ensures
            final(self)@ == old(self)@ + other@,
    {
        let ghost prev = self.clusters.deep_view();
        let ghost ov = other@;
        let mut o = other;
        self.clusters.append(&mut o.clusters);
        proof {
            assert(self.clusters.deep_view() =~= prev + ov);
        }
    }

    /// The line's content as a string: the concatenation of its clusters.
    pub fn text(&self) -> (s: String)
        ensures
            s@ == self@.flatten(),
    {
        let mut s = String::new();
        let n = self.clusters.len();
        let mut i: usize = 0;
        proof {
            assert(self@.take(0).flatten() =~= Seq::<char>::empty());
        }
        while i < n
            invariant
                i <= n,
                n == self@.len(),
                n == self.clusters@.len(),
                s@ == self@.take(i as int).flatten(),
            decreases n - i,
        {
            s.append(self.clusters[i].as_str());
            proof {
                let pre = self@.take(i as int);
                assert(self@.take(i + 1) =~= pre.push(self@[i as int]));
                pre.lemma_flatten_push(self@[i as int]);
            }
            i += 1;
        }
        proof {
            assert(self@.take(n as int) =~= self@);
        }
        s
    }
}

} // verus!
