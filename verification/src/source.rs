//! A submitted source text's accumulating diagnostics.
//!
//! Diagnostics are append-only; once any is attached, code generation and
//! execution are skipped and the formatted block is reported as one compile
//! error.

use vstd::prelude::*;

verus! {

/// The concatenation of a sequence of text fragments.
pub open spec fn concat_texts(ds: Seq<Seq<char>>) -> Seq<char>
    decreases ds.len(),
{
    if ds.len() == 0 {
        Seq::empty()
    } else {
        concat_texts(ds.drop_last()) + ds.last()
    }
}

/// An append-only list of diagnostics attached to one submission.
pub struct Source {
    diagnostics: Vec<String>,
}

impl View for Source {
    type V = Seq<Seq<char>>;

    closed spec fn view(&self) -> Seq<Seq<char>> {
        self.diagnostics@.map_values(|s: String| s@)
    }
}

impl Source {
    /// A source with no diagnostics yet.
    pub fn new() -> (s: Source)
        ensures
            s@ == Seq::<Seq<char>>::empty(),
    {
        let s = Source { diagnostics: Vec::new() };
        proof {
            assert(s@ =~= Seq::<Seq<char>>::empty());
        }
        s
    }

    /// Attaches one diagnostic.
    pub fn add_diagnostic(&mut self, d: String)
        ensures
            final(self)@ == old(self)@.push(d@),
    {
        let ghost dv = d@;
        self.diagnostics.push(d);
        proof {
            assert(self@ =~= old(self)@.push(dv));
        }
    }

    /// Whether compilation may proceed.
    pub fn has_no_errors(&self) -> (b: bool)
        ensures
            b <==> self@.len() == 0,
    {
        self.diagnostics.len() == 0
    }

    /// All diagnostics as one formatted block, in the order they were
    /// attached.
    pub fn format_diagnostics(&self) -> (s: String)
        ensures
            s@ == concat_texts(self@),
    {
        let mut s = String::new();
        let mut i: usize = 0;
        while i < self.diagnostics.len()
            invariant
                i <= self.diagnostics.len(),
                s@ == concat_texts(self@.take(i as int)),
            decreases self.diagnostics.len() - i,
        {
            s.append(self.diagnostics[i].as_str());
            proof {
                assert(self@.take(i + 1).drop_last() =~= self@.take(i as int));
                assert(self@.take(i + 1).last() == self@[i as int]);
            }
            i = i + 1;
        }
        proof {
            assert(self@.take(i as int) =~= self@);
        }
        s
    }
}

} // verus!
