use vstd::prelude::*;

use crate::text::lemma_lines_hold_no_newline;
use crate::text::line_has_no_newline;
use crate::text::spec_lines;
use crate::text::split_lines;

verus! {

/// The two prompt pools: the safe lines, and the extra lines that only the
/// combined pool offers. The combined pool is the extra lines followed by
/// all the safe lines, in that order. Both are fixed once built.
pub struct Corpus {
    pub safe: Vec<String>,
    pub non_pg: Vec<String>,
}

impl Corpus {
    /// The safe pool.
    pub open spec fn safe_lines(&self) -> Seq<Seq<char>> {
        self.safe.deep_view()
    }

    /// The lines that only the combined pool offers.
    pub open spec fn non_pg_lines(&self) -> Seq<Seq<char>> {
        self.non_pg.deep_view()
    }

    /// The pool a request draws from: the combined pool when the extra
    /// lines are allowed, the safe pool otherwise.
    pub open spec fn lines(&self, allow_non_pg: bool) -> Seq<Seq<char>> {
        if allow_non_pg {
            self.non_pg_lines() + self.safe_lines()
        } else {
            self.safe_lines()
        }
    }

    /// Well-formed: the safe pool is non-empty (so both pools are), and the
    /// combined pool is small enough for a uniform 32-bit draw.
    pub open spec fn wf(&self) -> bool {
        &&& self.safe_lines().len() > 0
        &&& self.non_pg_lines().len() + self.safe_lines().len() <= 0xffff_ffff
    }

    pub open spec fn spec_len(&self, allow_non_pg: bool) -> int {
        self.lines(allow_non_pg).len() as int
    }

    /// Builds a corpus from already-split lines. Refused when the safe pool
    /// is empty, or when the combined pool would be too large to draw from.
    pub fn from_lines(safe: Vec<String>, non_pg: Vec<String>) -> (r: Option<Corpus>)
        ensures
            match r {
                Some(c) => {
                    &&& c.wf()
                    &&& c.safe_lines() == safe.deep_view()
                    &&& c.non_pg_lines() == non_pg.deep_view()
                },
                None => safe@.len() == 0 || non_pg@.len() + safe@.len() > 0xffff_ffff,
            },
    {
        if safe.len() == 0 {
            return None;
        }
        let cap: usize = 0xffff_ffff;
        if non_pg.len() > cap || safe.len() > cap - non_pg.len() {
            return None;
        }
        Some(Corpus { safe, non_pg })
    }

    /// Builds the corpus from the two source texts: the safe pool from the
    /// first, the extra pool from the second, each split into its lines.
    /// Refused when either source is empty, since an empty source has no
    /// lines to offer.
    pub fn new(safe_text: &str, non_pg_text: &str) -> (r: Option<Corpus>)
        ensures
            match r {
                Some(c) => {
                    &&& c.wf()
                    &&& c.safe_lines() == spec_lines(safe_text@)
                    &&& c.non_pg_lines() == spec_lines(non_pg_text@)
                    &&& forall|b: bool, k: int|
                        0 <= k < c.lines(b).len() ==> line_has_no_newline(#[trigger] c.lines(b)[k])
                },
                None => safe_text@.len() == 0 || non_pg_text@.len() == 0 || spec_lines(
                    non_pg_text@,
                ).len() + spec_lines(safe_text@).len() > 0xffff_ffff,
            },
    {
        let safe = split_lines(safe_text);
        let non_pg = split_lines(non_pg_text);
        if safe.len() == 0 || non_pg.len() == 0 {
            return None;
        }
        proof {
            lemma_lines_hold_no_newline(safe_text@);
            lemma_lines_hold_no_newline(non_pg_text@);
        }
        Corpus::from_lines(safe, non_pg)
    }

    /// How many lines the chosen pool holds.
    pub fn len(&self, allow_non_pg: bool) -> (r: usize)
        requires
            self.wf(),
        ensures
            r == self.spec_len(allow_non_pg),
            0 < r <= 0xffff_ffff,
    {
        if allow_non_pg {
            self.non_pg.len() + self.safe.len()
        } else {
            self.safe.len()
        }
    }

    /// The chosen pool's line at an index, copied out.
    pub fn line_at(&self, allow_non_pg: bool, i: usize) -> (r: String)
        requires
            self.wf(),
            i < self.spec_len(allow_non_pg),
        ensures
            r@ == self.lines(allow_non_pg)[i as int],
    {
        if allow_non_pg {
            if i < self.non_pg.len() {
                self.non_pg[i].clone()
            } else {
                self.safe[i - self.non_pg.len()].clone()
            }
        } else {
            self.safe[i].clone()
        }
    }

    /// Every safe line stands in the combined pool too: the safe pool is a
    /// subset of the combined one.
    pub proof fn lemma_safe_in_combined(&self)
        ensures
            forall|i: int|
                0 <= i < self.safe_lines().len() ==> self.lines(true).contains(
                    self.safe_lines()[i],
                ),
    {
        assert forall|i: int| 0 <= i < self.safe_lines().len() implies self.lines(true).contains(
            self.safe_lines()[i],
        ) by {
            assert(self.lines(true)[self.non_pg_lines().len() + i] == self.safe_lines()[i]);
        }
    }
}

} // verus!
