use vstd::prelude::*;

use crate::corpus::Corpus;
use crate::request::SelectionRequest;
use crate::rng::chacha_index;
use crate::rng::draw_entropy;
use crate::rng::draw_seeded;
use crate::rng::stream_of;

verus! {

/// The line a seeded selection yields: the chosen pool's line at the index
/// the generator draws from the seed and the stream.
pub open spec fn selected_line(c: Corpus, seed: u64, step: Option<u64>, allow_non_pg: bool) -> Seq<
    char,
> {
    c.lines(allow_non_pg)[chacha_index(seed, stream_of(step), c.spec_len(allow_non_pg))]
}

/// Everything a selection promises of its result: it is a line of the pool
/// it drew from (so a safe-mode result is a safe line), and a seeded
/// selection is exactly the seed-and-step determined line.
pub open spec fn select_post(
    c: Corpus,
    seed: Option<u64>,
    step: Option<u64>,
    allow_non_pg: bool,
    r: Seq<char>,
) -> bool {
    &&& c.lines(allow_non_pg).contains(r)
    &&& !allow_non_pg ==> c.safe_lines().contains(r)
    &&& match seed {
        Some(s) => {
            &&& 0 <= chacha_index(s, stream_of(step), c.spec_len(allow_non_pg)) < c.spec_len(
                allow_non_pg,
            )
            &&& r == selected_line(c, s, step, allow_non_pg)
        },
        None => true,
    }
}

impl Corpus {
    /// Draws one prompt: deterministically from the seed and step when a
    /// seed is given, from fresh entropy otherwise.
    pub fn get_random_prompt(&self, seed: Option<u64>, step: Option<u64>, allow_non_pg: bool) -> (r:
        String)
        requires
            self.wf(),
        ensures
            select_post(*self, seed, step, allow_non_pg, r@),
    {
        let n = self.len(allow_non_pg);
        let stream: u64 = match step {
            Some(t) => t,
            None => 0,
        };
        let idx = match seed {
            Some(s) => draw_seeded(s, stream, n),
            None => draw_entropy(stream, n),
        };
        let r = self.line_at(allow_non_pg, idx);
        proof {
            assert(self.lines(allow_non_pg).contains(r@)) by {
                assert(self.lines(allow_non_pg)[idx as int] == r@);
            }
            if !allow_non_pg {
                assert(self.safe_lines().contains(r@)) by {
                    assert(self.safe_lines()[idx as int] == r@);
                }
            }
        }
        r
    }

    /// Maps a whole selection request to one prompt.
    pub fn select(&self, request: &SelectionRequest) -> (r: String)
        requires
            self.wf(),
        ensures
            select_post(*self, request.seed, request.step, request.allow_non_pg, r@),
    {
        self.get_random_prompt(request.seed, request.step, request.allow_non_pg)
    }
}

/// Determinism: two seeded selections that share the corpus, the seed, the
/// step and the pool choice yield the identical line.
pub proof fn lemma_select_deterministic(
    c: Corpus,
    seed: u64,
    step: Option<u64>,
    allow_non_pg: bool,
    r1: Seq<char>,
    r2: Seq<char>,
)
    requires
        select_post(c, Some(seed), step, allow_non_pg, r1),
        select_post(c, Some(seed), step, allow_non_pg, r2),
    ensures
        r1 == r2,
{
}

/// Safe-mode correctness: a selection made without allowing the extra pool
/// is a member of the safe pool.
pub proof fn lemma_safe_mode_stays_safe(
    c: Corpus,
    seed: Option<u64>,
    step: Option<u64>,
    r: Seq<char>,
)
    requires
        select_post(c, seed, step, false, r),
    ensures
        c.safe_lines().contains(r),
{
}

} // verus!
