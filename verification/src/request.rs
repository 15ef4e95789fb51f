use vstd::prelude::*;

use crate::parse::parse_u64;
use crate::parse::spec_parse_u64;
use crate::text::str_eq;
use qstring::QString;
use vstd::utf8::is_ascii_chars;

verus! {

/// A request for one prompt: an optional seed for reproducibility, an
/// optional stream index, and whether the combined pool may be drawn from.
pub struct SelectionRequest {
    pub seed: Option<u64>,
    pub step: Option<u64>,
    pub allow_non_pg: bool,
}

impl SelectionRequest {
    /// The request that no query parameters at all describe: unseeded, on
    /// the default stream, drawing from the safe pool.
    pub open spec fn spec_default() -> SelectionRequest {
        SelectionRequest { seed: None, step: None, allow_non_pg: false }
    }
}

impl Default for SelectionRequest {
    fn default() -> (r: Self)
        ensures
            r == Self::spec_default(),
    {
        SelectionRequest { seed: None, step: None, allow_non_pg: false }
    }
}

/// The key-value pairs a query string denotes, in the order they stand in it.
pub uninterp spec fn query_pairs_of(q: Seq<char>) -> Seq<(Seq<char>, Seq<char>)>;

/// Relies on qstring's `QString`: `from` parses the query text and
/// `into_pairs` hands the decoded pairs over in order; they depend on the
/// text alone. The parser slices the text byte by byte and panics on a
/// multi-byte character, so only ASCII queries may reach it.
#[verifier::external_body]
fn parse_query_pairs(q: &str) -> (r: Vec<(String, String)>)
    requires
        is_ascii_chars(q@),
    ensures
        r.deep_view() == query_pairs_of(q@),
{
    QString::from(q).into_pairs()
}

/// The value of the first pair carrying the given key, if any.
pub open spec fn first_value(ps: Seq<(Seq<char>, Seq<char>)>, key: Seq<char>) -> Option<Seq<char>>
    decreases ps.len(),
{
    if ps.len() == 0 {
        None
    } else if ps[0].0 == key {
        Some(ps[0].1)
    } else {
        first_value(ps.drop_first(), key)
    }
}

proof fn lemma_first_value_skip(ps: Seq<(Seq<char>, Seq<char>)>, key: Seq<char>, i: int)
    requires
        0 <= i <= ps.len(),
        forall|j: int| 0 <= j < i ==> (#[trigger] ps[j]).0 != key,
    ensures
        first_value(ps, key) == first_value(ps.skip(i), key),
    decreases i,
{
    if i == 0 {
        assert(ps.skip(0) =~= ps);
    } else {
        assert(ps[0].0 != key);
        assert(ps.drop_first() =~= ps.skip(1));
        assert forall|j: int| 0 <= j < i - 1 implies (#[trigger] ps.skip(1)[j]).0 != key by {
            assert(ps.skip(1)[j] == ps[j + 1]);
        }
        lemma_first_value_skip(ps.skip(1), key, i - 1);
        assert(ps.skip(1).skip(i - 1) =~= ps.skip(i));
    }
}

/// The first value a query's pairs carry for a key, copied out.
fn first_param(pairs: &Vec<(String, String)>, key: &str) -> (r: Option<String>)
    ensures
        match r {
            Some(v) => first_value(pairs.deep_view(), key@) == Some(v@),
            None => first_value(pairs.deep_view(), key@) is None,
        },
{
    let ghost ps = pairs.deep_view();
    let mut i: usize = 0;
    while i < pairs.len()
        invariant
            ps == pairs.deep_view(),
            0 <= i <= pairs.len(),
            forall|j: int| 0 <= j < i ==> (#[trigger] ps[j]).0 != key@,
        decreases pairs.len() - i,
    {
        if str_eq(pairs[i].0.as_str(), key) {
            let v = pairs[i].1.clone();
            proof {
                lemma_first_value_skip(ps, key@, i as int);
                assert(ps.skip(i as int)[0] == ps[i as int]);
                assert(ps[i as int].0 == key@);
            }
            return Some(v);
        }
        i = i + 1;
    }
    proof {
        lemma_first_value_skip(ps, key@, ps.len() as int);
        assert(ps.skip(ps.len() as int) =~= Seq::<(Seq<char>, Seq<char>)>::empty());
    }
    None
}

/// An absent or unparseable number counts as absent.
pub open spec fn opt_parsed(v: Option<Seq<char>>) -> Option<u64> {
    match v {
        Some(s) => spec_parse_u64(s),
        None => None,
    }
}

/// The request that a query's pairs describe: seed and step from their
/// first values where those parse as numbers, and the extra pool allowed
/// only when the first `allow_non_pg` value is exactly "true".
pub open spec fn request_from_pairs(ps: Seq<(Seq<char>, Seq<char>)>) -> SelectionRequest {
    SelectionRequest {
        seed: opt_parsed(first_value(ps, "seed"@)),
        step: opt_parsed(first_value(ps, "step"@)),
        allow_non_pg: match first_value(ps, "allow_non_pg"@) {
            Some(v) => v == "true"@,
            None => false,
        },
    }
}

pub open spec fn view_query(q: Option<&str>) -> Option<Seq<char>> {
    match q {
        Some(s) => Some(s@),
        None => None,
    }
}

/// The request an optional query string describes. A query that is not
/// ASCII carries no parameters: the parser accepts only single-byte
/// characters, so such a query reads as the default request.
pub open spec fn request_from_query(q: Option<Seq<char>>) -> SelectionRequest {
    match q {
        Some(t) => if is_ascii_chars(t) {
            request_from_pairs(query_pairs_of(t))
        } else {
            SelectionRequest::spec_default()
        },
        None => SelectionRequest::spec_default(),
    }
}

impl SelectionRequest {
    /// Reads a request from an optional query string. Each parameter is
    /// taken from its first occurrence; a missing or malformed one falls
    /// back to its default rather than failing, and a non-ASCII query
    /// falls back whole, as `request_from_query` describes.
    pub fn from_query(query: Option<&str>) -> (r: SelectionRequest)
        ensures
            r == request_from_query(view_query(query)),
    {
        match query {
            None => SelectionRequest { seed: None, step: None, allow_non_pg: false },
            Some(q) => {
                if !q.is_ascii() {
                    return SelectionRequest { seed: None, step: None, allow_non_pg: false };
                }
                let pairs = parse_query_pairs(q);
                let seed = match first_param(&pairs, "seed") {
                    Some(v) => parse_u64(v.as_str()),
                    None => None,
                };
                let step = match first_param(&pairs, "step") {
                    Some(v) => parse_u64(v.as_str()),
                    None => None,
                };
                let allow_non_pg = match first_param(&pairs, "allow_non_pg") {
                    Some(v) => str_eq(v.as_str(), "true"),
                    None => false,
                };
                SelectionRequest { seed, step, allow_non_pg }
            },
        }
    }
}

/// Malformed-parameter tolerance: pairs whose seed value does not parse as
/// a number describe the very request that pairs carrying no seed at all
/// describe, when their step and allow values agree.
pub proof fn lemma_malformed_seed_ignored(
    ps1: Seq<(Seq<char>, Seq<char>)>,
    ps2: Seq<(Seq<char>, Seq<char>)>,
)
    requires
        match first_value(ps1, "seed"@) {
            Some(v) => spec_parse_u64(v) is None,
            None => true,
        },
        first_value(ps2, "seed"@) is None,
        first_value(ps1, "step"@) == first_value(ps2, "step"@),
        first_value(ps1, "allow_non_pg"@) == first_value(ps2, "allow_non_pg"@),
    ensures
        request_from_pairs(ps1) == request_from_pairs(ps2),
{
}

} // verus!
