use vstd::prelude::*;

verus! {

/// Index of the first newline character in `s`, or `s.len()` if there is none.
pub open spec fn find_newline(s: Seq<char>) -> int
    decreases s.len(),
{
    if s.len() == 0 {
        0
    } else if s[0] == '\n' {
        0
    } else {
        1 + find_newline(s.drop_first())
    }
}

/// A line with a trailing carriage return removed: when a line is cut at a
/// newline, a carriage return just before it belongs to the terminator.
pub open spec fn strip_carriage_return(l: Seq<char>) -> Seq<char> {
    if l.len() > 0 && l.last() == '\r' {
        l.drop_last()
    } else {
        l
    }
}

/// The lines of `s`: segments cut at each newline, a carriage return before
/// the newline dropped with it. A final terminator closes the last line
/// rather than opening an empty one, and an empty text has no lines.
pub open spec fn spec_lines(s: Seq<char>) -> Seq<Seq<char>>
    decreases s.len(),
{
    if s.len() == 0 {
        Seq::empty()
    } else {
        let i = find_newline(s);
        if 0 <= i < s.len() {
            seq![strip_carriage_return(s.take(i))] + spec_lines(s.skip(i + 1))
        } else {
            seq![s]
        }
    }
}

/// Whether a line is free of newline characters.
pub open spec fn line_has_no_newline(l: Seq<char>) -> bool {
    forall|j: int| 0 <= j < l.len() ==> l[j] != '\n'
}

pub proof fn lemma_find_newline_bounds(s: Seq<char>)
    ensures
        0 <= find_newline(s) <= s.len(),
        forall|j: int| 0 <= j < find_newline(s) ==> s[j] != '\n',
    decreases s.len(),
{
    if s.len() == 0 {
    } else if s[0] == '\n' {
    } else {
        lemma_find_newline_bounds(s.drop_first());
        assert forall|j: int| 0 <= j < find_newline(s) implies s[j] != '\n' by {
            if j > 0 {
                assert(s.drop_first()[j - 1] == s[j]);
            }
        }
    }
}

/// No split line holds a newline: the terminators all fell away.
pub proof fn lemma_lines_hold_no_newline(s: Seq<char>)
    ensures
        forall|k: int|
            0 <= k < spec_lines(s).len() ==> line_has_no_newline(#[trigger] spec_lines(s)[k]),
    decreases s.len(),
{
    lemma_find_newline_bounds(s);
    if s.len() == 0 {
    } else {
        let i = find_newline(s);
        if 0 <= i < s.len() {
            lemma_lines_hold_no_newline(s.skip(i + 1));
            assert forall|k: int| 0 <= k < spec_lines(s).len() implies line_has_no_newline(
                #[trigger] spec_lines(s)[k],
            ) by {
                if k == 0 {
                    let head = strip_carriage_return(s.take(i));
                    assert forall|j: int| 0 <= j < head.len() implies head[j] != '\n' by {
                        assert(head[j] == s[j]);
                    }
                } else {
                    assert(spec_lines(s)[k] == spec_lines(s.skip(i + 1))[k - 1]);
                }
            }
        } else {
            assert(i == s.len());
        }
    }
}

pub proof fn lemma_find_newline_at(s: Seq<char>, k: int)
    requires
        0 <= k <= s.len(),
        forall|j: int| 0 <= j < k ==> s[j] != '\n',
        k < s.len() ==> s[k] == '\n',
    ensures
        find_newline(s) == k,
    decreases s.len(),
{
    if s.len() == 0 {
    } else if s[0] == '\n' {
        assert(k == 0);
    } else {
        assert(k >= 1);
        assert forall|j: int| 0 <= j < k - 1 implies s.drop_first()[j] != '\n' by {
            assert(s.drop_first()[j] == s[j + 1]);
        }
        if k - 1 < s.drop_first().len() {
            assert(s.drop_first()[k - 1] == s[k]);
        }
        lemma_find_newline_at(s.drop_first(), k - 1);
    }
}

/// Character-for-character equality of two string slices.
pub fn str_eq(a: &str, b: &str) -> (r: bool)
    ensures
        r == (a@ == b@),
{
    let alen = a.unicode_len();
    let blen = b.unicode_len();
    if alen != blen {
        return false;
    }
    for i in 0..alen
        invariant
            alen == a@.len(),
            alen == b@.len(),
            forall|j: int| 0 <= j < i ==> a@[j] == b@[j],
    {
        if a.get_char(i) != b.get_char(i) {
            return false;
        }
    }
    proof {
        assert(a@ =~= b@);
    }
    true
}

/// Splits a text into its lines, as `spec_lines` describes them.
pub fn split_lines(s: &str) -> (r: Vec<String>)
    ensures
        r.deep_view() == spec_lines(s@),
{
    let n = s.unicode_len();
    let mut r: Vec<String> = Vec::new();
    let mut start: usize = 0;
    let mut i: usize = 0;
    proof {
        assert(s@.skip(0) =~= s@);
        assert(r.deep_view() =~= Seq::<Seq<char>>::empty());
        assert(r.deep_view() + spec_lines(s@) =~= spec_lines(s@));
    }
    while i < n
        invariant
            n == s@.len(),
            start <= i <= n,
            forall|j: int| start <= j < i ==> s@[j] != '\n',
            r.deep_view() + spec_lines(s@.skip(start as int)) == spec_lines(s@),
        decreases n - i,
    {
        if s.get_char(i) == '\n' {
            let ghost prev = r.deep_view();
            let ghost tail = s@.skip(start as int);
            let mut end = i;
            if end > start && s.get_char(end - 1) == '\r' {
                end = end - 1;
            }
            let line = s.substring_char(start, end).to_owned();
            proof {
                assert forall|j: int| 0 <= j < i - start implies tail[j] != '\n' by {
                    assert(tail[j] == s@[start + j]);
                }
                assert(tail[i - start] == s@[i as int]);
                lemma_find_newline_at(tail, i - start);
                assert(tail.take(i - start) =~= s@.subrange(start as int, i as int));
                assert(tail.skip(i - start + 1) =~= s@.skip(i + 1));
                assert(line@ =~= strip_carriage_return(s@.subrange(start as int, i as int)));
                assert(spec_lines(tail) == seq![line@] + spec_lines(s@.skip(i + 1)));
            }
            r.push(line);
            proof {
                assert(r.deep_view() =~= prev.push(line@));
                assert(prev.push(line@) + spec_lines(s@.skip(i + 1)) =~= prev + spec_lines(tail));
            }
            start = i + 1;
        }
        i = i + 1;
    }
    if start < n {
        let ghost prev = r.deep_view();
        let ghost tail = s@.skip(start as int);
        let line = s.substring_char(start, n).to_owned();
        proof {
            assert forall|j: int| 0 <= j < tail.len() implies tail[j] != '\n' by {
                assert(tail[j] == s@[start + j]);
            }
            lemma_find_newline_at(tail, tail.len() as int);
            assert(line@ =~= tail);
            assert(spec_lines(tail) == seq![tail]);
        }
        r.push(line);
        proof {
            assert(r.deep_view() =~= prev.push(line@));
            assert(prev.push(tail) =~= prev + seq![tail]);
        }
    } else {
        proof {
            assert(s@.skip(start as int) =~= Seq::<char>::empty());
            assert(r.deep_view() + spec_lines(s@.skip(start as int)) =~= r.deep_view());
        }
    }
    r
}

} // verus!
