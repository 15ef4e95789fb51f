use vstd::prelude::*;

verus! {

pub open spec fn is_decimal_digit(c: char) -> bool {
    48 <= c as int <= 57
}

pub open spec fn digit_value(c: char) -> int {
    c as int - 48
}

pub open spec fn all_decimal_digits(s: Seq<char>) -> bool {
    forall|i: int| 0 <= i < s.len() ==> is_decimal_digit(s[i])
}

/// The value of a digit string read in base ten.
pub open spec fn decimal_value(s: Seq<char>) -> int
    decreases s.len(),
{
    if s.len() == 0 {
        0
    } else {
        decimal_value(s.drop_last()) * 10 + digit_value(s.last())
    }
}

/// The digit part of a written number: one leading plus sign is accepted.
pub open spec fn digits_of(s: Seq<char>) -> Seq<char> {
    if s.len() > 0 && s[0] == '+' {
        s.drop_first()
    } else {
        s
    }
}

/// What parsing `s` as an unsigned 64-bit number yields: its value when `s`
/// is an optional plus sign followed by one or more decimal digits and the
/// value fits in 64 bits; nothing otherwise.
pub open spec fn spec_parse_u64(s: Seq<char>) -> Option<u64> {
    let d = digits_of(s);
    if d.len() > 0 && all_decimal_digits(d) && decimal_value(d) <= u64::MAX {
        Some(decimal_value(d) as u64)
    } else {
        None
    }
}

pub proof fn lemma_decimal_value_nonneg(s: Seq<char>)
    requires
        all_decimal_digits(s),
    ensures
        decimal_value(s) >= 0,
    decreases s.len(),
{
    if s.len() > 0 {
        assert forall|i: int| 0 <= i < s.drop_last().len() implies is_decimal_digit(
            s.drop_last()[i],
        ) by {
            assert(s.drop_last()[i] == s[i]);
        }
        lemma_decimal_value_nonneg(s.drop_last());
    }
}

pub proof fn lemma_decimal_prefix_step(s: Seq<char>, i: int)
    requires
        0 <= i < s.len(),
    ensures
        decimal_value(s.take(i + 1)) == decimal_value(s.take(i)) * 10 + digit_value(s[i]),
{
    assert(s.take(i + 1).drop_last() =~= s.take(i));
    assert(s.take(i + 1).last() == s[i]);
}

/// The value of a digit string never falls when more digits follow.
pub proof fn lemma_decimal_prefix_le(s: Seq<char>, i: int)
    requires
        all_decimal_digits(s),
        0 <= i <= s.len(),
    ensures
        decimal_value(s.take(i)) <= decimal_value(s),
    decreases s.len() - i,
{
    if i == s.len() {
        assert(s.take(i) =~= s);
    } else {
        assert forall|j: int| 0 <= j < s.take(i).len() implies is_decimal_digit(
            s.take(i)[j],
        ) by {
            assert(s.take(i)[j] == s[j]);
        }
        lemma_decimal_value_nonneg(s.take(i));
        lemma_decimal_prefix_step(s, i);
        lemma_decimal_prefix_le(s, i + 1);
    }
}

/// Parses an unsigned 64-bit number, exactly as `spec_parse_u64` describes.
pub fn parse_u64(s: &str) -> (r: Option<u64>)
    ensures
        r == spec_parse_u64(s@),
{
    let n = s.unicode_len();
    let mut i: usize = 0;
    if n > 0 && s.get_char(0) == '+' {
        i = 1;
    }
    let ghost d = digits_of(s@);
    proof {
        assert(d =~= s@.skip(i as int));
    }
    if i == n {
        return None;
    }
    let mut acc: u64 = 0;
    let mut j: usize = i;
    while j < n
        invariant
            n == s@.len(),
            i <= j <= n,
            i < n,
            d == digits_of(s@),
            d == s@.skip(i as int),
            all_decimal_digits(d.take(j - i)),
            acc == decimal_value(d.take(j - i)),
        decreases n - j,
    {
        let c = s.get_char(j);
        proof {
            assert(d[j - i] == s@[j as int]);
        }
        let v = c as u32;
        proof {
            assert(v as int == c as int);
        }
        if v < 48 || v > 57 {
            proof {
                assert(!is_decimal_digit(d[j - i]));
                assert(!all_decimal_digits(d));
            }
            return None;
        }
        let dv: u64 = (v - 48) as u64;
        let wide: u128 = acc as u128 * 10 + dv as u128;
        proof {
            lemma_decimal_prefix_step(d, j - i);
            assert(wide == decimal_value(d.take(j - i + 1)));
            assert forall|k: int| 0 <= k < d.take(j - i + 1).len() implies is_decimal_digit(
                #[trigger] d.take(j - i + 1)[k],
            ) by {
                assert(d.take(j - i + 1)[k] == d[k]);
            }
        }
        if wide > u64::MAX as u128 {
            proof {
                if all_decimal_digits(d) {
                    lemma_decimal_prefix_le(d, j - i + 1);
                    assert(decimal_value(d) > u64::MAX);
                }
            }
            return None;
        }
        acc = wide as u64;
        j = j + 1;
    }
    proof {
        assert(d.take(n - i) =~= d);
    }
    Some(acc)
}

} // verus!
