use vstd::prelude::*;
use vstd::utf8::encode_utf8;

verus! {

/// One more than the largest `i64`: the magnitude of the smallest.
const LIMIT: u128 = 9223372036854775808;

/// '0' to '9', as a byte.
pub open spec fn is_digit_byte(b: u8) -> bool {
    48 <= b <= 57
}

/// The number that a run of decimal digit bytes spells.
pub open spec fn digits_value(s: Seq<u8>) -> int
    decreases s.len(),
{
    if s.len() == 0 {
        0
    } else {
        digits_value(s.drop_last()) * 10 + (s.last() - 48)
    }
}

pub open spec fn all_digits(s: Seq<u8>) -> bool {
    forall|i: int| 0 <= i < s.len() ==> is_digit_byte(#[trigger] s[i])
}

/// An optional `+` or `-` followed by one or more decimal digits, and the number
/// it spells.
pub open spec fn decimal_value(s: Seq<u8>) -> Option<int> {
    let signed = s.len() > 0 && (s[0] == 45 || s[0] == 43);
    let body = if signed { s.subrange(1, s.len() as int) } else { s };
    if body.len() == 0 || !all_digits(body) {
        None
    } else if s[0] == 45 {
        Some(-digits_value(body))
    } else {
        Some(digits_value(body))
    }
}

/// The text read as a decimal `i64`, as `str::parse::<i64>` reads it: `None`
/// where it is not one or the number does not fit.
pub open spec fn i64_value(text: Seq<char>) -> Option<int> {
    match decimal_value(encode_utf8(text)) {
        Some(v) => if i64::MIN <= v <= i64::MAX {
            Some(v)
        } else {
            None
        },
        None => None,
    }
}

proof fn lemma_digits_nonneg(s: Seq<u8>)
    requires
        all_digits(s),
    ensures
        digits_value(s) >= 0,
    decreases s.len(),
{
    if s.len() > 0 {
        assert(all_digits(s.drop_last())) by {
            assert forall|i: int| 0 <= i < s.drop_last().len() implies is_digit_byte(#[trigger] s.drop_last()[i]) by {
                assert(s.drop_last()[i] == s[i]);
            }
        }
        lemma_digits_nonneg(s.drop_last());
        assert(is_digit_byte(s[s.len() - 1]));
    }
}

proof fn lemma_digits_prefix_le(s: Seq<u8>, i: int)
    requires
        all_digits(s),
        0 <= i <= s.len(),
    ensures
        digits_value(s.subrange(0, i)) <= digits_value(s),
    decreases s.len(),
{
    if i == s.len() {
        assert(s.subrange(0, i) =~= s);
    } else {
        let t = s.drop_last();
        assert(all_digits(t)) by {
            assert forall|j: int| 0 <= j < t.len() implies is_digit_byte(#[trigger] t[j]) by {
                assert(t[j] == s[j]);
            }
        }
        lemma_digits_prefix_le(t, i);
        assert(t.subrange(0, i) =~= s.subrange(0, i));
        lemma_digits_nonneg(t);
        assert(is_digit_byte(s[s.len() - 1]));
    }
}

/// Reads `s` as a decimal `i64`.
pub fn parse_i64(s: &str) -> (r: Option<i64>)
    ensures
        match r {
            Some(v) => i64_value(s@) == Some(v as int),
            None => i64_value(s@) is None,
        },
{
    let bytes = s.as_bytes();
    let ghost all = bytes@;
    let n = bytes.len();
    if n == 0 {
        return None;
    }
    let negative = bytes[0] == 45u8;
    let signed = negative || bytes[0] == 43u8;
    let start: usize = if signed { 1 } else { 0 };
    let ghost body = if signed { all.subrange(1, all.len() as int) } else { all };
    if start == n {
        return None;
    }
    let mut magnitude: u128 = 0;
    let mut j: usize = start;
    while j < n
        invariant
            all == bytes@,
            all == encode_utf8(s@),
            n == all.len(),
            start <= j <= n,
            start == 0 || start == 1,
            n > 0,
            (start == 1) <==> (all[0] == 45 || all[0] == 43),
            negative <==> all[0] == 45,
            body == all.subrange(start as int, all.len() as int),
            forall|i: int| start <= i < j ==> is_digit_byte(#[trigger] all[i]),
            magnitude == digits_value(all.subrange(start as int, j as int)),
            magnitude <= LIMIT,
        decreases n - j,
    {
        let b = bytes[j];
        proof {
            assert(body[j - start] == all[j as int]);
        }
        if b < 48u8 || b > 57u8 {
            proof {
                assert(!is_digit_byte(body[j - start]));
            }
            return None;
        }
        let d = (b - 48u8) as u128;
        proof {
            assert(all.subrange(start as int, j + 1).drop_last() =~= all.subrange(start as int, j as int));
            assert(all.subrange(start as int, j + 1).last() == b);
        }
        let ghost prev = magnitude;
        magnitude = magnitude * 10 + d;
        proof {
            assert(magnitude == prev * 10 + d);
            assert(magnitude == digits_value(all.subrange(start as int, j + 1)));
        }
        if magnitude > LIMIT {
            proof {
                if all_digits(body) {
                    assert(body.subrange(0, j + 1 - start) =~= all.subrange(start as int, j + 1));
                    lemma_digits_prefix_le(body, j + 1 - start);
                    assert(digits_value(body) > LIMIT);
                    if start == 0 {
                        assert(body =~= all);
                    }
                }
            }
            return None;
        }
        j = j + 1;
    }
    proof {
        assert(all.subrange(start as int, n as int) =~= body);
        assert(all_digits(body)) by {
            assert forall|i: int| 0 <= i < body.len() implies is_digit_byte(#[trigger] body[i]) by {
                assert(body[i] == all[i + start]);
            }
        }
    }
    if negative {
        if magnitude == LIMIT {
            Some(i64::MIN)
        } else {
            Some(-(magnitude as i64))
        }
    } else if magnitude == LIMIT {
        None
    } else {
        Some(magnitude as i64)
    }
}

/// How many matches to show: the argument as a number, or one where it is
/// missing or not a number that fits an `i32`.
pub open spec fn count_spec(arg: Seq<char>) -> int {
    match i64_value(arg) {
        Some(v) => if i32::MIN <= v <= i32::MAX {
            v
        } else {
            1
        },
        None => 1,
    }
}

/// Reads the count argument of the match-listing commands.
pub fn parse_count(arg: &str) -> (count: i32)
    ensures
        count == count_spec(arg@),
{
    match parse_i64(arg) {
        Some(v) => if i32::MIN as i64 <= v && v <= i32::MAX as i64 {
            v as i32
        } else {
            1
        },
        None => 1,
    }
}

/// Reads a match id: a positive number, else `None`.
pub fn parse_match_id(arg: &str) -> (id: Option<i64>)
    ensures
        match id {
            Some(v) => v > 0 && i64_value(arg@) == Some(v as int),
            None => match i64_value(arg@) {
                Some(v) => v <= 0,
                None => true,
            },
        },
{
    match parse_i64(arg) {
        Some(v) => if v > 0 {
            Some(v)
        } else {
            None
        },
        None => None,
    }
}

} // verus!
