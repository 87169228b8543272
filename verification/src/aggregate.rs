use vstd::prelude::*;
use vstd::string::StringExecFns;

use crate::decimal::all_digits;
use crate::decimal::digit_val;
use crate::decimal::digits_val;
use crate::decimal::div_trunc;
use crate::decimal::div_trunc_i128;
use crate::decimal::i64_to_dec_string;
use crate::decimal::int_dec_str;
use crate::decimal::int_val;
use crate::decimal::parse_i32;
use crate::decimal::parses_to_i32;
use crate::error::ContractError;

verus! {

/// The index of the first `.` at or after position `i`, or the length of
/// `s` when none follows.
pub open spec fn first_dot_from(s: Seq<char>, i: int) -> int
    decreases s.len() - i when 0 <= i <= s.len()
{
    if i >= s.len() {
        s.len() as int
    } else if s[i] == '.' {
        i
    } else {
        first_dot_from(s, i + 1)
    }
}

/// The index of the first `.` of `s`, or the length of `s` when it has none.
pub open spec fn first_dot(s: Seq<char>) -> int {
    first_dot_from(s, 0)
}

proof fn lemma_first_dot_from(s: Seq<char>, i: int)
    requires
        0 <= i <= s.len(),
    ensures
        i <= first_dot_from(s, i) <= s.len(),
        first_dot_from(s, i) < s.len() ==> s[first_dot_from(s, i)] == '.',
        forall|k: int| i <= k < first_dot_from(s, i) ==> s[k] != '.',
    decreases s.len() - i,
{
    if i < s.len() && s[i] != '.' {
        lemma_first_dot_from(s, i + 1);
    }
}

/// Where the first `.` of `s` stands, and that nothing before it is a `.`.
proof fn lemma_first_dot(s: Seq<char>)
    ensures
        0 <= first_dot(s) <= s.len(),
        first_dot(s) < s.len() ==> s[first_dot(s)] == '.',
        forall|k: int| 0 <= k < first_dot(s) ==> s[k] != '.',
{
    lemma_first_dot_from(s, 0);
}

/// The integer part of an entry: everything before the first `.`, or the
/// whole string when it has no `.`.
pub open spec fn entry_int_str(s: Seq<char>) -> Seq<char> {
    s.take(first_dot(s))
}

/// Whether the entry has a fractional part, that is, a `.`.
pub open spec fn has_frac(s: Seq<char>) -> bool {
    first_dot(s) < s.len()
}

/// The raw fractional part: everything after the first `.`.
pub open spec fn raw_frac_str(s: Seq<char>) -> Seq<char> {
    s.subrange(first_dot(s) + 1, s.len() as int)
}

/// A fractional part brought to exactly two characters: right-padded with
/// `0`s when shorter, truncated (never rounded) when longer.
pub open spec fn normalize_frac(f: Seq<char>) -> Seq<char> {
    if f.len() == 0 {
        seq!['0', '0']
    } else if f.len() == 1 {
        f.push('0')
    } else {
        f.take(2)
    }
}

/// The two characters whose value is the entry's fractional contribution:
/// the normalized fractional part, or `00` when the entry has no `.`.
pub open spec fn entry_frac_str(s: Seq<char>) -> Seq<char> {
    if has_frac(s) {
        normalize_frac(raw_frac_str(s))
    } else {
        seq!['0', '0']
    }
}

/// A well-formed entry: its integer part parses as an `i32`, and so does
/// its normalized two-character fractional part.
pub open spec fn entry_ok(s: Seq<char>) -> bool {
    parses_to_i32(entry_int_str(s)) && parses_to_i32(entry_frac_str(s))
}

/// The parsed integer part of an entry.
pub open spec fn entry_int(s: Seq<char>) -> int {
    int_val(entry_int_str(s))
}

/// The parsed normalized fractional part of an entry.
pub open spec fn entry_frac(s: Seq<char>) -> int {
    int_val(entry_frac_str(s))
}

/// The sum of the integer parts of all entries.
pub open spec fn sum_int(rs: Seq<Seq<char>>) -> int
    decreases rs.len(),
{
    if rs.len() == 0 {
        0
    } else {
        sum_int(rs.drop_last()) + entry_int(rs.last())
    }
}

/// The sum of the normalized fractional parts of all entries.
pub open spec fn sum_frac(rs: Seq<Seq<char>>) -> int
    decreases rs.len(),
{
    if rs.len() == 0 {
        0
    } else {
        sum_frac(rs.drop_last()) + entry_frac(rs.last())
    }
}

/// Every entry of the batch is well-formed.
pub open spec fn all_entries_ok(rs: Seq<Seq<char>>) -> bool {
    forall|i: int| 0 <= i < rs.len() ==> entry_ok(rs[i])
}

/// The averaged decimal string for a nonempty batch of well-formed
/// entries: integer parts and fractional parts are averaged independently
/// with truncating division, and the fractional average is written without
/// padding back to two digits.
pub open spec fn aggregate_output(rs: Seq<Seq<char>>) -> Seq<char> {
    int_dec_str(div_trunc(sum_int(rs), rs.len() as int)) + seq!['.'] + int_dec_str(
        div_trunc(sum_frac(rs), rs.len() as int),
    )
}

/// The two-character sequence `00` is a valid integer string worth zero.
proof fn lemma_zero_frac()
    ensures
        parses_to_i32(seq!['0', '0']),
        int_val(seq!['0', '0']) == 0,
{
    let z = seq!['0', '0'];
    assert(digits_val(Seq::<char>::empty()) == 0);
    assert(seq!['0'].drop_last() =~= Seq::<char>::empty());
    assert(seq!['0'].last() == '0');
    assert(digits_val(seq!['0']) == digits_val(Seq::<char>::empty()) * 10 + digit_val('0'));
    assert(z.drop_last() =~= seq!['0']);
    assert(z.last() == '0');
    assert(digits_val(z) == digits_val(seq!['0']) * 10 + digit_val('0'));
}

/// Finds the index of the first `.` of `s`, or its length when none exists.
fn find_first_dot(s: &str) -> (i: usize)
    ensures
        i == first_dot(s@),
{
    let len = s.unicode_len();
    let mut j: usize = 0;
    while j < len
        invariant
            j <= len,
            len == s@.len(),
            forall|k: int| 0 <= k < j ==> s@[k] != '.',
        decreases len - j,
    {
        let c = s.get_char(j);
        if c == '.' {
            proof {
                lemma_first_dot(s@);
            }
            return j;
        }
        j += 1;
    }
    proof {
        lemma_first_dot(s@);
    }
    len
}

/// Splits one entry and parses both parts: returns the integer part and
/// the normalized fractional part, or `None` exactly when the entry is
/// malformed.
pub fn parse_entry(s: &str) -> (r: Option<(i32, i32)>)
    ensures
        r is Some <==> entry_ok(s@),
        r matches Some(p) ==> p.0 as int == entry_int(s@) && p.1 as int == entry_frac(s@),
{
    let len = s.unicode_len();
    let dot = find_first_dot(s);
    proof {
        lemma_first_dot(s@);
        assert(s@.subrange(0, dot as int) =~= entry_int_str(s@));
    }
    let int_part = s.substring_char(0, dot);
    let vi = match parse_i32(int_part) {
        Some(v) => v,
        None => {
            return None;
        },
    };
    if dot == len {
        proof {
            lemma_zero_frac();
        }
        Some((vi, 0))
    } else {
        let raw = s.substring_char(dot + 1, len);
        proof {
            assert(raw@ =~= raw_frac_str(s@));
        }
        let rlen = raw.unicode_len();
        let mut nf = String::new();
        if rlen >= 2 {
            let t = raw.substring_char(0, 2);
            nf.append(t);
            proof {
                assert(nf@ =~= normalize_frac(raw@));
            }
        } else if rlen == 1 {
            proof {
                reveal_strlit("0");
            }
            nf.append(raw);
            nf.append("0");
            proof {
                assert(nf@ =~= normalize_frac(raw@));
            }
        } else {
            proof {
                reveal_strlit("00");
            }
            nf.append("00");
            proof {
                assert(nf@ =~= normalize_frac(raw@));
            }
        }
        match parse_i32(nf.as_str()) {
            Some(vf) => Some((vi, vf)),
            None => None,
        }
    }
}

/// Averages a batch of decimal strings, exactly as `aggregate_output`
/// says: the integer parts and the two-digit fractional parts are summed
/// and divided by the number of entries with truncation toward zero, and
/// the two quotients are written around a `.`.
///
/// An empty batch fails with `EmptyInput`; a batch with any malformed
/// entry fails with `ParseError` and yields no partial result.
pub fn query_aggregation(results: Vec<String>) -> (r: Result<String, ContractError>)
    ensures
        results@.len() == 0 ==> r == Err::<String, ContractError>(ContractError::EmptyInput),
        results@.len() > 0 && !all_entries_ok(results.deep_view()) ==> r == Err::<
            String,
            ContractError,
        >(ContractError::ParseError),
        results@.len() > 0 && all_entries_ok(results.deep_view()) ==> (r matches Ok(s)
            && s@ == aggregate_output(results.deep_view())),
{
    let n = results.len();
    if n == 0 {
        return Err(ContractError::EmptyInput);
    }
    let ghost rs = results.deep_view();
    let mut int_sum: i128 = 0;
    let mut frac_sum: i128 = 0;
    let mut i: usize = 0;
    proof {
        assert(rs.take(0) =~= Seq::<Seq<char>>::empty());
    }
    while i < n
        invariant
            0 < n == results@.len(),
            i <= n,
            rs == results.deep_view(),
            forall|k: int| 0 <= k < i ==> entry_ok(rs[k]),
            int_sum == sum_int(rs.take(i as int)),
            frac_sum == sum_frac(rs.take(i as int)),
            -(i as int) * 0x8000_0000 <= int_sum <= (i as int) * 0x8000_0000,
            -(i as int) * 0x8000_0000 <= frac_sum <= (i as int) * 0x8000_0000,
        decreases n - i,
    {
        let entry: &String = &results[i];
        proof {
            assert(rs[i as int] == results@[i as int]@);
        }
        match parse_entry(entry.as_str()) {
            None => {
                return Err(ContractError::ParseError);
            },
            Some((vi, vf)) => {
                proof {
                    assert(usize::MAX <= u64::MAX);
                    assert(rs.take(i + 1).drop_last() =~= rs.take(i as int));
                    assert(rs.take(i + 1).last() == rs[i as int]);
                }
                int_sum = int_sum + vi as i128;
                frac_sum = frac_sum + vf as i128;
            },
        }
        i += 1;
    }
    proof {
        assert(rs.take(n as int) =~= rs);
    }
    let count: i128 = n as i128;
    let qi = div_trunc_i128(int_sum, count);
    let qf = div_trunc_i128(frac_sum, count);
    proof {
        lemma_quotient_small(int_sum as int, n as int);
        lemma_quotient_small(frac_sum as int, n as int);
    }
    let mut out = i64_to_dec_string(qi as i64);
    proof {
        reveal_strlit(".");
    }
    out.append(".");
    let sf = i64_to_dec_string(qf as i64);
    out.append(sf.as_str());
    proof {
        assert(out@ =~= aggregate_output(rs));
    }
    Ok(out)
}

/// A sum of at most `n` values each within `i32`'s range, divided by `n`,
/// stays within `i32`'s range (magnitudes at most `2^31`).
proof fn lemma_quotient_small(sum: int, n: int)
    requires
        n > 0,
        -n * 0x8000_0000 <= sum <= n * 0x8000_0000,
    ensures
        -0x8000_0000 <= div_trunc(sum, n) <= 0x8000_0000,
{
    if sum >= 0 {
        vstd::arithmetic::div_mod::lemma_div_is_ordered(sum, n * 0x8000_0000, n);
        vstd::arithmetic::div_mod::lemma_div_multiples_vanish(0x8000_0000, n);
        vstd::arithmetic::div_mod::lemma_div_pos_is_pos(sum, n);
    } else {
        vstd::arithmetic::div_mod::lemma_div_is_ordered(-sum, n * 0x8000_0000, n);
        vstd::arithmetic::div_mod::lemma_div_multiples_vanish(0x8000_0000, n);
        vstd::arithmetic::div_mod::lemma_div_pos_is_pos(-sum, n);
    }
}

} // verus!
