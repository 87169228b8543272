use vstd::prelude::*;
use vstd::string::StringExecFns;

verus! {

/// The character for a single digit value.
pub open spec fn digit_char(d: int) -> char {
    if d == 0 {
        '0'
    } else if d == 1 {
        '1'
    } else if d == 2 {
        '2'
    } else if d == 3 {
        '3'
    } else if d == 4 {
        '4'
    } else if d == 5 {
        '5'
    } else if d == 6 {
        '6'
    } else if d == 7 {
        '7'
    } else if d == 8 {
        '8'
    } else {
        '9'
    }
}

/// The decimal rendering of a nonnegative value, without sign or padding,
/// as Rust's formatting writes it.
pub open spec fn u_dec_str(n: nat) -> Seq<char>
    decreases n,
{
    if n < 10 {
        seq![digit_char(n as int)]
    } else {
        u_dec_str(n / 10).push(digit_char((n % 10) as int))
    }
}

/// The decimal rendering of a signed value: a minus sign before the
/// magnitude for negatives, bare digits otherwise.
pub open spec fn int_dec_str(n: int) -> Seq<char> {
    if n < 0 {
        seq!['-'] + u_dec_str((-n) as nat)
    } else {
        u_dec_str(n as nat)
    }
}

/// Integer division truncating toward zero, as Rust's `/` divides: the
/// quotient of the magnitudes, carrying the dividend's sign.
pub open spec fn div_trunc(a: int, b: int) -> int {
    if a >= 0 {
        a / b
    } else {
        -((-a) / b)
    }
}

/// A decimal digit character.
pub open spec fn is_digit(c: char) -> bool {
    '0' <= c && c <= '9'
}

/// The numeric value of a digit character.
pub open spec fn digit_val(c: char) -> int {
    c as u32 - '0' as u32
}

/// Every character of `s` is a decimal digit.
pub open spec fn all_digits(s: Seq<char>) -> bool {
    forall|i: int| 0 <= i < s.len() ==> is_digit(s[i])
}

/// The value of a digit string, most significant digit first.
pub open spec fn digits_val(s: Seq<char>) -> int
    decreases s.len(),
{
    if s.len() == 0 {
        0
    } else {
        digits_val(s.drop_last()) * 10 + digit_val(s.last())
    }
}

/// The digits of `s`, the optional leading sign stripped.
pub open spec fn int_body(s: Seq<char>) -> Seq<char> {
    if s.len() > 0 && (s[0] == '+' || s[0] == '-') {
        s.drop_first()
    } else {
        s
    }
}

/// `s` carries a leading minus sign.
pub open spec fn is_negative(s: Seq<char>) -> bool {
    s.len() > 0 && s[0] == '-'
}

/// `s` is an optional sign followed by one or more decimal digits: the
/// strings accepted by integer parsing, before any range check.
pub open spec fn valid_int_syntax(s: Seq<char>) -> bool {
    int_body(s).len() > 0 && all_digits(int_body(s))
}

/// The signed value denoted by a syntactically valid integer string.
pub open spec fn int_val(s: Seq<char>) -> int {
    if is_negative(s) {
        -digits_val(int_body(s))
    } else {
        digits_val(int_body(s))
    }
}

/// `s` denotes an integer that fits in an `i32`: exactly the strings on
/// which parsing succeeds.
pub open spec fn parses_to_i32(s: Seq<char>) -> bool {
    valid_int_syntax(s) && i32::MIN <= int_val(s) <= i32::MAX
}

/// A digit string denotes a nonnegative value.
proof fn lemma_digits_val_nonneg(s: Seq<char>)
    requires
        all_digits(s),
    ensures
        digits_val(s) >= 0,
    decreases s.len(),
{
    if s.len() > 0 {
        assert(all_digits(s.drop_last())) by {
            assert(forall|i: int|
                0 <= i < s.drop_last().len() ==> s.drop_last()[i] == s[i]);
        }
        lemma_digits_val_nonneg(s.drop_last());
        assert(is_digit(s.last()));
    }
}

/// Appending a digit multiplies the value by ten and adds the digit.
proof fn lemma_digits_val_push(s: Seq<char>, c: char)
    ensures
        digits_val(s.push(c)) == digits_val(s) * 10 + digit_val(c),
{
    assert(s.push(c).drop_last() =~= s);
    assert(s.push(c).last() == c);
}

/// A digit string is worth at least any of its prefixes: trailing digits
/// can only grow the value.
proof fn lemma_digits_val_prefix_le(s: Seq<char>, k: int)
    requires
        all_digits(s),
        0 <= k <= s.len(),
    ensures
        digits_val(s.take(k)) <= digits_val(s),
    decreases s.len(),
{
    if k == s.len() {
        assert(s.take(k) =~= s);
    } else {
        let dl = s.drop_last();
        assert(all_digits(dl)) by {
            assert(forall|i: int| 0 <= i < dl.len() ==> dl[i] == s[i]);
        }
        lemma_digits_val_prefix_le(dl, k);
        assert(s.take(k) =~= dl.take(k));
        lemma_digits_val_nonneg(dl);
        assert(is_digit(s.last()));
        assert(digits_val(s) == digits_val(dl) * 10 + digit_val(s.last()));
        assert(digits_val(dl) * 10 >= digits_val(dl)) by {
            lemma_digits_val_nonneg(dl);
        }
    }
}

/// Parses `s` as a signed 32-bit integer: an optional `+` or `-` sign, then
/// one or more decimal digits, whose value must fit in an `i32`. Returns
/// `None` on any other input, exactly as `parses_to_i32` says.
pub fn parse_i32(s: &str) -> (r: Option<i32>)
    ensures
        r is Some <==> parses_to_i32(s@),
        r matches Some(v) ==> v as int == int_val(s@),
{
    let len = s.unicode_len();
    let mut start: usize = 0;
    let mut neg = false;
    if len > 0 {
        let c0 = s.get_char(0);
        if c0 == '-' {
            neg = true;
            start = 1;
        } else if c0 == '+' {
            start = 1;
        }
    }
    proof {
        assert(int_body(s@) =~= s@.subrange(start as int, len as int));
        assert(neg == is_negative(s@));
    }
    if start >= len {
        proof {
            assert(int_body(s@).len() == 0);
        }
        return None;
    }
    let ghost body = s@.subrange(start as int, len as int);
    let mut acc: u64 = 0;
    let mut j: usize = start;
    while j < len
        invariant
            start <= j <= len,
            len == s@.len(),
            start < len,
            body == s@.subrange(start as int, len as int),
            body == int_body(s@),
            all_digits(s@.subrange(start as int, j as int)),
            acc as int == digits_val(s@.subrange(start as int, j as int)),
            acc <= 0x8000_0000,
        decreases len - j,
    {
        let c = s.get_char(j);
        let u = c as u32;
        if u < 48 || u > 57 {
            proof {
                assert(body[j - start] == s@[j as int]);
                assert(!is_digit(s@[j as int]));
                assert(!all_digits(body));
            }
            return None;
        }
        let d: u64 = (u - 48) as u64;
        proof {
            assert(is_digit(s@[j as int]));
            assert(d as int == digit_val(s@[j as int]));
        }
        let next: u64 = acc * 10 + d;
        proof {
            assert(s@.subrange(start as int, j + 1) =~= s@.subrange(
                start as int,
                j as int,
            ).push(s@[j as int]));
            lemma_digits_val_push(s@.subrange(start as int, j as int), s@[j as int]);
        }
        if next > 0x8000_0000 {
            proof {
                if parses_to_i32(s@) {
                    let k = j + 1 - start;
                    assert(body.take(k) =~= s@.subrange(start as int, j + 1));
                    lemma_digits_val_prefix_le(body, k);
                    assert(digits_val(body) > 0x8000_0000);
                }
            }
            return None;
        }
        acc = next;
        j += 1;
    }
    proof {
        assert(s@.subrange(start as int, j as int) == body);
        assert(valid_int_syntax(s@));
    }
    if neg {
        if acc == 0x8000_0000 {
            Some(i32::MIN)
        } else {
            Some(-(acc as i32))
        }
    } else {
        if acc > 0x7fff_ffff {
            proof {
                assert(int_val(s@) > i32::MAX);
            }
            None
        } else {
            Some(acc as i32)
        }
    }
}

/// Appends the character for one digit value to `out`.
fn push_digit(d: u8, out: &mut String)
    requires
        d < 10,
    ensures
        final(out)@ == old(out)@ + seq![digit_char(d as int)],
{
    proof {
        reveal_strlit("0");
        reveal_strlit("1");
        reveal_strlit("2");
        reveal_strlit("3");
        reveal_strlit("4");
        reveal_strlit("5");
        reveal_strlit("6");
        reveal_strlit("7");
        reveal_strlit("8");
        reveal_strlit("9");
    }
    if d == 0 {
        out.append("0");
    } else if d == 1 {
        out.append("1");
    } else if d == 2 {
        out.append("2");
    } else if d == 3 {
        out.append("3");
    } else if d == 4 {
        out.append("4");
    } else if d == 5 {
        out.append("5");
    } else if d == 6 {
        out.append("6");
    } else if d == 7 {
        out.append("7");
    } else if d == 8 {
        out.append("8");
    } else {
        out.append("9");
    }
    proof {
        assert(final(out)@ =~= old(out)@ + seq![digit_char(d as int)]);
    }
}

/// Appends the decimal rendering of `n` to `out`.
fn push_u64_dec(n: u64, out: &mut String)
    ensures
        final(out)@ == old(out)@ + u_dec_str(n as nat),
    decreases n,
{
    if n >= 10 {
        push_u64_dec(n / 10, out);
        push_digit((n % 10) as u8, out);
        proof {
            assert(u_dec_str(n as nat) == u_dec_str((n as nat) / 10).push(
                digit_char(((n as nat) % 10) as int),
            ));
            assert(final(out)@ =~= old(out)@ + u_dec_str(n as nat));
        }
    } else {
        push_digit(n as u8, out);
        proof {
            assert(u_dec_str(n as nat) == seq![digit_char(n as int)]);
        }
    }
}

/// Renders a signed value in decimal, exactly as Rust's formatting does.
pub fn i64_to_dec_string(n: i64) -> (r: String)
    ensures
        r@ == int_dec_str(n as int),
{
    let mut out = String::new();
    if n < 0 {
        proof {
            reveal_strlit("-");
        }
        out.append("-");
        let m: u64 = (-(n as i128)) as u64;
        push_u64_dec(m, &mut out);
        proof {
            assert(out@ =~= int_dec_str(n as int));
        }
    } else {
        push_u64_dec(n as u64, &mut out);
        proof {
            assert(out@ =~= int_dec_str(n as int));
        }
    }
    out
}

/// Divides `a` by `b`, truncating toward zero, exactly as `div_trunc` says.
pub fn div_trunc_i128(a: i128, b: i128) -> (q: i128)
    requires
        b > 0,
        a > i128::MIN,
    ensures
        q == div_trunc(a as int, b as int),
{
    if a >= 0 {
        ((a as u128) / (b as u128)) as i128
    } else {
        let m: u128 = (-a) as u128;
        let qm: u128 = m / (b as u128);
        proof {
            assert(qm <= m) by {
                vstd::arithmetic::div_mod::lemma_div_nonincreasing(m as int, b as int);
            }
        }
        -(qm as i128)
    }
}

} // verus!
