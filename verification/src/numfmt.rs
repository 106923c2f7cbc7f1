//! Verified decimal conversions: parsing signed integers out of text and
//! rendering integers back into text.

use vstd::prelude::*;

verus! {

/// ASCII decimal digit.
pub open spec fn is_digit_char(c: char) -> bool {
    48 <= (c as u32) <= 57
}

/// Numeric value of one digit character.
pub open spec fn digit_val(c: char) -> int {
    (c as u32) - 48
}

/// Every character is an ASCII digit.
pub open spec fn all_digits(s: Seq<char>) -> bool {
    forall|i: int| 0 <= i < s.len() ==> is_digit_char(#[trigger] s[i])
}

/// Value of a digit string, most significant digit first.
pub open spec fn digits_val(s: Seq<char>) -> int
    decreases s.len(),
{
    if s.len() == 0 {
        0
    } else {
        digits_val(s.drop_last()) * 10 + digit_val(s.last())
    }
}

/// The integer denoted by `s`: an optional sign followed by at least one
/// ASCII digit, and nothing else.  `None` for any other shape.
pub open spec fn parse_int_spec(s: Seq<char>) -> Option<int> {
    if s.len() == 0 {
        None
    } else {
        let neg = s[0] == '-';
        let ds = if s[0] == '-' || s[0] == '+' {
            s.drop_first()
        } else {
            s
        };
        if ds.len() == 0 || !all_digits(ds) {
            None
        } else if neg {
            Some(-digits_val(ds))
        } else {
            Some(digits_val(ds))
        }
    }
}

pub proof fn lemma_digits_val_nonneg(s: Seq<char>)
    requires
        all_digits(s),
    ensures
        digits_val(s) >= 0,
    decreases s.len(),
{
    if s.len() > 0 {
        assert(all_digits(s.drop_last()));
        lemma_digits_val_nonneg(s.drop_last());
    }
}

/// Parse a signed 64-bit integer, with exactly the shape the standard
/// library accepts: an optional `+` or `-` sign, then one or more ASCII
/// digits, and nothing else; a value outside the `i64` range is rejected.
pub fn parse_i64(s: &str) -> (r: Option<i64>)
    ensures
        r == match parse_int_spec(s@) {
            None => None::<i64>,
            Some(v) => if i64::MIN <= v <= i64::MAX {
                Some(v as i64)
            } else {
                None::<i64>
            },
        },
{
    let len = s.unicode_len();
    if len == 0 {
        return None;
    }
    let first = s.get_char(0);
    let neg = first == '-';
    let start: usize = if first == '-' || first == '+' {
        1
    } else {
        0
    };
    if start >= len {
        return None;
    }
    let ghost ds = s@.skip(start as int);
    proof {
        assert(s@.skip(0) =~= s@);
        if s@.len() >= 1 {
            assert(s@.skip(1) =~= s@.drop_first());
        }
    }
    assert(ds.len() > 0);
    let mut i: usize = start;
    let mut mag: u64 = 0;
    let mut overflow = false;
    while i < len
        invariant
            start <= i <= len,
            len == s@.len(),
            start < len,
            ds == s@.skip(start as int),
            neg == (s@[0] == '-'),
            ds == if s@[0] == '-' || s@[0] == '+' {
                s@.drop_first()
            } else {
                s@
            },
            forall|j: int| start <= j < i ==> is_digit_char(#[trigger] s@[j]),
            !overflow ==> mag == digits_val(ds.take(i - start)),
            overflow ==> digits_val(ds.take(i - start)) > u64::MAX,
        decreases len - i,
    {
        let c = s.get_char(i);
        let cu = c as u32;
        if cu < 48 || cu > 57 {
            assert(!all_digits(ds)) by {
                assert(ds[i - start] == s@[i as int]);
                assert(!is_digit_char(ds[i - start]));
            }
            return None;
        }
        let d: u64 = (cu - 48) as u64;
        proof {
            assert(ds.take(i - start + 1).drop_last() =~= ds.take(i - start));
            assert(ds.take(i - start + 1).last() == s@[i as int]);
        }
        if overflow {
            proof {
                assert(forall|j: int| 0 <= j < ds.len() ==> ds[j] == s@[start + j]);
                assert(all_digits(ds.take(i - start))) by {
                    assert(forall|j: int| 0 <= j < i - start ==> ds.take(i - start)[j] == ds[j]);
                }
                lemma_digits_val_nonneg(ds.take(i - start));
                assert(digits_val(ds.take(i - start + 1)) == digits_val(ds.take(i - start)) * 10
                    + digit_val(s@[i as int]));
                assert(digits_val(ds.take(i - start)) * 10 >= digits_val(ds.take(i - start)));
            }
        } else {
            let wide: u128 = (mag as u128) * 10 + (d as u128);
            if wide > u64::MAX as u128 {
                overflow = true;
                proof {
                    assert(digits_val(ds.take(i - start + 1)) == mag * 10 + d);
                }
            } else {
                mag = wide as u64;
                proof {
                    assert(digits_val(ds.take(i - start + 1)) == digits_val(ds.take(i - start))
                        * 10 + digit_val(s@[i as int]));
                }
            }
        }
        i = i + 1;
    }
    proof {
        assert(ds.take(len - start) =~= ds);
        assert(all_digits(ds)) by {
            assert(forall|j: int| 0 <= j < ds.len() ==> ds[j] == s@[start + j]);
        }
    }
    if overflow {
        // The digits already exceed `u64::MAX`, so the value is out of the
        // `i64` range whatever the sign.
        return None;
    }
    if neg {
        if mag > 9223372036854775808u64 {
            return None;
        }
        if mag == 9223372036854775808u64 {
            return Some(i64::MIN);
        }
        Some(-(mag as i64))
    } else {
        if mag > i64::MAX as u64 {
            return None;
        }
        Some(mag as i64)
    }
}

proof fn lemma_dec_digits_all_digits(n: int)
    requires
        n >= 0,
    ensures
        all_digits(dec_digits(n)),
        dec_digits(n).len() >= 1,
    decreases n,
{
    if n < 10 {
        assert(is_digit_char(digit_char(n)));
    } else {
        lemma_dec_digits_all_digits(n / 10);
        let s = dec_digits(n);
        assert(s == dec_digits(n / 10).push(digit_char(n % 10)));
        assert forall|i: int| 0 <= i < s.len() implies is_digit_char(#[trigger] s[i]) by {
            if i < s.len() - 1 {
                assert(s[i] == dec_digits(n / 10)[i]);
            } else {
                assert(s[i] == digit_char(n % 10));
            }
        }
    }
}

proof fn lemma_dec_digits_val(n: int)
    requires
        n >= 0,
    ensures
        digits_val(dec_digits(n)) == n,
    decreases n,
{
    if n < 10 {
        let c = digit_char(n);
        assert(c as u32 == 48 + n);
        assert(seq![c].drop_last() =~= Seq::<char>::empty());
        assert(seq![c].last() == c);
        assert(digits_val(Seq::<char>::empty()) == 0);
        assert(digits_val(dec_digits(n)) == digit_val(c));
    } else {
        lemma_dec_digits_val(n / 10);
        let s = dec_digits(n);
        assert(s.drop_last() =~= dec_digits(n / 10));
        assert(s.last() == digit_char(n % 10));
        assert(digit_val(digit_char(n % 10)) == n % 10);
    }
}

/// Round-trip law: rendering an integer in decimal and parsing the text
/// back yields the integer.
pub proof fn lemma_dec_int_round_trip(n: int)
    ensures
        parse_int_spec(dec_int(n)) == Some(n),
{
    if n >= 0 {
        let s = dec_digits(n);
        lemma_dec_digits_all_digits(n);
        lemma_dec_digits_val(n);
        assert(is_digit_char(s[0]));
        assert(s[0] != '-' && s[0] != '+') by {
            assert(('-' as u32) == 45 && ('+' as u32) == 43);
        }
        assert(dec_int(n) == s);
    } else {
        let m = -n;
        let s = seq!['-'] + dec_digits(m);
        lemma_dec_digits_all_digits(m);
        lemma_dec_digits_val(m);
        assert(s[0] == '-');
        assert(s.drop_first() =~= dec_digits(m));
        assert(dec_int(n) == s);
    }
}

/// The decimal digit character for `d`.
pub open spec fn digit_char(d: int) -> char {
    ((48 + d) as u32) as char
}

/// Decimal rendering of a non-negative integer, without sign.
pub open spec fn dec_digits(n: int) -> Seq<char>
    decreases n,
{
    if n < 10 {
        seq![digit_char(if n >= 0 { n } else { 0 })]
    } else {
        dec_digits(n / 10).push(digit_char(n % 10))
    }
}

/// Decimal rendering of a signed integer.
pub open spec fn dec_int(n: int) -> Seq<char> {
    if n < 0 {
        seq!['-'] + dec_digits(-n)
    } else {
        dec_digits(n)
    }
}

fn digit_str(d: u64) -> (r: &'static str)
    requires
        d < 10,
    ensures
        r@ == seq![digit_char(d as int)],
{
    let r: &'static str = match d {
        0 => "0",
        1 => "1",
        2 => "2",
        3 => "3",
        4 => "4",
        5 => "5",
        6 => "6",
        7 => "7",
        8 => "8",
        _ => "9",
    };
    proof {
        reveal_strlit("0");
        reveal_strlit("1");
        reveal_strlit("2");
        reveal_strlit("3");
        reveal_strlit("4");
        reveal_strlit("5");
        reveal_strlit("6");
        reveal_strlit("7");
        reveal_strlit("8");
        reveal_strlit("9");
        assert(r@ =~= seq![digit_char(d as int)]);
    }
    r
}

fn push_u64_dec(out: &mut String, n: u64)
    ensures
        final(out)@ == old(out)@ + dec_digits(n as int),
    decreases n,
{
    if n < 10 {
        out.append(digit_str(n));
    } else {
        push_u64_dec(out, n / 10);
        out.append(digit_str(n % 10));
        proof {
            assert(old(out)@ + dec_digits((n / 10) as int) + seq![digit_char((n % 10) as int)]
                =~= old(out)@ + dec_digits(n as int));
        }
    }
}

/// Render a signed integer in decimal, as the standard formatter would.
pub fn i64_to_string(n: i64) -> (s: String)
    ensures
        s@ == dec_int(n as int),
{
    let mut s = String::new();
    if n < 0 {
        s.append("-");
        proof {
            reveal_strlit("-");
            assert(s@ =~= seq!['-']);
        }
        let mag: u64 = (-(n as i128)) as u64;
        assert(mag == -(n as int));
        push_u64_dec(&mut s, mag);
        proof {
            assert(seq!['-'] + dec_digits(mag as int) =~= dec_int(n as int));
        }
    } else {
        push_u64_dec(&mut s, n as u64);
        proof {
            assert(Seq::<char>::empty() + dec_digits(n as int) =~= dec_int(n as int));
        }
    }
    s
}

} // verus!
