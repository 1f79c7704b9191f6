use vstd::prelude::*;
use vstd::string::StringExecFns;

verus! {

/// The character for one decimal digit value.
pub open spec fn dec_digit(d: int) -> char {
    if d == 0 { '0' }
    else if d == 1 { '1' }
    else if d == 2 { '2' }
    else if d == 3 { '3' }
    else if d == 4 { '4' }
    else if d == 5 { '5' }
    else if d == 6 { '6' }
    else if d == 7 { '7' }
    else if d == 8 { '8' }
    else { '9' }
}

/// The decimal numeral of an unsigned number, most significant digit
/// first, with no leading zeros (the numeral of zero is "0").
pub open spec fn u64_dec_spec(n: u64) -> Seq<char>
    decreases n,
{
    if n < 10 {
        seq![dec_digit(n as int)]
    } else {
        u64_dec_spec(n / 10).push(dec_digit((n % 10) as int))
    }
}

/// The decimal numeral of a signed number: a minus sign before the
/// numeral of its magnitude when negative.
pub open spec fn i64_dec_spec(n: i64) -> Seq<char> {
    if n < 0 {
        seq!['-'] + u64_dec_spec((-(n as int)) as u64)
    } else {
        u64_dec_spec(n as u64)
    }
}

/// Append one digit character to a string.
fn push_digit(s: &mut String, d: u64)
    requires
        d < 10,
    ensures
        final(s)@ == old(s)@.push(dec_digit(d as int)),
{
    proof {
        reveal_strlit("0");
        reveal_strlit("1");
        reveal_strlit("2");
        reveal_strlit("3");
        reveal_strlit("4");
        reveal_strlit("5");
        reveal_strlit("6");
        reveal_strlit("7");
        reveal_strlit("8");
        reveal_strlit("9");
    }
    let ghost prev = s@;
    if d == 0 {
        s.append("0");
    } else if d == 1 {
        s.append("1");
    } else if d == 2 {
        s.append("2");
    } else if d == 3 {
        s.append("3");
    } else if d == 4 {
        s.append("4");
    } else if d == 5 {
        s.append("5");
    } else if d == 6 {
        s.append("6");
    } else if d == 7 {
        s.append("7");
    } else if d == 8 {
        s.append("8");
    } else {
        s.append("9");
    }
    proof {
        assert(s@ =~= prev.push(dec_digit(d as int)));
    }
}

/// Append the decimal numeral of `n` to `s`.
fn append_u64_dec(s: &mut String, n: u64)
    ensures
        final(s)@ == old(s)@ + u64_dec_spec(n),
    decreases n,
{
    if n < 10 {
        push_digit(s, n);
        proof {
            assert(old(s)@.push(dec_digit(n as int)) =~= old(s)@ + u64_dec_spec(n));
        }
    } else {
        append_u64_dec(s, n / 10);
        push_digit(s, n % 10);
        proof {
            assert((old(s)@ + u64_dec_spec(n / 10)).push(dec_digit((n % 10) as int))
                =~= old(s)@ + u64_dec_spec(n));
        }
    }
}

/// The decimal numeral of an unsigned number.
pub fn u64_to_string(n: u64) -> (r: String)
    ensures
        r@ == u64_dec_spec(n),
{
    let mut s = String::new();
    append_u64_dec(&mut s, n);
    proof {
        assert(Seq::<char>::empty() + u64_dec_spec(n) =~= u64_dec_spec(n));
    }
    s
}

/// The decimal numeral of a signed number.
pub fn i64_to_string(n: i64) -> (r: String)
    ensures
        r@ == i64_dec_spec(n),
{
    if n >= 0 {
        u64_to_string(n as u64)
    } else {
        let mut s = String::new();
        proof {
            reveal_strlit("-");
        }
        s.append("-");
        let mag: u64 = if n == i64::MIN {
            9223372036854775808u64
        } else {
            (-n) as u64
        };
        append_u64_dec(&mut s, mag);
        proof {
            assert(Seq::<char>::empty() + "-"@ =~= "-"@);
            assert("-"@ =~= seq!['-']);
            assert(s@ =~= i64_dec_spec(n));
        }
        s
    }
}

} // verus!
