use vstd::prelude::*;
use vstd::string::StringExecFns;

verus! {

/// The ASCII digit for `d`, for `d` below ten.
pub open spec fn digit_char(d: nat) -> char {
    if d == 0 { '0' }
    else if d == 1 { '1' }
    else if d == 2 { '2' }
    else if d == 3 { '3' }
    else if d == 4 { '4' }
    else if d == 5 { '5' }
    else if d == 6 { '6' }
    else if d == 7 { '7' }
    else if d == 8 { '8' }
    else { '9' }
}

/// The decimal digits of `n`, most significant first, without leading zeros.
pub open spec fn decimal_digits(n: nat) -> Seq<char>
    decreases n,
{
    if n < 10 {
        seq![digit_char(n)]
    } else {
        decimal_digits(n / 10).push(digit_char(n % 10))
    }
}

/// The decimal text of `i`, with a leading `-` when it is negative.
pub open spec fn decimal_text(i: int) -> Seq<char> {
    if i < 0 {
        seq!['-'] + decimal_digits((-i) as nat)
    } else {
        decimal_digits(i as nat)
    }
}

/// Every character of `decimal_text(i)` is a digit or `-`.
pub proof fn lemma_decimal_text_ascii_digits(i: int)
    ensures
        forall|k: int| 0 <= k < decimal_text(i).len() ==>
            ('0' <= #[trigger] decimal_text(i)[k] <= '9' || decimal_text(i)[k] == '-'),
{
    if i < 0 {
        lemma_digits_are_digits((-i) as nat);
        assert forall|k: int| 0 <= k < decimal_text(i).len() implies
            ('0' <= #[trigger] decimal_text(i)[k] <= '9' || decimal_text(i)[k] == '-') by {
            if k > 0 {
                assert(decimal_text(i)[k] == decimal_digits((-i) as nat)[k - 1]);
            }
        }
    } else {
        lemma_digits_are_digits(i as nat);
    }
}

proof fn lemma_digits_are_digits(n: nat)
    ensures
        forall|k: int| 0 <= k < decimal_digits(n).len() ==>
            '0' <= #[trigger] decimal_digits(n)[k] <= '9',
    decreases n,
{
    if n >= 10 {
        lemma_digits_are_digits(n / 10);
        let front = decimal_digits(n / 10);
        assert forall|k: int| 0 <= k < decimal_digits(n).len() implies
            '0' <= #[trigger] decimal_digits(n)[k] <= '9' by {
            if k < front.len() {
                assert(decimal_digits(n)[k] == front[k]);
            }
        }
    }
}

fn digit(d: u128) -> (s: &'static str)
    requires
        d < 10,
    ensures
        s@ == seq![digit_char(d as nat)],
{
    if d == 0 {
        proof { reveal_strlit("0"); }
        "0"
    } else if d == 1 {
        proof { reveal_strlit("1"); }
        "1"
    } else if d == 2 {
        proof { reveal_strlit("2"); }
        "2"
    } else if d == 3 {
        proof { reveal_strlit("3"); }
        "3"
    } else if d == 4 {
        proof { reveal_strlit("4"); }
        "4"
    } else if d == 5 {
        proof { reveal_strlit("5"); }
        "5"
    } else if d == 6 {
        proof { reveal_strlit("6"); }
        "6"
    } else if d == 7 {
        proof { reveal_strlit("7"); }
        "7"
    } else if d == 8 {
        proof { reveal_strlit("8"); }
        "8"
    } else {
        proof { reveal_strlit("9"); }
        "9"
    }
}

/// Appends the decimal digits of `n` to `out`.
pub fn push_decimal(out: &mut String, n: u128)
    ensures
        final(out)@ == old(out)@ + decimal_digits(n as nat),
    decreases n,
{
    if n < 10 {
        out.append(digit(n));
    } else {
        push_decimal(out, n / 10);
        out.append(digit(n % 10));
        assert(final(out)@ =~= old(out)@ + decimal_digits(n as nat));
    }
}

/// The decimal text of `i`, as `i.to_string()` writes it.
pub fn signed_decimal(i: i32) -> (r: String)
    ensures
        r@ == decimal_text(i as int),
{
    let mut out = String::new();
    if i < 0 {
        proof { reveal_strlit("-"); }
        out.append("-");
        let m: u128 = (-(i as i64)) as u128;
        push_decimal(&mut out, m);
        assert(out@ =~= decimal_text(i as int));
    } else {
        push_decimal(&mut out, i as u128);
        assert(out@ =~= decimal_text(i as int));
    }
    out
}

/// The decimal text of `n`, as `n.to_string()` writes it.
pub fn unsigned_decimal(n: u128) -> (r: String)
    ensures
        r@ == decimal_digits(n as nat),
{
    let mut out = String::new();
    push_decimal(&mut out, n);
    assert(out@ =~= decimal_digits(n as nat));
    out
}

} // verus!
