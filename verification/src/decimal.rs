//! Decimal numerals of any length: their value, their order, and the
//! numeral of a machine integer.

use vstd::prelude::*;

verus! {

/// `c` is one of the ten ASCII digits.
pub open spec fn is_digit(c: char) -> bool {
    '0' <= c <= '9'
}

/// The number a digit stands for.
pub open spec fn digit_value(c: char) -> nat {
    (c as int - '0' as int) as nat
}

/// Every character of `s` is a digit.
pub open spec fn all_digits(s: Seq<char>) -> bool {
    forall|i: int| 0 <= i < s.len() ==> is_digit(#[trigger] s[i])
}

/// The number that the numeral `s` denotes; the empty numeral denotes zero.
pub open spec fn decimal_value(s: Seq<char>) -> nat
    decreases s.len(),
{
    if s.len() == 0 {
        0
    } else {
        10 * decimal_value(s.drop_last()) + digit_value(s.last())
    }
}

/// The digit that stands for `d`, for `d` below ten.
pub open spec fn digit_char(d: nat) -> char {
    if d == 0 {
        '0'
    } else if d == 1 {
        '1'
    } else if d == 2 {
        '2'
    } else if d == 3 {
        '3'
    } else if d == 4 {
        '4'
    } else if d == 5 {
        '5'
    } else if d == 6 {
        '6'
    } else if d == 7 {
        '7'
    } else if d == 8 {
        '8'
    } else {
        '9'
    }
}

/// The shortest numeral that denotes `n`.
pub open spec fn decimal_text(n: nat) -> Seq<char>
    decreases n,
{
    if n < 10 {
        seq![digit_char(n)]
    } else {
        decimal_text(n / 10).push(digit_char(n % 10))
    }
}

/// Leading zeros do not change what a numeral denotes.
pub proof fn lemma_leading_zeros(s: Seq<char>, k: int)
    requires
        0 <= k <= s.len(),
        forall|i: int| 0 <= i < k ==> s[i] == '0',
    ensures
        decimal_value(s.skip(k)) == decimal_value(s),
    decreases s.len(),
{
    if s.len() == 0 {
        assert(s.skip(k) =~= s);
    } else if k == s.len() {
        lemma_leading_zeros(s.drop_last(), k - 1);
        assert(s.drop_last().skip(k - 1) =~= Seq::<char>::empty());
        assert(s.skip(k) =~= Seq::<char>::empty());
        assert(s.last() == '0');
    } else {
        lemma_leading_zeros(s.drop_last(), k);
        assert(s.skip(k).drop_last() =~= s.drop_last().skip(k));
        assert(s.skip(k).last() == s.last());
    }
}

/// A numeral that starts with a digit other than zero denotes at least one.
pub proof fn lemma_leading_digit_counts(s: Seq<char>)
    requires
        s.len() > 0,
        all_digits(s),
        s[0] != '0',
    ensures
        decimal_value(s) >= 1,
    decreases s.len(),
{
    if s.len() == 1 {
        assert(decimal_value(s.drop_last()) == 0);
        assert(is_digit(s[0]));
    } else {
        assert(s.drop_last()[0] == s[0]);
        lemma_leading_digit_counts(s.drop_last());
    }
}

/// Of two numerals, the shorter denotes less when the longer has no leading zero.
pub proof fn lemma_shorter_is_less(a: Seq<char>, b: Seq<char>)
    requires
        all_digits(a),
        all_digits(b),
        a.len() < b.len(),
        b[0] != '0',
    ensures
        decimal_value(a) < decimal_value(b),
    decreases a.len(),
{
    if a.len() == 0 {
        lemma_leading_digit_counts(b);
    } else {
        lemma_shorter_is_less(a.drop_last(), b.drop_last());
        assert(is_digit(a.last()));
        assert(is_digit(b.last()));
    }
}

/// Between numerals of one length, the first place where their leading parts differ
/// in value decides.
pub proof fn lemma_leading_part_decides(a: Seq<char>, b: Seq<char>, k: int)
    requires
        all_digits(a),
        all_digits(b),
        a.len() == b.len(),
        0 <= k <= a.len(),
        decimal_value(a.take(k)) < decimal_value(b.take(k)),
    ensures
        decimal_value(a) < decimal_value(b),
    decreases a.len() - k,
{
    if k == a.len() {
        assert(a.take(k) =~= a);
        assert(b.take(k) =~= b);
    } else {
        assert(a.take(k + 1).drop_last() =~= a.take(k));
        assert(b.take(k + 1).drop_last() =~= b.take(k));
        assert(is_digit(a[k]));
        assert(is_digit(b[k]));
        assert(a.take(k + 1).last() == a[k]);
        assert(b.take(k + 1).last() == b[k]);
        lemma_leading_part_decides(a, b, k + 1);
    }
}

/// The numeral of a number is made of digits and denotes that number.
pub proof fn lemma_decimal_text(n: nat)
    ensures
        decimal_text(n).len() > 0,
        all_digits(decimal_text(n)),
        decimal_value(decimal_text(n)) == n,
    decreases n,
{
    let text = decimal_text(n);
    if n < 10 {
        assert(text.drop_last() =~= Seq::<char>::empty());
        assert(decimal_value(text.drop_last()) == 0);
        assert(text.last() == digit_char(n));
    } else {
        lemma_decimal_text(n / 10);
        assert(text.drop_last() =~= decimal_text(n / 10));
        assert(text.last() == digit_char(n % 10));
        assert forall|i: int| 0 <= i < text.len() implies is_digit(#[trigger] text[i]) by {
            if i < text.len() - 1 {
                assert(text[i] == decimal_text(n / 10)[i]);
            }
        }
    }
}

/// Tests whether `c` is a digit.
pub fn is_digit_char(c: char) -> (digit: bool)
    ensures
        digit == is_digit(c),
{
    '0' <= c && c <= '9'
}

/// The first position at or after `from` that holds no zero.
fn skip_zeros(s: &Vec<char>, from: usize) -> (at: usize)
    requires
        from <= s.len(),
    ensures
        from <= at <= s.len(),
        forall|i: int| from <= i < at ==> s@[i] == '0',
        at < s.len() ==> s@[at as int] != '0',
        decimal_value(s@.skip(at as int)) == decimal_value(s@.skip(from as int)),
{
    let mut at: usize = from;
    while at < s.len() && s[at] == '0'
        invariant
            from <= at <= s.len(),
            forall|i: int| from <= i < at ==> s@[i] == '0',
        decreases s.len() - at,
    {
        at += 1;
    }
    proof {
        lemma_leading_zeros(s@.skip(from as int), at - from);
        assert(s@.skip(from as int).skip(at - from) =~= s@.skip(at as int));
    }
    at
}

/// Tests whether the numeral that `a` holds from `a_from` on denotes no more than
/// the numeral that `b` holds from `b_from` on.
pub fn numeral_le(a: &Vec<char>, a_from: usize, b: &Vec<char>, b_from: usize) -> (le: bool)
    requires
        a_from <= a.len(),
        b_from <= b.len(),
        all_digits(a@.skip(a_from as int)),
        all_digits(b@.skip(b_from as int)),
    ensures
        le == (decimal_value(a@.skip(a_from as int)) <= decimal_value(b@.skip(b_from as int))),
{
    let a_at = skip_zeros(a, a_from);
    let b_at = skip_zeros(b, b_from);
    let a_len: usize = a.len() - a_at;
    let b_len: usize = b.len() - b_at;
    let ghost x = a@.skip(a_at as int);
    let ghost y = b@.skip(b_at as int);
    proof {
        assert forall|i: int| 0 <= i < x.len() implies is_digit(#[trigger] x[i]) by {
            assert(x[i] == a@.skip(a_from as int)[i + a_at - a_from]);
        }
        assert forall|i: int| 0 <= i < y.len() implies is_digit(#[trigger] y[i]) by {
            assert(y[i] == b@.skip(b_from as int)[i + b_at - b_from]);
        }
    }
    if a_len < b_len {
        proof {
            lemma_shorter_is_less(x, y);
        }
        return true;
    }
    if b_len < a_len {
        proof {
            lemma_shorter_is_less(y, x);
        }
        return false;
    }
    let mut k: usize = 0;
    while k < a_len
        invariant
            k <= a_len,
            a_len == b_len,
            a_len == a.len() - a_at,
            b_len == b.len() - b_at,
            x == a@.skip(a_at as int),
            y == b@.skip(b_at as int),
            decimal_value(x) == decimal_value(a@.skip(a_from as int)),
            decimal_value(y) == decimal_value(b@.skip(b_from as int)),
            all_digits(x),
            all_digits(y),
            x.take(k as int) == y.take(k as int),
        decreases a_len - k,
    {
        let p: char = a[a_at + k];
        let q: char = b[b_at + k];
        if p != q {
            proof {
                let j = k as int;
                assert(x.take(j + 1).drop_last() =~= x.take(j));
                assert(y.take(j + 1).drop_last() =~= y.take(j));
                assert(x.take(j + 1).last() == p);
                assert(y.take(j + 1).last() == q);
                assert(is_digit(x[j]));
                assert(is_digit(y[j]));
                assert(decimal_value(x.take(j + 1)) == 10 * decimal_value(x.take(j))
                    + digit_value(p));
                assert(decimal_value(y.take(j + 1)) == 10 * decimal_value(y.take(j))
                    + digit_value(q));
                if p < q {
                    lemma_leading_part_decides(x, y, j + 1);
                } else {
                    lemma_leading_part_decides(y, x, j + 1);
                }
            }
            return p < q;
        }
        proof {
            assert(x.take(k + 1) =~= x.take(k as int).push(p));
            assert(y.take(k + 1) =~= y.take(k as int).push(q));
        }
        k += 1;
    }
    proof {
        assert(x.take(k as int) =~= x);
        assert(y.take(k as int) =~= y);
    }
    true
}

/// The one-character text of the digit that stands for `d`.
fn digit_text(d: u64) -> (text: &'static str)
    requires
        d < 10,
    ensures
        text@ == seq![digit_char(d as nat)],
{
    proof {
        reveal_strlit("0");
        reveal_strlit("1");
        reveal_strlit("2");
        reveal_strlit("3");
        reveal_strlit("4");
        reveal_strlit("5");
        reveal_strlit("6");
        reveal_strlit("7");
        reveal_strlit("8");
        reveal_strlit("9");
    }
    let text = if d == 0 {
        "0"
    } else if d == 1 {
        "1"
    } else if d == 2 {
        "2"
    } else if d == 3 {
        "3"
    } else if d == 4 {
        "4"
    } else if d == 5 {
        "5"
    } else if d == 6 {
        "6"
    } else if d == 7 {
        "7"
    } else if d == 8 {
        "8"
    } else {
        "9"
    };
    assert(text@ =~= seq![digit_char(d as nat)]);
    text
}

/// Appends the shortest numeral of `n` to `text`.
pub fn push_decimal(text: &mut String, n: u64)
    ensures
        final(text)@ == old(text)@ + decimal_text(n as nat),
    decreases n,
{
    if n >= 10 {
        push_decimal(text, n / 10);
    }
    let ghost before = text@;
    text.append(digit_text(n % 10));
    proof {
        if n >= 10 {
            assert(text@ =~= old(text)@ + decimal_text((n / 10) as nat).push(
                digit_char((n % 10) as nat),
            ));
        } else {
            assert(text@ =~= old(text)@ + seq![digit_char(n as nat)]);
        }
    }
}

} // verus!
