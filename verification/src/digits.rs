//! Decimal rendering of counters, plain and with thousands separators.

use vstd::prelude::*;
use crate::text::push_char;

verus! {

/// The character of a decimal digit.
pub open spec fn digit_char(d: nat) -> char {
    (d + 48) as char
}

/// The decimal digits of `n`, most significant first, without leading zeros.
pub open spec fn decimal(n: nat) -> Seq<char>
    decreases n,
{
    if n < 10 {
        seq![digit_char(n)]
    } else {
        decimal(n / 10).push(digit_char(n % 10))
    }
}

proof fn lemma_digit_char(d: nat)
    requires
        d < 10,
    ensures
        digit_char(d) as int == d + 48,
        digit_char(d) != ',',
{
}

fn digit(d: u64) -> (c: char)
    requires
        d < 10,
    ensures
        c == digit_char(d as nat),
{
    ((d as u8) + 48u8) as char
}

/// Renders `n` in decimal, as `n.to_string()` does.
pub fn u64_to_decimal(n: u64) -> (s: String)
    ensures
        s@ == decimal(n as nat),
    decreases n,
{
    if n < 10 {
        let mut s = String::new();
        push_char(&mut s, digit(n));
        s
    } else {
        let mut s = u64_to_decimal(n / 10);
        push_char(&mut s, digit(n % 10));
        s
    }
}

} // verus!

verus! {

/// The three digits of `m` (below one thousand), with leading zeros.
pub open spec fn three_digits(m: nat) -> Seq<char> {
    seq![digit_char(m / 100), digit_char((m / 10) % 10), digit_char(m % 10)]
}

/// `n` in decimal with a comma between each group of three digits, counted
/// from the right: 1234567 reads "1,234,567".
pub open spec fn thousands(n: nat) -> Seq<char>
    decreases n,
{
    if n < 1000 {
        decimal(n)
    } else {
        thousands(n / 1000) + seq![','] + three_digits(n % 1000)
    }
}

/// The sequence with every comma taken out.
pub open spec fn without_commas(s: Seq<char>) -> Seq<char>
    decreases s.len(),
{
    if s.len() == 0 {
        s
    } else if s.last() == ',' {
        without_commas(s.drop_last())
    } else {
        without_commas(s.drop_last()).push(s.last())
    }
}

/// The number that a sequence of decimal digits stands for.
pub open spec fn digits_value(s: Seq<char>) -> nat
    decreases s.len(),
{
    if s.len() == 0 {
        0
    } else {
        10 * digits_value(s.drop_last()) + ((s.last() as int) - 48) as nat
    }
}

fn push_three_digits(s: &mut String, m: u64)
    requires
        m < 1000,
    ensures
        final(s)@ == old(s)@ + three_digits(m as nat),
{
    push_char(s, digit(m / 100));
    push_char(s, digit((m / 10) % 10));
    push_char(s, digit(m % 10));
}

/// Formats `n` with a thousands separator: 1234567 gives "1,234,567".
pub fn fmt_num(n: u64) -> (s: String)
    ensures
        s@ == thousands(n as nat),
    decreases n,
{
    if n < 1000 {
        u64_to_decimal(n)
    } else {
        let mut s = fmt_num(n / 1000);
        push_char(&mut s, ',');
        push_three_digits(&mut s, n % 1000);
        s
    }
}

proof fn lemma_without_commas_append(a: Seq<char>, b: Seq<char>)
    ensures
        without_commas(a + b) == without_commas(a) + without_commas(b),
    decreases b.len(),
{
    if b.len() == 0 {
        assert(a + b == a);
        assert(without_commas(b) == b);
    } else {
        assert((a + b).drop_last() == a + b.drop_last());
        lemma_without_commas_append(a, b.drop_last());
    }
}

proof fn lemma_decimal_has_no_commas(n: nat)
    ensures
        without_commas(decimal(n)) == decimal(n),
    decreases n,
{
    if n < 10 {
        lemma_digit_char(n);
        assert(decimal(n).drop_last() =~= Seq::<char>::empty());
        assert(decimal(n).last() == digit_char(n));
        assert(without_commas(Seq::<char>::empty()) == Seq::<char>::empty());
        assert(without_commas(decimal(n)) == Seq::<char>::empty().push(digit_char(n)));
    } else {
        lemma_digit_char(n % 10);
        lemma_decimal_has_no_commas(n / 10);
        assert(decimal(n).drop_last() == decimal(n / 10));
    }
}

proof fn lemma_decimal_split_three(n: nat)
    requires
        n >= 1000,
    ensures
        decimal(n) == decimal(n / 1000) + three_digits(n % 1000),
{
    assert(n / 10 / 10 == n / 100 && n / 100 / 10 == n / 1000) by (nonlinear_arith)
        requires n >= 1000;
    assert((n / 100) % 10 == (n % 1000) / 100 && (n / 10) % 10 == ((n % 1000) / 10) % 10
        && n % 10 == (n % 1000) % 10) by (nonlinear_arith)
        requires n >= 1000;
    assert(n / 10 >= 100 && n / 100 >= 10) by (nonlinear_arith)
        requires n >= 1000;
    assert(decimal(n / 10) == decimal(n / 100).push(digit_char((n / 10) % 10)));
    assert(decimal(n / 100) == decimal(n / 1000).push(digit_char((n / 100) % 10)));
    assert(decimal(n) =~= decimal(n / 1000) + three_digits(n % 1000));
}

proof fn lemma_thousands_digits(n: nat)
    ensures
        without_commas(thousands(n)) == decimal(n),
    decreases n,
{
    if n < 1000 {
        lemma_decimal_has_no_commas(n);
    } else {
        lemma_thousands_digits(n / 1000);
        let left = thousands(n / 1000) + seq![','];
        lemma_without_commas_append(left, three_digits(n % 1000));
        lemma_without_commas_append(thousands(n / 1000), seq![',']);
        assert(seq![','].drop_last() == Seq::<char>::empty());
        let m = n % 1000;
        let t = three_digits(m);
        assert(m / 100 < 10 && (m / 10) % 10 < 10) by (nonlinear_arith)
            requires m < 1000;
        lemma_digit_char(m / 100);
        lemma_digit_char((m / 10) % 10);
        lemma_digit_char(m % 10);
        assert(t.drop_last().drop_last().drop_last() == Seq::<char>::empty());
        assert(without_commas(t.drop_last().drop_last().drop_last()) == Seq::<char>::empty());
        assert(without_commas(t.drop_last().drop_last()) =~= t.drop_last().drop_last());
        assert(without_commas(t.drop_last()) == t.drop_last());
        assert(without_commas(t) == t);
        lemma_decimal_split_three(n);
    }
}

proof fn lemma_decimal_value(n: nat)
    ensures
        digits_value(decimal(n)) == n,
    decreases n,
{
    lemma_digit_char(n % 10);
    if n >= 10 {
        lemma_decimal_value(n / 10);
        assert(decimal(n).drop_last() == decimal(n / 10));
        assert(decimal(n).last() == digit_char(n % 10));
        assert(10 * (n / 10) + n % 10 == n) by (nonlinear_arith);
    } else {
        assert(decimal(n).drop_last() =~= Seq::<char>::empty());
        assert(decimal(n).last() == digit_char(n));
        assert(digits_value(Seq::<char>::empty()) == 0);
    }
}

/// What `fmt_num` shows is `n` itself: with the separators taken out, the
/// digits are those of `n` in decimal, and they read back as `n`.
pub proof fn fmt_num_reads_back(n: u64)
    ensures
        without_commas(thousands(n as nat)) == decimal(n as nat),
        digits_value(without_commas(thousands(n as nat))) == n,
{
    lemma_thousands_digits(n as nat);
    lemma_decimal_value(n as nat);
}

} // verus!
