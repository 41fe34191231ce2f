//! Decimal rendering of identifiers such as `gpu-00042` or `evt-00000007`.

use vstd::prelude::*;

verus! {

/// The character of a decimal digit.
pub open spec fn digit_char(d: nat) -> char {
    if d == 0 { '0' }
    else if d == 1 { '1' }
    else if d == 2 { '2' }
    else if d == 3 { '3' }
    else if d == 4 { '4' }
    else if d == 5 { '5' }
    else if d == 6 { '6' }
    else if d == 7 { '7' }
    else if d == 8 { '8' }
    else { '9' }
}

/// The shortest decimal representation of `n`, most significant digit first.
pub open spec fn decimal(n: nat) -> Seq<char>
    decreases n,
{
    if n < 10 {
        seq![digit_char(n)]
    } else {
        decimal(n / 10).push(digit_char(n % 10))
    }
}

/// `k` zero characters.
pub open spec fn zeros(k: nat) -> Seq<char> {
    Seq::new(k, |i: int| '0')
}

/// The decimal representation of `n`, left-padded with zeros to at least `width` characters
/// (what `{:0width$}` renders).
pub open spec fn padded_decimal(n: nat, width: nat) -> Seq<char> {
    let d = decimal(n);
    if d.len() >= width {
        d
    } else {
        zeros((width - d.len()) as nat) + d
    }
}

/// `prefix` followed by `n` in decimal, zero-padded to `width` digits.
pub open spec fn padded_id(prefix: Seq<char>, n: nat, width: nat) -> Seq<char> {
    prefix + padded_decimal(n, width)
}

pub proof fn lemma_decimal_len_pos(n: nat)
    ensures
        decimal(n).len() >= 1,
    decreases n,
{
    if n >= 10 {
        lemma_decimal_len_pos(n / 10);
    }
}

fn digit_str(d: u64) -> (s: &'static str)
    requires
        d < 10,
    ensures
        s@ == seq![digit_char(d as nat)],
{
    proof {
        reveal_strlit("0");
        reveal_strlit("1");
        reveal_strlit("2");
        reveal_strlit("3");
        reveal_strlit("4");
        reveal_strlit("5");
        reveal_strlit("6");
        reveal_strlit("7");
        reveal_strlit("8");
        reveal_strlit("9");
    }
    if d == 0 { "0" }
    else if d == 1 { "1" }
    else if d == 2 { "2" }
    else if d == 3 { "3" }
    else if d == 4 { "4" }
    else if d == 5 { "5" }
    else if d == 6 { "6" }
    else if d == 7 { "7" }
    else if d == 8 { "8" }
    else { "9" }
}

fn append_decimal(s: &mut String, n: u64)
    ensures
        final(s)@ == old(s)@ + decimal(n as nat),
    decreases n,
{
    if n >= 10 {
        append_decimal(s, n / 10);
    }
    s.append(digit_str(n % 10));
    proof {
        assert(decimal(n as nat) == if n < 10 { seq![digit_char(n as nat)] } else {
            decimal((n / 10) as nat).push(digit_char((n % 10) as nat))
        });
        assert(n < 10 ==> n % 10 == n);
    }
}

pub open spec fn pow10(k: nat) -> nat
    decreases k,
{
    if k == 0 { 1 } else { 10 * pow10((k - 1) as nat) }
}

proof fn lemma_decimal_len_bound(n: nat, k: nat)
    requires
        k >= 1,
        n < pow10(k),
    ensures
        decimal(n).len() <= k,
    decreases k,
{
    if n >= 10 {
        assert(k >= 2) by {
            if k == 1 {
                assert(pow10(1) == 10 * pow10(0));
            }
        }
        assert(n / 10 < pow10((k - 1) as nat)) by {
            assert(pow10(k) == 10 * pow10((k - 1) as nat));
        }
        lemma_decimal_len_bound(n / 10, (k - 1) as nat);
    }
}

fn decimal_len(n: u64) -> (len: usize)
    ensures
        len as nat == decimal(n as nat).len(),
    decreases n,
{
    if n >= 10 {
        let l = decimal_len(n / 10);
        proof {
            assert(pow10(20) == 100000000000000000000nat) by {
                reveal_with_fuel(pow10, 21);
            }
            lemma_decimal_len_bound((n / 10) as nat, 20);
        }
        l + 1
    } else {
        1
    }
}

/// Renders `prefix` followed by `n` zero-padded to `width` digits, as `format!("{prefix}{n:0width$}")`.
pub fn format_padded(prefix: &str, n: u64, width: usize) -> (s: String)
    ensures
        s@ == padded_id(prefix@, n as nat, width as nat),
{
    let mut s = String::from_str(prefix);
    let len = decimal_len(n);
    if len < width {
        let pad = width - len;
        let mut i: usize = 0;
        while i < pad
            invariant
                i <= pad,
                s@ == prefix@ + zeros(i as nat),
            decreases pad - i,
        {
            proof { reveal_strlit("0"); }
            s.append("0");
            assert(zeros(i as nat).push('0') =~= zeros((i + 1) as nat));
            i = i + 1;
        }
        append_decimal(&mut s, n);
        assert(s@ =~= prefix@ + (zeros(pad as nat) + decimal(n as nat)));
    } else {
        append_decimal(&mut s, n);
    }
    s
}

} // verus!

verus! {

/// The value of a digit character.
pub open spec fn digit_value(c: char) -> nat {
    if c == '1' { 1 }
    else if c == '2' { 2 }
    else if c == '3' { 3 }
    else if c == '4' { 4 }
    else if c == '5' { 5 }
    else if c == '6' { 6 }
    else if c == '7' { 7 }
    else if c == '8' { 8 }
    else if c == '9' { 9 }
    else { 0 }
}

/// The number a string of decimal digits denotes.
pub open spec fn decimal_value(s: Seq<char>) -> nat
    decreases s.len(),
{
    if s.len() == 0 { 0 } else { decimal_value(s.drop_last()) * 10 + digit_value(s.last()) }
}

proof fn lemma_decimal_value(n: nat)
    ensures
        decimal_value(decimal(n)) == n,
    decreases n,
{
    assert(digit_value(digit_char(n % 10)) == n % 10);
    if n >= 10 {
        lemma_decimal_value(n / 10);
        assert(decimal(n).drop_last() =~= decimal(n / 10));
        assert(decimal(n).last() == digit_char(n % 10));
        assert((n / 10) * 10 + n % 10 == n) by (nonlinear_arith);
        assert(decimal_value(decimal(n)) == decimal_value(decimal(n).drop_last()) * 10 + digit_value(decimal(n).last()));
    } else {
        assert(seq![digit_char(n)].drop_last() =~= Seq::<char>::empty());
        assert(n % 10 == n);
        assert(decimal(n) == seq![digit_char(n)]);
        assert(decimal_value(decimal(n)) == decimal_value(decimal(n).drop_last()) * 10 + digit_value(decimal(n).last()));
        assert(decimal_value(Seq::<char>::empty()) == 0);
    }
}

proof fn lemma_zeros_value(k: nat, s: Seq<char>)
    ensures
        decimal_value(zeros(k) + s) == decimal_value(s),
    decreases s.len(), k,
{
    if s.len() == 0 {
        assert(zeros(k) + s =~= zeros(k));
        if k > 0 {
            assert(zeros(k).drop_last() =~= zeros((k - 1) as nat));
            lemma_zeros_value((k - 1) as nat, s);
            assert(zeros((k - 1) as nat) + s =~= zeros((k - 1) as nat));
        }
    } else {
        assert((zeros(k) + s).drop_last() =~= zeros(k) + s.drop_last());
        lemma_zeros_value(k, s.drop_last());
    }
}

/// Zero-padded decimal rendering loses nothing: the rendering of `n` denotes `n`.
pub proof fn lemma_padded_decimal_value(n: nat, width: nat)
    ensures
        decimal_value(padded_decimal(n, width)) == n,
{
    lemma_decimal_value(n);
    let d = decimal(n);
    if d.len() < width {
        lemma_zeros_value((width - d.len()) as nat, d);
    }
}

/// Distinct numbers get distinct ids under the same prefix and width.
pub proof fn law_padded_id_injective(prefix: Seq<char>, n: nat, m: nat, width: nat)
    requires
        n != m,
    ensures
        padded_id(prefix, n, width) != padded_id(prefix, m, width),
{
    lemma_padded_decimal_value(n, width);
    lemma_padded_decimal_value(m, width);
    if padded_id(prefix, n, width) == padded_id(prefix, m, width) {
        let a = padded_id(prefix, n, width);
        assert(a.subrange(prefix.len() as int, a.len() as int) =~= padded_decimal(n, width));
        assert(padded_id(prefix, m, width).subrange(prefix.len() as int, a.len() as int) =~= padded_decimal(m, width));
    }
}

} // verus!
