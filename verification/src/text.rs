//! Decimal numerals of counts, written and read, and lists of strings.

use vstd::prelude::*;
use vstd::std_specs::iter::IteratorSpec;
use vstd::string::StringExecFns;

verus! {

broadcast use vstd::string::group_string_axioms;

/// The character for the decimal digit `d`.
pub open spec fn digit_char(d: int) -> char {
    if d == 0 {
        '0'
    } else if d == 1 {
        '1'
    } else if d == 2 {
        '2'
    } else if d == 3 {
        '3'
    } else if d == 4 {
        '4'
    } else if d == 5 {
        '5'
    } else if d == 6 {
        '6'
    } else if d == 7 {
        '7'
    } else if d == 8 {
        '8'
    } else {
        '9'
    }
}

/// The decimal numeral of `n`, without sign or leading zeros.
pub open spec fn decimal(n: nat) -> Seq<char>
    decreases n,
{
    if n < 10 {
        seq![digit_char(n as int)]
    } else {
        decimal(n / 10).push(digit_char((n % 10) as int))
    }
}

/// `k` zero digits.
pub open spec fn zeros(k: nat) -> Seq<char> {
    Seq::new(k, |i: int| '0')
}

/// The decimal numeral of `n`, with zeros in front up to `width` characters.
/// A numeral that is already wider is left as it is.
pub open spec fn zero_padded(n: nat, width: nat) -> Seq<char> {
    let digits = decimal(n);
    if digits.len() >= width {
        digits
    } else {
        zeros((width - digits.len()) as nat) + digits
    }
}

/// Whether `c` is one of `0` to `9`.
pub open spec fn is_digit(c: char) -> bool {
    '0' <= c && c <= '9'
}

/// The value of the digit `c`.
pub open spec fn digit_value(c: char) -> nat {
    (c as int - '0' as int) as nat
}

/// Whether `s` consists of decimal digits only.
pub open spec fn all_digits(s: Seq<char>) -> bool {
    forall|i: int| 0 <= i < s.len() ==> is_digit(#[trigger] s[i])
}

/// The number that the digits of `s` denote, most significant digit first.
pub open spec fn digits_value(s: Seq<char>) -> nat
    decreases s.len(),
{
    if s.len() == 0 {
        0
    } else {
        digits_value(s.drop_last()) * 10 + digit_value(s.last())
    }
}

/// `s` without its leading plus sign, if it has one.
pub open spec fn unsigned_part(s: Seq<char>) -> Seq<char> {
    if s.len() > 0 && s[0] == '+' {
        s.subrange(1, s.len() as int)
    } else {
        s
    }
}

/// The 32-bit count that `s` denotes: an optional `+`, then one or more
/// decimal digits whose value fits in 32 bits. Anything else denotes nothing.
pub open spec fn parse_u32(s: Seq<char>) -> Option<u32> {
    let digits = unsigned_part(s);
    if digits.len() > 0 && all_digits(digits) && digits_value(digits) <= u32::MAX {
        Some(digits_value(digits) as u32)
    } else {
        None
    }
}

/// A numeral has at least one character, and at most twenty for a 64-bit value.
pub proof fn lemma_decimal_len(n: nat)
    ensures
        decimal(n).len() >= 1,
        n < 10 <==> decimal(n).len() == 1,
        n >= 10 ==> decimal(n).len() == decimal(n / 10).len() + 1,
    decreases n,
{
    if n >= 10 {
        lemma_decimal_len(n / 10);
    }
}

/// The numeral of `n` consists of digits and denotes `n`.
pub proof fn lemma_decimal_value(n: nat)
    ensures
        all_digits(decimal(n)),
        digits_value(decimal(n)) == n,
        decimal(n).len() >= 1,
        decimal(n)[0] != '+',
    decreases n,
{
    if n < 10 {
        let s = decimal(n);
        assert(s.drop_last() =~= Seq::<char>::empty());
        assert(digits_value(s.drop_last()) == 0);
        assert(digits_value(s) == digit_value(s.last()));
    } else {
        lemma_decimal_value(n / 10);
        let head = decimal(n / 10);
        let s = decimal(n);
        assert(s.drop_last() =~= head);
        assert(s.last() == digit_char((n % 10) as int));
        assert forall|i: int| 0 <= i < s.len() implies is_digit(#[trigger] s[i]) by {
            if i < head.len() {
                assert(s[i] == head[i]);
            }
        }
        assert(s[0] == head[0]);
    }
}

/// Different numbers have different numerals.
pub proof fn lemma_decimal_injective(a: nat, b: nat)
    requires
        decimal(a) == decimal(b),
    ensures
        a == b,
{
    lemma_decimal_value(a);
    lemma_decimal_value(b);
}

/// Reading the numeral of a 32-bit count gives the count back.
pub proof fn lemma_parse_decimal(n: u32)
    ensures
        parse_u32(decimal(n as nat)) == Some(n),
{
    lemma_decimal_value(n as nat);
}

/// Zeros in front do not change what a digit string denotes.
proof fn lemma_leading_zeros(k: nat, s: Seq<char>)
    ensures
        digits_value(zeros(k) + s) == digits_value(s),
    decreases s.len(), k,
{
    let all = zeros(k) + s;
    if s.len() > 0 {
        lemma_leading_zeros(k, s.drop_last());
        assert(all.drop_last() =~= zeros(k) + s.drop_last());
        assert(all.last() == s.last());
    } else if k > 0 {
        lemma_leading_zeros((k - 1) as nat, s);
        assert(all.drop_last() =~= zeros((k - 1) as nat) + s);
        assert(all.last() == '0');
    } else {
        assert(all =~= s);
    }
}

/// A zero-padded numeral consists of digits and denotes the number it was made from.
pub proof fn lemma_zero_padded_value(n: nat, width: nat)
    ensures
        all_digits(zero_padded(n, width)),
        digits_value(zero_padded(n, width)) == n,
        zero_padded(n, width).len() >= width,
        zero_padded(n, width).len() >= 1,
{
    lemma_decimal_value(n);
    if decimal(n).len() < width {
        let k = (width - decimal(n).len()) as nat;
        lemma_leading_zeros(k, decimal(n));
        let s = zero_padded(n, width);
        assert forall|i: int| 0 <= i < s.len() implies is_digit(#[trigger] s[i]) by {
            if i >= k {
                assert(s[i] == decimal(n)[i - k]);
            }
        }
    }
}

/// Different numbers have different zero-padded numerals.
pub proof fn lemma_zero_padded_injective(a: nat, b: nat, width: nat)
    requires
        zero_padded(a, width) == zero_padded(b, width),
    ensures
        a == b,
{
    lemma_zero_padded_value(a, width);
    lemma_zero_padded_value(b, width);
}

/// Two texts that start alike are the same only if they go on alike.
pub proof fn lemma_same_start(before: Seq<char>, a: Seq<char>, b: Seq<char>)
    requires
        before + a == before + b,
    ensures
        a == b,
{
    let x = before + a;
    let y = before + b;
    assert(x.len() == before.len() + a.len());
    assert(y.len() == before.len() + b.len());
    assert(a =~= x.subrange(before.len() as int, x.len() as int));
    assert(b =~= y.subrange(before.len() as int, y.len() as int));
}

/// A run of digits ends where the first other character stands: if two
/// texts are each made of digits followed by something that does not start
/// with a digit, and the texts are the same, then so are their digits and
/// what follows them.
pub proof fn lemma_digits_end_at_first_other(
    a: Seq<char>,
    x: Seq<char>,
    b: Seq<char>,
    y: Seq<char>,
)
    requires
        all_digits(a),
        all_digits(b),
        x.len() > 0,
        y.len() > 0,
        !is_digit(x[0]),
        !is_digit(y[0]),
        a + x == b + y,
    ensures
        a == b,
        x == y,
{
    let left = a + x;
    let right = b + y;
    assert(left.len() == a.len() + x.len());
    assert(right.len() == b.len() + y.len());
    if a.len() < b.len() {
        assert(left[a.len() as int] == x[0]);
        assert(right[a.len() as int] == b[a.len() as int]);
    }
    if b.len() < a.len() {
        assert(right[b.len() as int] == y[0]);
        assert(left[b.len() as int] == a[b.len() as int]);
    }
    assert(a =~= left.subrange(0, a.len() as int));
    assert(b =~= right.subrange(0, b.len() as int));
    assert(x =~= left.subrange(a.len() as int, left.len() as int));
    assert(y =~= right.subrange(b.len() as int, right.len() as int));
}

/// Extending a digit string never lowers its value.
proof fn lemma_digits_value_prefix(s: Seq<char>, k: int)
    requires
        0 <= k <= s.len(),
    ensures
        digits_value(s.take(k)) <= digits_value(s),
    decreases s.len(),
{
    if k == s.len() {
        assert(s.take(k) =~= s);
    } else {
        lemma_digits_value_prefix(s.drop_last(), k);
        assert(s.drop_last().take(k) =~= s.take(k));
    }
}

fn digit_str(d: u64) -> (s: &'static str)
    requires
        d < 10,
    ensures
        s@ == seq![digit_char(d as int)],
{
    proof {
        reveal_strlit("0");
        reveal_strlit("1");
        reveal_strlit("2");
        reveal_strlit("3");
        reveal_strlit("4");
        reveal_strlit("5");
        reveal_strlit("6");
        reveal_strlit("7");
        reveal_strlit("8");
        reveal_strlit("9");
    }
    let s: &'static str = if d == 0 {
        "0"
    } else if d == 1 {
        "1"
    } else if d == 2 {
        "2"
    } else if d == 3 {
        "3"
    } else if d == 4 {
        "4"
    } else if d == 5 {
        "5"
    } else if d == 6 {
        "6"
    } else if d == 7 {
        "7"
    } else if d == 8 {
        "8"
    } else {
        "9"
    };
    assert(s@ =~= seq![digit_char(d as int)]);
    s
}

/// Renders `n` in decimal.
pub fn decimal_string(n: u64) -> (s: String)
    ensures
        s@ == decimal(n as nat),
    decreases n,
{
    if n < 10 {
        String::from_str(digit_str(n))
    } else {
        let mut s: String = decimal_string(n / 10);
        s.append(digit_str(n % 10));
        assert(s@ =~= decimal(n as nat));
        s
    }
}

/// Number of characters in the decimal numeral of `n`.
pub fn decimal_width(n: u64) -> (w: usize)
    ensures
        w == decimal(n as nat).len(),
        1 <= w <= 20,
{
    let mut w: usize = 1;
    let mut rest: u64 = n;
    proof {
        lemma_decimal_len(n as nat);
        assert(pow10(0) == 1);
        assert(rest * pow10(0) == n) by (nonlinear_arith)
            requires
                rest == n,
                pow10(0) == 1,
        ;
    }
    while rest >= 10
        invariant
            1 <= w <= 20,
            w + decimal(rest as nat).len() == decimal(n as nat).len() + 1,
            rest * pow10((w - 1) as nat) <= n,
        decreases rest,
    {
        proof {
            lemma_decimal_len(rest as nat);
            let p = pow10((w - 1) as nat);
            assert(pow10(w as nat) == 10 * p);
            assert((rest / 10) * (10 * p) <= rest * p) by (nonlinear_arith)
                requires
                    p >= 0,
                    rest >= 0,
            ;
            if w == 20 {
                lemma_pow10_grows(19, 19);
                assert(pow10(19) == 10000000000000000000) by {
                    reveal_with_fuel(pow10, 20);
                }
                assert(rest * p >= 10 * p) by (nonlinear_arith)
                    requires
                        rest >= 10,
                        p >= 0,
                ;
            }
        }
        rest = rest / 10;
        w = w + 1;
    }
    proof {
        lemma_decimal_len(rest as nat);
    }
    w
}

/// Ten to the power `e`.
spec fn pow10(e: nat) -> nat
    decreases e,
{
    if e == 0 {
        1
    } else {
        10 * pow10((e - 1) as nat)
    }
}

proof fn lemma_pow10_grows(a: nat, b: nat)
    requires
        a <= b,
    ensures
        pow10(a) <= pow10(b),
        pow10(a) >= 1,
    decreases b,
{
    if a < b {
        lemma_pow10_grows(a, (b - 1) as nat);
    } else if a > 0 {
        lemma_pow10_grows((a - 1) as nat, (a - 1) as nat);
    }
}

/// Renders `n` in decimal, with zeros in front up to `width` characters.
pub fn zero_padded_string(n: u64, width: usize) -> (s: String)
    ensures
        s@ == zero_padded(n as nat, width as nat),
{
    let have: usize = decimal_width(n);
    let digits: String = decimal_string(n);
    if have >= width {
        return digits;
    }
    let missing: usize = width - have;
    let mut s: String = String::new();
    let mut k: usize = 0;
    while k < missing
        invariant
            k <= missing,
            s@ == zeros(k as nat),
        decreases missing - k,
    {
        proof {
            reveal_strlit("0");
        }
        s.append("0");
        k = k + 1;
        assert(s@ =~= zeros(k as nat));
    }
    s.append(digits.as_str());
    s
}

/// Reads a 32-bit count: an optional `+` followed by decimal digits.
///
/// Returns nothing for the empty string, a lone sign, any other character
/// (a minus sign and blanks included) and values that do not fit in 32 bits.
pub fn parse_count(s: &str) -> (r: Option<u32>)
    ensures
        r == parse_u32(s@),
{
    let mut it = s.chars();
    let ghost digits = unsigned_part(s@);
    let mut value: u64 = 0;
    let mut seen: bool = false;
    let ghost mut done: Seq<char> = Seq::empty();
    let first: Option<char> = it.next();
    match first {
        None => {
            return None;
        },
        Some(c) => {
            if c == '+' {
                assert(it.remaining() =~= digits);
                assert(digits =~= done + it.remaining());
            } else {
                assert(digits == s@);
                if c < '0' || c > '9' {
                    assert(!is_digit(digits[0]));
                    return None;
                }
                value = (c as u32 - 48) as u64;
                seen = true;
                proof {
                    done = seq![c];
                    assert(done.drop_last() =~= Seq::<char>::empty());
                    assert(digits_value(done.drop_last()) == 0);
                    assert(done.last() == c);
                    assert(digits_value(done) == digit_value(c));
                    assert(digits =~= done + it.remaining());
                }
            }
        },
    }
    loop
        invariant
            digits == unsigned_part(s@),
            digits == done + it.remaining(),
            all_digits(done),
            value == digits_value(done),
            value <= u32::MAX,
            seen <==> done.len() > 0,
        decreases digits.len() - done.len(),
    {
        let next: Option<char> = it.next();
        match next {
            None => {
                proof {
                    assert(digits =~= done);
                }
                if seen {
                    return Some(value as u32);
                } else {
                    return None;
                }
            },
            Some(c) => {
                assert(digits[done.len() as int] == c);
                if c < '0' || c > '9' {
                    assert(!is_digit(digits[done.len() as int]));
                    return None;
                }
                let wider: u64 = value * 10 + (c as u32 - 48) as u64;
                proof {
                    let longer = done.push(c);
                    assert(longer.drop_last() =~= done);
                    assert(longer.last() == c);
                    assert(digits_value(longer) == digits_value(done) * 10 + digit_value(c));
                    assert(digits =~= longer + it.remaining());
                    assert(digits.take(longer.len() as int) =~= longer);
                    lemma_digits_value_prefix(digits, longer.len() as int);
                    done = longer;
                }
                if wider > 0xffff_ffff {
                    return None;
                }
                value = wider;
                seen = true;
            },
        }
    }
}

/// The contents of a list of strings.
pub open spec fn texts(v: Seq<String>) -> Seq<Seq<char>> {
    Seq::new(v.len(), |i: int| v[i]@)
}

/// Appends one string to a list of strings.
pub(crate) fn push_text(list: &mut Vec<String>, item: String)
    ensures
        texts(final(list)@) == texts(old(list)@).push(item@),
        final(list)@ == old(list)@.push(item),
{
    list.push(item);
    assert(texts(list@) =~= texts(old(list)@).push(item@));
}

/// Appends a string literal to a list of strings.
pub(crate) fn push_str(list: &mut Vec<String>, item: &str)
    ensures
        texts(final(list)@) == texts(old(list)@).push(item@),
{
    push_text(list, String::from_str(item));
}

/// Whether two strings hold the same characters.
pub fn same_text(a: &str, b: &str) -> (same: bool)
    ensures
        same <==> a@ == b@,
{
    let left: String = String::from_str(a);
    let right: String = String::from_str(b);
    left == right
}

} // verus!
