//! Exact decimal numbers with nine fractional digits, and their text forms.
use vstd::prelude::*;

verus! {

/// Number of units in one whole: a `Decimal` counts billionths.
pub const UNITS: i128 = 1_000_000_000;

/// A signed decimal number held exactly as a count of billionths.
#[derive(Clone, Copy, Debug, PartialEq, Eq, Structural)]
pub struct Decimal {
    pub units: i128,
}

pub open spec fn digit_char(d: int) -> char {
    if d == 0 { '0' }
    else if d == 1 { '1' }
    else if d == 2 { '2' }
    else if d == 3 { '3' }
    else if d == 4 { '4' }
    else if d == 5 { '5' }
    else if d == 6 { '6' }
    else if d == 7 { '7' }
    else if d == 8 { '8' }
    else { '9' }
}

/// Decimal digits of `v`, most significant first, without leading zeros.
pub open spec fn nat_text(v: nat) -> Seq<char>
    decreases v,
{
    if v < 10 {
        seq![digit_char(v as int)]
    } else {
        nat_text(v / 10).push(digit_char((v % 10) as int))
    }
}

/// The last `n` decimal digits of `v`, zero-padded on the left.
pub open spec fn padded_text(v: nat, n: nat) -> Seq<char>
    decreases n,
{
    if n == 0 {
        Seq::empty()
    } else {
        padded_text(v / 10, (n - 1) as nat).push(digit_char((v % 10) as int))
    }
}

/// Fractional digits `f` (of `n` places) with trailing zeros removed.
pub open spec fn trimmed_fraction(f: nat, n: nat) -> Seq<char>
    decreases n,
{
    if n > 0 && f % 10 == 0 {
        trimmed_fraction(f / 10, (n - 1) as nat)
    } else {
        padded_text(f, n)
    }
}

/// Shortest plain text of a non-negative count of units: the whole part,
/// then a point and the fraction only where the fraction is not zero.
pub open spec fn unsigned_text(u: nat) -> Seq<char> {
    let frac = u % (UNITS as nat);
    if frac == 0 {
        nat_text(u / (UNITS as nat))
    } else {
        nat_text(u / (UNITS as nat)) + seq!['.'] + trimmed_fraction(frac, 9)
    }
}

/// Shortest plain text of a value given in units (`90`, `1.5`, `-0.25`).
pub open spec fn decimal_text(u: int) -> Seq<char> {
    if u < 0 {
        seq!['-'] + unsigned_text((-u) as nat)
    } else {
        unsigned_text(u as nat)
    }
}

/// Text of a count of hundredths with exactly two decimals (`150` is `1.50`).
pub open spec fn fixed2_text(q: nat) -> Seq<char> {
    nat_text(q / 100) + seq!['.'] + padded_text(q % 100, 2)
}

/// `n / d` rounded to the nearest integer, ties to the even neighbour.
pub open spec fn round_div(n: nat, d: nat) -> nat
    recommends
        d > 0,
{
    let q = n / d;
    let r = n % d;
    if 2 * r > d || (2 * r == d && q % 2 == 1) {
        q + 1
    } else {
        q
    }
}

/// Relies on String::push: the character is appended at the end.
#[verifier::external_body]
pub(crate) fn push_char(s: &mut String, c: char)
    ensures
        final(s)@ == old(s)@.push(c),
{
    s.push(c)
}

pub fn digit_to_char(d: u8) -> (c: char)
    requires
        d < 10,
    ensures
        c == digit_char(d as int),
{
    match d {
        0 => '0',
        1 => '1',
        2 => '2',
        3 => '3',
        4 => '4',
        5 => '5',
        6 => '6',
        7 => '7',
        8 => '8',
        _ => '9',
    }
}

/// Appends the decimal digits of `v`.
pub fn push_nat(s: &mut String, v: u128)
    ensures
        final(s)@ == old(s)@ + nat_text(v as nat),
    decreases v,
{
    if v < 10 {
        push_char(s, digit_to_char(v as u8));
        assert(old(s)@ + nat_text(v as nat) =~= old(s)@.push(digit_char(v as int)));
    } else {
        push_nat(s, v / 10);
        push_char(s, digit_to_char((v % 10) as u8));
        assert(old(s)@ + nat_text(v as nat) =~= old(s)@ + nat_text((v / 10) as nat) + seq![
            digit_char((v % 10) as int),
        ]);
    }
}

/// Appends the last `n` digits of `v`, zero-padded.
pub fn push_padded(s: &mut String, v: u128, n: u32)
    ensures
        final(s)@ == old(s)@ + padded_text(v as nat, n as nat),
    decreases n,
{
    if n > 0 {
        push_padded(s, v / 10, n - 1);
        push_char(s, digit_to_char((v % 10) as u8));
        assert(old(s)@ + padded_text(v as nat, n as nat) =~= old(s)@ + padded_text(
            (v / 10) as nat,
            (n - 1) as nat,
        ) + seq![digit_char((v % 10) as int)]);
    } else {
        assert(old(s)@ + padded_text(v as nat, n as nat) =~= old(s)@);
    }
}

/// Shortest plain text of a decimal, as `f64`'s `Display` writes one that
/// it holds exactly: `90`, `1.5`, `-0.25`.
pub fn to_text(d: Decimal) -> (r: String)
    ensures
        r@ == decimal_text(d.units as int),
{
    let mut s = String::new();
    let mag: u128;
    if d.units < 0 {
        push_char(&mut s, '-');
        mag = (-(d.units + 1)) as u128 + 1;
    } else {
        mag = d.units as u128;
    }
    let whole = mag / (UNITS as u128);
    let mut frac = mag % (UNITS as u128);
    push_nat(&mut s, whole);
    if frac != 0 {
        push_char(&mut s, '.');
        let mut n: u32 = 9;
        while n > 0 && frac % 10 == 0
            invariant
                n <= 9,
                trimmed_fraction(frac as nat, n as nat) == trimmed_fraction(
                    (mag % (UNITS as u128)) as nat,
                    9,
                ),
            decreases n,
        {
            frac = frac / 10;
            n = n - 1;
        }
        push_padded(&mut s, frac, n);
    }
    assert(s@ =~= decimal_text(d.units as int));
    s
}

/// Text of a count of hundredths with exactly two decimals.
pub fn fixed2_to_text(q: u128) -> (r: String)
    ensures
        r@ == fixed2_text(q as nat),
{
    let mut s = String::new();
    push_nat(&mut s, q / 100);
    push_char(&mut s, '.');
    push_padded(&mut s, q % 100, 2);
    assert(s@ =~= fixed2_text(q as nat));
    s
}

/// `n / d` rounded to the nearest integer, ties to even.
pub fn round_div_exec(n: u128, d: u128) -> (r: u128)
    requires
        d > 0,
        n < 0x1000_0000_0000_0000_0000_0000_0000_0000,
    ensures
        r == round_div(n as nat, d as nat),
{
    let q = n / d;
    let rem = n % d;
    if rem > d - rem || (rem == d - rem && q % 2 == 1) {
        q + 1
    } else {
        q
    }
}


pub open spec fn pow10(n: nat) -> nat
    decreases n,
{
    if n == 0 { 1 } else { 10 * pow10((n - 1) as nat) }
}

pub open spec fn is_digit(c: char) -> bool {
    '0' <= c && c <= '9'
}

pub open spec fn digit_value(c: char) -> int {
    c as int - '0' as int
}

pub open spec fn all_digits(s: Seq<char>) -> bool {
    forall|i: int| 0 <= i < s.len() ==> is_digit(#[trigger] s[i])
}

/// The number that a run of decimal digits spells.
pub open spec fn digits_value(s: Seq<char>) -> int
    decreases s.len(),
{
    if s.len() == 0 {
        0
    } else {
        10 * digits_value(s.drop_last()) + digit_value(s.last())
    }
}

/// Position of the first `c` in `s`, or `s.len()` where there is none.
pub open spec fn first_index(s: Seq<char>, c: char) -> int
    decreases s.len(),
{
    if s.len() == 0 {
        0
    } else if s[0] == c {
        0
    } else {
        1 + first_index(s.drop_first(), c)
    }
}

/// Most digits a whole part may have.
pub const MAX_WHOLE_DIGITS: usize = 18;

/// Most digits a fraction may have.
pub const MAX_FRACTION_DIGITS: usize = 9;

/// Units of an unsigned decimal numeral: digits, optionally a point and more
/// digits, with at least one digit in all (`5`, `5.`, `.5`, `5.25`). The
/// whole part holds at most 18 digits and the fraction at most 9.
pub open spec fn unsigned_units(s: Seq<char>) -> Option<int> {
    let k = first_index(s, '.');
    let a = s.subrange(0, k);
    let b = if k < s.len() { s.subrange(k + 1, s.len() as int) } else { Seq::<char>::empty() };
    if all_digits(a) && all_digits(b) && a.len() + b.len() >= 1 && a.len() <= MAX_WHOLE_DIGITS
        && b.len() <= MAX_FRACTION_DIGITS {
        Some(digits_value(a) * UNITS + digits_value(b) * pow10((9 - b.len()) as nat))
    } else {
        None
    }
}

/// Units of a decimal numeral with an optional leading `-` or `+`.
pub open spec fn number_units(s: Seq<char>) -> Option<int> {
    if s.len() > 0 && s[0] == '-' {
        match unsigned_units(s.drop_first()) {
            Some(v) => Some(-v),
            None => None,
        }
    } else if s.len() > 0 && s[0] == '+' {
        unsigned_units(s.drop_first())
    } else {
        unsigned_units(s)
    }
}

pub proof fn lemma_first_index(s: Seq<char>, c: char, k: int)
    requires
        0 <= k <= s.len(),
        forall|j: int| 0 <= j < k ==> s[j] != c,
        k == s.len() || s[k] == c,
    ensures
        first_index(s, c) == k,
    decreases k,
{
    if k > 0 {
        assert(s[0] != c);
        lemma_first_index(s.drop_first(), c, k - 1);
    }
}

pub proof fn lemma_pow10_positive(n: nat)
    ensures
        pow10(n) >= 1,
    decreases n,
{
    if n > 0 {
        lemma_pow10_positive((n - 1) as nat);
    }
}

/// Position of the first `c` in `s` between `lo` and `hi`, or `hi`.
pub fn find_char(s: &str, c: char, lo: usize, hi: usize) -> (r: usize)
    requires
        lo <= hi <= s@.len(),
    ensures
        r == lo + first_index(s@.subrange(lo as int, hi as int), c),
        lo <= r <= hi,
{
    let mut i = lo;
    while i < hi && s.get_char(i) != c
        invariant
            lo <= i <= hi <= s@.len(),
            forall|j: int| lo <= j < i ==> s@[j] != c,
        decreases hi - i,
    {
        i = i + 1;
    }
    proof {
        lemma_first_index(s@.subrange(lo as int, hi as int), c, i - lo);
    }
    i
}

/// The value of the digits between `lo` and `hi`, where all are digits and
/// there are at most `max` of them.
fn digits_exec(s: &str, lo: usize, hi: usize, max: usize) -> (r: Option<u128>)
    requires
        lo <= hi <= s@.len(),
        max <= 18,
    ensures
        r is Some <==> all_digits(s@.subrange(lo as int, hi as int)) && hi - lo <= max,
        r matches Some(v) ==> v == digits_value(s@.subrange(lo as int, hi as int)) && v < pow10(
            (hi - lo) as nat,
        ),
{
    if hi - lo > max {
        return None;
    }
    let mut i = lo;
    let mut acc: u128 = 0;
    proof {
        lemma_pow10_le(0, 18);
    }
    while i < hi
        invariant
            lo <= i <= hi <= s@.len(),
            hi - lo <= max <= 18,
            all_digits(s@.subrange(lo as int, i as int)),
            acc == digits_value(s@.subrange(lo as int, i as int)),
            acc < pow10((i - lo) as nat),
            pow10((i - lo) as nat) <= pow10(18),
        decreases hi - i,
    {
        let c = s.get_char(i);
        if !('0' <= c && c <= '9') {
            assert(s@.subrange(lo as int, hi as int)[i - lo] == c);
            return None;
        }
        let ghost prev = s@.subrange(lo as int, i as int);
        let ghost next = s@.subrange(lo as int, i + 1);
        assert(next.drop_last() =~= prev);
        proof {
            lemma_pow10_values();
        }
        acc = acc * 10 + (c as u128 - '0' as u128);
        i = i + 1;
        assert(pow10((i - lo) as nat) <= pow10(18)) by {
            lemma_pow10_le((i - lo) as nat, 18);
        }
    }
    assert(s@.subrange(lo as int, i as int) =~= s@.subrange(lo as int, hi as int));
    Some(acc)
}

pub proof fn lemma_pow10_values()
    ensures
        pow10(2) == 100,
        pow10(9) == 1_000_000_000,
        pow10(18) == 1_000_000_000_000_000_000,
{
    reveal_with_fuel(pow10, 19);
}

pub proof fn lemma_pow10_le(a: nat, b: nat)
    requires
        a <= b,
    ensures
        pow10(a) <= pow10(b),
    decreases b,
{
    lemma_pow10_positive(b);
    if a < b {
        lemma_pow10_le(a, (b - 1) as nat);
    }
}

/// Units of the unsigned numeral between `lo` and `hi`.
fn unsigned_exec(s: &str, lo: usize, hi: usize) -> (r: Option<i128>)
    requires
        lo <= hi <= s@.len(),
    ensures
        r matches Some(v) ==> unsigned_units(s@.subrange(lo as int, hi as int)) == Some(v as int),
        r is None ==> unsigned_units(s@.subrange(lo as int, hi as int)) is None,
        r matches Some(v) ==> 0 <= v < pow10(18) * UNITS,
{
    let ghost t = s@.subrange(lo as int, hi as int);
    let k = find_char(s, '.', lo, hi);
    let b_lo = if k < hi { k + 1 } else { hi };
    proof {
        assert(t.subrange(0, k - lo) =~= s@.subrange(lo as int, k as int));
        if k < hi {
            assert(t.subrange(k - lo + 1, t.len() as int) =~= s@.subrange(k + 1, hi as int));
        } else {
            assert(s@.subrange(hi as int, hi as int) =~= Seq::<char>::empty());
        }
    }
    let a = digits_exec(s, lo, k, MAX_WHOLE_DIGITS);
    let b = digits_exec(s, b_lo, hi, MAX_FRACTION_DIGITS);
    match (a, b) {
        (Some(av), Some(bv)) => {
            if k - lo + (hi - b_lo) == 0 {
                return None;
            }
            let n = hi - b_lo;
            let mut f = bv;
            let mut j = n;
            proof {
                assert(pow10(0) == 1);
                assert((j - n) as nat == 0);
                assert(bv * pow10((j - n) as nat) == bv);
                lemma_pow10_values();
                lemma_pow10_le(n as nat, 9);
                lemma_pow10_le((k - lo) as nat, 18);
            }
            while j < 9
                invariant
                    n <= j <= 9,
                    f == bv * pow10((j - n) as nat),
                    f < pow10(j as nat),
                    pow10(9) == 1_000_000_000,
                decreases 9 - j,
            {
                proof {
                    lemma_pow10_le((j + 1) as nat, 9);
                    let p = pow10((j - n) as nat);
                    assert(pow10((j + 1 - n) as nat) == 10 * p);
                    assert(f * 10 == bv * (10 * p)) by (nonlinear_arith)
                        requires
                            f == bv * p,
                    ;
                }
                f = f * 10;
                j = j + 1;
            }
            assert(av * UNITS + f < pow10(18) * UNITS) by (nonlinear_arith)
                requires
                    av < pow10(18),
                    f < 1_000_000_000,
                    UNITS == 1_000_000_000,
            ;
            Some((av as i128) * UNITS + f as i128)
        },
        _ => None,
    }
}

/// Units of the numeral between `lo` and `hi`, sign included.
pub fn parse_number(s: &str, lo: usize, hi: usize) -> (r: Option<Decimal>)
    requires
        lo <= hi <= s@.len(),
    ensures
        r matches Some(d) ==> number_units(s@.subrange(lo as int, hi as int)) == Some(d.units as int),
        r is None ==> number_units(s@.subrange(lo as int, hi as int)) is None,
        r matches Some(d) ==> -pow10(18) * UNITS < d.units < pow10(18) * UNITS,
{
    let ghost t = s@.subrange(lo as int, hi as int);
    if lo < hi {
        let c = s.get_char(lo);
        if c == '-' || c == '+' {
            assert(t.drop_first() =~= s@.subrange(lo + 1, hi as int));
            let v = unsigned_exec(s, lo + 1, hi);
            return match v {
                Some(u) => if c == '-' { Some(Decimal { units: -u }) } else { Some(Decimal { units: u }) },
                None => None,
            };
        }
    }
    match unsigned_exec(s, lo, hi) {
        Some(u) => Some(Decimal { units: u }),
        None => None,
    }
}


/// Reads a whole text as a decimal numeral (`2`, `-0.5`, `+1.25`, `.5`).
pub fn parse_decimal(text: &str) -> (r: Option<Decimal>)
    ensures
        r matches Some(d) ==> number_units(text@) == Some(d.units as int),
        r is None ==> number_units(text@) is None,
{
    let n = text.unicode_len();
    assert(text@.subrange(0, n as int) =~= text@);
    parse_number(text, 0, n)
}

} // verus!
