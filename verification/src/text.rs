//! Decimal rendering of integers, as the library's text forms use it, and the test for the
//! NUL character that C strings cannot carry.
use vstd::prelude::*;

verus! {

broadcast use vstd::string::group_string_axioms;

/// Appends a character to a `String` (std: "Appends the given char to the end of this
/// String").
pub assume_specification[ String::push ](s: &mut String, ch: char)
    ensures
        final(s)@ == old(s)@.push(ch),
;

/// The ASCII digit for a value below ten.
pub open spec fn digit_char(d: nat) -> char {
    ((d + 48) as u8) as char
}

/// Decimal digits of a natural number, most significant first, without leading zeros.
pub open spec fn decimal(n: nat) -> Seq<char>
    decreases n,
{
    if n < 10 {
        seq![digit_char(n)]
    } else {
        decimal(n / 10).push(digit_char(n % 10))
    }
}

/// A run of `n` zero characters.
pub open spec fn zeros(n: nat) -> Seq<char> {
    Seq::new(n, |i: int| '0')
}

/// `s` preceded by as many zeros as needed to reach `width` characters.
pub open spec fn zero_pad(s: Seq<char>, width: nat) -> Seq<char> {
    if s.len() >= width {
        s
    } else {
        zeros((width - s.len()) as nat) + s
    }
}

/// `s` with all trailing zero characters removed.
pub open spec fn trim_trailing_zeros(s: Seq<char>) -> Seq<char>
    decreases s.len(),
{
    if s.len() > 0 && s.last() == '0' {
        trim_trailing_zeros(s.drop_last())
    } else {
        s
    }
}

/// Fractional-second digits of a nanosecond count below one second: nine digits,
/// trailing zeros dropped.
pub open spec fn fraction_text(nanos: nat) -> Seq<char> {
    trim_trailing_zeros(zero_pad(decimal(nanos), 9))
}

pub proof fn lemma_decimal_len_pos(n: nat)
    ensures
        decimal(n).len() >= 1,
    decreases n,
{
    if n >= 10 {
        lemma_decimal_len_pos(n / 10);
    }
}

fn digit(d: u64) -> (c: char)
    requires
        d < 10,
    ensures
        c == digit_char(d as nat),
{
    let b: u8 = (d as u8) + 48;
    b as char
}

/// Appends the decimal digits of `n`.
pub fn push_decimal(s: &mut String, n: u64)
    ensures
        final(s)@ == old(s)@ + decimal(n as nat),
    decreases n,
{
    if n < 10 {
        s.push(digit(n));
        assert(s@ =~= old(s)@ + decimal(n as nat));
    } else {
        push_decimal(s, n / 10);
        s.push(digit(n % 10));
        assert(s@ =~= old(s)@ + decimal(n as nat));
    }
}

/// Number of decimal digits of `n`.
pub fn decimal_len(n: u64) -> (r: u64)
    ensures
        r == decimal(n as nat).len(),
        1 <= r <= 20,
    decreases n,
{
    if n < 10 {
        1
    } else {
        let r = decimal_len(n / 10);
        proof {
            reveal_with_fuel(pow10, 21);
            assert(pow10(20) == 100_000_000_000_000_000_000);
            lemma_decimal_len_bound(n as nat, 20);
        }
        r + 1
    }
}

/// Appends `count` zero characters.
pub fn push_zeros(s: &mut String, count: u64)
    ensures
        final(s)@ == old(s)@ + zeros(count as nat),
{
    let mut i: u64 = 0;
    while i < count
        invariant
            i <= count,
            s@ == old(s)@ + zeros(i as nat),
        decreases count - i,
    {
        s.push('0');
        i = i + 1;
        assert(s@ =~= old(s)@ + zeros(i as nat));
    }
}

/// Appends the decimal digits of `n`, zero padded to `width` characters.
pub fn push_zero_padded(s: &mut String, n: u64, width: u64)
    ensures
        final(s)@ == old(s)@ + zero_pad(decimal(n as nat), width as nat),
{
    let len = decimal_len(n);
    if len < width {
        push_zeros(s, width - len);
    }
    push_decimal(s, n);
    assert(s@ =~= old(s)@ + zero_pad(decimal(n as nat), width as nat));
}

/// Ten to the power `k`.
pub open spec fn pow10(k: nat) -> nat
    decreases k,
{
    if k == 0 {
        1
    } else {
        10 * pow10((k - 1) as nat)
    }
}

pub proof fn lemma_decimal_len_bound(n: nat, k: nat)
    requires
        k >= 1,
        n < pow10(k),
    ensures
        decimal(n).len() <= k,
    decreases k,
{
    if n >= 10 {
        if k == 1 {
            assert(pow10(1) == 10) by {
                reveal_with_fuel(pow10, 2);
            }
        } else {
            assert(n / 10 < pow10((k - 1) as nat));
            lemma_decimal_len_bound(n / 10, (k - 1) as nat);
        }
    }
}

proof fn lemma_decimal_times_ten(m: nat)
    requires
        m > 0,
    ensures
        decimal(m * 10) == decimal(m).push('0'),
{
    assert((m * 10) / 10 == m);
    assert((m * 10) % 10 == 0);
    assert(digit_char(0) == '0');
}

proof fn lemma_trim_push_zero(s: Seq<char>)
    ensures
        trim_trailing_zeros(s.push('0')) == trim_trailing_zeros(s),
{
    assert(s.push('0').drop_last() =~= s);
}

proof fn lemma_pad_push(s: Seq<char>, width: nat)
    requires
        s.len() + 1 <= width,
    ensures
        zero_pad(s.push('0'), width) == zero_pad(s, (width - 1) as nat).push('0'),
{
    assert(zero_pad(s.push('0'), width) =~= zero_pad(s, (width - 1) as nat).push('0'));
}

proof fn lemma_decimal_last_nonzero(n: nat)
    requires
        n % 10 != 0,
    ensures
        decimal(n).last() != '0',
{
    let d = (n % 10) as nat;
    assert(digit_char(d) != '0') by {
        assert(d < 10 && d != 0);
        assert((d + 48) as u8 != 48u8);
    }
}

/// Appends the fractional digits of a sub-second nanosecond count.
pub fn push_fraction(s: &mut String, nanos: u32)
    requires
        nanos < 1_000_000_000,
    ensures
        final(s)@ == old(s)@ + fraction_text(nanos as nat),
{
    if nanos == 0 {
        proof {
            reveal_with_fuel(trim_trailing_zeros, 10);
            assert(decimal(0) == seq![digit_char(0)]);
            assert(zero_pad(decimal(0), 9) =~= seq!['0', '0', '0', '0', '0', '0', '0', '0', '0']);
            assert(fraction_text(0) =~= Seq::<char>::empty());
        }
        return;
    }
    let mut n: u64 = nanos as u64;
    let mut width: u64 = 9;
    proof {
        lemma_decimal_len_pos(n as nat);
        reveal_with_fuel(pow10, 10);
        assert(pow10(9) == 1_000_000_000);
        lemma_decimal_len_bound(n as nat, 9);
    }
    while n % 10 == 0
        invariant
            0 < n,
            decimal(n as nat).len() <= width <= 9,
            fraction_text(nanos as nat) == trim_trailing_zeros(zero_pad(decimal(n as nat), width as nat)),
        decreases n,
    {
        let m = n / 10;
        proof {
            lemma_decimal_times_ten(m as nat);
            lemma_pad_push(decimal(m as nat), width as nat);
            lemma_trim_push_zero(zero_pad(decimal(m as nat), (width - 1) as nat));
        }
        n = m;
        width = width - 1;
    }
    proof {
        lemma_decimal_last_nonzero(n as nat);
        lemma_decimal_len_pos(n as nat);
        let p = zero_pad(decimal(n as nat), width as nat);
        assert(p.last() == decimal(n as nat).last());
    }
    push_zero_padded(s, n, width);
}

/// Whether the text holds a NUL character, which a C string cannot carry.
pub fn contains_nul(text: &str) -> (r: bool)
    ensures
        r == text@.contains('\0'),
{
    let mut found = false;
    for c in it: text.chars()
        invariant
            it.seq() == text@,
            found == (exists|i: int| 0 <= i < it.index() && text@[i] == '\0'),
    {
        if c == '\0' {
            found = true;
        }
    }
    found
}

} // verus!
