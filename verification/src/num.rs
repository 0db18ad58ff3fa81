//! Decimal and hexadecimal numerals: formatting as `format!("{}")` and
//! `format!("{:0w$}")` do it, and parsing as the integer `FromStr` and
//! `from_str_radix` implementations do it.
use vstd::prelude::*;

verus! {

/// The character of a decimal digit `d < 10`.
pub open spec fn digit_char(d: nat) -> char {
    ((d + 48) as u8) as char
}

/// The decimal numeral of `n`, without leading zeros ("0" for zero).
pub open spec fn dec_digits(n: nat) -> Seq<char>
    decreases n,
{
    if n < 10 {
        seq![digit_char(n)]
    } else {
        dec_digits(n / 10).push(digit_char(n % 10))
    }
}

/// `s` padded on the left with '0' to at least `width` characters.
pub open spec fn zero_pad(s: Seq<char>, width: nat) -> Seq<char> {
    if s.len() >= width {
        s
    } else {
        Seq::new((width - s.len()) as nat, |_i: int| '0') + s
    }
}

/// The decimal numeral of a signed integer, with a leading '-' when negative.
pub open spec fn int_digits(i: int) -> Seq<char> {
    if i < 0 {
        seq!['-'] + dec_digits((-i) as nat)
    } else {
        dec_digits(i as nat)
    }
}

/// The value of one digit in the given radix (10 or 16), or -1.
pub open spec fn digit_val(c: char, radix: nat) -> int {
    if '0' <= c && c <= '9' {
        (c as int) - 48
    } else if radix == 16 && 'a' <= c && c <= 'f' {
        (c as int) - 87
    } else if radix == 16 && 'A' <= c && c <= 'F' {
        (c as int) - 55
    } else {
        -1
    }
}

/// Every character of `s` is a digit in the radix.
pub open spec fn all_digits(s: Seq<char>, radix: nat) -> bool {
    forall|i: int| 0 <= i < s.len() ==> digit_val(#[trigger] s[i], radix) >= 0
}

/// The value of a string of digits, most significant first.
pub open spec fn digits_value(s: Seq<char>, radix: nat) -> nat
    decreases s.len(),
{
    if s.len() == 0 {
        0
    } else {
        digits_value(s.drop_last(), radix) * radix + (digit_val(s.last(), radix) as nat)
    }
}

/// The digits that follow an optional sign: `Some` with the digits of an
/// unsigned numeral as `from_str_radix` reads it (a leading '+' is allowed,
/// a lone sign or the empty string is refused).
pub open spec fn unsigned_body(s: Seq<char>) -> Option<Seq<char>> {
    if s.len() == 0 || s =~= seq!['+'] || s =~= seq!['-'] {
        None
    } else if s[0] == '+' {
        Some(s.drop_first())
    } else {
        Some(s)
    }
}

/// The value of an unsigned numeral in the radix, unbounded.
pub open spec fn parse_unsigned(s: Seq<char>, radix: nat) -> Option<nat> {
    match unsigned_body(s) {
        Some(d) => if all_digits(d, radix) {
            Some(digits_value(d, radix))
        } else {
            None
        },
        None => None,
    }
}

/// `<u16 as FromStr>::from_str`, as an option.
pub open spec fn parse_u16(s: Seq<char>) -> Option<u16> {
    match parse_unsigned(s, 10) {
        Some(v) => if v <= u16::MAX {
            Some(v as u16)
        } else {
            None
        },
        None => None,
    }
}

/// `usize::from_str_radix(s, radix)`, as an option.
pub open spec fn parse_usize_radix(s: Seq<char>, radix: nat) -> Option<usize> {
    match parse_unsigned(s, radix) {
        Some(v) => if v <= usize::MAX {
            Some(v as usize)
        } else {
            None
        },
        None => None,
    }
}

/// `<i32 as FromStr>::from_str`, as an option.
pub open spec fn parse_i32(s: Seq<char>) -> Option<i32> {
    if s.len() >= 2 && s[0] == '-' {
        let d = s.drop_first();
        if all_digits(d, 10) && digits_value(d, 10) <= 0x8000_0000 {
            Some((-(digits_value(d, 10) as int)) as i32)
        } else {
            None
        }
    } else {
        match parse_unsigned(s, 10) {
            Some(v) => if v <= i32::MAX {
                Some(v as i32)
            } else {
                None
            },
            None => None,
        }
    }
}

/// The decimal digits of a number are at least one, each an ASCII digit.
pub proof fn lemma_dec_digits_ascii(n: nat)
    ensures
        dec_digits(n).len() >= 1,
        forall|i: int| 0 <= i < dec_digits(n).len() ==> '0' <= #[trigger] dec_digits(n)[i] <= '9',
    decreases n,
{
    if n >= 10 {
        lemma_dec_digits_ascii(n / 10);
    }
}

/// Appends the decimal numeral of `n` to `out`.
pub fn push_dec(out: &mut Vec<char>, n: u64)
    ensures
        final(out)@ == old(out)@ + dec_digits(n as nat),
    decreases n,
{
    if n >= 10 {
        push_dec(out, n / 10);
    }
    let d: u8 = (n % 10) as u8;
    out.push((d + 48) as char);
    assert(final(out)@ =~= old(out)@ + dec_digits(n as nat));
}

/// Ten to the power `k`.
pub open spec fn pow10(k: nat) -> nat
    decreases k,
{
    if k == 0 {
        1
    } else {
        10 * pow10((k - 1) as nat)
    }
}

/// The number of decimal digits of `n`.
pub fn dec_len(n: u64) -> (r: usize)
    ensures
        r == dec_digits(n as nat).len(),
        1 <= r <= 20,
        n == 0 || n as nat >= pow10((r - 1) as nat),
    decreases n,
{
    if n >= 10 {
        let k = dec_len(n / 10);
        proof {
            lemma_pow10_20();
            let p = pow10((k - 1) as nat);
            let m = (n / 10) as nat;
            assert(pow10(k as nat) == 10 * p);
            assert(10 * p <= 10 * m) by (nonlinear_arith)
                requires
                    p <= m,
            ;
            lemma_pow10_mono((k - 1) as nat, 19);
        }
        k + 1
    } else {
        1
    }
}

/// Ten to the twentieth exceeds every `u64`.
pub proof fn lemma_pow10_20()
    ensures
        pow10(20) > u64::MAX,
{
    reveal_with_fuel(pow10, 21);
}

/// Powers of ten grow with the exponent.
pub proof fn lemma_pow10_mono(a: nat, b: nat)
    requires
        a <= b,
    ensures
        pow10(a) <= pow10(b),
    decreases b,
{
    if a < b {
        lemma_pow10_mono(a, (b - 1) as nat);
    }
}

/// The decimal numeral of `n` padded with '0' to `width` characters, as `format!("{:0width$}", n)`.
pub fn push_dec_padded(out: &mut Vec<char>, n: u64, width: usize)
    ensures
        final(out)@ == old(out)@ + zero_pad(dec_digits(n as nat), width as nat),
{
    let len = dec_len(n);
    let mut k: usize = len;
    let ghost start = out@;
    while k < width
        invariant
            len <= k <= (if width > len { width } else { len }),
            out@ == start + Seq::new((k - len) as nat, |_i: int| '0'),
        decreases width - k,
    {
        out.push('0');
        k = k + 1;
        assert(out@ =~= start + Seq::new((k - len) as nat, |_i: int| '0'));
    }
    let ghost pad = out@;
    push_dec(out, n);
    if width > len {
        assert(out@ =~= start + zero_pad(dec_digits(n as nat), width as nat));
    } else {
        assert(out@ =~= start + zero_pad(dec_digits(n as nat), width as nat));
    }
}

/// Appends the decimal numeral of a signed integer to `out`, as `format!("{}", i)`.
pub fn push_int(out: &mut Vec<char>, i: i64)
    ensures
        final(out)@ == old(out)@ + int_digits(i as int),
{
    if i < 0 {
        out.push('-');
        let ghost mid = out@;
        let m: u64 = if i == i64::MIN {
            0x8000_0000_0000_0000u64
        } else {
            (-i) as u64
        };
        push_dec(out, m);
        assert(out@ =~= old(out)@ + int_digits(i as int));
    } else {
        push_dec(out, i as u64);
    }
}

/// The value of one character as a digit in the radix, or -1.
pub fn digit_value(c: char, radix: u64) -> (r: i64)
    requires
        radix == 10 || radix == 16,
    ensures
        r == digit_val(c, radix as nat),
{
    if '0' <= c && c <= '9' {
        (c as u32 - 48) as i64
    } else if radix == 16 && 'a' <= c && c <= 'f' {
        (c as u32 - 87) as i64
    } else if radix == 16 && 'A' <= c && c <= 'F' {
        (c as u32 - 55) as i64
    } else {
        -1
    }
}

/// One more digit multiplies the value by the radix and adds the digit.
pub proof fn lemma_digits_value_step(s: Seq<char>, lo: int, i: int, radix: nat)
    requires
        0 <= lo <= i < s.len(),
    ensures
        digits_value(s.subrange(lo, i + 1), radix) == digits_value(s.subrange(lo, i), radix) * radix
            + (digit_val(s[i], radix) as nat),
{
    assert(s.subrange(lo, i + 1).drop_last() =~= s.subrange(lo, i));
}

/// A string of valid digits is worth at least any of its prefixes.
pub proof fn lemma_digits_value_prefix(s: Seq<char>, k: int, radix: nat)
    requires
        0 <= k <= s.len(),
        all_digits(s, radix),
        radix >= 1,
    ensures
        digits_value(s, radix) >= digits_value(s.take(k), radix),
    decreases s.len(),
{
    if k < s.len() {
        assert(all_digits(s.drop_last(), radix)) by {
            assert forall|i: int| 0 <= i < s.drop_last().len() implies digit_val(
                #[trigger] s.drop_last()[i],
                radix,
            ) >= 0 by {
                assert(s.drop_last()[i] == s[i]);
            }
        }
        lemma_digits_value_prefix(s.drop_last(), k, radix);
        assert(s.drop_last().take(k) =~= s.take(k));
        let v = digits_value(s.drop_last(), radix);
        assert(digit_val(s[s.len() - 1], radix) >= 0);
        assert(v * radix >= v) by (nonlinear_arith)
            requires
                radix >= 1,
        ;
    } else {
        assert(s.take(k) =~= s);
    }
}

/// Reads the digits `s[lo..hi]` in the radix; `None` when a character is not
/// a digit or the value exceeds `max`.
pub fn parse_digits(s: &[char], lo: usize, hi: usize, radix: u64, max: u64) -> (r: Option<u64>)
    requires
        lo <= hi <= s@.len(),
        radix == 10 || radix == 16,
    ensures
        r == (if all_digits(s@.subrange(lo as int, hi as int), radix as nat) && digits_value(
            s@.subrange(lo as int, hi as int),
            radix as nat,
        ) <= max {
            Some(digits_value(s@.subrange(lo as int, hi as int), radix as nat) as u64)
        } else {
            None
        }),
{
    let ghost full = s@.subrange(lo as int, hi as int);
    let mut v: u64 = 0;
    let mut i: usize = lo;
    assert(s@.subrange(lo as int, lo as int) =~= Seq::<char>::empty());
    while i < hi
        invariant
            lo <= i <= hi <= s@.len(),
            radix == 10 || radix == 16,
            full == s@.subrange(lo as int, hi as int),
            all_digits(s@.subrange(lo as int, i as int), radix as nat),
            v == digits_value(s@.subrange(lo as int, i as int), radix as nat),
            v <= max,
        decreases hi - i,
    {
        let d = digit_value(s[i], radix);
        if d < 0 {
            assert(!all_digits(full, radix as nat)) by {
                assert(full[i - lo] == s@[i as int]);
            }
            return None;
        }
        proof {
            lemma_digits_value_step(s@, lo as int, i as int, radix as nat);
        }
        let du = d as u64;
        let q: u64 = if du > max { 0 } else { (max - du) / radix };
        if du > max || v > q {
            proof {
                assert(v * radix + du > max) by (nonlinear_arith)
                    requires
                        du > max || v > q,
                        du <= max ==> q == (max - du) as int / (radix as int),
                        radix >= 10,
                        du >= 0,
                ;
                if all_digits(full, radix as nat) {
                    assert(full.take(i + 1 - lo) =~= s@.subrange(lo as int, i + 1));
                    lemma_digits_value_prefix(full, i + 1 - lo, radix as nat);
                }
            }
            return None;
        }
        proof {
            assert(v * radix + du <= max) by (nonlinear_arith)
                requires
                    du <= max,
                    v <= q,
                    q == (max - du) as int / (radix as int),
                    radix >= 10,
            ;
            assert forall|j: int| 0 <= j < (i + 1 - lo) implies digit_val(
                #[trigger] s@.subrange(lo as int, i + 1)[j],
                radix as nat,
            ) >= 0 by {
                if j < i - lo {
                    assert(s@.subrange(lo as int, i + 1)[j] == s@.subrange(lo as int, i as int)[j]);
                }
            }
        }
        v = v * radix + du;
        i = i + 1;
    }
    Some(v)
}


/// An unsigned numeral in `s[lo..hi]`, read as `from_str_radix` reads it into
/// an unsigned type whose largest value is `max`.
pub fn parse_unsigned_range(s: &[char], lo: usize, hi: usize, radix: u64, max: u64) -> (r: Option<u64>)
    requires
        lo <= hi <= s@.len(),
        radix == 10 || radix == 16,
    ensures
        r == (match parse_unsigned(s@.subrange(lo as int, hi as int), radix as nat) {
            Some(v) => if v <= max {
                Some(v as u64)
            } else {
                None
            },
            None => None,
        }),
{
    let ghost sub = s@.subrange(lo as int, hi as int);
    if lo == hi {
        return None;
    }
    if hi - lo == 1 && (s[lo] == '+' || s[lo] == '-') {
        assert(sub =~= seq![s@[lo as int]]);
        return None;
    }
    assert(!(sub =~= seq!['+']) && !(sub =~= seq!['-'])) by {
        if sub.len() == 1 {
            assert(sub[0] == s@[lo as int]);
        }
    }
    if s[lo] == '+' {
        assert(sub.drop_first() =~= s@.subrange(lo + 1, hi as int));
        parse_digits(s, lo + 1, hi, radix, max)
    } else {
        parse_digits(s, lo, hi, radix, max)
    }
}

/// `<u16 as FromStr>::from_str` on `s[lo..hi]`.
pub fn parse_u16_range(s: &[char], lo: usize, hi: usize) -> (r: Option<u16>)
    requires
        lo <= hi <= s@.len(),
    ensures
        r == parse_u16(s@.subrange(lo as int, hi as int)),
{
    match parse_unsigned_range(s, lo, hi, 10, 65535) {
        Some(v) => Some(v as u16),
        None => None,
    }
}

/// `usize::from_str_radix` on `s[lo..hi]`, radix 10 or 16.
pub fn parse_usize_range(s: &[char], lo: usize, hi: usize, radix: u64) -> (r: Option<usize>)
    requires
        lo <= hi <= s@.len(),
        radix == 10 || radix == 16,
    ensures
        r == parse_usize_radix(s@.subrange(lo as int, hi as int), radix as nat),
{
    match parse_unsigned_range(s, lo, hi, radix, usize::MAX as u64) {
        Some(v) => Some(v as usize),
        None => None,
    }
}

/// `<i32 as FromStr>::from_str` on `s[lo..hi]`.
pub fn parse_i32_range(s: &[char], lo: usize, hi: usize) -> (r: Option<i32>)
    requires
        lo <= hi <= s@.len(),
    ensures
        r == parse_i32(s@.subrange(lo as int, hi as int)),
{
    let ghost sub = s@.subrange(lo as int, hi as int);
    if hi - lo >= 2 && s[lo] == '-' {
        assert(sub.drop_first() =~= s@.subrange(lo + 1, hi as int));
        match parse_digits(s, lo + 1, hi, 10, 0x8000_0000) {
            Some(v) => Some((-(v as i64)) as i32),
            None => None,
        }
    } else {
        match parse_unsigned_range(s, lo, hi, 10, 0x7fff_ffff) {
            Some(v) => Some(v as i32),
            None => None,
        }
    }
}

} // verus!
