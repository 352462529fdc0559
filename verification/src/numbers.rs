//! Verified parsing of unsigned integers and fixed-point decimal amounts
//! from character sequences. Amounts carry four fractional decimal digits
//! and are represented as an `i64` count of ten-thousandths; fractional
//! digits beyond the fourth are truncated.

use vstd::prelude::*;

verus! {

/// Whether `c` is a decimal digit.
pub open spec fn is_digit(c: char) -> bool {
    48 <= c as u32 <= 57
}

/// The numeric value of a digit character.
pub open spec fn digit_val(c: char) -> int {
    c as u32 - 48
}

/// Whether every character of `s` is a decimal digit.
pub open spec fn all_digits(s: Seq<char>) -> bool {
    forall|j: int| 0 <= j < s.len() ==> is_digit(#[trigger] s[j])
}

/// The value of a digit string read in base ten. Empty strings count as
/// zero; only meaningful when `all_digits` holds.
pub open spec fn digits_val(s: Seq<char>) -> int
    decreases s.len(),
{
    if s.len() == 0 {
        0
    } else {
        digits_val(s.drop_last()) * 10 + digit_val(s.last())
    }
}

/// A digit string never has a negative value.
pub proof fn lemma_digits_val_nonneg(s: Seq<char>)
    requires
        all_digits(s),
    ensures
        digits_val(s) >= 0,
    decreases s.len(),
{
    if s.len() > 0 {
        assert(s.drop_last() =~= s.subrange(0, s.len() - 1));
        lemma_digits_val_nonneg(s.drop_last());
    }
}

/// Extending a digit string to the right never lowers its value.
pub proof fn lemma_digits_val_take_le(s: Seq<char>, i: int)
    requires
        all_digits(s),
        0 <= i <= s.len(),
    ensures
        digits_val(s.take(i)) <= digits_val(s),
    decreases s.len() - i,
{
    if i < s.len() {
        assert(s.take(i + 1).drop_last() =~= s.take(i));
        assert(s.take(i + 1).last() == s[i]);
        assert(forall|j: int| 0 <= j < i ==> s.take(i)[j] == s[j]);
        lemma_digits_val_nonneg(s.take(i));
        lemma_digits_val_take_le(s, i + 1);
    } else {
        assert(s.take(i) =~= s);
    }
}

/// The value of the digit string, if it is one and its value is at most
/// `cap`. An empty string counts as zero.
pub open spec fn digits_value_spec(s: Seq<char>, cap: u64) -> Option<u64> {
    if all_digits(s) && digits_val(s) <= cap {
        Some(digits_val(s) as u64)
    } else {
        None
    }
}

/// Reads the digit string `v[from..to]` in base ten, refusing any
/// non-digit character and any value above `cap`.
pub fn scan_digits(v: &Vec<char>, from: usize, to: usize, cap: u64) -> (r: Option<u64>)
    requires
        from <= to <= v@.len(),
    ensures
        r == digits_value_spec(v@.subrange(from as int, to as int), cap),
        r matches Some(x) ==> x <= cap,
{
    let ghost s = v@.subrange(from as int, to as int);
    let mut acc: u64 = 0;
    let mut i: usize = from;
    proof {
        assert(s.take(0) =~= Seq::<char>::empty());
    }
    while i < to
        invariant
            from <= i <= to <= v@.len(),
            s == v@.subrange(from as int, to as int),
            all_digits(s.take(i - from)),
            acc == digits_val(s.take(i - from)),
            acc <= cap,
        decreases to - i,
    {
        let c = v[i];
        let cu = c as u32;
        proof {
            assert(s[i - from] == v@[i as int]);
        }
        if cu < 48 || cu > 57 {
            proof {
                assert(!is_digit(s[i - from]));
            }
            return None;
        }
        let d: u64 = (cu - 48) as u64;
        let wide: u128 = acc as u128 * 10 + d as u128;
        proof {
            assert(s.take(i - from + 1).drop_last() =~= s.take(i - from));
            assert(s.take(i - from + 1).last() == s[i - from]);
            assert(digits_val(s.take(i - from + 1)) == acc * 10 + d);
        }
        if wide > cap as u128 {
            proof {
                if all_digits(s) {
                    lemma_digits_val_take_le(s, i - from + 1);
                }
            }
            return None;
        }
        acc = wide as u64;
        i += 1;
        proof {
            assert(all_digits(s.take(i - from)));
        }
    }
    proof {
        assert(s.take(i - from) =~= s);
    }
    Some(acc)
}

/// Whether every character of `v[from..to]` is a decimal digit.
pub fn all_digits_in(v: &Vec<char>, from: usize, to: usize) -> (r: bool)
    requires
        from <= to <= v@.len(),
    ensures
        r == all_digits(v@.subrange(from as int, to as int)),
{
    let ghost s = v@.subrange(from as int, to as int);
    let mut i: usize = from;
    while i < to
        invariant
            from <= i <= to <= v@.len(),
            s == v@.subrange(from as int, to as int),
            all_digits(s.take(i - from)),
        decreases to - i,
    {
        let c = v[i];
        let cu = c as u32;
        proof {
            assert(s[i - from] == v@[i as int]);
        }
        if cu < 48 || cu > 57 {
            proof {
                assert(!is_digit(s[i - from]));
            }
            return false;
        }
        i += 1;
        proof {
            assert(all_digits(s.take(i - from)));
        }
    }
    proof {
        assert(s.take(i - from) =~= s);
    }
    true
}

/// The digit string of an unsigned integer field, after an optional
/// leading plus sign.
pub open spec fn uint_digits(s: Seq<char>) -> Seq<char> {
    if s.len() > 0 && s[0] == '+' {
        s.subrange(1, s.len() as int)
    } else {
        s
    }
}

/// The value of an unsigned integer field: an optional plus sign, then at
/// least one digit, with a value of at most `cap`.
pub open spec fn parse_uint_spec(s: Seq<char>, cap: u64) -> Option<u64> {
    if uint_digits(s).len() > 0 {
        digits_value_spec(uint_digits(s), cap)
    } else {
        None
    }
}

/// The index of the first occurrence of `c` in `s`, or -1 if absent.
pub open spec fn find_char(s: Seq<char>, c: char) -> int
    decreases s.len(),
{
    if s.len() == 0 {
        -1
    } else if s[0] == c {
        0
    } else {
        let r = find_char(s.subrange(1, s.len() as int), c);
        if r == -1 {
            -1
        } else {
            r + 1
        }
    }
}

/// A character that occurs nowhere in `s` is not found.
pub proof fn lemma_find_char_none(s: Seq<char>, c: char)
    requires
        forall|j: int| 0 <= j < s.len() ==> s[j] != c,
    ensures
        find_char(s, c) == -1,
    decreases s.len(),
{
    if s.len() > 0 {
        assert(forall|j: int|
            0 <= j < s.len() - 1 ==> s.subrange(1, s.len() as int)[j] == s[j + 1]);
        lemma_find_char_none(s.subrange(1, s.len() as int), c);
    }
}

/// The first occurrence of `c` is found at its index.
pub proof fn lemma_find_char_at(s: Seq<char>, c: char, i: int)
    requires
        0 <= i < s.len(),
        s[i] == c,
        forall|j: int| 0 <= j < i ==> s[j] != c,
    ensures
        find_char(s, c) == i,
    decreases i,
{
    if i > 0 {
        assert(forall|j: int|
            0 <= j < s.len() - 1 ==> s.subrange(1, s.len() as int)[j] == s[j + 1]);
        lemma_find_char_at(s.subrange(1, s.len() as int), c, i - 1);
    }
}

/// The integer part of a decimal amount body: everything before the first
/// decimal point, or the whole body when there is none.
pub open spec fn int_part(b: Seq<char>) -> Seq<char> {
    let d = find_char(b, '.');
    if d == -1 {
        b
    } else {
        b.take(d)
    }
}

/// The fractional part of a decimal amount body: everything after the
/// first decimal point, or empty when there is none.
pub open spec fn frac_part(b: Seq<char>) -> Seq<char> {
    let d = find_char(b, '.');
    if d == -1 {
        Seq::empty()
    } else {
        b.subrange(d + 1, b.len() as int)
    }
}

/// A well-formed decimal amount body: digits around at most one decimal
/// point, with at least one digit in total.
pub open spec fn amount_wf(b: Seq<char>) -> bool {
    all_digits(int_part(b)) && all_digits(frac_part(b)) && int_part(b).len() + frac_part(b).len()
        >= 1
}

/// The `k`-th fractional digit, or zero past the end.
pub open spec fn fdigit(f: Seq<char>, k: int) -> int {
    if 0 <= k < f.len() {
        digit_val(f[k])
    } else {
        0
    }
}

/// The value of the fractional part in ten-thousandths: the first four
/// fractional digits; anything beyond them is truncated.
pub open spec fn frac_units(f: Seq<char>) -> int {
    1000 * fdigit(f, 0) + 100 * fdigit(f, 1) + 10 * fdigit(f, 2) + fdigit(f, 3)
}

/// The value of a decimal amount body in ten-thousandths.
pub open spec fn amount_units(b: Seq<char>) -> int {
    digits_val(int_part(b)) * 10000 + frac_units(frac_part(b))
}

/// The value of a well-formed decimal body as an `i64` count of
/// ten-thousandths, if it fits.
pub open spec fn amount_of(b: Seq<char>) -> Option<i64> {
    if amount_wf(b) && amount_units(b) <= i64::MAX {
        Some(amount_units(b) as i64)
    } else {
        None
    }
}

/// A decimal body that parses has a non-negative value.
pub proof fn lemma_amount_of_nonneg(b: Seq<char>)
    ensures
        amount_of(b) matches Some(x) ==> x >= 0,
{
    if amount_wf(b) {
        lemma_digits_val_nonneg(int_part(b));
    }
}

/// The value of a non-negative decimal amount field: an optional plus
/// sign, then a well-formed decimal body whose value fits in an `i64`
/// count of ten-thousandths.
pub open spec fn parse_amount_spec(s: Seq<char>) -> Option<i64> {
    if s.len() > 0 && s[0] == '+' {
        amount_of(s.subrange(1, s.len() as int))
    } else {
        amount_of(s)
    }
}

/// The value of a decimal amount field with an optional sign; a leading
/// minus negates the value.
pub open spec fn parse_signed_spec(s: Seq<char>) -> Option<i64> {
    if s.len() > 0 && s[0] == '-' {
        match amount_of(s.subrange(1, s.len() as int)) {
            Some(u) => Some((-(u as int)) as i64),
            None => None,
        }
    } else {
        parse_amount_spec(s)
    }
}

/// Reads the decimal amount body `v[start..]` in ten-thousandths.
fn amount_units_from(v: &Vec<char>, start: usize) -> (r: Option<i64>)
    requires
        start <= v@.len(),
    ensures
        r == amount_of(v@.subrange(start as int, v@.len() as int)),
{
    let n = v.len();
    let ghost b = v@.subrange(start as int, n as int);
    // Locate the first decimal point, if any.
    let mut i: usize = start;
    while i < n && v[i] != '.'
        invariant
            start <= i <= n,
            n == v@.len(),
            forall|j: int| start <= j < i ==> v@[j] != '.',
        decreases n - i,
    {
        i += 1;
    }
    proof {
        assert(forall|j: int| 0 <= j < b.len() ==> b[j] == v@[start + j]);
        if i < n {
            lemma_find_char_at(b, '.', i - start);
        } else {
            lemma_find_char_none(b, '.');
        }
    }
    // The integer part is v[start..ip_end), the fraction v[fs..n).
    let ip_end: usize = i;
    let fs: usize = if i < n {
        i + 1
    } else {
        n
    };
    proof {
        assert(int_part(b) =~= v@.subrange(start as int, ip_end as int));
        assert(frac_part(b) =~= v@.subrange(fs as int, n as int));
    }
    if ip_end - start == 0 && n - fs == 0 {
        return None;
    }
    if !all_digits_in(v, fs, n) {
        return None;
    }
    let iv: u64 = match scan_digits(v, start, ip_end, i64::MAX as u64) {
        Some(x) => x,
        None => {
            proof {
                if amount_wf(b) {
                    assert(digits_val(int_part(b)) > i64::MAX);
                    assert(frac_units(frac_part(b)) >= 0);
                    assert(amount_units(b) > i64::MAX);
                }
            }
            return None;
        },
    };
    // The first four fractional digits, in ten-thousandths.
    let ghost f = v@.subrange(fs as int, n as int);
    proof {
        assert(forall|j: int| 0 <= j < f.len() ==> f[j] == v@[fs + j]);
        assert(forall|j: int| 0 <= j < f.len() ==> is_digit(#[trigger] f[j]));
    }
    let d0: u64 = if n - fs > 0 {
        (v[fs] as u32 - 48) as u64
    } else {
        0
    };
    let d1: u64 = if n - fs > 1 {
        (v[fs + 1] as u32 - 48) as u64
    } else {
        0
    };
    let d2: u64 = if n - fs > 2 {
        (v[fs + 2] as u32 - 48) as u64
    } else {
        0
    };
    let d3: u64 = if n - fs > 3 {
        (v[fs + 3] as u32 - 48) as u64
    } else {
        0
    };
    let fv: u64 = 1000 * d0 + 100 * d1 + 10 * d2 + d3;
    proof {
        assert(fv == frac_units(f));
    }
    let wide: u128 = iv as u128 * 10000 + fv as u128;
    proof {
        lemma_digits_val_nonneg(v@.subrange(start as int, ip_end as int));
        assert(iv == digits_val(int_part(b)));
        assert(amount_units(b) == wide);
    }
    if wide > i64::MAX as u128 {
        return None;
    }
    Some(wide as i64)
}

/// Parses a non-negative decimal amount field into ten-thousandths.
pub fn parse_amount(v: &Vec<char>) -> (r: Option<i64>)
    ensures
        r == parse_amount_spec(v@),
{
    let n = v.len();
    let start: usize = if n > 0 && v[0] == '+' {
        1
    } else {
        0
    };
    proof {
        if start == 0 {
            assert(v@.subrange(0, n as int) =~= v@);
        }
    }
    amount_units_from(v, start)
}

/// Parses a decimal amount field with an optional sign into
/// ten-thousandths; a leading minus negates the value.
pub fn parse_signed(v: &Vec<char>) -> (r: Option<i64>)
    ensures
        r == parse_signed_spec(v@),
{
    let n = v.len();
    if n > 0 && v[0] == '-' {
        match amount_units_from(v, 1) {
            Some(u) => {
                proof {
                    lemma_amount_of_nonneg(v@.subrange(1, n as int));
                }
                Some(-u)
            },
            None => None,
        }
    } else {
        parse_amount(v)
    }
}

/// The magnitude of a balance, as a mathematical integer.
pub open spec fn magnitude(units: i64) -> int {
    if units >= 0 {
        units as int
    } else {
        -(units as int)
    }
}

/// The digit character for a value below ten.
pub open spec fn digit_char(d: int) -> char {
    ((d + 48) as u8) as char
}

/// The decimal digit string of `n`, most significant digit first.
pub open spec fn dec_digits(n: nat) -> Seq<char>
    decreases n,
{
    if n < 10 {
        seq![digit_char(n as int)]
    } else {
        dec_digits(n / 10) + seq![digit_char((n % 10) as int)]
    }
}

/// The rendering of a balance in ten-thousandths as a decimal numeral:
/// a minus sign for negative values, the whole units, a decimal point,
/// and exactly four fractional digits.
pub open spec fn render_units(units: i64) -> Seq<char> {
    let mag = magnitude(units);
    let frac = mag % 10000;
    let sign: Seq<char> = if units < 0 {
        seq!['-']
    } else {
        Seq::empty()
    };
    sign + dec_digits((mag / 10000) as nat) + seq!['.'] + seq![
        digit_char(frac / 1000),
        digit_char((frac / 100) % 10),
        digit_char((frac / 10) % 10),
        digit_char(frac % 10),
    ]
}

/// Appends the decimal digits of `w`, most significant first.
fn push_dec_digits(w: u64, out: &mut Vec<char>)
    ensures
        final(out)@ == old(out)@ + dec_digits(w as nat),
    decreases w,
{
    if w >= 10 {
        push_dec_digits(w / 10, out);
        out.push(((w % 10) as u8 + 48) as char);
        proof {
            assert(out@ =~= old(out)@ + dec_digits(w as nat));
        }
    } else {
        out.push((w as u8 + 48) as char);
        proof {
            assert(out@ =~= old(out)@ + dec_digits(w as nat));
        }
    }
}

/// Renders a balance in ten-thousandths as the characters of a decimal
/// numeral with four fractional digits.
pub fn render_amount(units: i64) -> (r: Vec<char>)
    ensures
        r@ == render_units(units),
{
    let mut out: Vec<char> = Vec::new();
    let mag: u64 = if units < 0 {
        (-(units as i128)) as u64
    } else {
        units as u64
    };
    proof {
        assert(mag == magnitude(units));
    }
    if units < 0 {
        out.push('-');
    }
    push_dec_digits(mag / 10000, &mut out);
    out.push('.');
    let frac: u64 = mag % 10000;
    out.push(((frac / 1000) as u8 + 48) as char);
    out.push((((frac / 100) % 10) as u8 + 48) as char);
    out.push((((frac / 10) % 10) as u8 + 48) as char);
    out.push(((frac % 10) as u8 + 48) as char);
    proof {
        assert(out@ =~= render_units(units));
    }
    out
}

/// Parses an unsigned integer field with a value of at most `cap`.
pub fn parse_uint(v: &Vec<char>, cap: u64) -> (r: Option<u64>)
    ensures
        r == parse_uint_spec(v@, cap),
        r matches Some(x) ==> x <= cap,
{
    let n = v.len();
    let start: usize = if n > 0 && v[0] == '+' {
        1
    } else {
        0
    };
    proof {
        assert(uint_digits(v@) =~= v@.subrange(start as int, n as int));
    }
    if start >= n {
        return None;
    }
    scan_digits(v, start, n, cap)
}

} // verus!
