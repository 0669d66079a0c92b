//! Decimal numbers in playlist text: unsigned integers as `str::parse`
//! reads them, the syntax of decimal floating-point literals, and decimal
//! rendering of integers.
use vstd::prelude::*;

verus! {

/// Why a text is not an unsigned integer (the kinds of `ParseIntError`
/// that an unsigned target can give).
#[derive(PartialEq, Eq, Structural, Clone, Copy, Debug)]
pub enum IntError {
    Empty,
    InvalidDigit,
    PosOverflow,
}

pub open spec fn is_digit(c: char) -> bool {
    '0' <= c && c <= '9'
}

pub open spec fn digit_value(c: char) -> nat {
    (c as int - '0' as int) as nat
}

/// Reads decimal digits left to right onto `acc`; a character that is no
/// digit fails before the value is checked against `max`.
pub open spec fn read_digits(ds: Seq<char>, acc: nat, max: nat) -> Result<nat, IntError>
    decreases ds.len(),
{
    if ds.len() == 0 {
        Ok(acc)
    } else if !is_digit(ds[0]) {
        Err(IntError::InvalidDigit)
    } else if acc * 10 + digit_value(ds[0]) > max {
        Err(IntError::PosOverflow)
    } else {
        read_digits(ds.drop_first(), acc * 10 + digit_value(ds[0]), max)
    }
}

/// An unsigned integer no larger than `max` as `str::parse` reads it: an
/// optional `+`, then decimal digits only.
pub open spec fn parse_unsigned(s: Seq<char>, max: nat) -> Result<nat, IntError> {
    if s.len() == 0 {
        Err(IntError::Empty)
    } else if s.len() == 1 && (s[0] == '+' || s[0] == '-') {
        Err(IntError::InvalidDigit)
    } else if s[0] == '+' {
        read_digits(s.drop_first(), 0, max)
    } else {
        read_digits(s, 0, max)
    }
}

/// The message that `ParseIntError` displays for each kind.
pub open spec fn int_error_text(e: IntError) -> Seq<char> {
    match e {
        IntError::Empty => "cannot parse integer from empty string"@,
        IntError::InvalidDigit => "invalid digit found in string"@,
        IntError::PosOverflow => "number too large to fit in target type"@,
    }
}

pub proof fn lemma_read_digits_bound(ds: Seq<char>, acc: nat, max: nat)
    requires
        acc <= max,
    ensures
        read_digits(ds, acc, max) matches Ok(v) ==> v <= max,
    decreases ds.len(),
{
    if ds.len() > 0 && is_digit(ds[0]) && acc * 10 + digit_value(ds[0]) <= max {
        lemma_read_digits_bound(ds.drop_first(), acc * 10 + digit_value(ds[0]), max);
    }
}

fn read_digits_exec(s: &[char], from: usize, max: u32) -> (r: Result<u32, IntError>)
    requires
        from <= s@.len(),
    ensures
        r matches Ok(v) ==> v <= max,
        match r {
            Ok(v) => read_digits(s@.skip(from as int), 0, max as nat) == Ok::<nat, IntError>(
                v as nat,
            ),
            Err(e) => read_digits(s@.skip(from as int), 0, max as nat) == Err::<nat, IntError>(e),
        },
{
    let mut acc: u64 = 0;
    let mut i = from;
    while i < s.len()
        invariant
            from <= i <= s@.len(),
            acc <= max,
            read_digits(s@.skip(from as int), 0, max as nat) == read_digits(
                s@.skip(i as int),
                acc as nat,
                max as nat,
            ),
        decreases s@.len() - i,
    {
        let c = s[i];
        assert(s@.skip(i as int)[0] == c);
        assert(s@.skip(i as int).drop_first() =~= s@.skip(i + 1));
        if !('0' <= c && c <= '9') {
            return Err(IntError::InvalidDigit);
        }
        let d = (c as u32 - '0' as u32) as u64;
        assert(d == digit_value(c));
        let next = acc * 10 + d;
        if next > max as u64 {
            return Err(IntError::PosOverflow);
        }
        acc = next;
        i = i + 1;
    }
    assert(s@.skip(i as int).len() == 0);
    Ok(acc as u32)
}

/// `s[from..]` as an unsigned integer no larger than `max`.
pub fn parse_unsigned_chars(s: &[char], from: usize, max: u32) -> (r: Result<u32, IntError>)
    requires
        from <= s@.len(),
    ensures
        r matches Ok(v) ==> v <= max,
        match r {
            Ok(v) => parse_unsigned(s@.skip(from as int), max as nat) == Ok::<nat, IntError>(
                v as nat,
            ),
            Err(e) => parse_unsigned(s@.skip(from as int), max as nat) == Err::<nat, IntError>(e),
        },
{
    let ghost t = s@.skip(from as int);
    if from == s.len() {
        return Err(IntError::Empty);
    }
    let c = s[from];
    assert(t[0] == c);
    if from + 1 == s.len() && (c == '+' || c == '-') {
        return Err(IntError::InvalidDigit);
    }
    if c == '+' {
        assert(t.drop_first() =~= s@.skip(from + 1));
        read_digits_exec(s, from + 1, max)
    } else {
        read_digits_exec(s, from, max)
    }
}

/// The message for an integer error, as a `String`.
pub fn int_error_message(e: IntError) -> (r: String)
    ensures
        r@ == int_error_text(e),
{
    match e {
        IntError::Empty => String::from_str("cannot parse integer from empty string"),
        IntError::InvalidDigit => String::from_str("invalid digit found in string"),
        IntError::PosOverflow => String::from_str("number too large to fit in target type"),
    }
}

// ------------------------------------------------------------ floats

/// The number of decimal digits at the start of `s`.
pub open spec fn lead_digits(s: Seq<char>) -> nat
    decreases s.len(),
{
    if s.len() > 0 && is_digit(s[0]) {
        1 + lead_digits(s.drop_first())
    } else {
        0
    }
}

/// ASCII lower case of a character.
pub open spec fn lower(c: char) -> char {
    if 'A' <= c && c <= 'Z' {
        ((c as int) + 32) as char
    } else {
        c
    }
}

/// `s` equals the lower-case word `w` when its ASCII letters are lowered.
pub open spec fn lower_eq(s: Seq<char>, w: Seq<char>) -> bool {
    s.len() == w.len() && forall|i: int| 0 <= i < s.len() ==> lower(#[trigger] s[i]) == w[i]
}

/// `Exp?` of the float grammar: nothing, or `e`, an optional sign and digits.
pub open spec fn is_exponent_or_empty(e: Seq<char>) -> bool {
    e.len() == 0 || ((e[0] == 'e' || e[0] == 'E') && {
        let f = if e.len() > 1 && (e[1] == '+' || e[1] == '-') {
            e.skip(2)
        } else {
            e.skip(1)
        };
        f.len() > 0 && lead_digits(f) == f.len()
    })
}

/// `Number` of the float grammar: `Digit+`, `Digit+ '.' Digit*` or
/// `Digit* '.' Digit+`, then an optional exponent.
pub open spec fn is_decimal_number(b: Seq<char>) -> bool {
    let i = lead_digits(b);
    if i < b.len() && b[i as int] == '.' {
        let j = lead_digits(b.skip(i + 1 as int));
        i + j > 0 && is_exponent_or_empty(b.skip((i + 1 + j) as int))
    } else {
        i > 0 && is_exponent_or_empty(b.skip(i as int))
    }
}

/// The texts that `f64::from_str` accepts, by the grammar its documentation
/// gives: an optional sign, then `inf`, `infinity`, `nan` or a decimal
/// number, letters in any case.
pub open spec fn is_float_literal(s: Seq<char>) -> bool {
    let b = if s.len() > 0 && (s[0] == '+' || s[0] == '-') {
        s.drop_first()
    } else {
        s
    };
    ||| lower_eq(b, seq!['i', 'n', 'f'])
    ||| lower_eq(b, seq!['i', 'n', 'f', 'i', 'n', 'i', 't', 'y'])
    ||| lower_eq(b, seq!['n', 'a', 'n'])
    ||| is_decimal_number(b)
}

/// The message of the float error for a text that is no float literal.
pub open spec fn float_error_text(s: Seq<char>) -> Seq<char> {
    if s.len() == 0 {
        "cannot parse float from empty string"@
    } else {
        "invalid float literal"@
    }
}

fn count_digits(s: &[char], from: usize) -> (n: usize)
    requires
        from <= s@.len(),
    ensures
        n == lead_digits(s@.skip(from as int)),
        from + n <= s@.len(),
{
    let mut i = from;
    while i < s.len() && '0' <= s[i] && s[i] <= '9'
        invariant
            from <= i <= s@.len(),
            lead_digits(s@.skip(from as int)) == (i - from) + lead_digits(s@.skip(i as int)),
        decreases s@.len() - i,
    {
        assert(s@.skip(i as int).drop_first() =~= s@.skip(i + 1));
        i = i + 1;
    }
    i - from
}

pub(crate) fn lower_char(c: char) -> (r: char)
    ensures
        r == lower(c),
{
    if 'A' <= c && c <= 'Z' {
        let v: u8 = (c as u32) as u8 + 32;
        v as char
    } else {
        c
    }
}

fn lower_eq_exec(s: &[char], from: usize, w: &[char]) -> (r: bool)
    requires
        from <= s@.len(),
    ensures
        r == lower_eq(s@.skip(from as int), w@),
{
    if s.len() - from != w.len() {
        return false;
    }
    let len = s.len();
    let mut i: usize = 0;
    while i < w.len()
        invariant
            len == s@.len(),
            s@.len() - from == w@.len(),
            from <= s@.len(),
            i <= w@.len(),
            forall|k: int| 0 <= k < i ==> lower(#[trigger] s@.skip(from as int)[k]) == w@[k],
        decreases w@.len() - i,
    {
        assert(s@.skip(from as int)[i as int] == s@[from + i]);
        if lower_char(s[from + i]) != w[i] {
            return false;
        }
        i = i + 1;
    }
    true
}

fn is_exponent_or_empty_exec(s: &[char], from: usize) -> (r: bool)
    requires
        from <= s@.len(),
    ensures
        r == is_exponent_or_empty(s@.skip(from as int)),
{
    let ghost e = s@.skip(from as int);
    if from == s.len() {
        return true;
    }
    assert(e[0] == s@[from as int]);
    if !(s[from] == 'e' || s[from] == 'E') {
        return false;
    }
    let mut k = from + 1;
    if k < s.len() && (s[k] == '+' || s[k] == '-') {
        assert(e[1] == s@[k as int]);
        k = k + 1;
        assert(e.skip(2) =~= s@.skip(k as int));
    } else {
        assert(e.len() > 1 ==> e[1] == s@[k as int]);
        assert(e.skip(1) =~= s@.skip(k as int));
    }
    let n = count_digits(s, k);
    n > 0 && k + n == s.len()
}

fn is_decimal_number_exec(s: &[char], from: usize) -> (r: bool)
    requires
        from <= s@.len(),
    ensures
        r == is_decimal_number(s@.skip(from as int)),
{
    let ghost b = s@.skip(from as int);
    let len = s.len();
    let i = count_digits(s, from);
    if from + i < s.len() && s[from + i] == '.' {
        assert(b[i as int] == s@[from + i]);
        let j = count_digits(s, from + i + 1);
        assert(b.skip(i + 1) =~= s@.skip(from + i + 1));
        assert(b.skip(i + 1 + j) =~= s@.skip(from + i + 1 + j));
        i + j > 0 && is_exponent_or_empty_exec(s, from + i + 1 + j)
    } else {
        assert(from + i < s@.len() ==> b[i as int] == s@[from + i]);
        assert(b.skip(i as int) =~= s@.skip(from + i));
        i > 0 && is_exponent_or_empty_exec(s, from + i)
    }
}

/// Whether `s` is a float literal that `f64::from_str` accepts.
pub fn is_float_literal_chars(s: &[char]) -> (r: bool)
    ensures
        r == is_float_literal(s@),
{
    let mut from: usize = 0;
    assert(s@.skip(0) =~= s@);
    if s.len() > 0 && (s[0] == '+' || s[0] == '-') {
        from = 1;
        assert(s@.drop_first() =~= s@.skip(1));
    }
    let inf = ['i', 'n', 'f'];
    let infinity = ['i', 'n', 'f', 'i', 'n', 'i', 't', 'y'];
    let nan = ['n', 'a', 'n'];
    assert(inf@ =~= seq!['i', 'n', 'f']);
    assert(infinity@ =~= seq!['i', 'n', 'f', 'i', 'n', 'i', 't', 'y']);
    assert(nan@ =~= seq!['n', 'a', 'n']);
    lower_eq_exec(s, from, &inf) || lower_eq_exec(s, from, &infinity) || lower_eq_exec(
        s,
        from,
        &nan,
    ) || is_decimal_number_exec(s, from)
}

/// The message of the float error for `s`.
pub fn float_error_message(s: &[char]) -> (r: String)
    ensures
        r@ == float_error_text(s@),
{
    if s.len() == 0 {
        String::from_str("cannot parse float from empty string")
    } else {
        String::from_str("invalid float literal")
    }
}

// ------------------------------------------------------------ rendering

/// The decimal digits of `n`, most significant first, without leading
/// zeros (`0` is `"0"`).
pub open spec fn decimal(n: nat) -> Seq<char>
    decreases n,
{
    if n < 10 {
        seq![(n + '0' as nat) as char]
    } else {
        decimal(n / 10).push(((n % 10) + '0' as nat) as char)
    }
}

/// `decimal(n)` padded on the left with zeros to at least `width` digits
/// (`format!("{:0width$}", n)`).
pub open spec fn zero_padded(n: nat, width: nat) -> Seq<char> {
    let d = decimal(n);
    if d.len() >= width {
        d
    } else {
        Seq::new((width - d.len()) as nat, |i: int| '0') + d
    }
}

pub proof fn lemma_decimal_len(n: nat)
    ensures
        decimal(n).len() >= 1,
        n < 10 ==> decimal(n).len() == 1,
    decreases n,
{
    if n >= 10 {
        lemma_decimal_len(n / 10);
    }
}

/// The decimal digits of `n`.
pub fn decimal_chars(n: u64) -> (r: Vec<char>)
    ensures
        r@ == decimal(n as nat),
    decreases n,
{
    if n < 10 {
        let c = (n as u8 + 48) as char;
        let mut r: Vec<char> = Vec::new();
        r.push(c);
        assert(r@ =~= seq![(n + '0' as nat) as char]);
        r
    } else {
        let mut r = decimal_chars(n / 10);
        let c = ((n % 10) as u8 + 48) as char;
        r.push(c);
        r
    }
}

/// `n` in decimal, zero-padded to at least `width` digits.
pub fn zero_padded_chars(n: u64, width: usize) -> (r: Vec<char>)
    ensures
        r@ == zero_padded(n as nat, width as nat),
{
    let d = decimal_chars(n);
    if d.len() >= width {
        return d;
    }
    let pad = width - d.len();
    let mut r: Vec<char> = Vec::new();
    let mut i: usize = 0;
    while i < pad
        invariant
            i <= pad,
            r@ == Seq::new(i as nat, |k: int| '0'),
        decreases pad - i,
    {
        r.push('0');
        i = i + 1;
        assert(r@ =~= Seq::new(i as nat, |k: int| '0'));
    }
    let mut j: usize = 0;
    let ghost p = r@;
    while j < d.len()
        invariant
            j <= d@.len(),
            p == Seq::new(pad as nat, |k: int| '0'),
            r@ == p + d@.take(j as int),
        decreases d@.len() - j,
    {
        r.push(d[j]);
        j = j + 1;
        assert(r@ =~= p + d@.take(j as int));
    }
    assert(d@.take(d@.len() as int) =~= d@);
    r
}

/// Ten to the power `k`.
pub open spec fn pow10(k: nat) -> nat
    decreases k,
{
    if k == 0 {
        1
    } else {
        10 * pow10((k - 1) as nat)
    }
}

/// The last `width` decimal digits of `n`, most significant first.
pub open spec fn digits_of_width(n: nat, width: nat) -> Seq<char>
    decreases width,
{
    if width == 0 {
        seq![]
    } else {
        digits_of_width(n / 10, (width - 1) as nat).push(((n % 10) + '0' as nat) as char)
    }
}

proof fn lemma_decimal_fits(m: nat, w: nat)
    requires
        w >= 1,
        m < pow10(w),
    ensures
        decimal(m).len() <= w,
    decreases w,
{
    lemma_decimal_len(m);
    if m >= 10 {
        assert(w >= 2) by {
            reveal_with_fuel(pow10, 2);
        }
        let w1 = (w - 1) as nat;
        assert(m / 10 < pow10(w1)) by (nonlinear_arith)
            requires
                m < 10 * pow10(w1),
        ;
        lemma_decimal_fits(m / 10, w1);
    }
}

proof fn lemma_digits_of_zero(w: nat)
    ensures
        digits_of_width(0, w) == Seq::new(w, |i: int| '0'),
    decreases w,
{
    if w > 0 {
        lemma_digits_of_zero((w - 1) as nat);
        assert(digits_of_width(0, w) =~= Seq::new(w, |i: int| '0'));
    }
}

/// Below `10^width`, the zero-padded rendering has exactly `width` digits.
pub proof fn lemma_zero_padded_digits(n: nat, w: nat)
    requires
        w >= 1,
        n < pow10(w),
    ensures
        zero_padded(n, w) == digits_of_width(n, w),
        zero_padded(n, w).len() == w,
    decreases w,
{
    lemma_decimal_len(n);
    lemma_decimal_fits(n, w);
    let w1 = (w - 1) as nat;
    let c = ((n % 10) + '0' as nat) as char;
    if n < 10 {
        lemma_digits_of_zero(w1);
        assert(n / 10 == 0);
        assert(zero_padded(n, w) =~= digits_of_width(n, w));
    } else {
        assert(w >= 2) by {
            reveal_with_fuel(pow10, 2);
        }
        assert(n / 10 < pow10(w1)) by (nonlinear_arith)
            requires
                n < 10 * pow10(w1),
        ;
        lemma_zero_padded_digits(n / 10, w1);
        lemma_decimal_fits(n / 10, w1);
        lemma_decimal_len(n / 10);
        let d = decimal(n / 10);
        assert(decimal(n) == d.push(c));
        if d.len() < w1 {
            assert(zero_padded(n, w) =~= zero_padded(n / 10, w1).push(c));
        } else {
            assert(zero_padded(n, w) =~= zero_padded(n / 10, w1).push(c));
        }
    }
}

} // verus!
