//! Text as the readers meet it: comparing strings and reading numbers from
//! them.

use vstd::prelude::*;
use vstd::string::StringExecFns;
use vstd::string::StringSliceAdditionalSpecFns;
use vstd::utf8::{encode_utf8, encode_utf8_decode_utf8, is_ascii_chars, is_ascii_chars_encode_utf8};

verus! {

/// Two texts with the same bytes are the same text.
pub proof fn lemma_same_bytes_same_text(a: Seq<char>, b: Seq<char>)
    requires
        encode_utf8(a) == encode_utf8(b),
    ensures
        a == b,
{
    encode_utf8_decode_utf8(a);
    encode_utf8_decode_utf8(b);
}

/// Are the two byte strings the same?
pub fn bytes_eq(a: &[u8], b: &[u8]) -> (same: bool)
    ensures
        same == (a@ == b@),
{
    if a.len() != b.len() {
        return false;
    }
    let n: usize = a.len();
    let mut i: usize = 0;
    while i < n
        invariant
            n == a@.len(),
            n == b@.len(),
            i <= n,
            forall|j: int| 0 <= j < i ==> a@[j] == b@[j],
        decreases n - i,
    {
        if a[i] != b[i] {
            return false;
        }
        i += 1;
    }
    assert(a@ =~= b@);
    true
}

/// Are the two texts the same?
pub fn str_eq(a: &str, b: &str) -> (same: bool)
    ensures
        same == (a@ == b@),
{
    let same: bool = bytes_eq(a.as_bytes(), b.as_bytes());
    proof {
        if same {
            lemma_same_bytes_same_text(a@, b@);
        }
    }
    same
}

/// The byte of the minus sign.
pub const MINUS: u8 = 45;

/// The byte of the plus sign.
pub const PLUS: u8 = 43;

/// The byte of the decimal point.
pub const POINT: u8 = 46;

/// The byte of the digit zero.
pub const ZERO: u8 = 48;

/// Is `b` the byte of a decimal digit?
pub open spec fn is_digit(b: u8) -> bool {
    48 <= b <= 57
}

/// Ten to the power `n`.
pub open spec fn pow10(n: nat) -> nat
    decreases n,
{
    if n == 0 {
        1
    } else {
        10 * pow10((n - 1) as nat)
    }
}

/// The number that the digits `s` write.
pub open spec fn digits_value(s: Seq<u8>) -> nat
    decreases s.len(),
{
    if s.len() == 0 {
        0
    } else {
        digits_value(s.drop_last()) * 10 + (s.last() - 48) as nat
    }
}

/// The first index from `from` on that holds no digit, or the length of `s`.
pub open spec fn digits_end(s: Seq<u8>, from: int) -> int
    decreases s.len() - from,
{
    if from >= s.len() || !is_digit(s[from]) {
        from
    } else {
        digits_end(s, from + 1)
    }
}

/// The digits `frac` after a decimal point, read as a whole number of units
/// of 10^-`scale`: digits beyond the scale are dropped.
pub open spec fn fraction_value(frac: Seq<u8>, scale: nat) -> nat {
    if frac.len() >= scale {
        digits_value(frac.take(scale as int))
    } else {
        digits_value(frac) * pow10((scale - frac.len()) as nat)
    }
}

/// The unsigned decimal number that `body` writes, in units of 10^-`scale`:
/// digits, then perhaps a point and more digits, with a digit on at least
/// one side of the point and nothing else.
pub open spec fn unsigned_decimal(body: Seq<u8>, scale: nat) -> Option<nat> {
    let int_end = digits_end(body, 0);
    if int_end >= body.len() {
        if int_end > 0 {
            Some(digits_value(body) * pow10(scale))
        } else {
            None
        }
    } else if body[int_end] != POINT {
        None
    } else {
        let frac_end = digits_end(body, int_end + 1);
        if frac_end < body.len() || (int_end == 0 && frac_end == 1) {
            None
        } else {
            Some(
                digits_value(body.subrange(0, int_end)) * pow10(scale) + fraction_value(
                    body.subrange(int_end + 1, body.len() as int),
                    scale,
                ),
            )
        }
    }
}

/// Does `s` begin with a sign?
pub open spec fn has_sign(s: Seq<u8>) -> bool {
    s.len() > 0 && (s[0] == MINUS || s[0] == PLUS)
}

/// The decimal number that the bytes `s` write without an exponent, in
/// units of 10^-`scale`, where it fits in `i64`: an optional sign and an
/// unsigned decimal number.
pub open spec fn plain_decimal_value(s: Seq<u8>, scale: nat) -> Option<i64> {
    let body = if has_sign(s) {
        s.subrange(1, s.len() as int)
    } else {
        s
    };
    match unsigned_decimal(body, scale) {
        Some(magnitude) => if s.len() > 0 && s[0] == MINUS {
            if magnitude <= -(i64::MIN as int) {
                Some((-magnitude) as i64)
            } else {
                None
            }
        } else if magnitude <= i64::MAX {
            Some(magnitude as i64)
        } else {
            None
        },
        None => None,
    }
}

/// The whole number that the bytes `s` write, where it fits in `i64`: an
/// optional sign and digits, with no decimal point.
pub open spec fn integer_value(s: Seq<u8>) -> Option<i64> {
    if exists|i: int| 0 <= i < s.len() && s[i] == POINT {
        None
    } else {
        plain_decimal_value(s, 0)
    }
}

/// Is `b` the byte of the letter that begins an exponent?
pub open spec fn is_exponent_mark(b: u8) -> bool {
    b == 101 || b == 69
}

/// The first index from `from` on that holds the letter of an exponent.
pub open spec fn exponent_index(s: Seq<u8>, from: int) -> Option<int>
    decreases s.len() - from,
{
    if from < 0 || from >= s.len() {
        None
    } else if is_exponent_mark(s[from]) {
        Some(from)
    } else {
        exponent_index(s, from + 1)
    }
}

/// The most places that a number is read at.
pub const MAX_SCALE: u32 = 18;

/// The decimal number that the bytes `s` write, in units of 10^-`scale`,
/// where it fits in `i64`: a decimal number and perhaps an exponent, which
/// is the letter `e` or `E` and a whole number. The exponent moves the
/// point: the number is the one before the letter, read at as many places
/// more as the exponent says. An exponent that moves the point further
/// than reading at no place or at `MAX_SCALE` places allows is not read.
pub open spec fn decimal_value(s: Seq<u8>, scale: nat) -> Option<i64> {
    match exponent_index(s, 0) {
        None => plain_decimal_value(s, scale),
        Some(i) => match integer_value(s.subrange(i + 1, s.len() as int)) {
            Some(x) => if 0 <= scale + x <= MAX_SCALE {
                plain_decimal_value(s.subrange(0, i), (scale + x) as nat)
            } else {
                None
            },
            None => None,
        },
    }
}

/// Text that holds no letter of an exponent has no exponent.
pub proof fn lemma_no_exponent(s: Seq<u8>, from: int)
    requires
        0 <= from,
        forall|i: int| from <= i < s.len() ==> !is_exponent_mark(#[trigger] s[i]),
    ensures
        exponent_index(s, from) is None,
    decreases s.len() - from,
{
    if from < s.len() {
        lemma_no_exponent(s, from + 1);
    }
}

/// Powers of ten are positive and each is ten times the one before.
pub proof fn lemma_pow10_positive(n: nat)
    ensures
        pow10(n) >= 1,
    decreases n,
{
    if n > 0 {
        lemma_pow10_positive((n - 1) as nat);
    }
}

/// Reading digits stops at or after where it began and within the text.
pub proof fn lemma_digits_end_bounds(s: Seq<u8>, from: int)
    requires
        0 <= from <= s.len(),
    ensures
        from <= digits_end(s, from) <= s.len(),
        forall|i: int| from <= i < digits_end(s, from) ==> is_digit(#[trigger] s[i]),
        digits_end(s, from) < s.len() ==> !is_digit(s[digits_end(s, from)]),
    decreases s.len() - from,
{
    if from < s.len() && is_digit(s[from]) {
        lemma_digits_end_bounds(s, from + 1);
    }
}

/// The powers of ten up to the eighteenth fit in `u64`.
pub proof fn lemma_pow10_fits(n: nat)
    requires
        n <= 18,
    ensures
        1 <= pow10(n) <= 1_000_000_000_000_000_000,
    decreases 18 - n,
{
    lemma_pow10_positive(n);
    if n < 18 {
        lemma_pow10_fits(n + 1);
    } else {
        reveal_with_fuel(pow10, 19);
    }
}

/// Ten to the power `scale`, for the scales in use.
fn power_of_ten(scale: u32) -> (p: u64)
    requires
        scale <= 18,
    ensures
        p == pow10(scale as nat),
        1 <= p <= 1_000_000_000_000_000_000,
{
    let mut p: u64 = 1;
    let mut i: u32 = 0;
    while i < scale
        invariant
            i <= scale <= 18,
            p == pow10(i as nat),
        decreases scale - i,
    {
        proof {
            lemma_pow10_fits((i + 1) as nat);
        }
        p = p * 10;
        i += 1;
    }
    proof {
        lemma_pow10_fits(scale as nat);
    }
    p
}

/// Reads the digits of `body` from `from` on, as far as they go.
///
/// Returns where they end and the number they write, or no number where it
/// passes `u64::MAX`. At most `limit` digits enter the number; those beyond
/// are passed over.
fn read_digits(body: &[u8], from: usize, limit: usize) -> (r: (usize, Option<u64>, usize))
    requires
        from <= body@.len(),
    ensures
        r.0 == digits_end(body@, from as int),
        from <= r.0 <= body@.len(),
        r.2 == (if r.0 - from <= limit {
            r.0 - from
        } else {
            limit as int
        }),
        r.1 matches Some(v) ==> v == digits_value(body@.subrange(from as int, from + r.2)),
        r.1 is None ==> digits_value(body@.subrange(from as int, from + r.2)) > u64::MAX,
{
    let n: usize = body.len();
    let mut i: usize = from;
    let mut taken: usize = 0;
    let mut value: Option<u64> = Some(0);
    proof {
        assert(body@.subrange(from as int, from as int) =~= Seq::<u8>::empty());
    }
    while i < n && body[i] >= 48 && body[i] <= 57
        invariant
            n == body@.len(),
            from <= i <= n,
            digits_end(body@, from as int) == digits_end(body@, i as int),
            taken == (if i - from <= limit {
                i - from
            } else {
                limit as int
            }),
            value matches Some(v) ==> v == digits_value(
                body@.subrange(from as int, from + taken),
            ),
            value is None ==> digits_value(body@.subrange(from as int, from + taken)) > u64::MAX,
        decreases n - i,
    {
        if taken < limit {
            let digit: u64 = (body[i] - 48) as u64;
            proof {
                assert(body@.subrange(from as int, from + taken + 1).drop_last() =~= body@.subrange(
                    from as int,
                    from + taken,
                ));
                assert(body@.subrange(from as int, from + taken + 1).last() == body@[i as int]);
            }
            value = match value {
                Some(v) => match v.checked_mul(10) {
                    Some(tenfold) => tenfold.checked_add(digit),
                    None => None,
                },
                None => None,
            };
            taken += 1;
        }
        i += 1;
    }
    (i, value, taken)
}

/// What the digits after a point come to at `scale` places, from the first
/// `taken` of them, where `taken` is the smaller of their number and the
/// scale.
pub proof fn lemma_fraction_value(frac: Seq<u8>, scale: nat, taken: nat)
    requires
        taken == (if frac.len() <= scale {
            frac.len()
        } else {
            scale
        }),
    ensures
        fraction_value(frac, scale) == digits_value(frac.take(taken as int)) * pow10(
            (scale - taken) as nat,
        ),
{
    if frac.len() >= scale {
        assert(taken == scale);
        assert(pow10((scale - taken) as nat) == 1);
        assert(frac.take(taken as int) == frac.take(scale as int));
    } else {
        assert(frac.take(taken as int) =~= frac);
    }
}

/// Reads the digits after a decimal point, from `from` to the end of
/// `body`, as a whole number of units of 10^-`scale`. Gives nothing where
/// something other than digits follows.
fn read_fraction(body: &[u8], from: usize, scale: u32) -> (r: Option<u64>)
    requires
        from <= body@.len(),
        scale <= 18,
    ensures
        r is Some <==> digits_end(body@, from as int) == body@.len(),
        r matches Some(f) ==> f == fraction_value(
            body@.subrange(from as int, body@.len() as int),
            scale as nat,
        ) && f < pow10(scale as nat),
{
    let (frac_end, digits, taken) = read_digits(body, from, scale as usize);
    if frac_end < body.len() {
        return None;
    }
    let ghost frac = body@.subrange(from as int, body@.len() as int);
    proof {
        lemma_digits_end_bounds(body@, from as int);
        assert(frac.take(taken as int) =~= body@.subrange(from as int, from + taken));
        lemma_fraction_value(frac, scale as nat, taken as nat);
        lemma_fraction_bound(frac, scale as nat);
        lemma_digits_bound(frac.take(taken as int));
        lemma_pow10_fits(taken as nat);
        lemma_pow10_fits(scale as nat);
    }
    let padding: u64 = power_of_ten(scale - taken as u32);
    match digits {
        Some(d) => Some(d * padding),
        None => None,
    }
}

/// Reads an unsigned decimal number from `body` as a whole number of units
/// of 10^-`scale`. Gives nothing where `body` writes no such number, or one
/// whose whole part passes `u64::MAX`.
fn read_unsigned(body: &[u8], scale: u32) -> (r: Option<u128>)
    requires
        scale <= 18,
    ensures
        r matches Some(m) ==> unsigned_decimal(body@, scale as nat) == Some(m as nat),
        r is None ==> (unsigned_decimal(body@, scale as nat) matches Some(m) ==> m > u64::MAX),
{
    let len: usize = body.len();
    let unit: u64 = power_of_ten(scale);
    let (int_end, whole, int_taken) = read_digits(body, 0, len);
    proof {
        lemma_digits_end_bounds(body@, 0);
        assert(body@.subrange(0, body@.len() as int) =~= body@);
        lemma_pow10_positive(scale as nat);
    }
    let fraction: u64 = if int_end >= len {
        if int_end == 0 {
            return None;
        }
        0
    } else if body[int_end] != POINT {
        return None;
    } else {
        proof {
            lemma_digits_end_bounds(body@, int_end + 1);
        }
        match read_fraction(body, int_end + 1, scale) {
            Some(f) => {
                if int_end == 0 && len == 1 {
                    return None;
                }
                f
            },
            None => {
                return None;
            },
        }
    };
    match whole {
        Some(w) => {
            proof {
                assert(w * unit <= u64::MAX * 1_000_000_000_000_000_000) by (nonlinear_arith)
                    requires
                        0 <= w <= u64::MAX,
                        0 <= unit <= 1_000_000_000_000_000_000,
                ;
            }
            Some((w as u128) * (unit as u128) + (fraction as u128))
        },
        None => {
            proof {
                let w = digits_value(body@.subrange(0, int_end as int));
                let u = pow10(scale as nat);
                assert(w * u >= w) by (nonlinear_arith)
                    requires
                        u >= 1,
                        w >= 0,
                ;
            }
            None
        },
    }
}

/// Reads a decimal number without an exponent from `bytes` as a whole
/// number of units of 10^-`scale`.
fn read_decimal(bytes: &[u8], scale: u32) -> (value: Option<i64>)
    requires
        scale <= MAX_SCALE,
    ensures
        value == plain_decimal_value(bytes@, scale as nat),
{
    let n: usize = bytes.len();
    let negative: bool = n > 0 && bytes[0] == MINUS;
    let signed: bool = n > 0 && (bytes[0] == MINUS || bytes[0] == PLUS);
    let body: &[u8] = if signed {
        &bytes[1..n]
    } else {
        bytes
    };
    match read_unsigned(body, scale) {
        Some(magnitude) => {
            if negative {
                if magnitude < 9_223_372_036_854_775_808 {
                    Some(-(magnitude as i64))
                } else if magnitude == 9_223_372_036_854_775_808 {
                    Some(i64::MIN)
                } else {
                    None
                }
            } else if magnitude <= i64::MAX as u128 {
                Some(magnitude as i64)
            } else {
                None
            }
        },
        None => None,
    }
}

/// Does `bytes` hold a decimal point?
fn has_point(bytes: &[u8]) -> (found: bool)
    ensures
        found == (exists|i: int| 0 <= i < bytes@.len() && bytes@[i] == POINT),
{
    let n: usize = bytes.len();
    let mut i: usize = 0;
    while i < n
        invariant
            n == bytes@.len(),
            i <= n,
            forall|j: int| 0 <= j < i ==> bytes@[j] != POINT,
        decreases n - i,
    {
        if bytes[i] == POINT {
            return true;
        }
        i += 1;
    }
    false
}

/// Reads a whole number from `bytes`.
fn read_integer(bytes: &[u8]) -> (value: Option<i64>)
    ensures
        value == integer_value(bytes@),
{
    if has_point(bytes) {
        None
    } else {
        read_decimal(bytes, 0)
    }
}

/// Finds the letter that begins an exponent.
fn find_exponent(bytes: &[u8]) -> (found: Option<usize>)
    ensures
        found matches Some(i) ==> exponent_index(bytes@, 0) == Some(i as int) && i < bytes@.len(),
        found is None ==> exponent_index(bytes@, 0) is None,
{
    let n: usize = bytes.len();
    let mut i: usize = 0;
    while i < n
        invariant
            n == bytes@.len(),
            i <= n,
            exponent_index(bytes@, 0) == exponent_index(bytes@, i as int),
        decreases n - i,
    {
        if bytes[i] == 101 || bytes[i] == 69 {
            return Some(i);
        }
        i += 1;
    }
    None
}

/// Reads a decimal number from `text` as a whole number of units of
/// 10^-`scale`. Digits beyond the scale are dropped; a number that does not
/// fit in `i64`, or text that is no decimal number, gives nothing.
pub fn parse_decimal(text: &str, scale: u32) -> (value: Option<i64>)
    requires
        scale <= MAX_SCALE,
    ensures
        value == decimal_value(text.spec_bytes(), scale as nat),
{
    let bytes: &[u8] = text.as_bytes();
    let n: usize = bytes.len();
    match find_exponent(bytes) {
        None => read_decimal(bytes, scale),
        Some(i) => match read_integer(&bytes[i + 1..n]) {
            Some(x) => {
                let places: i64 = scale as i64;
                if x >= -places && x <= 18 - places {
                    read_decimal(&bytes[0..i], (places + x) as u32)
                } else {
                    None
                }
            },
            None => None,
        },
    }
}

/// Reads a whole number from `text`. Text that is no whole number, or one
/// that does not fit in `i64`, gives nothing.
pub fn parse_integer(text: &str) -> (value: Option<i64>)
    ensures
        value == integer_value(text.spec_bytes()),
{
    read_integer(text.as_bytes())
}

/// A fraction read at `scale` places is less than one whole.
pub proof fn lemma_fraction_bound(frac: Seq<u8>, scale: nat)
    requires
        forall|i: int| 0 <= i < frac.len() ==> is_digit(#[trigger] frac[i]),
    ensures
        fraction_value(frac, scale) < pow10(scale),
{
    if frac.len() >= scale {
        lemma_digits_bound(frac.take(scale as int));
    } else {
        lemma_digits_bound(frac);
        lemma_pow10_split(frac.len(), (scale - frac.len()) as nat);
        let d = digits_value(frac);
        let p = pow10(frac.len());
        let q = pow10((scale - frac.len()) as nat);
        lemma_pow10_positive((scale - frac.len()) as nat);
        assert(d * q < p * q) by (nonlinear_arith)
            requires
                d < p,
                q >= 1,
        ;
    }
}

/// A number of `n` digits is less than ten to the power `n`.
pub proof fn lemma_digits_bound(s: Seq<u8>)
    requires
        forall|i: int| 0 <= i < s.len() ==> is_digit(#[trigger] s[i]),
    ensures
        digits_value(s) < pow10(s.len()),
    decreases s.len(),
{
    if s.len() > 0 {
        lemma_digits_bound(s.drop_last());
        assert(is_digit(s[s.len() - 1]));
    }
}

/// Ten to the power `a + b` is the product of the two powers.
pub proof fn lemma_pow10_split(a: nat, b: nat)
    ensures
        pow10(a + b) == pow10(a) * pow10(b),
    decreases a,
{
    if a > 0 {
        lemma_pow10_split((a - 1) as nat, b);
        assert(pow10(a + b) == 10 * pow10((a - 1 + b) as nat));
        assert(10 * (pow10((a - 1) as nat) * pow10(b)) == (10 * pow10((a - 1) as nat)) * pow10(b))
            by (nonlinear_arith);
    } else {
        assert(pow10(a + b) == pow10(b));
        assert(1 * pow10(b) == pow10(b));
    }
}

/// The digit `d` as text.
pub open spec fn digit_text(d: int) -> Seq<char> {
    if d == 0 {
        "0"@
    } else if d == 1 {
        "1"@
    } else if d == 2 {
        "2"@
    } else if d == 3 {
        "3"@
    } else if d == 4 {
        "4"@
    } else if d == 5 {
        "5"@
    } else if d == 6 {
        "6"@
    } else if d == 7 {
        "7"@
    } else if d == 8 {
        "8"@
    } else {
        "9"@
    }
}

/// The number `n` in decimal digits, without leading zeros.
pub open spec fn unsigned_text(n: nat) -> Seq<char>
    decreases n,
{
    if n < 10 {
        digit_text(n as int)
    } else {
        unsigned_text(n / 10) + digit_text((n % 10) as int)
    }
}

/// The whole number `v` in decimal digits, with a minus sign where it is
/// negative.
pub open spec fn integer_text(v: int) -> Seq<char> {
    if v < 0 {
        "-"@ + unsigned_text((-v) as nat)
    } else {
        unsigned_text(v as nat)
    }
}

/// The last `width` decimal digits of `n`, with leading zeros.
pub open spec fn padded_text(n: nat, width: nat) -> Seq<char>
    decreases width,
{
    if width == 0 {
        Seq::empty()
    } else {
        padded_text(n / 10, (width - 1) as nat) + digit_text((n % 10) as int)
    }
}

/// The digits after the decimal point of a fraction of `frac` units of
/// 10^-`width`: as many as it takes, without trailing zeros.
pub open spec fn fraction_text(frac: nat, width: nat) -> Seq<char>
    decreases width,
{
    if width == 0 {
        Seq::empty()
    } else if frac % 10 == 0 {
        fraction_text(frac / 10, (width - 1) as nat)
    } else {
        padded_text(frac, width)
    }
}

/// The number of `v` units of 10^-`scale` as a decimal number: its whole
/// part and, unless it is a whole number, a point and its fraction without
/// trailing zeros.
pub open spec fn decimal_text(v: int, scale: nat) -> Seq<char> {
    let magnitude = if v < 0 {
        (-v) as nat
    } else {
        v as nat
    };
    let whole = unsigned_text(magnitude / pow10(scale));
    let shown = if magnitude % pow10(scale) == 0 {
        whole
    } else {
        whole + "."@ + fraction_text(magnitude % pow10(scale), scale)
    };
    if v < 0 {
        "-"@ + shown
    } else {
        shown
    }
}

/// A digit as text.
fn digit(d: u64) -> (text: &'static str)
    requires
        d < 10,
    ensures
        text@ == digit_text(d as int),
{
    if d == 0 {
        "0"
    } else if d == 1 {
        "1"
    } else if d == 2 {
        "2"
    } else if d == 3 {
        "3"
    } else if d == 4 {
        "4"
    } else if d == 5 {
        "5"
    } else if d == 6 {
        "6"
    } else if d == 7 {
        "7"
    } else if d == 8 {
        "8"
    } else {
        "9"
    }
}

/// Writes a number in decimal digits.
pub fn format_unsigned(n: u64) -> (text: String)
    ensures
        text@ == unsigned_text(n as nat),
    decreases n,
{
    if n < 10 {
        digit(n).to_owned()
    } else {
        let mut text: String = format_unsigned(n / 10);
        text.append(digit(n % 10));
        text
    }
}

/// The magnitude of a whole number.
fn magnitude_of(v: i64) -> (m: u64)
    ensures
        m == (if v < 0 {
            -(v as int)
        } else {
            v as int
        }),
{
    if v < 0 {
        ((-(v + 1)) as u64) + 1
    } else {
        v as u64
    }
}

/// Writes a whole number in decimal digits.
pub fn format_integer(v: i64) -> (text: String)
    ensures
        text@ == integer_text(v as int),
{
    if v < 0 {
        let mut text: String = "-".to_owned();
        text.append(format_unsigned(magnitude_of(v)).as_str());
        text
    } else {
        format_unsigned(v as u64)
    }
}

/// Writes the last `width` digits of `n`.
fn format_padded(n: u64, width: u32) -> (text: String)
    ensures
        text@ == padded_text(n as nat, width as nat),
    decreases width,
{
    if width == 0 {
        let text: String = String::new();
        assert(text@ =~= Seq::<char>::empty());
        text
    } else {
        let mut text: String = format_padded(n / 10, width - 1);
        text.append(digit(n % 10));
        text
    }
}

/// Writes the digits of a fraction, without trailing zeros.
fn format_fraction(frac: u64, width: u32) -> (text: String)
    ensures
        text@ == fraction_text(frac as nat, width as nat),
    decreases width,
{
    if width == 0 {
        let text: String = String::new();
        assert(text@ =~= Seq::<char>::empty());
        text
    } else if frac % 10 == 0 {
        format_fraction(frac / 10, width - 1)
    } else {
        format_padded(frac, width)
    }
}

/// Writes a number of units of 10^-`scale` as a decimal number, such as
/// "55.20625" for 552062500 units of 10^-7.
pub fn format_decimal(v: i64, scale: u32) -> (text: String)
    requires
        scale <= 18,
    ensures
        text@ == decimal_text(v as int, scale as nat),
{
    let magnitude: u64 = magnitude_of(v);
    let unit: u64 = power_of_ten(scale);
    let mut text: String = if v < 0 {
        "-".to_owned()
    } else {
        String::new()
    };
    text.append(format_unsigned(magnitude / unit).as_str());
    if magnitude % unit != 0 {
        text.append(".");
        text.append(format_fraction(magnitude % unit, scale).as_str());
    }
    proof {
        let whole = unsigned_text((magnitude / unit) as nat);
        if v >= 0 {
            assert(Seq::<char>::empty() + whole =~= whole);
            assert((Seq::<char>::empty() + whole) + "."@ =~= whole + "."@);
        } else {
            let frac = fraction_text((magnitude % unit) as nat, scale as nat);
            assert((("-"@ + whole) + "."@) + frac =~= "-"@ + ((whole + "."@) + frac));
        }
    }
    text
}

/// The magnitude `m`, in units of 10^-`scale`, in units of 10^-`places`:
/// rounded to the nearest, and away from zero where it lies half-way.
pub open spec fn rounded(m: nat, scale: nat, places: nat) -> nat {
    if places >= scale {
        m * pow10((places - scale) as nat)
    } else {
        (m + pow10((scale - places) as nat) / 2) / pow10((scale - places) as nat)
    }
}

/// The number of `v` units of 10^-`scale` as a decimal number with exactly
/// `places` digits after the point, rounded to the nearest.
pub open spec fn fixed_text(v: int, scale: nat, places: nat) -> Seq<char> {
    let magnitude = if v < 0 {
        (-v) as nat
    } else {
        v as nat
    };
    let r = rounded(magnitude, scale, places);
    let whole = unsigned_text(r / pow10(places));
    let shown = if places == 0 {
        whole
    } else {
        whole + "."@ + padded_text(r % pow10(places), places)
    };
    if v < 0 {
        "-"@ + shown
    } else {
        shown
    }
}

/// Writes a number of units of 10^-`scale` as a decimal number with exactly
/// `places` digits after the point, such as "55.206250" for 552062500 units
/// of 10^-7 at six places.
pub fn format_fixed(v: i64, scale: u32, places: u32) -> (text: String)
    requires
        places <= scale <= 18,
    ensures
        text@ == fixed_text(v as int, scale as nat, places as nat),
{
    let magnitude: u64 = magnitude_of(v);
    let step: u64 = power_of_ten(scale - places);
    let unit: u64 = power_of_ten(places);
    let r: u64 = if places == scale {
        proof {
            assert(pow10(0) == 1);
            assert(rounded(magnitude as nat, scale as nat, places as nat) == magnitude) by {
                assert((magnitude as nat) * 1 == magnitude as nat);
            }
        }
        magnitude
    } else {
        let sum: u128 = magnitude as u128 + (step / 2) as u128;
        let quotient: u128 = sum / (step as u128);
        proof {
            assert(quotient <= sum) by (nonlinear_arith)
                requires
                    quotient == sum / (step as u128),
                    step >= 1,
            ;
            assert(rounded(magnitude as nat, scale as nat, places as nat) == quotient);
        }
        quotient as u64
    };
    let mut text: String = if v < 0 {
        "-".to_owned()
    } else {
        String::new()
    };
    text.append(format_unsigned(r / unit).as_str());
    if places > 0 {
        text.append(".");
        text.append(format_padded(r % unit, places).as_str());
    }
    proof {
        let whole = unsigned_text((r / unit) as nat);
        if v >= 0 {
            assert(Seq::<char>::empty() + whole =~= whole);
            assert((Seq::<char>::empty() + whole) + "."@ =~= whole + "."@);
        } else {
            let frac = padded_text((r % unit) as nat, places as nat);
            assert((("-"@ + whole) + "."@) + frac =~= "-"@ + ((whole + "."@) + frac));
        }
    }
    text
}

/// The characters of a text as bytes, one for one.
pub open spec fn ascii_bytes(text: Seq<char>) -> Seq<u8> {
    text.map_values(|c: char| c as u8)
}

/// A text of ASCII characters is encoded by the bytes of its characters.
pub proof fn lemma_ascii_bytes(text: Seq<char>)
    requires
        is_ascii_chars(text),
    ensures
        encode_utf8(text) == ascii_bytes(text),
{
    is_ascii_chars_encode_utf8(text);
    assert(encode_utf8(text) =~= ascii_bytes(text));
}

/// A digit as text is one ASCII character, the one of that digit.
pub proof fn lemma_digit_text(d: int)
    requires
        0 <= d <= 9,
    ensures
        is_ascii_chars(digit_text(d)),
        ascii_bytes(digit_text(d)) == seq![(48 + d) as u8],
{
    reveal_strlit("0");
    reveal_strlit("1");
    reveal_strlit("2");
    reveal_strlit("3");
    reveal_strlit("4");
    reveal_strlit("5");
    reveal_strlit("6");
    reveal_strlit("7");
    reveal_strlit("8");
    reveal_strlit("9");
    assert(ascii_bytes(digit_text(d)) =~= seq![(48 + d) as u8]);
}

/// The bytes of two texts in a row are the bytes of the one and then the
/// bytes of the other, and they are ASCII where both are.
pub proof fn lemma_ascii_concat(a: Seq<char>, b: Seq<char>)
    ensures
        ascii_bytes(a + b) == ascii_bytes(a) + ascii_bytes(b),
        is_ascii_chars(a) && is_ascii_chars(b) ==> is_ascii_chars(a + b),
{
    assert(ascii_bytes(a + b) =~= ascii_bytes(a) + ascii_bytes(b));
    if is_ascii_chars(a) && is_ascii_chars(b) {
        assert forall|i: int| 0 <= i < (a + b).len() implies '\0' <= #[trigger] (a + b)[i]
            <= '\u{7f}' by {
            if i < a.len() {
                assert((a + b)[i] == a[i]);
            } else {
                assert((a + b)[i] == b[i - a.len()]);
            }
        }
    }
}

/// Every byte of `s` is a digit.
pub open spec fn all_digits(s: Seq<u8>) -> bool {
    forall|i: int| 0 <= i < s.len() ==> is_digit(#[trigger] s[i])
}

/// A digit more at the end of a number makes ten times the number and the
/// digit.
pub proof fn lemma_digits_value_push(s: Seq<u8>, d: u8)
    ensures
        digits_value(s.push(d)) == digits_value(s) * 10 + (d - 48) as nat,
{
    assert(s.push(d).drop_last() =~= s);
}

/// A number written in decimal digits is ASCII text of at least one digit
/// and nothing but digits, which write that number.
pub proof fn lemma_unsigned_text(n: nat)
    ensures
        is_ascii_chars(unsigned_text(n)),
        unsigned_text(n).len() >= 1,
        all_digits(ascii_bytes(unsigned_text(n))),
        digits_value(ascii_bytes(unsigned_text(n))) == n,
    decreases n,
{
    if n < 10 {
        lemma_digit_text(n as int);
        lemma_digits_value_push(Seq::<u8>::empty(), (48 + n) as u8);
        assert(Seq::<u8>::empty().push((48 + n) as u8) =~= seq![(48 + n) as u8]);
    } else {
        lemma_unsigned_text(n / 10);
        lemma_digit_text((n % 10) as int);
        lemma_ascii_concat(unsigned_text(n / 10), digit_text((n % 10) as int));
        let head = ascii_bytes(unsigned_text(n / 10));
        let d = (48 + n % 10) as u8;
        assert(head + seq![d] =~= head.push(d));
        lemma_digits_value_push(head, d);
    }
}

/// The last digits of a number that has no more digits than that are ASCII
/// text of just so many digits, which write that number.
pub proof fn lemma_padded_text(n: nat, width: nat)
    requires
        n < pow10(width),
    ensures
        is_ascii_chars(padded_text(n, width)),
        padded_text(n, width).len() == width,
        all_digits(ascii_bytes(padded_text(n, width))),
        digits_value(ascii_bytes(padded_text(n, width))) == n,
    decreases width,
{
    if width == 0 {
        assert(ascii_bytes(padded_text(n, width)) =~= Seq::<u8>::empty());
    } else {
        lemma_padded_text(n / 10, (width - 1) as nat);
        lemma_digit_text((n % 10) as int);
        lemma_ascii_concat(padded_text(n / 10, (width - 1) as nat), digit_text((n % 10) as int));
        let head = ascii_bytes(padded_text(n / 10, (width - 1) as nat));
        let d = (48 + n % 10) as u8;
        assert(head + seq![d] =~= head.push(d));
        lemma_digits_value_push(head, d);
    }
}

/// The digits of a fraction that is not nought are ASCII text of at least
/// one digit and of no more digits than the fraction has places, which come
/// to the fraction when zeros fill the places that are left.
pub proof fn lemma_fraction_text(frac: nat, width: nat)
    requires
        0 < frac < pow10(width),
    ensures
        is_ascii_chars(fraction_text(frac, width)),
        1 <= fraction_text(frac, width).len() <= width,
        all_digits(ascii_bytes(fraction_text(frac, width))),
        digits_value(ascii_bytes(fraction_text(frac, width))) * pow10(
            (width - fraction_text(frac, width).len()) as nat,
        ) == frac,
    decreases width,
{
    if width == 0 {
    } else if frac % 10 == 0 {
        lemma_fraction_text(frac / 10, (width - 1) as nat);
        let text = fraction_text(frac / 10, (width - 1) as nat);
        assert(fraction_text(frac, width) == text);
        let v = digits_value(ascii_bytes(text));
        let left = (width - 1 - text.len()) as nat;
        assert(v * pow10(left) == frac / 10);
        assert(v * (10 * pow10(left)) == (v * pow10(left)) * 10) by (nonlinear_arith);
        assert(pow10((width - text.len()) as nat) == 10 * pow10(left));
        assert((frac / 10) * 10 == frac);
    } else {
        lemma_padded_text(frac, width);
        assert(fraction_text(frac, width) == padded_text(frac, width));
        assert(pow10(0) == 1);
        let v = digits_value(ascii_bytes(padded_text(frac, width)));
        assert(v * 1 == v);
    }
}

/// Where nothing but digits follows, the digits end with the text.
pub proof fn lemma_digits_to_the_end(s: Seq<u8>, from: int)
    requires
        0 <= from <= s.len(),
        forall|i: int| from <= i < s.len() ==> is_digit(#[trigger] s[i]),
    ensures
        digits_end(s, from) == s.len(),
    decreases s.len() - from,
{
    if from < s.len() {
        lemma_digits_to_the_end(s, from + 1);
    }
}

/// The digits end on the first byte that is none.
pub proof fn lemma_digits_stop(s: Seq<u8>, from: int, stop: int)
    requires
        0 <= from <= stop < s.len(),
        forall|i: int| from <= i < stop ==> is_digit(#[trigger] s[i]),
        !is_digit(s[stop]),
    ensures
        digits_end(s, from) == stop,
    decreases stop - from,
{
    if from < stop {
        lemma_digits_stop(s, from + 1, stop);
    }
}

/// The magnitude `m` written as a decimal number at `scale` places, without
/// a sign.
pub open spec fn magnitude_text(m: nat, scale: nat) -> Seq<char> {
    if m % pow10(scale) == 0 {
        unsigned_text(m / pow10(scale))
    } else {
        unsigned_text(m / pow10(scale)) + "."@ + fraction_text(m % pow10(scale), scale)
    }
}

/// A magnitude that is written as a decimal number reads back as itself.
pub proof fn lemma_magnitude_round_trip(m: nat, scale: nat)
    ensures
        is_ascii_chars(magnitude_text(m, scale)),
        magnitude_text(m, scale).len() >= 1,
        is_digit(ascii_bytes(magnitude_text(m, scale))[0]),
        unsigned_decimal(ascii_bytes(magnitude_text(m, scale)), scale) == Some(m),
        forall|i: int|
            0 <= i < ascii_bytes(magnitude_text(m, scale)).len() ==> !is_exponent_mark(
                #[trigger] ascii_bytes(magnitude_text(m, scale))[i],
            ),
{
    let p = pow10(scale);
    lemma_pow10_positive(scale);
    let whole = unsigned_text(m / p);
    let wb = ascii_bytes(whole);
    lemma_unsigned_text(m / p);
    assert((m / p) * p + m % p == m) by (nonlinear_arith)
        requires
            p > 0,
    ;
    assert(0 <= m % p < p) by (nonlinear_arith)
        requires
            p > 0,
    ;
    if m % p == 0 {
        lemma_digits_to_the_end(wb, 0);
        assert(magnitude_text(m, scale) == whole);
        assert(digits_end(wb, 0) == wb.len());
        assert(digits_value(wb) * p == m);
        assert(unsigned_decimal(wb, scale) == Some(m));
        assert forall|i: int| 0 <= i < wb.len() implies !is_exponent_mark(#[trigger] wb[i]) by {
            assert(is_digit(wb[i]));
        }
    } else {
        let r = m % p;
        let frac = fraction_text(r, scale);
        let fb = ascii_bytes(frac);
        lemma_fraction_text(r, scale);
        reveal_strlit(".");
        let point = "."@;
        assert(is_ascii_chars(point));
        assert(ascii_bytes(point) =~= seq![POINT]);
        lemma_ascii_concat(whole, point);
        lemma_ascii_concat(whole + point, frac);
        let body = ascii_bytes(magnitude_text(m, scale));
        assert(body == (wb + seq![POINT]) + fb);
        let int_end = wb.len() as int;
        assert(body[int_end] == POINT);
        assert forall|i: int| 0 <= i < int_end implies is_digit(#[trigger] body[i]) by {
            assert(body[i] == wb[i]);
        }
        lemma_digits_stop(body, 0, int_end);
        assert forall|i: int| int_end + 1 <= i < body.len() implies is_digit(
            #[trigger] body[i],
        ) by {
            assert(body[i] == fb[i - int_end - 1]);
        }
        lemma_digits_to_the_end(body, int_end + 1);
        assert(body.subrange(0, int_end) =~= wb);
        assert(body.subrange(int_end + 1, body.len() as int) =~= fb);
        if fb.len() >= scale {
            assert(fb.take(scale as int) =~= fb);
            assert(pow10(0) == 1);
            assert(digits_value(fb) * 1 == digits_value(fb));
        }
        assert(fraction_value(fb, scale) == r);
        assert(digits_value(wb) * p + r == m);
        assert(digits_end(body, 0) == int_end);
        assert(digits_end(body, int_end + 1) == body.len());
        assert(body[0] == wb[0]);
        assert(unsigned_decimal(body, scale) == Some(m));
        assert forall|i: int| 0 <= i < body.len() implies !is_exponent_mark(
            #[trigger] body[i],
        ) by {
            if i < int_end {
                assert(is_digit(body[i]));
            } else if i > int_end {
                assert(is_digit(body[i]));
            }
        }
    }
}

/// A number that is written as a decimal number reads back as itself, at
/// whatever scale: writing drops nothing that reading wants.
pub proof fn lemma_decimal_round_trip(v: i64, scale: nat)
    ensures
        decimal_value(encode_utf8(decimal_text(v as int, scale)), scale) == Some(v),
        plain_decimal_value(encode_utf8(decimal_text(v as int, scale)), scale) == Some(v),
{
    let m: nat = if v < 0 {
        (-v) as nat
    } else {
        v as nat
    };
    let shown = magnitude_text(m, scale);
    lemma_magnitude_round_trip(m, scale);
    let sb = ascii_bytes(shown);
    if v < 0 {
        reveal_strlit("-");
        let minus = "-"@;
        assert(is_ascii_chars(minus));
        assert(ascii_bytes(minus) =~= seq![MINUS]);
        lemma_ascii_concat(minus, shown);
        lemma_ascii_bytes(minus + shown);
        let bytes = encode_utf8(decimal_text(v as int, scale));
        assert(bytes == seq![MINUS] + sb);
        assert(bytes[0] == MINUS);
        assert(bytes.subrange(1, bytes.len() as int) =~= sb);
        assert forall|i: int| 0 <= i < bytes.len() implies !is_exponent_mark(
            #[trigger] bytes[i],
        ) by {
            if i > 0 {
                assert(bytes[i] == sb[i - 1]);
            }
        }
        lemma_no_exponent(bytes, 0);
    } else {
        lemma_ascii_bytes(shown);
        let bytes = encode_utf8(decimal_text(v as int, scale));
        assert(bytes == sb);
        assert(!has_sign(bytes));
        lemma_no_exponent(bytes, 0);
    }
}

/// A whole number that is written in digits reads back as itself.
pub proof fn lemma_integer_round_trip(v: i64)
    ensures
        decimal_value(encode_utf8(integer_text(v as int)), 0) == Some(v),
        plain_decimal_value(encode_utf8(integer_text(v as int)), 0) == Some(v),
{
    assert(pow10(0) == 1);
    lemma_decimal_round_trip(v, 0);
    let m: nat = if v < 0 {
        (-v) as nat
    } else {
        v as nat
    };
    assert(m % 1 == 0 && m / 1 == m);
}

} // verus!
