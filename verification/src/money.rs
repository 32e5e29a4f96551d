//! Currency codes and money amounts: validation of codes, parsing of amounts
//! into minor units without floating point, and their display.

use vstd::prelude::*;
use crate::text::{
    find_char, find_char_in, lemma_find_char,
    magnitude, push_chars, zero_pad,
    ascii_upper, chars_of, is_ascii_alpha, is_ascii_alpha_char, is_ascii_digit, is_ascii_digit_char,
    nat_text, push_nat_text, push_str, str_eq, string_from_chars, sub_chars, trim, trim_chars,
    upper_all, utf8_len, utf8_len_is, is_white_space, is_ascii_lower, lemma_trim_start_fixed,
    lemma_trim_end_fixed, int_text,
};
use crate::models::Expense;

verus! {

/// Why a currency code, an amount or an expense date was refused.
#[derive(Clone, Copy, Debug, PartialEq, Eq, Structural)]
pub enum MoneyError {
    /// The trimmed code is not three bytes long.
    CurrencyLength,
    /// The code is three bytes long but not three ASCII letters.
    CurrencyNotAlphabetic,
    /// The amount is empty.
    AmountRequired,
    /// The amount holds more than one `.`, or its digits cannot be read.
    AmountMalformed,
    /// A part of the amount holds something else than ASCII digits.
    AmountNotNumeric,
    /// More fraction digits than the currency allows; carries the
    /// normalized code and the number of digits it allows.
    TooManyDecimals(char, char, char, u32),
    /// The amount in minor units does not fit in an `i64`.
    AmountTooLarge,
    /// An expense date that is not a `YYYY-MM-DD` calendar date.
    InvalidDate,
}

pub open spec fn money_error_text(e: MoneyError) -> Seq<char> {
    match e {
        MoneyError::CurrencyLength => "currency は 3 文字である必要があります"@,
        MoneyError::CurrencyNotAlphabetic => "currency は英字 3 文字である必要があります"@,
        MoneyError::AmountRequired => "amount は必須です"@,
        MoneyError::AmountMalformed => "amount の形式が不正です"@,
        MoneyError::AmountNotNumeric => "amount は数値である必要があります"@,
        MoneyError::TooManyDecimals(a, b, c, d) => "amount の小数桁が多すぎます（"@ + seq![a, b, c]
            + " は "@ + nat_text(d as nat) + " 桁まで）"@,
        MoneyError::AmountTooLarge => "amount が大きすぎます"@,
        MoneyError::InvalidDate => "expense_date は YYYY-MM-DD 形式である必要があります"@,
    }
}

impl MoneyError {
    /// The message shown to the user.
    pub fn message(&self) -> (s: String)
        ensures
            s@ == money_error_text(*self),
    {
        let mut v: Vec<char> = Vec::new();
        match *self {
            MoneyError::CurrencyLength => push_str(&mut v, "currency は 3 文字である必要があります"),
            MoneyError::CurrencyNotAlphabetic => push_str(
                &mut v,
                "currency は英字 3 文字である必要があります",
            ),
            MoneyError::AmountRequired => push_str(&mut v, "amount は必須です"),
            MoneyError::AmountMalformed => push_str(&mut v, "amount の形式が不正です"),
            MoneyError::AmountNotNumeric => push_str(&mut v, "amount は数値である必要があります"),
            MoneyError::TooManyDecimals(a, b, c, d) => {
                push_str(&mut v, "amount の小数桁が多すぎます（");
                v.push(a);
                v.push(b);
                v.push(c);
                push_str(&mut v, " は ");
                push_nat_text(&mut v, d as u64);
                push_str(&mut v, " 桁まで）");
            },
            MoneyError::AmountTooLarge => push_str(&mut v, "amount が大きすぎます"),
            MoneyError::InvalidDate => push_str(
                &mut v,
                "expense_date は YYYY-MM-DD 形式である必要があります",
            ),
        }
        assert(v@ =~= money_error_text(*self));
        string_from_chars(v.as_slice())
    }
}

/// What `validate_currency_code` makes of `code`: the trimmed code must be
/// three bytes of ASCII letters; it comes back upper-cased.
pub open spec fn currency_code_result(code: Seq<char>) -> Result<Seq<char>, MoneyError> {
    let t = trim(code);
    if utf8_len(t) != 3 {
        Err(MoneyError::CurrencyLength)
    } else if !(forall|i: int| 0 <= i < t.len() ==> is_ascii_alpha(#[trigger] t[i])) {
        Err(MoneyError::CurrencyNotAlphabetic)
    } else {
        Ok(upper_all(t))
    }
}

/// Checks the form of a currency code and returns it normalized (trimmed,
/// upper case). Codes outside ISO 4217 are accepted.
pub fn validate_currency_code(code: &str) -> (r: Result<String, MoneyError>)
    ensures
        match r {
            Ok(s) => currency_code_result(code@) == Ok::<Seq<char>, MoneyError>(s@),
            Err(e) => currency_code_result(code@) == Err::<Seq<char>, MoneyError>(e),
        },
{
    let all = chars_of(code);
    let t = trim_chars(all.as_slice());
    if !utf8_len_is(t.as_slice(), 3) {
        return Err(MoneyError::CurrencyLength);
    }
    let n = t.len();
    let mut up: Vec<char> = Vec::new();
    let mut i: usize = 0;
    while i < n
        invariant
            n == t@.len(),
            i <= n,
            up@ == upper_all(t@).subrange(0, i as int),
            forall|j: int| 0 <= j < i ==> is_ascii_alpha(#[trigger] t@[j]),
            t@ == trim(code@),
            utf8_len(t@) == 3,
        decreases n - i,
    {
        let c = t[i];
        if !is_ascii_alpha_char(c) {
            assert(!is_ascii_alpha(t@[i as int]));
            assert(!(forall|j: int| 0 <= j < t@.len() ==> is_ascii_alpha(#[trigger] t@[j])));
            assert(currency_code_result(code@) == Err::<Seq<char>, MoneyError>(
                MoneyError::CurrencyNotAlphabetic,
            ));
            return Err(MoneyError::CurrencyNotAlphabetic);
        }
        let cu = c as u32;
        let u = if 97 <= cu && cu <= 122 {
            (((c as u32) - 32) as u8) as char
        } else {
            c
        };
        assert(u == ascii_upper(c));
        up.push(u);
        i = i + 1;
        assert(up@ =~= upper_all(t@).subrange(0, i as int));
    }
    assert(up@ =~= upper_all(t@));
    Ok(string_from_chars(up.as_slice()))
}

/// Codes of the currencies without a minor unit.
pub open spec fn is_zero_decimal_currency(c: Seq<char>) -> bool {
    ||| c == "BIF"@
    ||| c == "CLP"@
    ||| c == "DJF"@
    ||| c == "GNF"@
    ||| c == "ISK"@
    ||| c == "JPY"@
    ||| c == "KMF"@
    ||| c == "KRW"@
    ||| c == "PYG"@
    ||| c == "RWF"@
    ||| c == "UGX"@
    ||| c == "UYI"@
    ||| c == "VND"@
    ||| c == "VUV"@
    ||| c == "XAF"@
    ||| c == "XOF"@
    ||| c == "XPF"@
}

/// Number of fraction digits of the currency's minor unit (0 for the listed
/// currencies, 2 for every other code).
pub open spec fn minor_unit_digits(c: Seq<char>) -> nat {
    if is_zero_decimal_currency(c) {
        0
    } else {
        2
    }
}

/// Fraction digits of the minor unit of `currency`.
pub fn currency_minor_unit_digits(currency: &str) -> (d: u32)
    ensures
        d == minor_unit_digits(currency@),
{
    if str_eq(currency, "BIF") || str_eq(currency, "CLP") || str_eq(currency, "DJF") || str_eq(
        currency,
        "GNF",
    ) || str_eq(currency, "ISK") || str_eq(currency, "JPY") || str_eq(currency, "KMF") || str_eq(
        currency,
        "KRW",
    ) || str_eq(currency, "PYG") || str_eq(currency, "RWF") || str_eq(currency, "UGX") || str_eq(
        currency,
        "UYI",
    ) || str_eq(currency, "VND") || str_eq(currency, "VUV") || str_eq(currency, "XAF") || str_eq(
        currency,
        "XOF",
    ) || str_eq(currency, "XPF") {
        0
    } else {
        2
    }
}

/// Value of a string of decimal digits (0 for the empty string).
pub open spec fn digits_value(s: Seq<char>) -> nat
    decreases s.len(),
{
    if s.len() == 0 {
        0
    } else {
        digits_value(s.drop_last()) * 10 + ((s.last() as u32) - 48) as nat
    }
}

pub open spec fn all_digits(s: Seq<char>) -> bool {
    forall|i: int| 0 <= i < s.len() ==> is_ascii_digit(#[trigger] s[i])
}

pub open spec fn pow10(d: nat) -> nat
    decreases d,
{
    if d == 0 {
        1
    } else {
        10 * pow10((d - 1) as nat)
    }
}

/// What `parse_amount_for_currency` makes of an already trimmed amount `s`
/// for a currency with `dec` fraction digits: the value in minor units.
pub open spec fn amount_result(s: Seq<char>, dec: nat) -> Result<int, MoneyError> {
    if s.len() == 0 {
        Err(MoneyError::AmountRequired)
    } else {
        let dot = find_char(s, '.');
        let whole = match dot {
            Some(i) => s.subrange(0, i as int),
            None => s,
        };
        let frac = match dot {
            Some(i) => s.subrange(i as int + 1, s.len() as int),
            None => Seq::<char>::empty(),
        };
        if dot is Some && find_char(frac, '.') is Some {
            Err(MoneyError::AmountMalformed)
        } else if !all_digits(whole) {
            Err(MoneyError::AmountNotNumeric)
        } else if dot is Some && !all_digits(frac) {
            Err(MoneyError::AmountNotNumeric)
        } else if dot is Some && frac.len() > dec {
            Err(MoneyError::TooManyDecimals('?', '?', '?', dec as u32))
        } else if digits_value(whole) > i64::MAX {
            Err(MoneyError::AmountMalformed)
        } else if dot is Some && dec == 0 {
            // the padded fraction is empty and cannot be read as a number
            Err(MoneyError::AmountMalformed)
        } else {
            let frac_value = if dot is Some {
                digits_value(frac) * pow10((dec - frac.len()) as nat)
            } else {
                0
            };
            let total = digits_value(whole) * pow10(dec) + frac_value;
            if total > i64::MAX {
                Err(MoneyError::AmountTooLarge)
            } else {
                Ok(total as int)
            }
        }
    }
}

/// What `parse_amount_for_currency(input, currency)` returns: errors of the
/// currency first, then those of the amount. The code in `TooManyDecimals`
/// is the normalized currency.
pub open spec fn amount_for_currency_result(input: Seq<char>, currency: Seq<char>) -> Result<
    int,
    MoneyError,
> {
    match currency_code_result(currency) {
        Err(e) => Err(e),
        Ok(code) => match amount_result(trim(input), minor_unit_digits(code)) {
            Err(MoneyError::TooManyDecimals(_, _, _, d)) => Err(
                MoneyError::TooManyDecimals(code[0], code[1], code[2], d),
            ),
            other => other,
        },
    }
}

fn all_digits_in(v: &[char]) -> (b: bool)
    ensures
        b == all_digits(v@),
{
    let n = v.len();
    let mut i: usize = 0;
    while i < n
        invariant
            n == v@.len(),
            i <= n,
            forall|j: int| 0 <= j < i ==> is_ascii_digit(#[trigger] v@[j]),
        decreases n - i,
    {
        if !is_ascii_digit_char(v[i]) {
            return false;
        }
        i = i + 1;
    }
    true
}

proof fn lemma_digits_value_prefix_mono(s: Seq<char>, i: int)
    requires
        0 <= i <= s.len(),
        all_digits(s),
    ensures
        digits_value(s.subrange(0, i)) <= digits_value(s),
    decreases s.len() - i,
{
    if i < s.len() {
        lemma_digits_value_prefix_mono(s, i + 1);
        assert(s.subrange(0, i + 1).drop_last() =~= s.subrange(0, i));
    } else {
        assert(s.subrange(0, i) =~= s);
    }
}

/// Reads ASCII digits as a number; `None` when it exceeds `i64::MAX`.
fn read_digits(v: &[char]) -> (r: Option<i64>)
    requires
        all_digits(v@),
    ensures
        match r {
            Some(x) => x as int == digits_value(v@),
            None => digits_value(v@) > i64::MAX,
        },
{
    let n = v.len();
    let mut acc: i128 = 0;
    let mut i: usize = 0;
    while i < n
        invariant
            n == v@.len(),
            i <= n,
            all_digits(v@),
            acc as int == digits_value(v@.subrange(0, i as int)),
            acc <= i64::MAX,
        decreases n - i,
    {
        let d = ((v[i] as u32) - 48) as i128;
        assert(v@.subrange(0, i + 1).drop_last() =~= v@.subrange(0, i as int));
        acc = acc * 10 + d;
        i = i + 1;
        if acc > i64::MAX as i128 {
            proof {
                lemma_digits_value_prefix_mono(v@, i as int);
            }
            return None;
        }
    }
    assert(v@.subrange(0, n as int) =~= v@);
    Some(acc as i64)
}

/// Value in hundredths of a fraction of at most two digits (`"5"` is 50).
fn two_digit_fraction(f: &[char]) -> (r: i64)
    requires
        all_digits(f@),
        f@.len() <= 2,
    ensures
        r == digits_value(f@) * pow10((2 - f@.len()) as nat),
{
    assert(pow10(0) == 1);
    assert(pow10(1) == 10);
    assert(pow10(2) == 100);
    if f.len() == 0 {
        assert(digits_value(f@) == 0);
        0
    } else if f.len() == 1 {
        assert((2 - f@.len()) as nat == 1);
        assert(pow10((2 - f@.len()) as nat) == 10);
        assert(f@.drop_last() =~= Seq::<char>::empty());
        assert(is_ascii_digit(f@[0]));
        let d = ((f[0] as u32) - 48) as i64;
        assert(digits_value(Seq::<char>::empty()) == 0);
        assert(f@.last() == f@[0]);
        assert(digits_value(f@) == d);
        assert(digits_value(f@) * pow10((2 - f@.len()) as nat) == d * 10);
        d * 10
    } else {
        assert(f@.drop_last().drop_last() =~= Seq::<char>::empty());
        assert(f@.drop_last().last() == f@[0]);
        assert(is_ascii_digit(f@[0]));
        assert(is_ascii_digit(f@[1]));
        let d0 = ((f[0] as u32) - 48) as i64;
        let d1 = ((f[1] as u32) - 48) as i64;
        assert(digits_value(Seq::<char>::empty()) == 0);
        assert(f@.drop_last().drop_last().len() == 0);
        assert(digits_value(f@.drop_last().drop_last()) == 0);
        assert(f@.last() == f@[1]);
        assert(digits_value(f@.drop_last()) == d0);
        assert(digits_value(f@) == d0 * 10 + d1);
        assert((2 - f@.len()) as nat == 0);
        assert(pow10((2 - f@.len()) as nat) == 1);
        let ghost dv = digits_value(f@);
        assert(dv * 1 == dv) by (nonlinear_arith);
        assert(digits_value(f@) * pow10((2 - f@.len()) as nat) == d0 * 10 + d1);
        d0 * 10 + d1
    }
}

/// Reads a user-typed amount in `currency` as an integer number of minor
/// units (no floating point); `10.5` USD is 1050.
pub fn parse_amount_for_currency(input: &str, currency: &str) -> (r: Result<i64, MoneyError>)
    ensures
        match r {
            Ok(x) => amount_for_currency_result(input@, currency@) == Ok::<int, MoneyError>(
                x as int,
            ),
            Err(e) => amount_for_currency_result(input@, currency@) == Err::<int, MoneyError>(e),
        },
{
    let code = match validate_currency_code(currency) {
        Ok(c) => c,
        Err(e) => return Err(e),
    };
    let ghost code_v = code@;
    proof {
        reveal_strlit("BIF");
    }
    let decimals = currency_minor_unit_digits(code.as_str());
    let code_chars = chars_of(code.as_str());
    let raw = chars_of(input);
    let s = trim_chars(raw.as_slice());
    let ghost sv = s@;
    assert(amount_for_currency_result(input@, currency@) == match amount_result(
        sv,
        decimals as nat,
    ) {
        Err(MoneyError::TooManyDecimals(_, _, _, d)) => Err(
            MoneyError::TooManyDecimals(code_v[0], code_v[1], code_v[2], d),
        ),
        other => other,
    });
    if s.len() == 0 {
        return Err(MoneyError::AmountRequired);
    }
    proof {
        lemma_find_char(sv, '.');
    }
    let dot = find_char_in(s.as_slice(), '.');
    let (whole, frac) = match dot {
        Some(i) => (sub_chars(s.as_slice(), 0, i), Some(sub_chars(s.as_slice(), i + 1, s.len()))),
        None => (sub_chars(s.as_slice(), 0, s.len()), None),
    };
    assert(dot is None ==> whole@ =~= sv);
    match &frac {
        Some(f) => {
            if find_char_in(f.as_slice(), '.').is_some() {
                return Err(MoneyError::AmountMalformed);
            }
        },
        None => {},
    }
    if !all_digits_in(whole.as_slice()) {
        return Err(MoneyError::AmountNotNumeric);
    }
    match &frac {
        Some(f) => {
            if !all_digits_in(f.as_slice()) {
                return Err(MoneyError::AmountNotNumeric);
            }
            if f.len() > decimals as usize {
                proof {
                    reveal_strlit("BIF");
                }
                assert(code_chars@.len() == 3) by {
                    assert(code_v.len() == 3) by {
                        lemma_upper_trim_len(currency@);
                    }
                }
                return Err(
                    MoneyError::TooManyDecimals(code_chars[0], code_chars[1], code_chars[2], decimals),
                );
            }
        },
        None => {},
    }
    let whole_value: i64 = if whole.len() == 0 {
        0
    } else {
        match read_digits(whole.as_slice()) {
            Some(x) => x,
            None => return Err(MoneyError::AmountMalformed),
        }
    };
    assert(whole.len() == 0 ==> digits_value(whole@) == 0);
    let frac_value: i64 = match &frac {
        None => 0,
        Some(f) => {
            if decimals == 0 {
                return Err(MoneyError::AmountMalformed);
            }
            two_digit_fraction(f.as_slice())
        },
    };
    proof {
        reveal_with_fuel(pow10, 3);
    }
    let total: i128 = (whole_value as i128) * (if decimals == 0 {
        1i128
    } else {
        100i128
    }) + (frac_value as i128);
    assert(total == digits_value(whole@) * pow10(decimals as nat) + (if frac is Some {
        digits_value(frac->Some_0@) * pow10((decimals - frac->Some_0@.len()) as nat)
    } else {
        0
    }));
    if total > i64::MAX as i128 {
        return Err(MoneyError::AmountTooLarge);
    }
    Ok(total as i64)
}

proof fn lemma_upper_trim_len(code: Seq<char>)
    requires
        currency_code_result(code) is Ok,
    ensures
        currency_code_result(code)->Ok_0.len() == 3,
{
    let t = trim(code);
    lemma_ascii_utf8_len(t);
}

/// For ASCII text the byte length is the character count.
proof fn lemma_ascii_utf8_len(t: Seq<char>)
    requires
        forall|i: int| 0 <= i < t.len() ==> is_ascii_alpha(#[trigger] t[i]),
    ensures
        utf8_len(t) == t.len(),
    decreases t.len(),
{
    if t.len() > 0 {
        assert(is_ascii_alpha(t[t.len() - 1]));
        lemma_ascii_utf8_len(t.drop_last());
    }
}

/// A normalized currency code is accepted as it is: validating what a
/// validation returned gives it back unchanged.
pub proof fn lemma_currency_code_idempotent(code: Seq<char>)
    requires
        currency_code_result(code) is Ok,
    ensures
        currency_code_result(currency_code_result(code)->Ok_0) == currency_code_result(code),
{
    let t = trim(code);
    let u = upper_all(t);
    assert forall|i: int| 0 <= i < u.len() implies is_ascii_alpha(#[trigger] u[i]) && !is_white_space(
        u[i],
    ) && !is_ascii_lower(u[i]) by {
        assert(is_ascii_alpha(t[i]));
    };
    lemma_trim_start_fixed(u);
    lemma_trim_end_fixed(u);
    lemma_ascii_utf8_len(u);
    lemma_ascii_utf8_len(t);
    assert(upper_all(u) =~= u);
}

/// Digits with a `,` before every group of three counted from the right.
pub open spec fn group_thousands(d: Seq<char>) -> Seq<char>
    decreases d.len(),
{
    if d.len() <= 3 {
        d
    } else {
        group_thousands(d.subrange(0, d.len() - 3)) + seq![','] + d.subrange(
            d.len() - 3,
            d.len() as int,
        )
    }
}

/// Decimal text of `n` with thousands separators.
pub open spec fn commas_text(n: int) -> Seq<char> {
    if n < 0 {
        seq!['-'] + group_thousands(nat_text((-n) as nat))
    } else {
        group_thousands(nat_text(n as nat))
    }
}

/// Display of an amount in minor units, without the currency code: whole
/// units with thousands separators and, for currencies with a minor unit,
/// two fraction digits.
pub open spec fn amount_value_text(amount: int, currency: Seq<char>) -> Seq<char> {
    if minor_unit_digits(currency) == 0 {
        commas_text(amount)
    } else {
        let m = if amount < 0 {
            -amount
        } else {
            amount
        };
        let sign = if amount < 0 {
            seq!['-']
        } else {
            Seq::<char>::empty()
        };
        sign + group_thousands(nat_text((m / 100) as nat)) + seq!['.'] + zero_pad(
            nat_text((m % 100) as nat),
            2,
        )
    }
}

/// Display of an amount followed by its currency code.
pub open spec fn amount_display_text(amount: int, currency: Seq<char>) -> Seq<char> {
    amount_value_text(amount, currency) + seq![' '] + currency
}

/// `s` with its thousands separators taken out.
pub open spec fn without_commas(s: Seq<char>) -> Seq<char>
    decreases s.len(),
{
    if s.len() == 0 {
        s
    } else if s.last() == ',' {
        without_commas(s.drop_last())
    } else {
        without_commas(s.drop_last()).push(s.last())
    }
}

proof fn lemma_without_commas_concat(a: Seq<char>, b: Seq<char>)
    ensures
        without_commas(a + b) == without_commas(a) + without_commas(b),
    decreases b.len(),
{
    if b.len() == 0 {
        assert(a + b =~= a);
        assert(without_commas(a) + without_commas(b) =~= without_commas(a));
    } else {
        lemma_without_commas_concat(a, b.drop_last());
        assert((a + b).drop_last() =~= a + b.drop_last());
        assert((a + b).last() == b.last());
        if b.last() != ',' {
            assert(without_commas(a) + without_commas(b.drop_last()).push(b.last()) =~= (
            without_commas(a) + without_commas(b.drop_last())).push(b.last()));
        }
    }
}

proof fn lemma_without_commas_digits(d: Seq<char>)
    requires
        forall|i: int| 0 <= i < d.len() ==> #[trigger] d[i] != ',',
    ensures
        without_commas(d) == d,
    decreases d.len(),
{
    if d.len() > 0 {
        assert(d[d.len() - 1] != ',');
        lemma_without_commas_digits(d.drop_last());
        assert(d.drop_last().push(d.last()) =~= d);
    }
}

proof fn lemma_nat_text_no_comma(n: nat)
    ensures
        forall|i: int| 0 <= i < nat_text(n).len() ==> #[trigger] nat_text(n)[i] != ',',
    decreases n,
{
    if n >= 10 {
        lemma_nat_text_no_comma(n / 10);
        assert forall|i: int| 0 <= i < nat_text(n).len() implies #[trigger] nat_text(n)[i] != ',' by {
            if i < nat_text(n / 10).len() {
                assert(nat_text(n)[i] == nat_text(n / 10)[i]);
            }
        };
    }
}

proof fn lemma_group_thousands_strips(d: Seq<char>)
    requires
        forall|i: int| 0 <= i < d.len() ==> #[trigger] d[i] != ',',
    ensures
        without_commas(group_thousands(d)) == d,
    decreases d.len(),
{
    if d.len() <= 3 {
        lemma_without_commas_digits(d);
    } else {
        let head = d.subrange(0, d.len() - 3);
        let tail = d.subrange(d.len() - 3, d.len() as int);
        assert forall|i: int| 0 <= i < head.len() implies #[trigger] head[i] != ',' by {
            assert(head[i] == d[i]);
        };
        assert forall|i: int| 0 <= i < tail.len() implies #[trigger] tail[i] != ',' by {
            assert(tail[i] == d[d.len() - 3 + i]);
        };
        lemma_group_thousands_strips(head);
        lemma_without_commas_digits(tail);
        lemma_without_commas_concat(group_thousands(head) + seq![','], tail);
        lemma_without_commas_concat(group_thousands(head), seq![',']);
        assert(without_commas(seq![',']) =~= Seq::<char>::empty()) by {
            assert(seq![','].drop_last() =~= Seq::<char>::empty());
            reveal_with_fuel(without_commas, 2);
        };
        assert(head + tail =~= d);
    }
}

/// Taking the thousands separators out of `format_integer_with_commas`'s
/// text gives the plain decimal text of the number.
pub proof fn lemma_commas_text_strips(n: int)
    ensures
        without_commas(commas_text(n)) == int_text(n),
{
    if n < 0 {
        let m = (-n) as nat;
        lemma_nat_text_no_comma(m);
        lemma_group_thousands_strips(nat_text(m));
        lemma_without_commas_concat(seq!['-'], group_thousands(nat_text(m)));
        assert(without_commas(seq!['-']) =~= seq!['-']) by {
            assert(seq!['-'].drop_last() =~= Seq::<char>::empty());
            reveal_with_fuel(without_commas, 2);
            assert(Seq::<char>::empty().push('-') =~= seq!['-']);
        };
    } else {
        lemma_nat_text_no_comma(n as nat);
        lemma_group_thousands_strips(nat_text(n as nat));
    }
}

proof fn lemma_nat_text_digits(n: nat)
    ensures
        nat_text(n).len() >= 1,
        all_digits(nat_text(n)),
        digits_value(nat_text(n)) == n,
    decreases n,
{
    if n < 10 {
        assert(nat_text(n).drop_last() =~= Seq::<char>::empty());
        assert((crate::text::digit_char(n as int) as u32) == n + 48);
        assert(digits_value(nat_text(n)) == digits_value(Seq::<char>::empty()) * 10 + n);
    } else {
        lemma_nat_text_digits(n / 10);
        let t = nat_text(n);
        assert(t.drop_last() =~= nat_text(n / 10));
        assert((crate::text::digit_char((n % 10) as int) as u32) == n % 10 + 48);
        assert(t.last() == crate::text::digit_char((n % 10) as int));
        assert(digits_value(t) == digits_value(t.drop_last()) * 10 + n % 10);
        assert forall|i: int| 0 <= i < t.len() implies is_ascii_digit(#[trigger] t[i]) by {
            if i < t.len() - 1 {
                assert(t[i] == nat_text(n / 10)[i]);
            }
        };
    }
}

proof fn lemma_digits_have_no_dot(d: Seq<char>)
    requires
        all_digits(d),
    ensures
        find_char(d, '.') is None,
        forall|i: int| 0 <= i < d.len() ==> #[trigger] d[i] != ',',
{
    lemma_find_char(d, '.');
    assert forall|i: int| 0 <= i < d.len() implies #[trigger] d[i] != ',' by {
        assert(is_ascii_digit(d[i]));
    };
    if find_char(d, '.') is Some {
        let i = find_char(d, '.')->Some_0 as int;
        assert(is_ascii_digit(d[i]));
    }
}

/// What the display of a non-negative amount shows, typed back without its
/// thousands separators, is read as the same amount.
pub proof fn lemma_amount_display_reads_back(amount: int, currency: Seq<char>)
    requires
        0 <= amount <= i64::MAX,
        currency_code_result(currency) == Ok::<Seq<char>, MoneyError>(currency),
    ensures
        amount_for_currency_result(without_commas(amount_value_text(amount, currency)), currency)
            == Ok::<int, MoneyError>(amount),
{
    let dec = minor_unit_digits(currency);
    if dec == 0 {
        lemma_commas_text_strips(amount);
        let t = nat_text(amount as nat);
        lemma_nat_text_digits(amount as nat);
        lemma_digits_have_no_dot(t);
        assert(!is_white_space(t[0]));
        assert(!is_white_space(t.last()));
        lemma_trim_start_fixed(t);
        lemma_trim_end_fixed(t);
        assert(without_commas(amount_value_text(amount, currency)) == t);
        assert(trim(t) == t);
        assert(pow10(0) == 1);
        assert(digits_value(t) * pow10(0) == digits_value(t));
    } else {
        let w = nat_text((amount / 100) as nat);
        let f = zero_pad(nat_text((amount % 100) as nat), 2);
        lemma_nat_text_digits((amount / 100) as nat);
        lemma_nat_text_digits((amount % 100) as nat);
        lemma_digits_have_no_dot(w);
        lemma_group_thousands_strips(w);
        reveal_with_fuel(nat_text, 2);
        let lo = amount % 100;
        let d1 = crate::text::digit_char(lo / 10);
        let d2 = crate::text::digit_char(lo % 10);
        if lo < 10 {
            assert(f =~= seq!['0', d2]);
        } else {
            assert(f =~= seq![d1, d2]);
        }
        assert(is_ascii_digit(f[0]) && is_ascii_digit(f[1]));
        assert(f.len() == 2);
        assert(all_digits(f));
        lemma_digits_have_no_dot(f);
        lemma_without_commas_digits(f);
        lemma_without_commas_concat(group_thousands(w) + seq!['.'], f);
        lemma_without_commas_concat(group_thousands(w), seq!['.']);
        assert(without_commas(seq!['.']) =~= seq!['.']) by {
            assert(seq!['.'].drop_last() =~= Seq::<char>::empty());
            reveal_with_fuel(without_commas, 2);
            assert(Seq::<char>::empty().push('.') =~= seq!['.']);
        };
        let t = w + seq!['.'] + f;
        assert(amount_value_text(amount, currency) == group_thousands(w) + seq!['.'] + f);
        assert(without_commas(amount_value_text(amount, currency)) == t);
        // the text reads as the whole part, a dot and two fraction digits
        lemma_find_char(t, '.');
        lemma_find_char(w, '.');
        let k = w.len() as int;
        assert(t[k] == '.');
        assert forall|i: int| 0 <= i < k implies t[i] != '.' by {
            assert(t[i] == w[i]);
            assert(is_ascii_digit(w[i]));
        };
        assert(find_char(t, '.') == Some(k as nat));
        assert(t.subrange(0, k) =~= w);
        assert(t.subrange(k + 1, t.len() as int) =~= f);
        assert(!is_white_space(t[0])) by {
            assert(t[0] == w[0]);
            assert(is_ascii_digit(w[0]));
        };
        assert(!is_white_space(t.last())) by {
            assert(t.last() == f[1]);
        };
        lemma_trim_start_fixed(t);
        lemma_trim_end_fixed(t);
        assert(trim(t) == t);
        assert(f.drop_last().drop_last() =~= Seq::<char>::empty());
        assert((d2 as u32) == lo % 10 + 48);
        assert((d1 as u32) == lo / 10 + 48);
        assert(digits_value(f) == lo) by {
            reveal_with_fuel(digits_value, 3);
            if lo < 10 {
                assert(f.drop_last() =~= seq!['0']);
            } else {
                assert(f.drop_last() =~= seq![d1]);
            }
        };
        assert(pow10(2) == 100) by {
            reveal_with_fuel(pow10, 3);
        };
        assert(pow10(0) == 1);
        assert(digits_value(f) * pow10(0) == lo);
        assert((amount / 100) * 100 + lo == amount);
    }
}

/// A whole number typed as plain digits, in a valid currency code, is that
/// many minor units in the currencies without a minor unit (BIF, CLP, DJF,
/// GNF, ISK, JPY, KMF, KRW, PYG, RWF, UGX, UYI, VND, VUV, XAF, XOF, XPF),
/// and a hundred times that many in every other currency. In the former, a
/// fraction after the whole number is refused as having too many decimals
/// (none are allowed), and the display of a non-negative amount shows the
/// plain number of units, with no decimal point.
pub proof fn lemma_whole_amount_in_minor_units(n: nat, f: nat, code: Seq<char>)
    requires
        currency_code_result(code) == Ok::<Seq<char>, MoneyError>(code),
        n <= i64::MAX,
    ensures
        ({
            let zero_decimal = code == "BIF"@ || code == "CLP"@ || code == "DJF"@ || code
                == "GNF"@ || code == "ISK"@ || code == "JPY"@ || code == "KMF"@ || code == "KRW"@
                || code == "PYG"@ || code == "RWF"@ || code == "UGX"@ || code == "UYI"@ || code
                == "VND"@ || code == "VUV"@ || code == "XAF"@ || code == "XOF"@ || code
                == "XPF"@;
            &&& zero_decimal ==> amount_for_currency_result(nat_text(n), code) == Ok::<
                int,
                MoneyError,
            >(n as int)
            &&& zero_decimal ==> amount_for_currency_result(
                nat_text(n) + seq!['.'] + nat_text(f),
                code,
            ) == Err::<int, MoneyError>(MoneyError::TooManyDecimals(code[0], code[1], code[2], 0))
            &&& zero_decimal ==> without_commas(amount_value_text(n as int, code)) == nat_text(n)
            &&& !zero_decimal && n * 100 <= i64::MAX ==> amount_for_currency_result(
                nat_text(n),
                code,
            ) == Ok::<int, MoneyError>((n * 100) as int)
        }),
{
    let t = nat_text(n);
    lemma_nat_text_digits(n);
    lemma_digits_have_no_dot(t);
    assert(!is_white_space(t[0]));
    assert(!is_white_space(t.last()));
    lemma_trim_start_fixed(t);
    lemma_trim_end_fixed(t);
    assert(trim(t) == t);
    assert(pow10(0) == 1);
    assert(pow10(2) == 100) by {
        reveal_with_fuel(pow10, 3);
    };
    assert(digits_value(t) * pow10(0) == n);
    assert(digits_value(t) * pow10(2) == n * 100);
    lemma_commas_text_strips(n as int);
    // a whole number, a dot and more digits
    let g = nat_text(f);
    lemma_nat_text_digits(f);
    lemma_digits_have_no_dot(g);
    let u = t + seq!['.'] + g;
    let k = t.len() as int;
    lemma_find_char(u, '.');
    assert(u[k] == '.');
    assert forall|i: int| 0 <= i < k implies u[i] != '.' by {
        assert(u[i] == t[i]);
        assert(is_ascii_digit(t[i]));
    };
    assert(find_char(u, '.') == Some(k as nat));
    assert(u.subrange(0, k) =~= t);
    assert(u.subrange(k + 1, u.len() as int) =~= g);
    assert(!is_white_space(u[0])) by {
        assert(u[0] == t[0]);
    };
    assert(!is_white_space(u.last())) by {
        assert(u.last() == g.last());
        assert(is_ascii_digit(g[g.len() - 1]));
    };
    lemma_trim_start_fixed(u);
    lemma_trim_end_fixed(u);
    assert(trim(u) == u);
}

fn push_grouped(out: &mut Vec<char>, d: &[char], end: usize)
    requires
        end <= d@.len(),
    ensures
        final(out)@ == old(out)@ + group_thousands(d@.subrange(0, end as int)),
    decreases end,
{
    if end <= 3 {
        let part = sub_chars(d, 0, end);
        push_chars(out, part.as_slice());
    } else {
        push_grouped(out, d, end - 3);
        out.push(',');
        let part = sub_chars(d, end - 3, end);
        push_chars(out, part.as_slice());
        let ghost p = d@.subrange(0, end as int);
        assert(p.subrange(0, p.len() - 3) =~= d@.subrange(0, end - 3));
        assert(p.subrange(p.len() - 3, p.len() as int) =~= d@.subrange(end - 3, end as int));
        assert(final(out)@ =~= old(out)@ + group_thousands(p));
    }
}

/// Appends the digits of `n` with thousands separators.
fn push_grouped_nat(out: &mut Vec<char>, n: u64)
    ensures
        final(out)@ == old(out)@ + group_thousands(nat_text(n as nat)),
{
    let mut digits: Vec<char> = Vec::new();
    push_nat_text(&mut digits, n);
    assert(digits@ =~= nat_text(n as nat));
    push_grouped(out, digits.as_slice(), digits.len());
    assert(digits@.subrange(0, digits@.len() as int) =~= digits@);
}

/// Decimal text of `value` with thousands separators (`-1,234,567`).
pub fn format_integer_with_commas(value: i64) -> (s: String)
    ensures
        s@ == commas_text(value as int),
{
    let mut v: Vec<char> = Vec::new();
    if value < 0 {
        v.push('-');
    }
    push_grouped_nat(&mut v, magnitude(value));
    assert(v@ =~= commas_text(value as int));
    string_from_chars(v.as_slice())
}

/// The numeric part of an amount's display (no currency code).
pub fn format_amount_value(amount: i64, currency: &str) -> (s: String)
    ensures
        s@ == amount_value_text(amount as int, currency@),
{
    let decimals = currency_minor_unit_digits(currency);
    if decimals == 0 {
        return format_integer_with_commas(amount);
    }
    let m = magnitude(amount);
    let whole = m / 100;
    let frac = m % 100;
    let mut v: Vec<char> = Vec::new();
    if amount < 0 {
        v.push('-');
    }
    push_grouped_nat(&mut v, whole);
    v.push('.');
    if frac < 10 {
        v.push('0');
    }
    push_nat_text(&mut v, frac);
    proof {
        reveal_with_fuel(nat_text, 2);
        if frac < 10 {
            assert(nat_text(frac as nat).len() == 1);
            assert(zero_pad(nat_text(frac as nat), 2) =~= seq!['0'] + nat_text(frac as nat));
        } else {
            assert(nat_text((frac / 10) as nat).len() == 1);
            assert(nat_text(frac as nat).len() == 2);
        }
    }
    assert(v@ =~= amount_value_text(amount as int, currency@));
    string_from_chars(v.as_slice())
}

/// An amount followed by a space and its currency code (`1,500 JPY`).
pub fn format_amount_display(amount: i64, currency: &str) -> (s: String)
    ensures
        s@ == amount_display_text(amount as int, currency@),
{
    let value = format_amount_value(amount, currency);
    let mut v = chars_of(value.as_str());
    v.push(' ');
    push_str(&mut v, currency);
    assert(v@ =~= amount_display_text(amount as int, currency@));
    string_from_chars(v.as_slice())
}

/// The Markdown bullet of an expense: `- {title}: {amount}`, or `- {amount}`
/// when the title is missing or blank.
pub open spec fn expense_markdown_line(exp: Expense) -> Seq<char> {
    let amount = amount_display_text(exp.amount as int, exp.currency@);
    match exp.title {
        Some(t) if trim(t@).len() > 0 => "- "@ + t@ + ": "@ + amount,
        _ => "- "@ + amount,
    }
}

pub fn format_expense_markdown_line(exp: &Expense) -> (s: String)
    ensures
        s@ == expense_markdown_line(*exp),
{
    let amount = format_amount_display(exp.amount, exp.currency.as_str());
    let mut v: Vec<char> = Vec::new();
    push_str(&mut v, "- ");
    match &exp.title {
        Some(t) => {
            let tc = chars_of(t.as_str());
            let tt = trim_chars(tc.as_slice());
            if tt.len() > 0 {
                push_str(&mut v, t.as_str());
                push_str(&mut v, ": ");
            }
        },
        None => {},
    }
    push_str(&mut v, amount.as_str());
    assert(v@ =~= expense_markdown_line(*exp));
    string_from_chars(v.as_slice())
}

/// The text of an optional field, or `-` when it is absent.
pub fn fmt_optional_text(value: &Option<String>) -> (s: &str)
    ensures
        s@ == match value {
            Some(t) => t@,
            None => "-"@,
        },
{
    match value {
        Some(t) => t.as_str(),
        None => "-",
    }
}

/// Whose expenses to list.
#[derive(Clone, Copy, Debug, PartialEq, Eq, Structural)]
pub enum ExpenseListTarget {
    Trip(i64),
    Itinerary(i64),
}

/// Why an expense listing target was refused.
#[derive(Clone, Copy, Debug, PartialEq, Eq, Structural)]
pub enum ExpenseTargetError {
    /// Both a trip and an itinerary item were given.
    Both,
    /// Neither was given.
    Neither,
}

impl ExpenseTargetError {
    pub fn message(&self) -> (s: &'static str)
        ensures
            s@ == match *self {
                ExpenseTargetError::Both => "--trip と --itinerary は同時に指定できません"@,
                ExpenseTargetError::Neither =>
                    "--trip または --itinerary のいずれかを指定してください"@,
            },
    {
        match *self {
            ExpenseTargetError::Both => "--trip と --itinerary は同時に指定できません",
            ExpenseTargetError::Neither => "--trip または --itinerary のいずれかを指定してください",
        }
    }
}

/// Exactly one of a trip and an itinerary item names what to list.
pub fn resolve_expense_list_target(trip: Option<i64>, itinerary: Option<i64>) -> (r: Result<
    ExpenseListTarget,
    ExpenseTargetError,
>)
    ensures
        r == match (trip, itinerary) {
            (Some(t), None) => Ok::<ExpenseListTarget, ExpenseTargetError>(
                ExpenseListTarget::Trip(t),
            ),
            (None, Some(i)) => Ok(ExpenseListTarget::Itinerary(i)),
            (Some(_), Some(_)) => Err(ExpenseTargetError::Both),
            (None, None) => Err(ExpenseTargetError::Neither),
        },
{
    match (trip, itinerary) {
        (Some(trip_id), None) => Ok(ExpenseListTarget::Trip(trip_id)),
        (None, Some(itinerary_id)) => Ok(ExpenseListTarget::Itinerary(itinerary_id)),
        (Some(_), Some(_)) => Err(ExpenseTargetError::Both),
        (None, None) => Err(ExpenseTargetError::Neither),
    }
}

} // verus!
