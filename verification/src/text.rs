//! Plain-text helpers: decimal formatting and parsing.
//!
//! Page messages, address formatting and timeout parsing all move between
//! unsigned integers and their decimal text. Both directions are specified
//! against the same mathematical description, `spec_decimal`.

use vstd::prelude::*;

verus! {

/// The character for a single decimal digit.
pub open spec fn digit_char(d: int) -> char {
    if d == 0 {
        '0'
    } else if d == 1 {
        '1'
    } else if d == 2 {
        '2'
    } else if d == 3 {
        '3'
    } else if d == 4 {
        '4'
    } else if d == 5 {
        '5'
    } else if d == 6 {
        '6'
    } else if d == 7 {
        '7'
    } else if d == 8 {
        '8'
    } else {
        '9'
    }
}

/// The numeric value of a decimal digit character, or -1 when `c` is no digit.
pub open spec fn char_digit(c: char) -> int {
    if c == '0' {
        0
    } else if c == '1' {
        1
    } else if c == '2' {
        2
    } else if c == '3' {
        3
    } else if c == '4' {
        4
    } else if c == '5' {
        5
    } else if c == '6' {
        6
    } else if c == '7' {
        7
    } else if c == '8' {
        8
    } else if c == '9' {
        9
    } else {
        -1
    }
}

/// The canonical decimal text of a non-negative integer: no sign, no
/// leading zeroes (except for the single digit of zero itself).
pub open spec fn spec_decimal(n: int) -> Seq<char>
    recommends
        n >= 0,
    decreases n,
{
    if n <= 9 {
        seq![digit_char(n)]
    } else {
        spec_decimal(n / 10) + seq![digit_char(n % 10)]
    }
}

/// The value of a digit string, folded from the high end.
pub open spec fn spec_decimal_value(s: Seq<char>) -> int
    decreases s.len(),
{
    if s.len() == 0 {
        0
    } else {
        spec_decimal_value(s.drop_last()) * 10 + char_digit(s.last())
    }
}

/// True when every character of `s` is a decimal digit.
pub open spec fn all_digits(s: Seq<char>) -> bool {
    forall|i: int| 0 <= i < s.len() ==> #[trigger] char_digit(s[i]) >= 0
}

/// The digit characters in `rev` (least significant first) read out most
/// significant first.
pub open spec fn rev_digit_text(rev: Seq<u64>) -> Seq<char>
    decreases rev.len(),
{
    if rev.len() == 0 {
        Seq::empty()
    } else {
        seq![digit_char(rev.last() as int)] + rev_digit_text(rev.drop_last())
    }
}

/// `rev_digit_text` may also be read off from the front of `rev`.
proof fn lemma_rev_digit_text_front(rev: Seq<u64>)
    requires
        rev.len() > 0,
    ensures
        rev_digit_text(rev) =~= rev_digit_text(rev.skip(1)) + seq![digit_char(rev[0] as int)],
    decreases rev.len(),
{
    if rev.len() == 1 {
        assert(rev.drop_last() =~= rev.skip(1));
    } else {
        lemma_rev_digit_text_front(rev.drop_last());
        assert(rev.drop_last().skip(1) =~= rev.skip(1).drop_last());
        assert(rev.skip(1).last() == rev.last());
    }
}

/// A single decimal digit as a string slice.
fn digit_str(d: u64) -> (r: &'static str)
    requires
        d <= 9,
    ensures
        r@ =~= seq![digit_char(d as int)],
{
    proof {
        reveal_strlit("0");
        reveal_strlit("1");
        reveal_strlit("2");
        reveal_strlit("3");
        reveal_strlit("4");
        reveal_strlit("5");
        reveal_strlit("6");
        reveal_strlit("7");
        reveal_strlit("8");
        reveal_strlit("9");
    }
    match d {
        0 => "0",
        1 => "1",
        2 => "2",
        3 => "3",
        4 => "4",
        5 => "5",
        6 => "6",
        7 => "7",
        8 => "8",
        _ => "9",
    }
}

/// What the output must be while `m` is still unconsumed and the digits in
/// `rev` (least significant first) are already extracted.
pub open spec fn spec_extracting(m: int, rev: Seq<u64>) -> Seq<char> {
    if m == 0 && rev.len() > 0 {
        rev_digit_text(rev)
    } else {
        spec_decimal(m) + rev_digit_text(rev)
    }
}

/// One digit extraction keeps the output description unchanged.
proof fn lemma_extract_step(n: int, m_old: int, rev_old: Seq<u64>, rev_new: Seq<u64>)
    requires
        m_old >= 0,
        m_old == 0 ==> rev_old.len() == 0,
        spec_decimal(n) =~= spec_extracting(m_old, rev_old),
        rev_new.drop_last() =~= rev_old,
        rev_new.len() == rev_old.len() + 1,
        rev_new.last() as int == m_old % 10,
    ensures
        spec_decimal(n) =~= spec_extracting(m_old / 10, rev_new),
{
    assert(rev_digit_text(rev_new) =~= seq![digit_char(m_old % 10)] + rev_digit_text(rev_old));
    if m_old <= 9 {
        assert(spec_decimal(m_old) =~= seq![digit_char(m_old)]);
    } else {
        assert(spec_decimal(m_old) =~= spec_decimal(m_old / 10) + seq![digit_char(m_old % 10)]);
    }
}

/// The decimal text of `n`.
pub fn u64_to_string(n: u64) -> (r: String)
    ensures
        r@ == spec_decimal(n as int),
{
    let mut rev: Vec<u64> = Vec::new();
    let mut m: u64 = n;
    loop
        invariant_except_break
            m as int == 0 ==> rev@.len() == 0,
        invariant
            forall|j: int| 0 <= j < rev@.len() ==> #[trigger] rev@[j] <= 9,
            spec_decimal(n as int) =~= spec_extracting(m as int, rev@),
        ensures
            m as int == 0,
            rev@.len() > 0,
        decreases m,
    {
        let d: u64 = m % 10;
        let ghost m_old = m as int;
        m = m / 10;
        let ghost prev = rev@;
        rev.push(d);
        proof {
            assert(rev@.drop_last() =~= prev);
            assert(rev@.last() == d);
            lemma_extract_step(n as int, m_old, prev, rev@);
        }
        if m == 0 {
            break;
        }
    }
    let ghost digits = rev@;
    let mut out = String::new();
    let mut i: usize = rev.len();
    proof {
        assert(digits.skip(digits.len() as int) =~= Seq::<u64>::empty());
    }
    while i > 0
        invariant
            i <= digits.len(),
            rev@ == digits,
            forall|j: int| 0 <= j < digits.len() ==> #[trigger] digits[j] <= 9,
            out@ =~= rev_digit_text(digits.skip(i as int)),
        decreases i,
    {
        i = i - 1;
        out.append(digit_str(rev[i]));
        proof {
            lemma_rev_digit_text_front(digits.skip(i as int));
            assert(digits.skip(i as int).skip(1) =~= digits.skip(i as int + 1));
            assert(digits.skip(i as int)[0] == digits[i as int]);
        }
    }
    proof {
        assert(digits.skip(0) =~= digits);
    }
    out
}

/// Parse the decimal text in `s` as a `u64`.
///
/// Returns the value exactly when `s` is non-empty, every character is a
/// decimal digit, and the value fits in a `u64`; otherwise `None`.
pub fn parse_u64(s: &str) -> (r: Option<u64>)
    ensures
        match r {
            Some(v) => s@.len() > 0 && all_digits(s@) && v as int == spec_decimal_value(s@),
            None => s@.len() == 0 || !all_digits(s@) || spec_decimal_value(s@) > u64::MAX as int,
        },
{
    let n = s.unicode_len();
    if n == 0 {
        return None;
    }
    let mut acc: u64 = 0;
    let mut i: usize = 0;
    while i < n
        invariant
            i <= n,
            n == s@.len(),
            all_digits(s@.take(i as int)),
            acc as int == spec_decimal_value(s@.take(i as int)),
            spec_decimal_value(s@.take(i as int)) >= 0,
        decreases n - i,
    {
        let c = s.get_char(i);
        let d: u64 = match c {
            '0' => 0,
            '1' => 1,
            '2' => 2,
            '3' => 3,
            '4' => 4,
            '5' => 5,
            '6' => 6,
            '7' => 7,
            '8' => 8,
            '9' => 9,
            _ => {
                proof {
                    assert(char_digit(s@[i as int]) < 0);
                }
                return None;
            },
        };
        proof {
            assert(char_digit(s@[i as int]) == d as int);
        }
        if acc > (u64::MAX - d) / 10 {
            proof {
                lemma_decimal_value_grows(s@, i as int + 1);
                assert(s@.take(i as int + 1).drop_last() =~= s@.take(i as int));
                assert(s@.take(i as int + 1).last() == s@[i as int]);
            }
            return None;
        }
        acc = acc * 10 + d;
        i = i + 1;
        proof {
            assert(s@.take(i as int).drop_last() =~= s@.take(i as int - 1));
            assert(s@.take(i as int).last() == s@[i as int - 1]);
        }
    }
    proof {
        assert(s@.take(n as int) =~= s@);
    }
    Some(acc)
}

/// The last second RFC 3339 can express with a four-digit year:
/// the end of year 9999, UTC.
pub const MAX_RFC3339_SECS: u64 = 253402300799;

/// A leap year of the Gregorian calendar.
pub open spec fn spec_is_leap(y: int) -> bool {
    y % 4 == 0 && (y % 100 != 0 || y % 400 == 0)
}

/// The days of year `y`.
pub open spec fn spec_year_days(y: int) -> int {
    if spec_is_leap(y) {
        366
    } else {
        365
    }
}

/// The year reached, and the days left in it, after `days` whole days
/// from the start of year `y`.
pub open spec fn spec_split_year(days: int, y: int) -> (int, int)
    recommends
        days >= 0,
    decreases days,
{
    if days < spec_year_days(y) {
        (y, days)
    } else {
        spec_split_year(days - spec_year_days(y), y + 1)
    }
}

/// The days of month `m` (1 through 12).
pub open spec fn spec_month_days(m: int, leap: bool) -> int {
    if m == 2 {
        if leap {
            29
        } else {
            28
        }
    } else if m == 4 || m == 6 || m == 9 || m == 11 {
        30
    } else {
        31
    }
}

/// The month reached, and the days left in it, after `days` whole days
/// from the start of month `m`.
pub open spec fn spec_split_month(days: int, m: int, leap: bool) -> (int, int)
    decreases 12 - m,
{
    if m >= 12 || days < spec_month_days(m, leap) {
        (m, days)
    } else {
        spec_split_month(days - spec_month_days(m, leap), m + 1, leap)
    }
}

/// Decimal text padded to two digits.
pub open spec fn spec_pad2(n: int) -> Seq<char> {
    if n < 10 {
        seq!['0'] + spec_decimal(n)
    } else {
        spec_decimal(n)
    }
}

/// Decimal text padded to four digits.
pub open spec fn spec_pad4(n: int) -> Seq<char> {
    if n < 10 {
        seq!['0', '0', '0'] + spec_decimal(n)
    } else if n < 100 {
        seq!['0', '0'] + spec_decimal(n)
    } else if n < 1000 {
        seq!['0'] + spec_decimal(n)
    } else {
        spec_decimal(n)
    }
}

/// A Unix timestamp as RFC 3339 text, UTC, second precision:
/// `YYYY-MM-DDThh:mm:ssZ`, counting days through the Gregorian calendar
/// from 1970.
pub open spec fn spec_rfc3339(secs: u64) -> Seq<char> {
    let days = secs as int / 86400;
    let sod = secs as int % 86400;
    let year = spec_split_year(days, 1970).0;
    let doy = spec_split_year(days, 1970).1;
    let month = spec_split_month(doy, 1, spec_is_leap(year)).0;
    let dom = spec_split_month(doy, 1, spec_is_leap(year)).1 + 1;
    spec_pad4(year) + seq!['-'] + spec_pad2(month) + seq!['-'] + spec_pad2(dom) + seq!['T']
        + spec_pad2(sod / 3600) + seq![':'] + spec_pad2((sod % 3600) / 60) + seq![':']
        + spec_pad2(sod % 60) + seq!['Z']
}

/// Decimal text padded to two digits.
fn pad2(n: u64) -> (r: String)
    ensures
        r@ == spec_pad2(n as int),
{
    proof {
        reveal_strlit("0");
    }
    if n < 10 {
        "0".to_owned().concat(u64_to_string(n).as_str())
    } else {
        u64_to_string(n)
    }
}

/// Decimal text padded to four digits.
fn pad4(n: u64) -> (r: String)
    ensures
        r@ == spec_pad4(n as int),
{
    proof {
        reveal_strlit("0");
        reveal_strlit("00");
        reveal_strlit("000");
    }
    if n < 10 {
        "000".to_owned().concat(u64_to_string(n).as_str())
    } else if n < 100 {
        "00".to_owned().concat(u64_to_string(n).as_str())
    } else if n < 1000 {
        "0".to_owned().concat(u64_to_string(n).as_str())
    } else {
        u64_to_string(n)
    }
}

/// Is `y` a leap year?
fn is_leap(y: u64) -> (r: bool)
    ensures
        r == spec_is_leap(y as int),
{
    y % 4 == 0 && (y % 100 != 0 || y % 400 == 0)
}

/// Format a Unix timestamp as RFC 3339 text, UTC, second precision.
///
/// The format carries a four-digit year, so the timestamp must lie before
/// the year 10000.
pub fn rfc3339_from_unix(secs: u64) -> (r: String)
    requires
        secs <= MAX_RFC3339_SECS,
    ensures
        r@ == spec_rfc3339(secs),
{
    let days0: u64 = secs / 86400;
    let sod: u64 = secs % 86400;
    let mut days: u64 = days0;
    let mut year: u64 = 1970;
    loop
        invariant
            1970 <= year,
            days <= days0,
            days0 <= MAX_RFC3339_SECS / 86400,
            (year - 1970) * 365 <= days0 - days,
            spec_split_year(days0 as int, 1970) == spec_split_year(days as int, year as int),
        ensures
            days <= 365,
            spec_split_year(days0 as int, 1970) == (year as int, days as int),
        decreases days,
    {
        let yd: u64 = if is_leap(year) {
            366
        } else {
            365
        };
        if days < yd {
            proof {
                assert(spec_split_year(days as int, year as int) == (year as int, days as int));
            }
            break;
        }
        days = days - yd;
        year = year + 1;
    }
    let leap = is_leap(year);
    let mut month: u64 = 1;
    let ghost doy = days as int;
    while month < 12 && days >= month_days(month, leap)
        invariant
            1 <= month <= 12,
            leap == spec_is_leap(year as int),
            days <= doy,
            doy <= 366,
            spec_split_month(doy, 1, leap) == spec_split_month(days as int, month as int, leap),
        decreases 12 - month,
    {
        let md: u64 = month_days(month, leap);
        days = days - md;
        month = month + 1;
    }
    let out = pad4(year).concat("-").concat(pad2(month).as_str()).concat("-").concat(
        pad2(days + 1).as_str(),
    ).concat("T").concat(pad2(sod / 3600).as_str()).concat(":").concat(
        pad2((sod % 3600) / 60).as_str(),
    ).concat(":").concat(pad2(sod % 60).as_str()).concat("Z");
    proof {
        reveal_strlit("-");
        reveal_strlit("T");
        reveal_strlit(":");
        reveal_strlit("Z");
        assert(out@ =~= spec_rfc3339(secs));
    }
    out
}

/// The days of month `m` (1 through 12).
fn month_days(m: u64, leap: bool) -> (r: u64)
    ensures
        r as int == spec_month_days(m as int, leap),
{
    if m == 2 {
        if leap {
            29
        } else {
            28
        }
    } else if m == 4 || m == 6 || m == 9 || m == 11 {
        30
    } else {
        31
    }
}

/// Character-for-character equality of two string slices.
pub fn str_eq(a: &str, b: &str) -> (r: bool)
    ensures
        r == (a@ == b@),
{
    let n = a.unicode_len();
    if n != b.unicode_len() {
        return false;
    }
    let mut i: usize = 0;
    while i < n
        invariant
            i <= n,
            n == a@.len(),
            n == b@.len(),
            forall|j: int| 0 <= j < i ==> a@[j] == b@[j],
        decreases n - i,
    {
        if a.get_char(i) != b.get_char(i) {
            return false;
        }
        i = i + 1;
    }
    proof {
        assert(a@ =~= b@);
    }
    true
}

/// Lexicographic order on strings, by code point: the order a key-sorted
/// map iterates its string keys in.
pub open spec fn spec_str_le(a: Seq<char>, b: Seq<char>) -> bool
    decreases a.len(),
{
    if a.len() == 0 {
        true
    } else if b.len() == 0 {
        false
    } else if (a[0] as u32) < (b[0] as u32) {
        true
    } else if (b[0] as u32) < (a[0] as u32) {
        false
    } else {
        spec_str_le(a.skip(1), b.skip(1))
    }
}

/// The order is total.
pub proof fn lemma_str_le_total(a: Seq<char>, b: Seq<char>)
    ensures
        spec_str_le(a, b) || spec_str_le(b, a),
    decreases a.len(),
{
    if a.len() > 0 && b.len() > 0 && !((a[0] as u32) < (b[0] as u32)) && !((b[0] as u32) < (
    a[0] as u32)) {
        lemma_str_le_total(a.skip(1), b.skip(1));
    }
}

/// The order is transitive.
pub proof fn lemma_str_le_trans(a: Seq<char>, b: Seq<char>, c: Seq<char>)
    requires
        spec_str_le(a, b),
        spec_str_le(b, c),
    ensures
        spec_str_le(a, c),
    decreases a.len(),
{
    if a.len() > 0 && b.len() > 0 && c.len() > 0 && !((a[0] as u32) < (c[0] as u32)) && !((
    c[0] as u32) < (a[0] as u32)) {
        if !((a[0] as u32) < (b[0] as u32)) && !((b[0] as u32) < (a[0] as u32)) && !((
        b[0] as u32) < (c[0] as u32)) && !((c[0] as u32) < (b[0] as u32)) {
            lemma_str_le_trans(a.skip(1), b.skip(1), c.skip(1));
        }
    }
}

/// Compare two string slices in lexicographic order.
pub fn str_le(a: &str, b: &str) -> (r: bool)
    ensures
        r == spec_str_le(a@, b@),
{
    let an = a.unicode_len();
    let bn = b.unicode_len();
    let mut i: usize = 0;
    proof {
        assert(a@.skip(0) =~= a@);
        assert(b@.skip(0) =~= b@);
    }
    while i < an && i < bn
        invariant
            i <= an,
            i <= bn,
            an == a@.len(),
            bn == b@.len(),
            spec_str_le(a@, b@) == spec_str_le(a@.skip(i as int), b@.skip(i as int)),
        decreases an - i,
    {
        proof {
            assert(a@.skip(i as int)[0] == a@[i as int]);
            assert(b@.skip(i as int)[0] == b@[i as int]);
            assert(a@.skip(i as int).skip(1) =~= a@.skip(i as int + 1));
            assert(b@.skip(i as int).skip(1) =~= b@.skip(i as int + 1));
        }
        let ca = a.get_char(i);
        let cb = b.get_char(i);
        if (ca as u32) < (cb as u32) {
            return true;
        }
        if (cb as u32) < (ca as u32) {
            return false;
        }
        i = i + 1;
    }
    proof {
        if i >= an {
            assert(a@.skip(i as int).len() == 0);
        } else {
            assert(b@.skip(i as int).len() == 0);
            assert(a@.skip(i as int).len() > 0);
        }
    }
    an <= bn
}

/// A digit string's value only grows when digits are appended.
proof fn lemma_decimal_value_grows(s: Seq<char>, k: int)
    requires
        0 < k <= s.len(),
        all_digits(s.take(k)),
    ensures
        spec_decimal_value(s) >= spec_decimal_value(s.take(k)) || !all_digits(s),
    decreases s.len() - k,
{
    if k == s.len() {
        assert(s.take(k) =~= s);
    } else {
        if all_digits(s) {
            assert(all_digits(s.take(k + 1))) by {
                assert(forall|i: int|
                    0 <= i < k + 1 ==> #[trigger] char_digit(s.take(k + 1)[i]) == char_digit(
                        s[i],
                    ));
            }
            lemma_decimal_value_grows(s, k + 1);
            assert(s.take(k + 1).drop_last() =~= s.take(k));
            assert(s.take(k + 1).last() == s[k]);
            assert(spec_decimal_value(s.take(k)) >= 0) by {
                lemma_decimal_value_nonneg(s.take(k));
            }
            assert(char_digit(s[k]) >= 0);
        }
    }
}

/// A digit string's value is non-negative.
proof fn lemma_decimal_value_nonneg(s: Seq<char>)
    requires
        all_digits(s),
    ensures
        spec_decimal_value(s) >= 0,
    decreases s.len(),
{
    if s.len() > 0 {
        assert(all_digits(s.drop_last())) by {
            assert(forall|i: int|
                0 <= i < s.len() - 1 ==> #[trigger] char_digit(s.drop_last()[i]) == char_digit(
                    s[i],
                ));
        }
        lemma_decimal_value_nonneg(s.drop_last());
    }
}

} // verus!
