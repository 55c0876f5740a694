//! Unix timestamps and their RFC 3339 text, as records exchange them.

use vstd::prelude::*;
use vstd::string::*;
use crate::data::DataFormatError;

verus! {

/// Year of the Unix epoch.
pub const EPOCH_YEAR: u64 = 1970;

/// First year that four digits cannot write.
pub const YEAR_LIMIT: u64 = 10000;

pub open spec fn is_leap(y: int) -> bool {
    (y % 4 == 0 && y % 100 != 0) || y % 400 == 0
}

pub open spec fn year_days(y: int) -> int {
    if is_leap(y) {
        366
    } else {
        365
    }
}

pub open spec fn month_days(y: int, m: int) -> int {
    if m == 2 {
        if is_leap(y) {
            29
        } else {
            28
        }
    } else if m == 4 || m == 6 || m == 9 || m == 11 {
        30
    } else {
        31
    }
}

/// Days from the start of year 0 to the start of year `y`.
pub open spec fn days_before_year(y: nat) -> int
    decreases y,
{
    if y == 0 {
        0
    } else {
        days_before_year((y - 1) as nat) + year_days(y - 1)
    }
}

/// Days from the start of year `y` to the start of its month `m`.
pub open spec fn days_before_month(y: int, m: nat) -> int
    decreases m,
{
    if m <= 1 {
        0
    } else {
        days_before_month(y, (m - 1) as nat) + month_days(y, m - 1)
    }
}

/// A calendar date and time of day that RFC 3339 can write.
pub open spec fn valid_civil(y: int, mo: int, d: int, h: int, mi: int, s: int) -> bool {
    &&& 0 <= y < YEAR_LIMIT
    &&& 1 <= mo <= 12
    &&& 1 <= d <= month_days(y, mo)
    &&& 0 <= h < 24
    &&& 0 <= mi < 60
    &&& 0 <= s < 60
}

/// Seconds since the Unix epoch of a UTC date and time.
pub open spec fn unix_seconds(y: int, mo: int, d: int, h: int, mi: int, s: int) -> int {
    (days_before_year(y as nat) - days_before_year(EPOCH_YEAR as nat) + days_before_month(
        y,
        mo as nat,
    ) + d - 1) * 86400 + h * 3600 + mi * 60 + s
}

pub open spec fn is_digit(c: char) -> bool {
    '0' <= c && c <= '9'
}

pub open spec fn digit_val(c: char) -> int {
    (c as u32 - '0' as u32) as int
}

pub open spec fn digit_char(n: int) -> char {
    if n == 0 {
        '0'
    } else if n == 1 {
        '1'
    } else if n == 2 {
        '2'
    } else if n == 3 {
        '3'
    } else if n == 4 {
        '4'
    } else if n == 5 {
        '5'
    } else if n == 6 {
        '6'
    } else if n == 7 {
        '7'
    } else if n == 8 {
        '8'
    } else {
        '9'
    }
}

/// The number that the `n` characters of `s` from `i` spell in decimal.
pub open spec fn num(s: Seq<char>, i: int, n: nat) -> int
    decreases n,
{
    if n == 0 {
        0
    } else {
        num(s, i, (n - 1) as nat) * 10 + digit_val(s[i + n - 1])
    }
}

pub open spec fn all_digits(s: Seq<char>, i: int, n: int) -> bool {
    0 <= i && i + n <= s.len() && forall|k: int| i <= k < i + n ==> is_digit(#[trigger] s[k])
}

/// How many digits follow in `s` from position `i`.
pub open spec fn leading_digits(s: Seq<char>, i: int) -> nat
    decreases s.len() - i,
{
    if 0 <= i < s.len() && is_digit(s[i]) {
        1 + leading_digits(s, i + 1)
    } else {
        0
    }
}

/// The UTC offset, in seconds, that `s` gives from position `i` to its end:
/// `Z` or `+hh:mm` / `-hh:mm`.
pub open spec fn offset_of(s: Seq<char>, i: int) -> Option<int> {
    if i + 1 == s.len() && (s[i] == 'Z' || s[i] == 'z') {
        Some(0)
    } else if i + 6 == s.len() && (s[i] == '+' || s[i] == '-') && all_digits(s, i + 1, 2) && s[i
        + 3] == ':' && all_digits(s, i + 4, 2) && num(s, i + 1, 2) < 24 && num(s, i + 4, 2) < 60 {
        let o = num(s, i + 1, 2) * 3600 + num(s, i + 4, 2) * 60;
        if s[i] == '+' {
            Some(o)
        } else {
            Some(-o)
        }
    } else {
        None
    }
}

/// The Unix timestamp, in whole seconds, that an RFC 3339 text gives:
/// `yyyy-mm-ddThh:mm:ss`, an optional fraction (dropped), and an offset.
pub open spec fn parsed_rfc3339(s: Seq<char>) -> Option<int> {
    if s.len() >= 20 && all_digits(s, 0, 4) && s[4] == '-' && all_digits(s, 5, 2) && s[7] == '-'
        && all_digits(s, 8, 2) && (s[10] == 'T' || s[10] == 't') && all_digits(s, 11, 2) && s[13]
        == ':' && all_digits(s, 14, 2) && s[16] == ':' && all_digits(s, 17, 2) && (s[19] != '.'
        || leading_digits(s, 20) > 0) && valid_civil(
        num(s, 0, 4),
        num(s, 5, 2),
        num(s, 8, 2),
        num(s, 11, 2),
        num(s, 14, 2),
        num(s, 17, 2),
    ) {
        let tail: int = if s[19] == '.' {
            20 + leading_digits(s, 20) as int
        } else {
            19
        };
        match offset_of(s, tail) {
            Some(o) => Some(
                unix_seconds(
                    num(s, 0, 4),
                    num(s, 5, 2),
                    num(s, 8, 2),
                    num(s, 11, 2),
                    num(s, 14, 2),
                    num(s, 17, 2),
                ) - o,
            ),
            None => None,
        }
    } else {
        None
    }
}

/// The text written for a UTC date and time: `yyyy-mm-ddThh:mm:ss+00:00`.
pub open spec fn rfc3339_text(y: int, mo: int, d: int, h: int, mi: int, s: int) -> Seq<char> {
    seq![
        digit_char(y / 1000), digit_char((y / 100) % 10), digit_char((y / 10) % 10), digit_char(y % 10),
        '-', digit_char(mo / 10), digit_char(mo % 10), '-', digit_char(d / 10), digit_char(d % 10),
        'T', digit_char(h / 10), digit_char(h % 10), ':', digit_char(mi / 10), digit_char(mi % 10),
        ':', digit_char(s / 10), digit_char(s % 10), '+', '0', '0', ':', '0', '0',
    ]
}

/// `text` is the RFC 3339 text written for the timestamp `t`.
pub open spec fn rfc3339_of(t: int, text: Seq<char>) -> bool {
    exists|y: int, mo: int, d: int, h: int, mi: int, s: int|
        valid_civil(y, mo, d, h, mi, s) && unix_seconds(y, mo, d, h, mi, s) == t && text
            == rfc3339_text(y, mo, d, h, mi, s)
}

/// Whether `t` falls in a year that four digits write.
pub open spec fn representable(t: int) -> bool {
    let shifted = t + days_before_year(EPOCH_YEAR as nat) * 86400;
    0 <= shifted && shifted / 86400 < days_before_year(YEAR_LIMIT as nat)
}


proof fn lemma_digit_char(n: int)
    requires
        0 <= n <= 9,
    ensures
        is_digit(digit_char(n)),
        digit_val(digit_char(n)) == n,
{
}

proof fn lemma_two_digits(text: Seq<char>, i: int, n: int)
    requires
        0 <= n < 100,
        0 <= i,
        i + 2 <= text.len(),
        text[i] == digit_char(n / 10),
        text[i + 1] == digit_char(n % 10),
    ensures
        all_digits(text, i, 2),
        num(text, i, 2) == n,
{
    lemma_digit_char(n / 10);
    lemma_digit_char(n % 10);
    reveal_with_fuel(num, 3);
}

/// Reading the text written for a timestamp gives that timestamp back.
pub proof fn lemma_rfc3339_round_trip(t: int, text: Seq<char>)
    requires
        rfc3339_of(t, text),
    ensures
        parsed_rfc3339(text) == Some(t),
{
    let (y, mo, d, h, mi, s) = choose|y: int, mo: int, d: int, h: int, mi: int, s: int|
        valid_civil(y, mo, d, h, mi, s) && unix_seconds(y, mo, d, h, mi, s) == t && text
            == rfc3339_text(y, mo, d, h, mi, s);
    assert(text.len() == 25);
    lemma_digit_char(y / 1000);
    lemma_digit_char((y / 100) % 10);
    lemma_digit_char((y / 10) % 10);
    lemma_digit_char(y % 10);
    reveal_with_fuel(num, 5);
    assert(y / 1000 * 1000 + (y / 100) % 10 * 100 + (y / 10) % 10 * 10 + y % 10 == y) by (nonlinear_arith)
        requires
            0 <= y < 10000,
    ;
    assert(num(text, 0, 4) == y);
    lemma_two_digits(text, 5, mo);
    lemma_two_digits(text, 8, d);
    lemma_two_digits(text, 11, h);
    lemma_two_digits(text, 14, mi);
    lemma_two_digits(text, 17, s);
    lemma_two_digits(text, 20, 0);
    lemma_two_digits(text, 23, 0);
    assert(all_digits(text, 0, 4));
    assert(offset_of(text, 19) == Some(0int));
}


proof fn lemma_days_before_mono(a: nat, b: nat)
    requires
        a <= b,
    ensures
        days_before_year(a) <= days_before_year(b),
    decreases b - a,
{
    if a < b {
        lemma_days_before_mono(a, (b - 1) as nat);
    }
}

proof fn lemma_months_fill_year(y: int)
    ensures
        days_before_month(y, 12) + 31 == year_days(y),
{
    reveal_with_fuel(days_before_month, 13);
}

fn year_len(y: u64) -> (r: u64)
    ensures
        r == year_days(y as int),
{
    if (y % 4 == 0 && y % 100 != 0) || y % 400 == 0 {
        366
    } else {
        365
    }
}

fn month_len(y: u64, m: u64) -> (r: u64)
    ensures
        r == month_days(y as int, m as int),
{
    if m == 2 {
        if (y % 4 == 0 && y % 100 != 0) || y % 400 == 0 {
            29
        } else {
            28
        }
    } else if m == 4 || m == 6 || m == 9 || m == 11 {
        30
    } else {
        31
    }
}

fn days_before(y: u64) -> (r: u64)
    requires
        y <= YEAR_LIMIT,
    ensures
        r == days_before_year(y as nat),
        r <= 366 * y,
{
    let mut k: u64 = 0;
    let mut sum: u64 = 0;
    while k < y
        invariant
            k <= y <= YEAR_LIMIT,
            sum == days_before_year(k as nat),
            sum <= 366 * k,
        decreases y - k,
    {
        sum = sum + year_len(k);
        k = k + 1;
    }
    sum
}

fn days_before_m(y: u64, m: u64) -> (r: u64)
    requires
        1 <= m <= 12,
    ensures
        r == days_before_month(y as int, m as nat),
        r <= 31 * (m - 1),
{
    let mut k: u64 = 1;
    let mut sum: u64 = 0;
    while k < m
        invariant
            1 <= k <= m <= 12,
            sum == days_before_month(y as int, k as nat),
            sum <= 31 * (k - 1),
        decreases m - k,
    {
        sum = sum + month_len(y, k);
        k = k + 1;
    }
    sum
}

pub open spec fn pow10(n: nat) -> int
    decreases n,
{
    if n == 0 {
        1
    } else {
        10 * pow10((n - 1) as nat)
    }
}

/// The number spelled by the `n` characters of `text` from `i`, if all are
/// digits.
fn digits_at(text: &str, i: usize, n: usize) -> (r: Option<u64>)
    requires
        i + n <= text@.len() <= usize::MAX,
        n <= 4,
    ensures
        r is Some <==> all_digits(text@, i as int, n as int),
        r matches Some(v) ==> v == num(text@, i as int, n as nat) && v < pow10(n as nat),
{
    let mut k: usize = 0;
    let mut v: u64 = 0;
    let mut b: u64 = 1;
    while k < n
        invariant
            k <= n <= 4,
            i + n <= text@.len() <= usize::MAX,
            all_digits(text@, i as int, k as int),
            v == num(text@, i as int, k as nat),
            b == pow10(k as nat),
            v < b,
        decreases n - k,
    {
        proof {
            reveal_with_fuel(pow10, 5);
        }
        let c = text.get_char(i + k);
        if !('0' <= c && c <= '9') {
            return None;
        }
        v = v * 10 + (c as u32 - '0' as u32) as u64;
        b = b * 10;
        k = k + 1;
    }
    Some(v)
}

/// The UTC offset that `text` gives from `i` to its end.
fn offset_at(text: &str, i: usize) -> (r: Option<i64>)
    requires
        i <= text@.len(),
    ensures
        r matches Some(o) ==> offset_of(text@, i as int) == Some(o as int),
        r is None ==> offset_of(text@, i as int) is None,
        r matches Some(o) ==> -86400 < o < 86400,
{
    let n = text.unicode_len();
    if n - i == 1 {
        let c = text.get_char(i);
        if c == 'Z' || c == 'z' {
            return Some(0);
        }
        return None;
    }
    if n - i != 6 {
        return None;
    }
    let sign = text.get_char(i);
    if !(sign == '+' || sign == '-') || text.get_char(i + 3) != ':' {
        return None;
    }
    let hh = match digits_at(text, i + 1, 2) {
        Some(v) => v,
        None => return None,
    };
    let mm = match digits_at(text, i + 4, 2) {
        Some(v) => v,
        None => return None,
    };
    if hh >= 24 || mm >= 60 {
        return None;
    }
    let o = (hh * 3600 + mm * 60) as i64;
    if sign == '+' {
        Some(o)
    } else {
        Some(-o)
    }
}

/// The Unix timestamp that an RFC 3339 text gives, in whole seconds; a text
/// that is not RFC 3339 is `BadTimestamp`.
pub fn parse_rfc3339(text: &str) -> (r: Result<i64, DataFormatError>)
    ensures
        r matches Ok(t) ==> parsed_rfc3339(text@) == Some(t as int),
        r is Err ==> parsed_rfc3339(text@) is None,
        r matches Err(e) ==> e == DataFormatError::BadTimestamp,
{
    let n = text.unicode_len();
    if n < 20 {
        return Err(DataFormatError::BadTimestamp);
    }
    let y = match digits_at(text, 0, 4) {
        Some(v) => v,
        None => return Err(DataFormatError::BadTimestamp),
    };
    let mo = match digits_at(text, 5, 2) {
        Some(v) => v,
        None => return Err(DataFormatError::BadTimestamp),
    };
    let d = match digits_at(text, 8, 2) {
        Some(v) => v,
        None => return Err(DataFormatError::BadTimestamp),
    };
    let h = match digits_at(text, 11, 2) {
        Some(v) => v,
        None => return Err(DataFormatError::BadTimestamp),
    };
    let mi = match digits_at(text, 14, 2) {
        Some(v) => v,
        None => return Err(DataFormatError::BadTimestamp),
    };
    let s = match digits_at(text, 17, 2) {
        Some(v) => v,
        None => return Err(DataFormatError::BadTimestamp),
    };
    let sep = text.get_char(10);
    if text.get_char(4) != '-' || text.get_char(7) != '-' || !(sep == 'T' || sep == 't')
        || text.get_char(13) != ':' || text.get_char(16) != ':' {
        return Err(DataFormatError::BadTimestamp);
    }
    proof {
        reveal_with_fuel(pow10, 5);
    }
    if !(1 <= mo && mo <= 12 && 1 <= d && d <= month_len(y, mo) && h < 24 && mi < 60 && s < 60) {
        return Err(DataFormatError::BadTimestamp);
    }
    let mut tail: usize = 19;
    if text.get_char(19) == '.' {
        let mut j: usize = 20;
        while j < n && '0' <= text.get_char(j) && text.get_char(j) <= '9'
            invariant
                20 <= j <= n,
                n == text@.len(),
                leading_digits(text@, 20) == (j - 20) + leading_digits(text@, j as int),
            decreases n - j,
        {
            j = j + 1;
        }
        if j == 20 {
            return Err(DataFormatError::BadTimestamp);
        }
        tail = j;
    }
    let off = match offset_at(text, tail) {
        Some(o) => o,
        None => return Err(DataFormatError::BadTimestamp),
    };
    let days: i64 = days_before(y) as i64 - days_before(EPOCH_YEAR) as i64 + days_before_m(y, mo) as i64
        + d as i64 - 1;
    assert(-1000000 <= days <= 4000000);
    assert(-100000000000 <= days * 86400 <= 400000000000) by (nonlinear_arith)
        requires
            -1000000 <= days <= 4000000,
    ;
    let t = days * 86400 + (h * 3600 + mi * 60 + s) as i64 - off;
    Ok(t)
}

/// The text of one decimal digit.
fn digit_str(n: u64) -> (r: &'static str)
    requires
        n <= 9,
    ensures
        r@ == seq![digit_char(n as int)],
{
    proof {
        reveal_strlit("0");
        reveal_strlit("1");
        reveal_strlit("2");
        reveal_strlit("3");
        reveal_strlit("4");
        reveal_strlit("5");
        reveal_strlit("6");
        reveal_strlit("7");
        reveal_strlit("8");
        reveal_strlit("9");
    }
    let r = if n == 0 {
        "0"
    } else if n == 1 {
        "1"
    } else if n == 2 {
        "2"
    } else if n == 3 {
        "3"
    } else if n == 4 {
        "4"
    } else if n == 5 {
        "5"
    } else if n == 6 {
        "6"
    } else if n == 7 {
        "7"
    } else if n == 8 {
        "8"
    } else {
        "9"
    };
    assert(r@ =~= seq![digit_char(n as int)]);
    r
}

/// Appends `n` in two decimal digits.
fn append_two(text: &mut String, n: u64)
    requires
        n < 100,
    ensures
        final(text)@ == old(text)@ + seq![digit_char(n as int / 10), digit_char(n as int % 10)],
{
    text.append(digit_str(n / 10));
    text.append(digit_str(n % 10));
    assert(final(text)@ =~= old(text)@ + seq![digit_char(n as int / 10), digit_char(n as int % 10)]);
}

/// The text of a UTC date and time: `yyyy-mm-ddThh:mm:ss+00:00`.
#[verifier::rlimit(50)]
fn render(y: u64, mo: u64, d: u64, h: u64, mi: u64, s: u64) -> (r: String)
    requires
        y < 10000,
        mo < 100,
        d < 100,
        h < 100,
        mi < 100,
        s < 100,
    ensures
        r@ == rfc3339_text(y as int, mo as int, d as int, h as int, mi as int, s as int),
{
    proof {
        reveal_strlit("-");
        reveal_strlit("T");
        reveal_strlit(":");
        reveal_strlit("+00:00");
    }
    let mut r = String::from_str(digit_str(y / 1000));
    r.append(digit_str((y / 100) % 10));
    r.append(digit_str((y / 10) % 10));
    r.append(digit_str(y % 10));
    let ghost year = r@;
    assert(year =~= seq![
        digit_char(y as int / 1000), digit_char((y as int / 100) % 10), digit_char((y as int / 10) % 10),
        digit_char(y as int % 10)
    ]);
    r.append("-");
    append_two(&mut r, mo);
    r.append("-");
    append_two(&mut r, d);
    r.append("T");
    append_two(&mut r, h);
    r.append(":");
    append_two(&mut r, mi);
    r.append(":");
    append_two(&mut r, s);
    r.append("+00:00");
    assert(r@ =~= rfc3339_text(y as int, mo as int, d as int, h as int, mi as int, s as int));
    r
}

/// The RFC 3339 text of a Unix timestamp, in UTC; `None` for a time outside
/// the years that four digits write.
pub fn format_rfc3339(t: i64) -> (r: Option<String>)
    ensures
        r is Some <==> representable(t as int),
        r matches Some(s) ==> rfc3339_of(t as int, s@),
{
    let e = days_before(EPOCH_YEAR);
    let shifted: i128 = t as i128 + e as i128 * 86400;
    if shifted < 0 {
        return None;
    }
    let total: u64 = shifted as u64;
    let days: u64 = total / 86400;
    let sod: u64 = total % 86400;
    let mut y: u64 = 0;
    let mut rem: u64 = days;
    while y < YEAR_LIMIT && rem >= year_len(y)
        invariant
            y <= YEAR_LIMIT,
            days_before_year(y as nat) + rem == days,
        decreases YEAR_LIMIT - y,
    {
        rem = rem - year_len(y);
        y = y + 1;
    }
    if y == YEAR_LIMIT {
        return None;
    }
    proof {
        lemma_days_before_mono((y + 1) as nat, YEAR_LIMIT as nat);
    }
    let ghost year_rem = rem;
    let mut m: u64 = 1;
    while m < 12 && rem >= month_len(y, m)
        invariant
            1 <= m <= 12,
            days_before_month(y as int, m as nat) + rem == year_rem,
            year_rem < year_days(y as int),
        decreases 12 - m,
    {
        rem = rem - month_len(y, m);
        m = m + 1;
    }
    proof {
        lemma_months_fill_year(y as int);
    }
    let d = rem + 1;
    let h = sod / 3600;
    let mi = (sod % 3600) / 60;
    let s = sod % 60;
    assert(h * 3600 + mi * 60 + s == sod);
    assert(valid_civil(y as int, m as int, d as int, h as int, mi as int, s as int));
    let text = render(y, m, d, h, mi, s);
    assert(unix_seconds(y as int, m as int, d as int, h as int, mi as int, s as int) == t);
    Some(text)
}

} // verus!
